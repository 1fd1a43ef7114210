//! Reading Wavefront OBJ text into a welded, indexed triangle mesh.
pub mod text;
pub mod error;
pub mod face;
pub mod collect;
pub mod weld;
pub mod model;
pub mod laws;
pub mod normals;

pub use error::{AttributeKind, ErrorKind, ModelLoadingError};
pub use face::{FaceTriplet, TripletFormat};
pub use model::ObjModel;
