//! The loaded model: attribute tables, welded vertices and triangle indices.
use vstd::prelude::*;

use crate::collect::{collect_lines, read_lines, table_view, RawTables};
use crate::error::{ErrorKind, Failure, ModelLoadingError};
use crate::face::FaceTriplet;
use crate::text::views;
use crate::weld::{index_view, weld, weld_faces};

verus! {

/// A loaded model as values.
pub struct MeshModel {
    pub positions: Seq<Seq<Seq<char>>>,
    pub normals: Seq<Seq<Seq<char>>>,
    pub tex_coords: Seq<Seq<Seq<char>>>,
    pub vertices: Seq<FaceTriplet>,
    pub indices: Seq<nat>,
}

/// A model read from OBJ text. Each output vertex is a distinct face
/// triplet, whose 1-based references lie inside the attribute tables; the
/// indices name three output vertices per triangle. Attributes hold the text
/// of their numbers, each checked to read as a floating-point number.
#[derive(Debug)]
pub struct ObjModel {
    pub positions: Vec<Vec<String>>,
    pub normals: Vec<Vec<String>>,
    pub tex_coords: Vec<Vec<String>>,
    pub vertices: Vec<FaceTriplet>,
    pub indices: Vec<usize>,
}

impl View for ObjModel {
    type V = MeshModel;

    open spec fn view(&self) -> MeshModel {
        MeshModel {
            positions: table_view(self.positions@),
            normals: table_view(self.normals@),
            tex_coords: table_view(self.tex_coords@),
            vertices: self.vertices@,
            indices: index_view(self.indices@),
        }
    }
}

/// The references of `t` lie inside tables of the given sizes.
pub open spec fn refers_inside(t: FaceTriplet, np: nat, nn: nat, nt: nat) -> bool {
    &&& 1 <= t.position <= np
    &&& t.normal matches Some(n) ==> 1 <= n <= nn
    &&& t.tex_coord matches Some(c) ==> 1 <= c <= nt
}

impl MeshModel {
    /// A triangle mesh whose indices name its vertices, and whose vertices
    /// refer into its tables.
    pub open spec fn well_formed(&self) -> bool {
        &&& self.indices.len() % 3 == 0
        &&& forall|k: int| 0 <= k < self.indices.len() ==> #[trigger] self.indices[k] < self.vertices.len()
        &&& forall|j: int|
            0 <= j < self.vertices.len() ==> refers_inside(
                #[trigger] self.vertices[j],
                self.positions.len(),
                self.normals.len(),
                self.tex_coords.len(),
            )
    }
}

/// The model that the lines `lines` describe: the collected tables with
/// their face triplets welded.
pub open spec fn load_model(lines: Seq<Seq<char>>) -> Result<MeshModel, Failure> {
    match read_lines(lines) {
        Err(f) => Err(f),
        Ok(raw) => match weld_faces(
            raw.faces,
            raw.positions.len(),
            raw.normals.len(),
            raw.tex_coords.len(),
        ) {
            Err(f) => Err(f),
            Ok(st) => Ok(
                MeshModel {
                    positions: raw.positions,
                    normals: raw.normals,
                    tex_coords: raw.tex_coords,
                    vertices: st.0,
                    indices: st.1,
                },
            ),
        },
    }
}

impl ObjModel {
    /// Loads a model from the lines of the source named `file_path`.
    pub fn load_from_lines(file_path: &str, lines: &Vec<String>) -> (r: Result<
        ObjModel,
        ModelLoadingError,
    >)
        ensures
            match load_model(views(lines@)) {
                Ok(m) => r is Ok && r->Ok_0@ == m,
                Err(f) => r is Err && r->Err_0.kind.reports(f) && r->Err_0.file_path@
                    == file_path@,
            },
            r is Ok ==> r->Ok_0@.well_formed(),
    {
        let collected = collect_lines(lines);
        let tables: RawTables = match collected {
            Ok(t) => t,
            Err(kind) => {
                return Err(ModelLoadingError { file_path: String::from_str(file_path), kind });
            },
        };
        let RawTables { positions, normals, tex_coords, faces } = tables;
        let welded = weld(&faces, positions.len(), normals.len(), tex_coords.len());
        match welded {
            Ok((vertices, indices)) => {
                let model = ObjModel { positions, normals, tex_coords, vertices, indices };
                proof {
                    crate::laws::lemma_loaded_well_formed(views(lines@));
                }
                Ok(model)
            },
            Err(kind) => Err(ModelLoadingError { file_path: String::from_str(file_path), kind }),
        }
    }

    /// Whether this model is a well-formed mesh over its own tables.
    pub fn is_well_formed(&self) -> (r: bool)
        ensures
            r == self@.well_formed(),
    {
        if self.indices.len() % 3 != 0 {
            return false;
        }
        let mut k: usize = 0;
        while k < self.indices.len()
            invariant
                k <= self.indices.len(),
                forall|i: int| 0 <= i < k ==> #[trigger] self@.indices[i] < self@.vertices.len(),
            decreases self.indices.len() - k,
        {
            if self.indices[k] >= self.vertices.len() {
                assert(self@.indices[k as int] >= self@.vertices.len());
                return false;
            }
            k = k + 1;
        }
        let (np, nn, nt) = (self.positions.len(), self.normals.len(), self.tex_coords.len());
        let mut j: usize = 0;
        while j < self.vertices.len()
            invariant
                j <= self.vertices.len(),
                np == self@.positions.len() && nn == self@.normals.len() && nt == self@.tex_coords.len(),
                forall|i: int| 0 <= i < j ==> refers_inside(#[trigger] self@.vertices[i], np as nat, nn as nat, nt as nat),
            decreases self.vertices.len() - j,
        {
            let t = self.vertices[j];
            let inside = 1 <= t.position && t.position <= np && match t.normal {
                Some(n) => 1 <= n && n <= nn,
                None => true,
            } && match t.tex_coord {
                Some(c) => 1 <= c && c <= nt,
                None => true,
            };
            if !inside {
                assert(!refers_inside(self@.vertices[j as int], np as nat, nn as nat, nt as nat));
                return false;
            }
            j = j + 1;
        }
        true
    }

    pub fn vertex_count(&self) -> (r: usize)
        ensures
            r == self.vertices@.len(),
    {
        self.vertices.len()
    }

    pub fn index_count(&self) -> (r: usize)
        ensures
            r == self.indices@.len(),
    {
        self.indices.len()
    }

    /// The position fields of output vertex `j`.
    pub fn vertex_position(&self, j: usize) -> (r: &Vec<String>)
        requires
            self@.well_formed(),
            j < self.vertices@.len(),
        ensures
            views(r@) == self@.positions[self@.vertices[j as int].position - 1],
    {
        proof {
            assert(refers_inside(self@.vertices[j as int], self@.positions.len(), self@.normals.len(), self@.tex_coords.len()));
        }
        &self.positions[self.vertices[j].position - 1]
    }

    /// The normal fields of output vertex `j`, where it has a normal.
    pub fn vertex_normal(&self, j: usize) -> (r: Option<&Vec<String>>)
        requires
            self@.well_formed(),
            j < self.vertices@.len(),
        ensures
            match self@.vertices[j as int].normal {
                Some(n) => r is Some && views(r->0@) == self@.normals[n - 1],
                None => r is None,
            },
    {
        proof {
            assert(refers_inside(self@.vertices[j as int], self@.positions.len(), self@.normals.len(), self@.tex_coords.len()));
        }
        match self.vertices[j].normal {
            Some(n) => Some(&self.normals[n - 1]),
            None => None,
        }
    }

    /// The texture-coordinate fields of output vertex `j`, where it has one.
    pub fn vertex_tex_coord(&self, j: usize) -> (r: Option<&Vec<String>>)
        requires
            self@.well_formed(),
            j < self.vertices@.len(),
        ensures
            match self@.vertices[j as int].tex_coord {
                Some(c) => r is Some && views(r->0@) == self@.tex_coords[c - 1],
                None => r is None,
            },
    {
        proof {
            assert(refers_inside(self@.vertices[j as int], self@.positions.len(), self@.normals.len(), self@.tex_coords.len()));
        }
        match self.vertices[j].tex_coord {
            Some(c) => Some(&self.tex_coords[c - 1]),
            None => None,
        }
    }
}

} // verus!
