use obj_mesh::normals::vertex_triangles;
use obj_mesh::{AttributeKind, ErrorKind, FaceTriplet, ModelLoadingError, ObjModel};

fn lines(text: &[&str]) -> Vec<String> {
    text.iter().map(|s| s.to_string()).collect()
}

fn load(text: &[&str]) -> Result<ObjModel, ModelLoadingError> {
    ObjModel::load_from_lines("test.obj", &lines(text))
}

fn corner(position: usize, tex_coord: Option<usize>, normal: Option<usize>) -> FaceTriplet {
    FaceTriplet { position, normal, tex_coord }
}

const QUAD: [&str; 6] = ["v 0 0 0", "v 1 0 0", "v 1 1 0", "v 0 1 0", "f 1 2 3", "f 1 3 4"];

#[test]
fn quad_welds_to_four_vertices() {
    let m = load(&QUAD).unwrap();
    assert_eq!(m.vertex_count(), 4);
    assert_eq!(m.index_count(), 6);
    assert_eq!(m.indices, vec![0, 1, 2, 0, 2, 3]);
    assert_eq!(m.indices[0], m.indices[3]);
    assert_eq!(m.indices[2], m.indices[4]);
    assert_eq!(m.positions.len(), 4);
    assert_eq!(m.vertex_position(2), &vec!["1".to_string(), "1".to_string(), "0".to_string()]);
    assert!(m.vertex_normal(0).is_none());
    assert!(m.vertex_tex_coord(0).is_none());
    assert!(m.is_well_formed());
}

#[test]
fn hand_built_model_can_be_ill_formed() {
    let mut m = load(&QUAD).unwrap();
    m.indices.push(9);
    assert!(!m.is_well_formed());
    m.indices.truncate(6);
    m.vertices[0].normal = Some(1);
    assert!(!m.is_well_formed());
}

#[test]
fn reading_ignores_comments_and_attribute_placement() {
    let a = load(&QUAD).unwrap();
    let b = load(&["# quad", "v 0 0 0", "v 1 0 0", "f 1 2 3", "", "v 1 1 0", "f 1 3 4", "v 0 1 0"]).unwrap();
    assert_eq!(a.vertices, b.vertices);
    assert_eq!(a.indices, b.indices);
    assert_eq!(a.positions, b.positions);
}

#[test]
fn identical_triplets_share_a_vertex() {
    let m = load(&[
        "v 0 0 0", "v 1 0 0", "v 0 1 0", "vt 0 0", "vt 1 0", "vt 0 1", "vn 0 0 1",
        "f 1/1/1 2/2/1 3/3/1", "f 3/3/1 2/2/1 1/1/1",
    ])
    .unwrap();
    assert_eq!(m.vertex_count(), 3);
    assert_eq!(m.indices, vec![0, 1, 2, 2, 1, 0]);
    assert_eq!(m.vertices[1], corner(2, Some(2), Some(1)));
}

#[test]
fn different_attributes_split_a_position() {
    let m = load(&["v 0 0 0", "v 1 0 0", "v 0 1 0", "vn 0 0 1", "vn 0 0 -1", "f 1//1 2//1 3//1", "f 1//2 3//2 2//2"])
        .unwrap();
    assert_eq!(m.vertex_count(), 6);
    assert_eq!(m.indices, vec![0, 1, 2, 3, 4, 5]);
    assert_eq!(m.vertex_normal(3), Some(&vec!["0".to_string(), "0".to_string(), "-1".to_string()]));
}

#[test]
fn vertices_follow_first_occurrence() {
    let m = load(&["v 0 0 0", "v 1 0 0", "v 0 1 0", "v 1 1 0", "f 3 2 1", "f 1 2 4"]).unwrap();
    assert_eq!(
        m.vertices,
        vec![corner(3, None, None), corner(2, None, None), corner(1, None, None), corner(4, None, None)]
    );
    assert_eq!(m.indices, vec![0, 1, 2, 2, 1, 3]);
    let again = load(&["v 0 0 0", "v 1 0 0", "v 0 1 0", "v 1 1 0", "f 3 2 1", "f 1 2 4"]).unwrap();
    assert_eq!(again.vertices, m.vertices);
    assert_eq!(again.indices, m.indices);
}

#[test]
fn four_corner_face_is_malformed() {
    let e = load(&["v 0 0 0", "v 1 0 0", "v 0 1 0", "v 1 1 0", "f 1 2 3 4"]).unwrap_err();
    assert!(matches!(e.kind, ErrorKind::MalformedFace { count: 4, line: 5 }));
    assert_eq!(e.file_path, "test.obj");
}

#[test]
fn odd_field_count_is_malformed() {
    let e = load(&["v 0 0 0", "f 1/1 1/1 1/1/1"]).unwrap_err();
    assert!(matches!(e.kind, ErrorKind::MalformedFace { count: 7, line: 2 }));
    let e = load(&["v 0 0 0", "f 1 1"]).unwrap_err();
    assert!(matches!(e.kind, ErrorKind::MalformedFace { count: 2, line: 2 }));
}

#[test]
fn position_zero_is_invalid() {
    let e = load(&["v 0 0 0", "v 1 0 0", "v 0 1 0", "f 0 1 2"]).unwrap_err();
    assert!(matches!(
        e.kind,
        ErrorKind::InvalidReference { attribute: AttributeKind::Position, index: 0 }
    ));
}

#[test]
fn position_past_the_table_is_invalid() {
    let e = load(&["v 0 0 0", "v 1 0 0", "v 0 1 0", "f 1 2 4"]).unwrap_err();
    assert!(matches!(
        e.kind,
        ErrorKind::InvalidReference { attribute: AttributeKind::Position, index: 4 }
    ));
}

#[test]
fn texture_and_normal_references_are_checked() {
    let e = load(&["v 0 0 0", "vt 0 0", "f 1/2 1/1 1/1"]).unwrap_err();
    assert!(matches!(
        e.kind,
        ErrorKind::InvalidReference { attribute: AttributeKind::TexCoord, index: 2 }
    ));
    let e = load(&["v 0 0 0", "vn 0 0 1", "f 1//1 1//1 1//3"]).unwrap_err();
    assert!(matches!(
        e.kind,
        ErrorKind::InvalidReference { attribute: AttributeKind::Normal, index: 3 }
    ));
}

#[test]
fn unknown_directive_is_reported_with_its_line() {
    let e = load(&["v 0 0 0", "", "curv 1 2"]).unwrap_err();
    match e.kind {
        ErrorKind::UnrecognizedDirective { token, line } => {
            assert_eq!(token, "curv");
            assert_eq!(line, 3);
        }
        other => panic!("unexpected {:?}", other),
    }
}

#[test]
fn bad_numbers_are_field_errors() {
    let e = load(&["v 0 zero 0"]).unwrap_err();
    match e.kind {
        ErrorKind::FieldParseError { field, line } => {
            assert_eq!(field, "zero");
            assert_eq!(line, 1);
        }
        other => panic!("unexpected {:?}", other),
    }
    let e = load(&["vt 0.5"]).unwrap_err();
    match e.kind {
        ErrorKind::FieldParseError { field, line } => {
            assert_eq!(field, "");
            assert_eq!(line, 1);
        }
        other => panic!("unexpected {:?}", other),
    }
    let e = load(&["v 0 0 0", "f 1 x 1"]).unwrap_err();
    match e.kind {
        ErrorKind::FieldParseError { field, line } => {
            assert_eq!(field, "x");
            assert_eq!(line, 2);
        }
        other => panic!("unexpected {:?}", other),
    }
}

#[test]
fn ignored_directives_and_blank_lines() {
    let m = load(&[
        "# a triangle", "mtllib a.mtl", "o tri", "g group", "s off", "usemtl red", "   ", "",
        "v 0 0 0", "v 1 0 0", "v 0 1 0", "f 1 2 3",
    ])
    .unwrap();
    assert_eq!(m.vertex_count(), 3);
    assert_eq!(m.indices, vec![0, 1, 2]);
}

#[test]
fn extra_coordinate_fields_are_ignored() {
    let m = load(&["v 0 0 0 1", "vt 0.5 0.25 0", "f 1/1 1/1 1/1"]).unwrap();
    assert_eq!(m.positions[0].len(), 3);
    assert_eq!(m.tex_coords[0], vec!["0.5".to_string(), "0.25".to_string()]);
    assert_eq!(m.vertex_count(), 1);
    assert_eq!(m.indices, vec![0, 0, 0]);
}

#[test]
fn texture_only_corners() {
    let m = load(&["v 0 0 0", "v 1 0 0", "v 0 1 0", "vt 0 0", "vt 1 0", "f 1/1 2/2 3/1"]).unwrap();
    assert_eq!(m.vertices[2], corner(3, Some(1), None));
    assert_eq!(m.vertex_tex_coord(1), Some(&vec!["1".to_string(), "0".to_string()]));
}

#[test]
fn empty_source_gives_empty_mesh() {
    let m = load(&[]).unwrap();
    assert_eq!(m.vertex_count(), 0);
    assert_eq!(m.index_count(), 0);
}

#[test]
fn error_description() {
    let e = load(&["x"]).unwrap_err();
    assert_eq!(e.description(), "Obj Error");
    assert_eq!(e.message(), "Could not process the obj file");
}

#[test]
fn triangles_per_vertex() {
    let groups = vertex_triangles(&vec![0, 1, 2, 0, 2, 3], 5);
    assert_eq!(groups, vec![vec![0, 1], vec![0], vec![0, 1], vec![1], vec![]]);
    let single = vertex_triangles(&vec![0, 0, 1], 2);
    assert_eq!(single, vec![vec![0, 0], vec![0]]);
}
