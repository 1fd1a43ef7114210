use obj_mesh::face::{gather_face_fields, get_face_triplet_type};
use obj_mesh::text::{is_number, parse_index, same_text, split_pieces};
use obj_mesh::TripletFormat;

fn strings(v: &[&str]) -> Vec<String> {
    v.iter().map(|s| s.to_string()).collect()
}

#[test]
fn words_split_on_any_white_space() {
    assert_eq!(split_pieces("  v\t1  2\u{a0}3 ", false), strings(&["v", "1", "2", "3"]));
    assert_eq!(split_pieces("   ", false), Vec::<String>::new());
}

#[test]
fn slash_fields_keep_empty_ones() {
    assert_eq!(split_pieces("1//3", true), strings(&["1", "", "3"]));
    assert_eq!(split_pieces("7", true), strings(&["7"]));
    assert_eq!(split_pieces("", true), strings(&[""]));
}

#[test]
fn face_formats_by_shape() {
    let f = gather_face_fields(&strings(&["f", "1//1", "2//2", "3//3"]));
    assert_eq!(f, strings(&["1", "", "1", "2", "", "2", "3", "", "3"]));
    assert_eq!(get_face_triplet_type(&f), Some(TripletFormat::PositionNormal));
    let f = gather_face_fields(&strings(&["f", "1/1/1", "2/2/2", "3/3/3"]));
    assert_eq!(get_face_triplet_type(&f), Some(TripletFormat::PositionTextureNormal));
    let f = gather_face_fields(&strings(&["f", "1/1", "2/2", "3/3"]));
    assert_eq!(get_face_triplet_type(&f), Some(TripletFormat::PositionTexture));
    let f = gather_face_fields(&strings(&["f", "1", "2", "3"]));
    assert_eq!(get_face_triplet_type(&f), Some(TripletFormat::PositionOnly));
    let f = gather_face_fields(&strings(&["f", "1", "2", "3", "4"]));
    assert_eq!(get_face_triplet_type(&f), None);
}

#[test]
fn index_fields() {
    assert_eq!(parse_index("42"), Some(42));
    assert_eq!(parse_index("+7"), Some(7));
    assert_eq!(parse_index("0"), Some(0));
    assert_eq!(parse_index(""), None);
    assert_eq!(parse_index("+"), None);
    assert_eq!(parse_index("-1"), None);
    assert_eq!(parse_index("12a"), None);
    assert_eq!(parse_index("18446744073709551615"), Some(usize::MAX));
    assert_eq!(parse_index("18446744073709551616"), None);
}

#[test]
fn number_fields_follow_the_float_parser() {
    for s in ["1", "-1.5", "+.5", "5.", "1e3", "1.5E-3", "inf", "-Infinity", "NaN", "0.000"] {
        assert!(is_number(s), "{}", s);
        assert!(s.parse::<f32>().is_ok());
    }
    for s in ["", "+", ".", "1e", "e3", "1.2.3", "abc", "1,5", " 1", "--1", "infin", "1e+"] {
        assert!(!is_number(s), "{}", s);
        assert!(s.parse::<f32>().is_err());
    }
}

#[test]
fn text_comparison() {
    assert!(same_text("vn", "vn"));
    assert!(!same_text("vn", "v"));
    assert!(!same_text("vt", "vn"));
}
