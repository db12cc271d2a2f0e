use pixelcannon::decimal::parse_i32;
use pixelcannon::obj::{obj_line_kind, parse_obj_index, split_bytes, OBJIndex, ObjError, ObjFaces, ObjLineKind};

fn idx(v: i32, t: i32, n: i32) -> OBJIndex {
    OBJIndex { vertex_index: v, tex_coord_index: t, normal_index: n }
}

fn tokens(line: &str) -> Vec<Vec<u8>> {
    split_bytes(line.as_bytes(), b' ')
}

#[test]
fn obj_index_new_is_zero() {
    assert_eq!(OBJIndex::new(), idx(0, 0, 0));
}

#[test]
fn decimal_parsing_matches_std() {
    for s in ["0", "42", "+7", "-13", "2147483647", "-2147483648", "007", "", "-", "+", "2147483648",
        "-2147483649", "1a", " 1", "99999999999999999999", "--1", "+-1"]
    {
        assert_eq!(parse_i32(s.as_bytes()), s.parse::<i32>().ok(), "input {:?}", s);
    }
}

#[test]
fn split_keeps_empty_pieces() {
    let parts = split_bytes(b"1//3", b'/');
    assert_eq!(parts, vec![b"1".to_vec(), Vec::new(), b"3".to_vec()]);
    assert_eq!(split_bytes(b"", b'/'), vec![Vec::<u8>::new()]);
    assert_eq!(tokens("f 1 2 3"), vec![b"f".to_vec(), b"1".to_vec(), b"2".to_vec(), b"3".to_vec()]);
    assert_eq!(tokens("a  b").len(), 3);
}

#[test]
fn obj_index_forms() {
    let p = parse_obj_index(b"5").unwrap();
    assert_eq!(p.index, idx(4, 0, 0));
    assert!(!p.has_tex_coord && !p.has_normal);

    let p = parse_obj_index(b"5/6").unwrap();
    assert_eq!(p.index, idx(4, 5, 0));
    assert!(p.has_tex_coord && !p.has_normal);

    let p = parse_obj_index(b"5//7").unwrap();
    assert_eq!(p.index, idx(4, 0, 6));
    assert!(!p.has_tex_coord && p.has_normal);

    let p = parse_obj_index(b"5/6/7").unwrap();
    assert_eq!(p.index, idx(4, 5, 6));
    assert!(p.has_tex_coord && p.has_normal);

    let p = parse_obj_index(b"5/").unwrap();
    assert_eq!(p.index, idx(4, 0, 0));
    assert!(!p.has_tex_coord && !p.has_normal);
}

#[test]
fn obj_index_errors() {
    assert_eq!(parse_obj_index(b"x/1/1"), Err(ObjError::VertexIndex));
    assert_eq!(parse_obj_index(b""), Err(ObjError::VertexIndex));
    assert_eq!(parse_obj_index(b"-2147483648"), Err(ObjError::VertexIndex));
    assert_eq!(parse_obj_index(b"1/y/1"), Err(ObjError::TexCoordIndex));
    assert_eq!(parse_obj_index(b"1/1/"), Err(ObjError::NormalIndex));
    assert_eq!(parse_obj_index(b"1//z"), Err(ObjError::NormalIndex));
}

#[test]
fn quad_face_becomes_a_fan() {
    let mut faces = ObjFaces::new();
    faces.add_face(&tokens("f 1/1 2/2 3/3 4/4")).unwrap();
    assert_eq!(
        faces.indices,
        vec![idx(0, 0, 0), idx(1, 1, 0), idx(2, 2, 0), idx(0, 0, 0), idx(2, 2, 0), idx(3, 3, 0)]
    );
    assert!(faces.has_tex_coords);
    assert!(!faces.has_normals);
    faces.add_face(&tokens("f 5//1 6//2 7//3")).unwrap();
    assert_eq!(faces.indices.len(), 9);
    assert_eq!(faces.indices[6], idx(4, 0, 0));
    assert!(faces.has_normals);
}

#[test]
fn short_and_bad_faces() {
    let mut faces = ObjFaces::new();
    assert_eq!(faces.add_face(&tokens("f 1 2")), Ok(()));
    assert!(faces.indices.is_empty());
    assert_eq!(faces.add_face(&tokens("f 1")), Err(ObjError::ShortFace));
    assert_eq!(faces.add_face(&tokens("f 1 2 q")), Err(ObjError::VertexIndex));
    assert_eq!(faces.add_face(&tokens("f 1 2 3 ")), Err(ObjError::VertexIndex));
    assert_eq!(faces.add_face(&tokens("f 1/a 2 3/b/")), Err(ObjError::TexCoordIndex));
    assert!(faces.indices.is_empty());
    assert!(!faces.has_tex_coords && !faces.has_normals);
}

#[test]
fn corners_share_vertices() {
    let mut faces = ObjFaces::new();
    faces.add_face(&tokens("f 1/1 2/2 3/3 4/4")).unwrap();
    faces.add_face(&tokens("f 1/5 3/3 4/4")).unwrap();
    let plan = faces.to_index_plan();
    assert_eq!(plan.vertices, vec![idx(0, 0, 0), idx(1, 1, 0), idx(2, 2, 0), idx(3, 3, 0), idx(0, 4, 0)]);
    assert_eq!(plan.indices, vec![0, 1, 2, 0, 2, 3, 4, 2, 3]);
    assert_eq!(plan.normal_model_positions, vec![0, 1, 2, 3]);
    assert_eq!(plan.normal_model_indices, vec![0, 1, 2, 0, 2, 3, 0, 2, 3]);
    assert_eq!(plan.normal_slots, vec![0, 1, 2, 3, 0]);
}

#[test]
fn empty_mesh_plan() {
    let plan = ObjFaces::new().to_index_plan();
    assert!(plan.indices.is_empty() && plan.vertices.is_empty() && plan.normal_slots.is_empty());
}

#[test]
fn line_kinds() {
    assert_eq!(obj_line_kind(b"v"), ObjLineKind::Position);
    assert_eq!(obj_line_kind(b"vt"), ObjLineKind::TexCoord);
    assert_eq!(obj_line_kind(b"vn"), ObjLineKind::Normal);
    assert_eq!(obj_line_kind(b"f"), ObjLineKind::Face);
    for other in ["#", "", "vp", "o", "g", "s", "usemtl", "V", "ff"] {
        assert_eq!(obj_line_kind(other.as_bytes()), ObjLineKind::Other, "keyword {:?}", other);
    }
}
