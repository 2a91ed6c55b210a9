use graphics_fundamentals::dedup::FaceVertexKey;
use graphics_fundamentals::obj_parse::{parse_face_line, parse_obj, OBJLoadError, ObjFault, ParsedOBJ};

fn parse_ok(text: &str) -> ParsedOBJ {
    match parse_obj("mesh.obj", text) {
        Ok(p) => p,
        Err(e) => panic!("unexpected error: {:?}", e),
    }
}

fn parse_err(text: &str) -> (String, usize, String) {
    match parse_obj("mesh.obj", text) {
        Err(OBJLoadError::Parse(path, line, msg)) => (path, line, msg),
        other => panic!("expected a parse error, got {:?}", other.map(|p| p.indices)),
    }
}

fn texts<const N: usize>(a: &[graphics_fundamentals::decimal::Real; N]) -> Vec<String> {
    a.iter().map(|r| r.as_str().to_string()).collect()
}

fn key(position: u32, uv: u32, normal: u32) -> FaceVertexKey {
    FaceVertexKey { position, uv, normal }
}

const TRIANGLE: &str = "v 0 0 0\nv 1 0 0\nv 0 1 0\nvt 0 0\nvt 1 0\nvt 0 1\nvn 0 0 1\nf 1/1/1 2/2/1 3/3/1\n";

#[test]
fn single_triangle_round_trip() {
    let p = parse_ok(TRIANGLE);
    assert_eq!(p.model_verts.len(), 3);
    assert_eq!(p.indices, vec![0, 1, 2]);
    assert_eq!(p.raw_verts.len(), 3);
    assert_eq!(p.raw_uvs.len(), 3);
    assert_eq!(p.raw_normals.len(), 1);
    assert_eq!(texts(&p.model_verts[1].position), vec!["1", "0", "0"]);
    assert_eq!(texts(&p.model_verts[2].tex_coords), vec!["0", "1"]);
    assert_eq!(texts(&p.model_verts[0].normal), vec!["0", "0", "1"]);
    assert_eq!(p.vertex_keys, vec![key(1, 1, 1), key(2, 2, 1), key(3, 3, 1)]);
}

#[test]
fn shared_corners_are_welded() {
    // a quad as two triangles: six face-vertices, four distinct keys
    let text = "v 0 0 0\nv 1 0 0\nv 1 1 0\nv 0 1 0\nf 1 2 3\nf 1 3 4\n";
    let p = parse_ok(text);
    assert_eq!(p.model_verts.len(), 4);
    assert_eq!(p.indices, vec![0, 1, 2, 0, 2, 3]);
    assert_eq!(p.vertex_keys, vec![key(1, 0, 0), key(2, 0, 0), key(3, 0, 0), key(4, 0, 0)]);
}

#[test]
fn repeated_face_adds_no_vertices() {
    let text = "v 0 0 0\nv 1 0 0\nv 0 1 0\nf 1 2 3\nf 3 2 1\nf 1 2 3\n";
    let p = parse_ok(text);
    assert_eq!(p.model_verts.len(), 3);
    assert_eq!(p.indices, vec![0, 1, 2, 2, 1, 0, 0, 1, 2]);
}

#[test]
fn indices_are_valid_triangles() {
    let text = "v 0 0 0\nv 1 0 0\nv 0 1 0\nv 0 0 1\nvt 0.5 0.5\nf 1/1 2 3\nf 4 1/1 2\nf 2 3 4\n";
    let p = parse_ok(text);
    assert_eq!(p.indices.len() % 3, 0);
    assert!(p.indices.iter().all(|&i| (i as usize) < p.model_verts.len()));
    // 1/1, 2, 3 and 4 are the distinct face-vertices
    assert_eq!(p.model_verts.len(), 4);
    assert_eq!(p.indices, vec![0, 1, 2, 3, 0, 1, 1, 2, 3]);
}

#[test]
fn omitted_uv_uses_default_and_distinct_key() {
    let text = "v 0 0 0\nv 1 0 0\nv 0 1 0\nv 1 1 0\nv 2 2 2\nvt 0.25 0.75\nvn 0 0 1\nvn 0 1 0\nf 5//2 5/1/2 1\n";
    let p = parse_ok(text);
    assert_eq!(p.model_verts.len(), 3);
    assert_eq!(p.vertex_keys[0], key(5, 0, 2));
    assert_eq!(p.vertex_keys[1], key(5, 1, 2));
    assert_ne!(p.vertex_keys[0], p.vertex_keys[1]);
    assert_eq!(texts(&p.model_verts[0].tex_coords), vec!["0", "0"]);
    assert_eq!(texts(&p.model_verts[1].tex_coords), vec!["0.25", "0.75"]);
    assert_eq!(texts(&p.model_verts[0].normal), vec!["0", "1", "0"]);
    assert_eq!(texts(&p.model_verts[2].normal), vec!["0", "0", "0"]);
    assert_eq!(texts(&p.model_verts[0].position), vec!["2", "2", "2"]);
}

#[test]
fn two_vertex_face_is_an_error() {
    let (path, line, msg) = parse_err("v 0 0 0\nv 1 0 0\nf 1 2\n");
    assert_eq!(path, "mesh.obj");
    assert_eq!(line, 3);
    assert_eq!(msg, "face does not have three vertices");
}

#[test]
fn quad_face_is_an_error() {
    let (_, line, msg) = parse_err("v 0 0 0\nv 1 0 0\nv 1 1 0\nv 0 1 0\nf 1 2 3 4");
    assert_eq!(line, 5);
    assert_eq!(msg, "face does not have three vertices");
}

#[test]
fn bad_position_is_an_error() {
    let (_, line, msg) = parse_err("# a comment\nv 0 zero 0\n");
    assert_eq!(line, 2);
    assert_eq!(msg, "could not parse position");
    let (_, line, _) = parse_err("v 0 0\n");
    assert_eq!(line, 1);
    let (_, _, msg) = parse_err("v 0 0 0 1\n");
    assert_eq!(msg, "could not parse position");
}

#[test]
fn bad_texture_coordinate_is_an_error() {
    let (_, line, msg) = parse_err("vt 0.5\n");
    assert_eq!(line, 1);
    assert_eq!(msg, "could not parse texture coordinate");
}

#[test]
fn bad_normal_is_an_error() {
    let (_, line, msg) = parse_err("v 0 0 0\n\nvn 1 2 three\n");
    assert_eq!(line, 3);
    assert_eq!(msg, "could not parse normal");
}

#[test]
fn bad_face_vertex_is_an_error() {
    let (_, _, msg) = parse_err("v 0 0 0\nf 1 1 x\n");
    assert_eq!(msg, "could not parse face vertex");
    let (_, _, msg) = parse_err("v 0 0 0\nf 1/1/1/1 1 1\n");
    assert_eq!(msg, "could not parse face vertex");
    let (_, _, msg) = parse_err("v 0 0 0\nf 1 1 99999999999\n");
    assert_eq!(msg, "could not parse face vertex");
}

#[test]
fn out_of_range_index_is_an_error() {
    let (_, line, msg) = parse_err("v 0 0 0\nf 1 1 2\n");
    assert_eq!(line, 2);
    assert_eq!(msg, "face vertex index out of range");
    let (_, _, msg) = parse_err("v 0 0 0\nf 1/1 1 1\n");
    assert_eq!(msg, "face vertex index out of range");
    let (_, _, msg) = parse_err("v 0 0 0\nf 1//1 1 1\n");
    assert_eq!(msg, "face vertex index out of range");
    // a face may only name attributes read before it
    let (_, line, _) = parse_err("f 1 1 1\nv 0 0 0\n");
    assert_eq!(line, 1);
    // the position is never optional
    let (_, _, msg) = parse_err("v 0 0 0\nf /1 1 1\n");
    assert_eq!(msg, "face vertex index out of range");
}

#[test]
fn first_bad_line_is_reported() {
    let (_, line, msg) = parse_err("v 0 0 0\nvt x\nf 1 2\n");
    assert_eq!(line, 2);
    assert_eq!(msg, "could not parse texture coordinate");
}

#[test]
fn zero_and_negative_indices_are_absent() {
    let p = parse_ok("v 0 0 0\nvt 1 1\nf 1/0/0 1/-1 1/+1\n");
    assert_eq!(p.vertex_keys, vec![key(1, 0, 0), key(1, 1, 0)]);
    assert_eq!(p.indices, vec![0, 0, 1]);
}

#[test]
fn material_names_last_wins() {
    let text = "mtllib first.mtl\nusemtl red\nv 0 0 0\nf 1 1 1\nusemtl blue\nmtllib second.mtl\n";
    let p = parse_ok(text);
    assert_eq!(p.material.as_deref(), Some("blue"));
    assert_eq!(p.material_lib.as_deref(), Some("second.mtl"));
    let p = parse_ok("usemtl\n");
    assert_eq!(p.material, None);
    assert_eq!(p.material_lib, None);
}

#[test]
fn empty_and_unknown_lines_are_ignored() {
    let p = parse_ok("");
    assert!(p.model_verts.is_empty() && p.indices.is_empty());
    let p = parse_ok("# comment\no object\ng group\ns off\n\n   \nvp 1 2 3\r\n");
    assert!(p.raw_verts.is_empty() && p.indices.is_empty());
}

#[test]
fn carriage_returns_and_spacing_are_accepted() {
    let p = parse_ok("v 0 0 0\r\n  v\t1 0 0\r\nv 0 1 0\r\nf 1 2 3\r\n");
    assert_eq!(p.raw_verts.len(), 3);
    assert_eq!(texts(&p.raw_verts[1]), vec!["1", "0", "0"]);
    assert_eq!(p.indices, vec![0, 1, 2]);
}

#[test]
fn exponents_and_signs_are_numbers() {
    let p = parse_ok("v -1.5e3 +2. .5E-2\n");
    assert_eq!(texts(&p.raw_verts[0]), vec!["-1.5e3", "+2.", ".5E-2"]);
    let (_, _, msg) = parse_err("v 1..0 0 0\n");
    assert_eq!(msg, "could not parse position");
    let p = parse_ok("v nan -inf Infinity\n");
    assert_eq!(texts(&p.raw_verts[0]), vec!["nan", "-inf", "Infinity"]);
    let (_, _, msg) = parse_err("v nanx 0 0\n");
    assert_eq!(msg, "could not parse position");
}

#[test]
fn face_line_tokens() {
    let ks = parse_face_line("f 1/2/3 4//6 7").unwrap();
    assert_eq!(ks, vec![key(1, 2, 3), key(4, 0, 6), key(7, 0, 0)]);
    assert_eq!(parse_face_line("f 1 2"), Err(ObjFault::FaceArity));
    assert_eq!(parse_face_line("f 1 2 a"), Err(ObjFault::BadFaceVertex));
    assert_eq!(parse_face_line("f 1/2/3/4 2 3"), Err(ObjFault::BadFaceVertex));
    assert_eq!(parse_face_line("f 1/ 2/ 3/"), Ok(vec![key(1, 0, 0), key(2, 0, 0), key(3, 0, 0)]));
}

#[test]
fn fault_messages() {
    assert_eq!(ObjFault::BadPosition.message(), "could not parse position");
    assert_eq!(ObjFault::TooManyVertices.message(), "too many vertices");
    assert_eq!(ObjFault::IndexOutOfRange.message(), "face vertex index out of range");
}
