use ascii_engine::wavefront::{parse_object, ObjError, Token};

fn word(text: &str, t: Token) -> &str {
    &text[t.start..t.end]
}

#[test]
fn reads_vertices_and_triangles() {
    let text = "v 0 0 0\nv 1 0 0\nv 0 1 0\nf 1 2 3\n";
    let obj = parse_object(text.as_bytes()).unwrap();
    assert_eq!(obj.vertices.len(), 3);
    let v = obj.vertices[1];
    assert_eq!((word(text, v.x), word(text, v.y), word(text, v.z)), ("1", "0", "0"));
    assert_eq!(obj.triangles, vec![(0, 1, 2)]);
}

#[test]
fn quads_become_two_triangles() {
    let text = "v -1 -1 0\nv 1 -1 0\nv 1 1 0\nv -1 1 0\nf 1 2 3 4";
    let obj = parse_object(text.as_bytes()).unwrap();
    assert_eq!(obj.triangles, vec![(0, 1, 2), (2, 3, 0)]);
}

#[test]
fn faces_may_come_before_their_vertices() {
    let text = "f 1 2 3\nv 0 0 0\nv 1.5 0 0\nv 0 1e2 0\n";
    let obj = parse_object(text.as_bytes()).unwrap();
    assert_eq!(obj.triangles, vec![(0, 1, 2)]);
    assert_eq!(word(text, obj.vertices[2].y), "1e2");
}

#[test]
fn blanks_and_carriage_returns_are_separators() {
    let text = "  v\t0.5  -2 3 \r\n\r\n# comment\nvn 0 0 1\nf  1 +1\t1\r\n";
    let obj = parse_object(text.as_bytes()).unwrap();
    assert_eq!(obj.vertices.len(), 1);
    let v = obj.vertices[0];
    assert_eq!((word(text, v.x), word(text, v.y), word(text, v.z)), ("0.5", "-2", "3"));
    assert_eq!(obj.triangles, vec![(0, 0, 0)]);
}

#[test]
fn short_vertices_and_faces_of_other_sizes_are_skipped() {
    let text = "v 0 0\nv 0 0 0\nv 1 0 0 1\nf 1 1\nf 1 1 1 1 1\nf\nf 1 1 1\n";
    let obj = parse_object(text.as_bytes()).unwrap();
    assert_eq!(obj.vertices.len(), 1);
    assert_eq!(obj.triangles, vec![(0, 0, 0)]);
}

#[test]
fn index_zero_is_an_error() {
    let text = "v 0 0 0\nv 1 0 0\nv 0 1 0\nf 0 1 2\n";
    assert!(matches!(parse_object(text.as_bytes()), Err(ObjError::BadFaceIndex)));
}

#[test]
fn unreadable_index_is_an_error() {
    let v = "v 0 0 0\nv 1 0 0\nv 0 1 0\n";
    for face in ["f 1/1 2 3", "f 1 x 3", "f 1 2 -3", "f + 2 3", "f 1 2 3 4 5 z"] {
        let text = format!("{}{}\n", v, face);
        assert!(matches!(parse_object(text.as_bytes()), Err(ObjError::BadFaceIndex)), "{}", face);
    }
}

#[test]
fn oversized_index_is_an_error() {
    let text = "v 0 0 0\nf 1 1 99999999999999999999999\nf 1 1 1";
    assert!(matches!(parse_object(text.as_bytes()), Err(ObjError::BadFaceIndex)));
}

#[test]
fn bad_index_is_reported_before_missing_vertex() {
    let text = "f 7 8 9\nf 0 1 1\n";
    assert!(matches!(parse_object(text.as_bytes()), Err(ObjError::BadFaceIndex)));
}

#[test]
fn missing_vertex_is_an_error() {
    let text = "v 0 0 0\nv 1 0 0\nf 1 2 3\n";
    assert!(matches!(parse_object(text.as_bytes()), Err(ObjError::MissingVertex)));
}

#[test]
fn empty_text_is_an_empty_mesh() {
    let obj = parse_object(b"").unwrap();
    assert!(obj.vertices.is_empty() && obj.triangles.is_empty());
}
