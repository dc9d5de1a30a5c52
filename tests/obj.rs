use shaderpixel::obj::{Indices, NormalizedObj, Obj, ObjError, Vertex};

fn floats<const N: usize>(tokens: &[Vec<u8>; N]) -> [f32; N] {
    let mut out = [0f32; N];
    for (o, t) in out.iter_mut().zip(tokens.iter()) {
        *o = std::str::from_utf8(t).unwrap().parse().unwrap();
    }
    out
}

fn positions(obj: &Obj) -> Vec<[f32; 3]> {
    obj.vertices.iter().map(floats).collect()
}

fn tex_coords(obj: &Obj) -> Vec<[f32; 2]> {
    obj.tex_coords.iter().map(floats).collect()
}

fn resolved(obj: &Obj, nobj: &NormalizedObj) -> Vec<([f32; 3], [f32; 2])> {
    nobj.vertices
        .iter()
        .map(|v: &Vertex| {
            let pos = floats(&obj.vertices[v.pos_index as usize]);
            let tex = match v.tex_index {
                Some(t) => floats(&obj.tex_coords[t as usize]),
                None => [0.; 2],
            };
            (pos, tex)
        })
        .collect()
}

#[test]
fn parse_vertice() {
    let file = "v 1 2.2  3.14159";
    let obj = Obj::from_reader(file.as_bytes()).expect("failed to parse");
    assert_eq!(positions(&obj), [[1., 2.2, 3.14159]]);
}

#[test]
fn parse_vertices() {
    let file = "v 1 2.2  3.14159\nv 1 2 3   ";
    let obj = Obj::from_reader(file.as_bytes()).expect("failed to parse");
    assert_eq!(positions(&obj), [[1., 2.2, 3.14159], [1., 2., 3.]]);
}

#[test]
fn parse_normalize() {
    let file = r#"
v 1.1 1.2 1.3
v 2.1 2.2 2.3
v 3.1 3.2 3.3
vt 0.1 0.2
vt 0.3 0.4
vt 0.5 0.6
f 1/1 2/2 3/3
"#;
    let obj = Obj::from_reader(file.as_bytes()).expect("failed to parse");
    assert_eq!(positions(&obj), [[1.1, 1.2, 1.3], [2.1, 2.2, 2.3], [3.1, 3.2, 3.3]]);
    assert_eq!(tex_coords(&obj), [[0.1, 0.2], [0.3, 0.4], [0.5, 0.6]]);

    let nobj = obj.normalize().expect("failed to normalize");
    assert_eq!(resolved(&obj, &nobj), [
        ([1.1, 1.2, 1.3], [0.1, 0.2]),
        ([2.1, 2.2, 2.3], [0.3, 0.4]),
        ([3.1, 3.2, 3.3], [0.5, 0.6]),
    ]);
    assert_eq!(nobj.indices, [0, 1, 2]);
}

#[test]
fn parse_normalize_complex() {
    let file = r#"
v 1.1 1.2 1.3
v 2.1 2.2 2.3
v 3.1 3.2 3.3
vt 0.1 0.2
vt 0.3 0.4
vt 0.5 0.6
vt 0.7 0.8
f 1/1 2/2 3/3
f 2/1 1/2 3/4
"#;
    let obj = Obj::from_reader(file.as_bytes()).expect("failed to parse");
    assert_eq!(positions(&obj), [[1.1, 1.2, 1.3], [2.1, 2.2, 2.3], [3.1, 3.2, 3.3]]);
    assert_eq!(tex_coords(&obj), [[0.1, 0.2], [0.3, 0.4], [0.5, 0.6], [0.7, 0.8]]);

    let nobj = obj.normalize().expect("failed to normalize");
    assert_eq!(resolved(&obj, &nobj), [
        ([1.1, 1.2, 1.3], [0.1, 0.2]),
        ([2.1, 2.2, 2.3], [0.3, 0.4]),
        ([3.1, 3.2, 3.3], [0.5, 0.6]),
        ([2.1, 2.2, 2.3], [0.1, 0.2]),
        ([1.1, 1.2, 1.3], [0.3, 0.4]),
        ([3.1, 3.2, 3.3], [0.7, 0.8]),
    ]);
    assert_eq!(nobj.indices, [0, 1, 2, 3, 4, 5]);
}

#[test]
fn normalize_splits_quads_and_reuses_vertices() {
    let file = "v 0 0 0\nv 1 0 0\nv 1 1 0\nv 0 1 0\nf 1 2 3 4\nf 1 3 4\n";
    let obj = Obj::from_reader(file.as_bytes()).expect("failed to parse");
    assert_eq!(obj.faces.len(), 2);
    let nobj = obj.normalize().expect("failed to normalize");
    assert_eq!(nobj.vertices.len(), 4);
    assert_eq!(nobj.indices, [0, 1, 2, 2, 3, 0, 0, 2, 3]);
    assert!(!nobj.has_tex_coords);
}

#[test]
fn normalize_reports_missing_vertex() {
    let obj = Obj::from_reader(b"v 0 0 0\nf 1 2 1\n").expect("failed to parse");
    assert!(matches!(obj.normalize(), Err(ObjError::InvalidVertexIndex(2))));
}

#[test]
fn normalize_reports_missing_texture() {
    let obj = Obj::from_reader(b"v 0 0 0\nvt 0 0\nf 1/1 1/3 1\n").expect("failed to parse");
    assert!(matches!(obj.normalize(), Err(ObjError::InvalidTextureIndex(3))));
}

#[test]
fn parse_comments_blank_and_ignored_lines() {
    let file = "# header\n\n   \ng group\no name\ns 1\nvn 0 0 1\nmtllib a.mtl\nusemtl m\nv 1 2 3 # trailing\n";
    let obj = Obj::from_reader(file.as_bytes()).expect("failed to parse");
    assert_eq!(positions(&obj), [[1., 2., 3.]]);
    assert!(obj.faces.is_empty());
}

#[test]
fn parse_errors_name_the_line() {
    match Obj::from_reader(b"v 1 2 3\nx 1\n") {
        Err((ObjError::InvalidIden(iden), line)) => {
            assert_eq!(iden, b"x".to_vec());
            assert_eq!(line, 2);
        }
        other => panic!("unexpected {other:?}"),
    }
    assert!(matches!(Obj::from_reader(b"v 1 2"), Err((ObjError::NotEnoughNums(2, 3), 1))));
    assert!(matches!(Obj::from_reader(b"vt 1"), Err((ObjError::NotEnoughNums(1, 2), 1))));
    assert!(matches!(Obj::from_reader(b"f"), Err((ObjError::NotEnoughNums(0, 3), 1))));
    assert!(matches!(Obj::from_reader(b"v 1 2 3 4"), Err((ObjError::TooManyNums, 1))));
    assert!(matches!(Obj::from_reader(b"f 1 2 3 4 5"), Err((ObjError::TooManyNums, 1))));
    match Obj::from_reader(b"\n\nf 1 a 3") {
        Err((ObjError::InvalidNum(num), line)) => {
            assert_eq!(num, b"a".to_vec());
            assert_eq!(line, 3);
        }
        other => panic!("unexpected {other:?}"),
    }
}

#[test]
fn parse_face_corners() {
    let ix = |v, t, n| Indices { vertex: v, texture: t, normal: n };
    assert_eq!(Indices::parse(b"3").unwrap(), ix(3, None, None));
    assert_eq!(Indices::parse(b"3/1").unwrap(), ix(3, Some(1), None));
    assert_eq!(Indices::parse(b"3//2").unwrap(), ix(3, None, Some(2)));
    assert_eq!(Indices::parse(b"+3/1/2").unwrap(), ix(3, Some(1), Some(2)));
    assert!(matches!(Indices::parse(b"0"), Err(ObjError::InvalidNum(_))));
    assert!(matches!(Indices::parse(b"3/"), Ok(Indices { vertex: 3, texture: None, normal: None })));
    assert!(matches!(Indices::parse(b"3//"), Err(ObjError::InvalidNum(n)) if n.is_empty()));
    assert!(matches!(Indices::parse(b"4294967296"), Err(ObjError::InvalidNum(_))));
    assert_eq!(Indices::parse(b"4294967295").unwrap().vertex, u32::MAX);
}

#[test]
fn parse_quad_face() {
    let obj = Obj::from_reader(b"f 1/2/3 4 5 6/7").expect("failed to parse");
    let (tri, quad) = obj.faces[0];
    assert_eq!(tri[0], Indices { vertex: 1, texture: Some(2), normal: Some(3) });
    assert_eq!(tri[2].vertex, 5);
    assert_eq!(quad, Some(Indices { vertex: 6, texture: Some(7), normal: None }));
}

#[test]
fn normalize_rejects_zero_vertex_index() {
    let mut obj = Obj::from_reader(b"v 0 0 0\n").expect("failed to parse");
    let c = |v| Indices { vertex: v, texture: None, normal: None };
    obj.faces.push(([c(1), c(0), c(1)], None));
    assert!(matches!(obj.normalize(), Err(ObjError::InvalidVertexIndex(0))));
}
