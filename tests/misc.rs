use shaderpixel::art::{option_offsets, OptionKind};
use shaderpixel::camera::KeyStates;
use shaderpixel::env::{indices_to_face, push_grid_faces};
use shaderpixel::obj::Indices;
use shaderpixel::vertex::VertexType;

#[test]
fn indices_to_face_counts_from_one() {
    let (tri, quad) = indices_to_face([0, 3, 4, 1], 2);
    let ix = |v| Indices { vertex: v, texture: None, normal: Some(2) };
    assert_eq!(tri, [ix(1), ix(4), ix(5)]);
    assert_eq!(quad, Some(ix(2)));
}

#[test]
fn grid_faces_cover_every_cell() {
    let mut faces = Vec::new();
    push_grid_faces(&mut faces, 10, 3, 2, 1);
    assert_eq!(faces.len(), 4);
    assert_eq!(faces[0], indices_to_face([10, 13, 14, 11], 1));
    assert_eq!(faces[1], indices_to_face([11, 14, 15, 12], 1));
    assert_eq!(faces[2], indices_to_face([13, 16, 17, 14], 1));
    assert_eq!(faces[3], indices_to_face([14, 17, 18, 15], 1));
    let mut none = Vec::new();
    push_grid_faces(&mut none, 0, 1, 5, 1);
    assert!(none.is_empty());
}

#[test]
fn key_axes() {
    let mut k = KeyStates::new();
    assert_eq!(k.translation_axes(), (0, 0, 0));
    k.left = true;
    k.up = true;
    k.forward = true;
    assert_eq!(k.translation_axes(), (1, -1, 1));
    k.right = true;
    k.backward = true;
    assert_eq!(k.translation_axes(), (0, -1, 0));
}

#[test]
fn option_slots() {
    assert_eq!(option_offsets(&vec![OptionKind::Stroke, OptionKind::SliderF32]), Some(vec![0, 3]));
    assert_eq!(option_offsets(&vec![]), Some(vec![]));
    assert_eq!(
        option_offsets(&vec![OptionKind::SliderI32, OptionKind::SliderI32, OptionKind::SliderF32, OptionKind::SliderF32, OptionKind::SliderF32, OptionKind::SliderI32, OptionKind::Checkbox]),
        Some(vec![0, 1, 2, 3, 4, 5, 6])
    );
    assert_eq!(option_offsets(&vec![OptionKind::Stroke, OptionKind::Stroke, OptionKind::Stroke]), None);
    assert_eq!(option_offsets(&vec![OptionKind::Stroke, OptionKind::Stroke, OptionKind::Checkbox, OptionKind::Checkbox]), Some(vec![0, 3, 6, 7]));
}

#[test]
fn vertex_components() {
    assert_eq!(VertexType::VertexPos.components(), 3);
    assert_eq!(VertexType::VertexNorm.components(), 6);
}
