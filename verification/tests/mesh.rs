//! Index logic of the model-file loader.

use buat::mesh::resolve_face_index;
use buat::mesh::triangulate_fan;

#[test]
fn quad_becomes_two_fan_triangles() {
    let face = vec![10u32, 11, 12, 13];
    assert_eq!(triangulate_fan(&face), vec![10, 11, 12, 10, 12, 13]);
}

#[test]
fn triangle_passes_through() {
    let face = vec![4u32, 5, 6];
    assert_eq!(triangulate_fan(&face), vec![4, 5, 6]);
}

#[test]
fn hexagon_fans_from_first_vertex() {
    let face = vec![0u32, 1, 2, 3, 4, 5];
    assert_eq!(triangulate_fan(&face), vec![0, 1, 2, 0, 2, 3, 0, 3, 4, 0, 4, 5]);
}

#[test]
fn degenerate_faces_yield_nothing() {
    assert_eq!(triangulate_fan(&vec![7u32]), Vec::<u32>::new());
    assert_eq!(triangulate_fan(&vec![7u32, 8]), Vec::<u32>::new());
}

#[test]
fn face_references_resolve_one_based_and_negative() {
    // the fourth vertex, counted from one
    assert_eq!(resolve_face_index(4, 10), 3);
    // the last vertex read so far, counted from the end
    assert_eq!(resolve_face_index(-1, 10), 9);
    assert_eq!(resolve_face_index(-10, 10), 0);
    assert_eq!(resolve_face_index(1, 1), 0);
}
