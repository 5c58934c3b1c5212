use decorous::terrain::{check_triangulation, surface_faces, vertex_faces, TopographyError};
use delaunator::{triangulate, Point};

fn unit_square() -> Vec<Point> {
    vec![
        Point { x: 0.0, y: 0.0 },
        Point { x: 1.0, y: 0.0 },
        Point { x: 1.0, y: 1.0 },
        Point { x: 0.0, y: 1.0 },
    ]
}

#[test]
fn unit_square_gives_two_triangles_touching_every_vertex() {
    let t = triangulate(&unit_square()).triangles;
    assert_eq!(t.len(), 6);
    assert_eq!(check_triangulation(4, &t), Ok(()));
    let faces = vertex_faces(4, &t);
    assert_eq!(faces.len(), 4);
    for f in &faces {
        assert!(!f.is_empty());
        assert!(f.iter().all(|&i| i < 2));
    }
    assert_eq!(faces.iter().map(|f| f.len()).sum::<usize>(), 6);
}

#[test]
fn triangulation_is_deterministic() {
    let a = triangulate(&unit_square()).triangles;
    let b = triangulate(&unit_square()).triangles;
    assert_eq!(a, b);
    assert_eq!(vertex_faces(4, &a), vertex_faces(4, &b));
}

#[test]
fn too_few_points() {
    assert_eq!(check_triangulation(2, &vec![]), Err(TopographyError::InsufficientPoints));
}

#[test]
fn colinear_points_are_degenerate() {
    let pts = vec![Point { x: 0.0, y: 0.0 }, Point { x: 1.0, y: 1.0 }, Point { x: 2.0, y: 2.0 }];
    let t = triangulate(&pts).triangles;
    assert_eq!(check_triangulation(3, &t), Err(TopographyError::DegenerateTriangulation));
}

#[test]
fn malformed_index_lists() {
    assert_eq!(check_triangulation(3, &vec![0, 1]), Err(TopographyError::MalformedTriangles));
    assert_eq!(check_triangulation(3, &vec![0, 1, 3]), Err(TopographyError::MalformedTriangles));
}

#[test]
fn isolated_vertex_has_no_face() {
    let faces = vertex_faces(5, &vec![0, 1, 2, 2, 1, 3]);
    assert_eq!(faces, vec![vec![0], vec![0, 1], vec![0, 1], vec![1], vec![]]);
}

#[test]
fn surface_faces_checks_then_lists() {
    assert_eq!(surface_faces(2, &vec![0, 1, 1]), Err(TopographyError::InsufficientPoints));
    assert_eq!(surface_faces(3, &vec![]), Err(TopographyError::DegenerateTriangulation));
    assert_eq!(surface_faces(4, &vec![0, 1, 4]), Err(TopographyError::MalformedTriangles));
    assert_eq!(surface_faces(3, &vec![0, 1, 2]), Ok(vec![vec![0], vec![0], vec![0]]));
}
