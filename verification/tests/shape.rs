//! Tests for the shape layer's validated insertion.

use fj_kernel::math::p3;
use fj_kernel::shape::Shape;
use fj_kernel::topology::Cycle;

const MIN_DISTANCE: i64 = 500;

#[test]
fn create_valid() {
    let mut shape = Shape::new().with_min_distance(MIN_DISTANCE);

    shape.vertices.add(p3(0, 0, 0)).unwrap();
    shape.vertices.add(p3(5000, 0, 0)).unwrap();
}

#[test]
fn create_too_close_is_rejected() {
    let mut shape = Shape::new().with_min_distance(MIN_DISTANCE);

    shape.vertices.add(p3(0, 0, 0)).unwrap();
    let error = shape.vertices.add(p3(50, 0, 0)).unwrap_err();
    assert_eq!(*error.existing.location(), p3(0, 0, 0));
}

#[test]
fn create_at_exactly_minimum_distance() {
    let mut shape = Shape::new().with_min_distance(MIN_DISTANCE);

    shape.vertices.add(p3(0, 0, 0)).unwrap();
    shape.vertices.add(p3(MIN_DISTANCE, 0, 0)).unwrap();
}

#[test]
fn cycle_with_unknown_edge_is_rejected() {
    let mut shape = Shape::new();
    let a = shape.vertices.add(p3(0, 0, 0)).unwrap();
    let b = shape.vertices.add(p3(1000, 0, 0)).unwrap();
    let ab = shape.edges.add_line_segment([a, b]);

    let mut other = Shape::new();
    let c = other.vertices.add(p3(0, 0, 0)).unwrap();
    let d = other.vertices.add(p3(0, 2000, 0)).unwrap();
    let cd = other.edges.add_line_segment([c, d]);

    let ok = shape.cycles.add(Cycle { edges: vec![ab] }, &shape.edges);
    assert!(ok.is_ok());

    let err = shape.cycles.add(Cycle { edges: vec![cd] }, &shape.edges);
    assert_eq!(err.unwrap_err().index, 0);
}
