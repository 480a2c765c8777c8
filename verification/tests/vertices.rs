//! Tests for shape-layer vertices and segments.

use fj_kernel::geometry::Curve;
use fj_kernel::math::{p1, p3, v3, Segment, Transform};
use fj_kernel::topology::Vertex;

#[test]
fn vertex_conversions() {
    let vertex = Vertex::create_at(p3(2, 4, 6));
    assert_eq!(*vertex.location(), p3(2, 4, 6));
    assert_eq!(*vertex.to_canonical().location(), p3(2, 4, 6));

    let curve = Curve::line_from_points(p3(0, 0, 0), p3(1, 2, 3));
    let on_curve = Vertex::create_at(p3(2, 4, 6));
    let one_dimensional = on_curve.to_1d(&curve);
    assert_eq!(*one_dimensional.location(), p1(2));
    assert_eq!(*one_dimensional.to_canonical().location(), p3(2, 4, 6));
}

#[test]
fn vertex_transform_moves_the_canonical_form() {
    let curve = Curve::line_from_points(p3(0, 0, 0), p3(1, 0, 0));
    let vertex = Vertex::create_at(p3(3, 0, 0)).to_1d(&curve);
    let moved = vertex.transform(&Transform::translation(v3(0, 0, 9)));
    assert_eq!(*moved.location(), p1(3));
    assert_eq!(*moved.to_canonical().location(), p3(3, 0, 9));
}

#[test]
fn segment_points() {
    let segment = Segment::from_points([p3(1, 2, 3), p3(4, 5, 6)]);
    assert_eq!(segment.points(), [p3(1, 2, 3), p3(4, 5, 6)]);

    let flat = Segment::from_points([fj_kernel::math::p2(1, 2), fj_kernel::math::p2(3, 4)]);
    assert_eq!(flat.points(), [fj_kernel::math::p2(1, 2), fj_kernel::math::p2(3, 4)]);
}
