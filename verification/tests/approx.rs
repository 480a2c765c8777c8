//! Tests for the approximation engine and its cache.

use fj_kernel::approx::{
    approx_half_edge_with_cache, CurveCache, Tolerance,
};
use fj_kernel::math::{p2, p3};
use fj_kernel::objects::Objects;
use fj_kernel::partial::PartialHalfEdge;

#[test]
fn approximation_is_deterministic() {
    let mut objects = Objects::new();
    let surface = objects.xy_plane();
    let mut half_edge = PartialHalfEdge::default();
    half_edge.update_as_line_segment_from_points(surface, [p2(0, 0), p2(7, 3)]);
    let built = half_edge.build(&mut objects);
    let edge = objects.half_edges.insert(built);

    let tolerance = Tolerance::from_scalar(10).unwrap();
    let mut cache = CurveCache::new();

    let first = approx_half_edge_with_cache(edge, tolerance, &mut cache, &objects);
    let second = approx_half_edge_with_cache(edge, tolerance, &mut cache, &objects);

    assert_eq!(first.len(), second.len());
    let mut i: usize = 0;
    while i < first.len() {
        assert_eq!(first[i], second[i]);
        i += 1;
    }
}

#[test]
fn approximation_joins_the_edge_vertices() {
    let mut objects = Objects::new();
    let surface = objects.xy_plane();
    let mut half_edge = PartialHalfEdge::default();
    half_edge.update_as_line_segment_from_points(surface, [p2(0, 0), p2(7, 3)]);
    let built = half_edge.build(&mut objects);
    let edge = objects.half_edges.insert(built);

    let tolerance = Tolerance::from_scalar(1).unwrap();
    let mut cache = CurveCache::new();
    let points = approx_half_edge_with_cache(edge, tolerance, &mut cache, &objects);

    assert_eq!(points.len(), 2);
    assert_eq!(points[0], p3(0, 0, 0));
    assert_eq!(points[1], p3(7, 3, 0));
}

#[test]
fn tolerance_must_be_positive() {
    assert!(Tolerance::from_scalar(1).is_ok());
    let error = Tolerance::from_scalar(0).unwrap_err();
    assert_eq!(error.value, 0);
    assert!(Tolerance::from_scalar(-3).is_err());
}
