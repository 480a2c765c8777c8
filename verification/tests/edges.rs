//! Tests for half-edges and the undirected identity of global edges.

use fj_kernel::math::p2;
use fj_kernel::objects::{GlobalEdge, GlobalVertex, Objects};
use fj_kernel::partial::PartialHalfEdge;

#[test]
fn global_edge_equality() {
    let mut objects = Objects::new();

    let surface = objects.xy_plane();

    let a = p2(0, 0);
    let b = p2(1, 0);

    let a_to_b = {
        let mut half_edge = PartialHalfEdge::default();
        half_edge.update_as_line_segment_from_points(surface, [a, b]);
        half_edge.build(&mut objects)
    };
    let b_to_a = {
        let mut half_edge = PartialHalfEdge::default();
        half_edge.update_as_line_segment_from_points(surface, [b, a]);
        half_edge.build(&mut objects)
    };

    assert_eq!(a_to_b.global_form(), b_to_a.global_form());
}

#[test]
fn global_edge_vertices_are_normalized() {
    let mut objects = Objects::new();
    let gv_a = objects.global_vertices.insert(GlobalVertex { position: fj_kernel::math::p3(0, 0, 0) });
    let gv_b = objects.global_vertices.insert(GlobalVertex { position: fj_kernel::math::p3(1, 0, 0) });
    let gc = objects.global_curves.insert(fj_kernel::objects::GlobalCurve {
        line: fj_kernel::math::Line::new(fj_kernel::math::p3(0, 0, 0), fj_kernel::math::v3(1, 0, 0)),
    });

    let ab = GlobalEdge::new(gc, [gv_a, gv_b]);
    let ba = GlobalEdge::new(gc, [gv_b, gv_a]);

    assert_eq!(ab, ba);
    assert_eq!(
        ab.vertices().access_in_normalized_order(),
        ba.vertices().access_in_normalized_order()
    );
    let [lo, hi] = ab.vertices().access_in_normalized_order();
    assert!(lo.id() <= hi.id());
}

#[test]
fn half_edge_accessors() {
    let mut objects = Objects::new();
    let surface = objects.xy_plane();
    let mut half_edge = PartialHalfEdge::default();
    half_edge.update_as_line_segment_from_points(surface, [p2(0, 0), p2(3, 4)]);
    let built = half_edge.build(&mut objects);

    let [start, end] = built.boundary();
    assert_eq!(start, fj_kernel::math::p1(0));
    assert_eq!(end, fj_kernel::math::p1(1));
    let [v0, v1] = built.surface_vertices();
    assert_eq!(built.start_vertex(), v0);
    assert_ne!(v0, v1);
}
