//! Tests for sweeping store-backed topology.

use fj_kernel::math::{p2, v3};
use fj_kernel::objects::{Color, Objects, Sketch};
use fj_kernel::partial::{PartialCycle, PartialFace, PartialHalfEdge};
use fj_kernel::sweep::{reverse_half_edge, sweep_half_edge, sweep_sketch};

#[test]
fn edge_sweep() {
    let mut objects = Objects::new();

    let half_edge = {
        let mut half_edge = PartialHalfEdge::default();
        half_edge.update_as_line_segment_from_points(
            objects.xy_plane(),
            [p2(0, 0), p2(1, 0)],
        );
        let built = half_edge.build(&mut objects);
        objects.half_edges.insert(built)
    };

    let face = sweep_half_edge(half_edge, Color::default(), v3(0, 0, 1), &mut objects);

    let expected_face = {
        let surface = objects.xz_plane();

        let bottom = {
            let mut half_edge = PartialHalfEdge::default();
            half_edge.update_as_line_segment_from_points(surface, [p2(0, 0), p2(1, 0)]);
            half_edge
        };
        let side_up = {
            let mut side_up = PartialHalfEdge::default();
            side_up.curve.surface = Some(surface);

            side_up.vertices[0].1 = bottom.vertices[1].1;
            side_up.vertices[1].1.position = Some(p2(1, 1));
            side_up.vertices[1].1.surface = Some(surface);

            side_up.infer_global_form();
            side_up.update_as_line_segment();

            side_up
        };
        let top = {
            let mut top = PartialHalfEdge::default();
            top.curve.surface = Some(surface);

            top.vertices[0].1.position = Some(p2(0, 1));
            top.vertices[0].1.surface = Some(surface);
            top.vertices[1].1 = side_up.vertices[1].1;

            top.infer_global_form();
            top.update_as_line_segment();

            let built = top.build(&mut objects);
            let inserted = objects.half_edges.insert(built);
            let reversed = reverse_half_edge(inserted, &mut objects);
            PartialHalfEdge::from_half_edge(reversed, &objects)
        };
        let side_down = {
            let mut side_down = PartialHalfEdge::default();
            side_down.curve.surface = Some(surface);

            side_down.vertices[0].1 = bottom.vertices[0].1;
            side_down.vertices[1].1 = top.vertices[1].1;

            side_down.infer_global_form();
            side_down.update_as_line_segment();

            let built = side_down.build(&mut objects);
            let inserted = objects.half_edges.insert(built);
            let reversed = reverse_half_edge(inserted, &mut objects);
            PartialHalfEdge::from_half_edge(reversed, &objects)
        };

        let mut cycle = PartialCycle::default();
        cycle.half_edges.push(bottom);
        cycle.half_edges.push(side_up);
        cycle.half_edges.push(top);
        cycle.half_edges.push(side_down);

        let face = PartialFace { exterior: cycle, color: None };
        let built = face.build(&mut objects);
        objects.faces.insert(built)
    };

    assert_eq!(face, expected_face);
}

#[test]
fn sketch_sweep_square() {
    let mut objects = Objects::new();
    let surface = objects.xy_plane();

    let corners = [p2(0, 0), p2(1, 0), p2(1, 1), p2(0, 1)];
    let mut cycle = PartialCycle::default();
    let mut i: usize = 0;
    while i < 4 {
        let mut half_edge = PartialHalfEdge::default();
        half_edge.update_as_line_segment_from_points(
            surface,
            [corners[i], corners[(i + 1) % 4]],
        );
        cycle.half_edges.push(half_edge);
        i += 1;
    }
    let face = PartialFace { exterior: cycle, color: None }.build(&mut objects);
    let face = objects.faces.insert(face);
    let sketch = objects.sketches.insert(Sketch { faces: vec![face] });

    let vertices_before = objects.global_vertices.len();
    assert_eq!(vertices_before, 4);

    let solid = sweep_sketch(sketch, v3(0, 0, 5), &mut objects);

    let shells = objects.solids.get(&solid).shells.clone();
    assert_eq!(shells.len(), 1);
    let faces = objects.shells.get(&shells[0]).faces.clone();
    assert_eq!(faces.len(), 6);
    assert_eq!(objects.global_vertices.len(), 2 * vertices_before);
}
