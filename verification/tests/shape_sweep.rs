//! Tests for sweeping whole shapes.

use fj_kernel::geometry::{Surface, Swept};
use fj_kernel::math::{p3, v3, Point};
use fj_kernel::shape::{Handle, Shape};
use fj_kernel::sweep_shape::sweep_shape;
use fj_kernel::topology::{Cycle, Face};

#[test]
fn sweep_sweep() {
    // One unit of the original model maps to a thousand base units, so
    // that the triangle's corners clear the minimum vertex distance.
    let unit = 1000;
    let sketch = triangle([p3(0, 0, 0), p3(unit, 0, 0), p3(0, unit, 0)]);

    let swept = sweep_shape(sketch.shape, v3(0, 0, unit), 0);

    let bottom_face = sketch.face;
    let top_face = triangle([p3(0, 0, unit), p3(unit, 0, unit), p3(0, unit, unit)]).face;

    assert!(swept.faces.contains(&bottom_face));
    assert!(swept.faces.contains(&top_face));
}

struct Triangle {
    shape: Shape,
    face: Handle<Face>,
}

fn triangle(points: [Point<3>; 3]) -> Triangle {
    let mut shape = Shape::new();

    let a = shape.vertices.add(points[0]).unwrap();
    let b = shape.vertices.add(points[1]).unwrap();
    let c = shape.vertices.add(points[2]).unwrap();

    let ab = shape.edges.add_line_segment([a, b]);
    let bc = shape.edges.add_line_segment([b, c]);
    let ca = shape.edges.add_line_segment([c, a]);

    let cycles = shape
        .cycles
        .add(Cycle { edges: vec![ab, bc, ca] }, &shape.edges)
        .unwrap();

    let surface = shape.surfaces.add(Surface::Swept(Swept::plane_from_points(points)));
    let abc = Face::Face { surface, cycles: vec![cycles] };

    let face = shape.faces.add(abc);

    Triangle { shape, face }
}
