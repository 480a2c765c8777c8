//! Sweeping a whole shape along a path.
//!
//! The swept shape holds the original faces at the bottom, their
//! translated copies at the top, and, for every cycle of the original,
//! one side face built from the quadrilaterals that the cycle's segments
//! trace out — each quadrilateral split into two triangles.

use vstd::prelude::*;

use crate::approximation::Approximation;
use crate::math::{add_seqs, can_add, Scalar, Transform, Triangle, Vector};
use crate::shape::{Handle, Shape};
use crate::topology::{
    copy_face, face_same, lemma_face_same_reflexive, lemma_face_same_transitive, Cycle, Edge,
    Face, Vertex,
};

verus! {

/// Whether an edge's geometry can be translated by the offset without
/// leaving the scalar range.
pub open spec fn edge_translatable(e: Edge, off: Seq<int>) -> bool {
    &&& can_add(e.curve.spec_line().origin@, off)
    &&& can_add((e.vertices@[0]).0.spec_location()@, off)
    &&& can_add((e.vertices@[1]).0.spec_location()@, off)
    &&& can_add((e.vertices@[0]).0.spec_canonical()@, off)
    &&& can_add((e.vertices@[1]).0.spec_canonical()@, off)
}

/// Whether every edge of a cycle can be translated by the offset.
pub open spec fn cycle_translatable(c: &Cycle, off: Seq<int>) -> bool {
    forall|i: int|
        0 <= i < c.edges@.len() ==> edge_translatable((#[trigger] c.edges@[i]).0, off)
}

/// Whether a face's whole geometry can be translated by the offset.
pub open spec fn face_translatable(f: &Face, off: Seq<int>) -> bool {
    if f.is_brep() {
        &&& can_add(f.spec_surface().spec_swept().curve.origin@, off)
        &&& forall|i: int|
            0 <= i < f.spec_cycles().len() ==> cycle_translatable(
                &(#[trigger] f.spec_cycles()[i]).0,
                off,
            )
    } else {
        forall|i: int, k: int|
            0 <= i < f.spec_triangles().len() && 0 <= k < 3 ==> can_add(
                #[trigger] ((f.spec_triangles()[i])@[k])@,
                off,
            )
    }
}

/// Whether `moved` is the edge `e` translated by `off`: the curve's
/// origin and both vertices carried along the offset, the direction kept.
pub open spec fn edge_translated(moved: Edge, e: Edge, off: Seq<int>) -> bool {
    &&& moved.curve.spec_line().origin@ == add_seqs(e.curve.spec_line().origin@, off)
    &&& moved.curve.spec_line().direction@ == e.curve.spec_line().direction@
    &&& (moved.vertices@[0]).0.spec_location()@ == add_seqs(
        (e.vertices@[0]).0.spec_location()@,
        off,
    )
    &&& (moved.vertices@[1]).0.spec_location()@ == add_seqs(
        (e.vertices@[1]).0.spec_location()@,
        off,
    )
    &&& (moved.vertices@[0]).0.spec_canonical()@ == add_seqs(
        (e.vertices@[0]).0.spec_canonical()@,
        off,
    )
    &&& (moved.vertices@[1]).0.spec_canonical()@ == add_seqs(
        (e.vertices@[1]).0.spec_canonical()@,
        off,
    )
}

/// Whether `moved` is the cycle `c` translated by `off`, edge by edge.
pub open spec fn cycle_translated(moved: &Cycle, c: &Cycle, off: Seq<int>) -> bool {
    &&& moved.edges@.len() == c.edges@.len()
    &&& forall|k: int|
        0 <= k < c.edges@.len() ==> edge_translated(
            (#[trigger] moved.edges@[k]).0,
            (c.edges@[k]).0,
            off,
        )
}

/// Whether `moved` is the face `f` translated by `off`: same
/// representation, the surface carried along the offset, and every cycle
/// translated edge by edge.
pub open spec fn face_translated(moved: &Face, f: &Face, off: Seq<int>) -> bool {
    &&& moved.is_brep() == f.is_brep()
    &&& f.is_brep() ==> {
        &&& moved.spec_surface().spec_swept().curve.origin@ == add_seqs(
            f.spec_surface().spec_swept().curve.origin@,
            off,
        )
        &&& moved.spec_surface().spec_swept().curve.direction@
            == f.spec_surface().spec_swept().curve.direction@
        &&& moved.spec_surface().spec_swept().path@ == f.spec_surface().spec_swept().path@
        &&& moved.spec_cycles().len() == f.spec_cycles().len()
        &&& forall|i: int|
            0 <= i < f.spec_cycles().len() ==> cycle_translated(
                &(#[trigger] moved.spec_cycles()[i]).0,
                &(f.spec_cycles()[i]).0,
                off,
            )
    }
    &&& !f.is_brep() ==> moved.spec_triangles().len() == f.spec_triangles().len()
}

/// Translate a face, registering its translated surface with the shape.
///
/// The translated face is built from fresh vertex values; a vertex shared
/// by two faces is therefore translated once per face, which leaves
/// coincident vertex values rather than shared ones.
pub fn transform_face(face: &Face, transform: &Transform, shape: &mut Shape) -> (r: Face)
    requires
        face_translatable(face, transform.spec_offset()),
    ensures
        final(shape).vertices == old(shape).vertices,
        final(shape).edges == old(shape).edges,
        final(shape).cycles == old(shape).cycles,
        final(shape).faces == old(shape).faces,
        face_translated(&r, face, transform.spec_offset()),
        !face.is_brep() ==> forall|i: int, k: int|
            0 <= i < r.spec_triangles().len() && 0 <= k < 3 ==> #[trigger] ((
            r.spec_triangles()[i])@[k])@ == add_seqs(
                (face.spec_triangles()[i]@[k])@,
                transform.spec_offset(),
            ),
{
    let off = transform.offset();
    match face {
        Face::Face { surface, cycles } => {
            proof {
                assert(cycles@ == face.spec_cycles());
                assert(surface.0 == face.spec_surface());
            }
            let new_surface = shape.surfaces.add(surface.0.translate(&off));
            let nc = cycles.len();
            let mut cs: Vec<Handle<Cycle>> = Vec::new();
            let mut i: usize = 0;
            while i < nc
                invariant
                    nc == cycles@.len(),
                    i <= nc,
                    cs@.len() == i,
                    cycles@ == face.spec_cycles(),
                    face_translatable(face, transform.spec_offset()),
                    face.is_brep(),
                    off@ == transform.spec_offset(),
                    forall|j: int|
                        0 <= j < i ==> cycle_translated(
                            &(#[trigger] cs@[j]).0,
                            &(cycles@[j]).0,
                            transform.spec_offset(),
                        ),
                decreases nc - i,
            {
                let cycle = &cycles[i].0;
                let ne = cycle.edges.len();
                let mut es: Vec<Handle<Edge>> = Vec::new();
                let mut k: usize = 0;
                while k < ne
                    invariant
                        ne == cycle.edges@.len(),
                        k <= ne,
                        es@.len() == k,
                        cycle_translatable(cycle, off@),
                        off@ == transform.spec_offset(),
                        forall|m: int|
                            0 <= m < k ==> edge_translated(
                                (#[trigger] es@[m]).0,
                                (cycle.edges@[m]).0,
                                transform.spec_offset(),
                            ),
                    decreases ne - k,
                {
                    let edge = &cycle.edges[k].0;
                    let v0 = Handle(edge.vertices[0].0.translate(&off));
                    let v1 = Handle(edge.vertices[1].0.translate(&off));
                    es.push(Handle(Edge { curve: edge.curve.translate(&off), vertices: [v0, v1] }));
                    k += 1;
                }
                cs.push(Handle(Cycle { edges: es }));
                i += 1;
            }
            let r = Face::Face { surface: new_surface, cycles: cs };
            proof {
                assert(r.spec_cycles() == cs@);
            }
            r
        },
        Face::Triangles(ts) => {
            proof {
                assert(ts@ == face.spec_triangles());
            }
            let nt = ts.len();
            let mut out: Vec<Triangle> = Vec::new();
            let mut i: usize = 0;
            while i < nt
                invariant
                    nt == ts@.len(),
                    i <= nt,
                    out@.len() == i,
                    ts@ == face.spec_triangles(),
                    face_translatable(face, transform.spec_offset()),
                    !face.is_brep(),
                    off@ == transform.spec_offset(),
                    forall|j: int, k: int|
                        0 <= j < i && 0 <= k < 3 ==> #[trigger] ((out@[j])@[k])@ == add_seqs(
                            (face.spec_triangles()[j]@[k])@,
                            transform.spec_offset(),
                        ),
                decreases nt - i,
            {
                let t = &ts[i];
                let p = t.points();
                proof {
                    ts@[i as int].lemma_len();
                }
                let moved = Triangle::from_points(
                    [p[0].translate(&off), p[1].translate(&off), p[2].translate(&off)],
                );
                out.push(moved);
                i += 1;
            }
            let r = Face::Triangles(out);
            proof {
                assert(r.spec_triangles() == out@);
            }
            r
        },
    }
}

/// A face with the same geometry as a translated face is itself that
/// translation.
proof fn lemma_face_same_translated(a: &Face, b: &Face, f: &Face, off: Seq<int>)
    requires
        face_same(a, b),
        face_translated(b, f, off),
    ensures
        face_translated(a, f, off),
{
}

/// Whether the face is the side wall swept from the cycle along `off`:
/// a triangle list with two triangles per cycle edge, each quadrilateral
/// — the edge's segment at the bottom, its translated copy at the top —
/// split along its diagonal.
pub open spec fn side_face_of_cycle(f: &Face, c: &Cycle, off: Seq<int>) -> bool {
    &&& !f.is_brep()
    &&& f.spec_triangles().len() == 2 * c.edges@.len()
    &&& forall|m: int|
        0 <= m < c.edges@.len() ==> {
            let v0 = (((#[trigger] c.edges@[m]).0.vertices@[0]).0).spec_location()@;
            let v1 = (((c.edges@[m]).0.vertices@[1]).0).spec_location()@;
            &&& (f.spec_triangles()[2 * m])@[0]@ == v0
            &&& (f.spec_triangles()[2 * m])@[1]@ == v1
            &&& (f.spec_triangles()[2 * m])@[2]@ == add_seqs(v1, off)
            &&& (f.spec_triangles()[2 * m + 1])@[0]@ == v0
            &&& (f.spec_triangles()[2 * m + 1])@[1]@ == add_seqs(v1, off)
            &&& (f.spec_triangles()[2 * m + 1])@[2]@ == add_seqs(v0, off)
        }
}

/// A face with the same geometry as a side wall is itself that side wall.
proof fn lemma_face_same_side(a: &Face, b: &Face, c: &Cycle, off: Seq<int>)
    requires
        face_same(a, b),
        side_face_of_cycle(b, c, off),
    ensures
        side_face_of_cycle(a, c, off),
{
    assert forall|m: int| 0 <= m < c.edges@.len() implies {
        let v0 = (((#[trigger] c.edges@[m]).0.vertices@[0]).0).spec_location()@;
        let v1 = (((c.edges@[m]).0.vertices@[1]).0).spec_location()@;
        &&& (a.spec_triangles()[2 * m])@[0]@ == v0
        &&& (a.spec_triangles()[2 * m])@[1]@ == v1
        &&& (a.spec_triangles()[2 * m])@[2]@ == add_seqs(v1, off)
        &&& (a.spec_triangles()[2 * m + 1])@[0]@ == v0
        &&& (a.spec_triangles()[2 * m + 1])@[1]@ == add_seqs(v1, off)
        &&& (a.spec_triangles()[2 * m + 1])@[2]@ == add_seqs(v0, off)
    } by {
        assert(crate::topology::triangle_same(
            a.spec_triangles()[2 * m],
            b.spec_triangles()[2 * m],
        ));
        assert(crate::topology::triangle_same(
            a.spec_triangles()[2 * m + 1],
            b.spec_triangles()[2 * m + 1],
        ));
    }
}

/// Create a new shape by sweeping an existing one along a path.
///
/// The result holds, in order: every face of the original (the bottom),
/// the translated copy of every face (the top), and one triangle-list
/// side face per cycle of the original, made of the two triangles of each
/// quadrilateral that a cycle segment sweeps out.
pub fn sweep_shape(original: Shape, path: Vector<3>, tolerance: Scalar) -> (r: Shape)
    requires
        tolerance >= 0,
        forall|i: int|
            0 <= i < original.faces@.len() ==> face_translatable(
                &(#[trigger] original.faces@[i]),
                path@,
            ),
        forall|i: int|
            0 <= i < original.cycles@.len() ==> cycle_translatable(
                &(#[trigger] original.cycles@[i]),
                path@,
            ),
    ensures
        r.faces@.len() == 2 * original.faces@.len() + original.cycles@.len(),
        forall|i: int|
            0 <= i < original.faces@.len() ==> face_same(
                &(#[trigger] r.faces@[i]),
                &original.faces@[i],
            ),
        forall|i: int|
            0 <= i < original.faces@.len() ==> face_translated(
                &(#[trigger] r.faces@[original.faces@.len() + i]),
                &original.faces@[i],
                path@,
            ),
        forall|i: int|
            0 <= i < original.cycles@.len() ==> side_face_of_cycle(
                &(#[trigger] r.faces@[2 * original.faces@.len() + i]),
                &original.cycles@[i],
                path@,
            ),
{
    let mut shape = Shape::new();
    let translation = Transform::translation(path);

    let nf = original.faces.len();

    // The bottom: every face of the original, as it is.
    let mut i: usize = 0;
    while i < nf
        invariant
            nf == original.faces@.len(),
            i <= nf,
            shape.faces@.len() == i,
            forall|j: int|
                0 <= j < i ==> face_same(&(#[trigger] shape.faces@[j]), &original.faces@[j]),
        decreases nf - i,
    {
        let bottom = copy_face(original.faces.get(i));
        let ghost bottom_g = bottom;
        let h = shape.faces.add(bottom);
        proof {
            lemma_face_same_transitive(
                &shape.faces@[i as int],
                &bottom_g,
                &original.faces@[i as int],
            );
        }
        i += 1;
    }

    // The top: the translated copy of every face.
    let mut i: usize = 0;
    while i < nf
        invariant
            nf == original.faces@.len(),
            i <= nf,
            shape.faces@.len() == nf + i,
            forall|j: int|
                0 <= j < nf ==> face_same(&(#[trigger] shape.faces@[j]), &original.faces@[j]),
            forall|j: int|
                0 <= j < i ==> face_translated(
                    &(#[trigger] shape.faces@[nf + j]),
                    &original.faces@[j],
                    path@,
                ),
            forall|j: int|
                0 <= j < original.faces@.len() ==> face_translatable(
                    &(#[trigger] original.faces@[j]),
                    path@,
                ),
            translation.spec_offset() == path@,
        decreases nf - i,
    {
        let top = transform_face(original.faces.get(i), &translation, &mut shape);
        let ghost top_g = top;
        shape.faces.add(top);
        proof {
            lemma_face_same_translated(
                &shape.faces@[nf + i as int],
                &top_g,
                &original.faces@[i as int],
                path@,
            );
        }
        i += 1;
    }

    // The sides: one triangle-list face per cycle.
    let ncy = original.cycles.len();
    let ghost n2: int = 2 * original.faces@.len() as int;
    let mut i: usize = 0;
    while i < ncy
        invariant
            ncy == original.cycles@.len(),
            nf == original.faces@.len(),
            i <= ncy,
            shape.faces@.len() == 2 * nf + i,
            tolerance >= 0,
            n2 == 2 * original.faces@.len(),
            forall|j: int|
                0 <= j < nf ==> face_same(&(#[trigger] shape.faces@[j]), &original.faces@[j]),
            forall|j: int|
                0 <= j < nf ==> face_translated(
                    &(#[trigger] shape.faces@[nf + j]),
                    &original.faces@[j],
                    path@,
                ),
            forall|j: int|
                0 <= j < i ==> side_face_of_cycle(
                    &(#[trigger] shape.faces@[n2 + j]),
                    &original.cycles@[j],
                    path@,
                ),
            forall|j: int|
                0 <= j < original.cycles@.len() ==> cycle_translatable(
                    &(#[trigger] original.cycles@[j]),
                    path@,
                ),
            translation.spec_offset() == path@,
        decreases ncy - i,
    {
        let cycle = original.cycles.get(i);
        let approx = Approximation::for_cycle(cycle, tolerance);
        let ns = approx.segments.len();
        let mut side: Vec<Triangle> = Vec::new();
        let mut k: usize = 0;
        while k < ns
            invariant
                ns == approx.segments@.len(),
                ns == cycle.edges@.len(),
                k <= ns,
                side@.len() == 2 * k,
                *cycle == original.cycles@[i as int],
                0 <= i < original.cycles@.len(),
                forall|m: int|
                    0 <= m < ns ==> (#[trigger] approx.segments@[m])@[0]@ == ((
                    cycle.edges@[m]).0.vertices@[0]).0.spec_location()@
                        && approx.segments@[m]@[1]@ == ((
                    cycle.edges@[m]).0.vertices@[1]).0.spec_location()@,
                cycle_translatable(cycle, path@),
                translation.spec_offset() == path@,
                forall|m: int|
                    0 <= m < k ==> {
                        let v0 = (((#[trigger] cycle.edges@[m]).0.vertices@[0]).0).spec_location()@;
                        let v1 = (((cycle.edges@[m]).0.vertices@[1]).0).spec_location()@;
                        &&& (side@[2 * m])@[0]@ == v0
                        &&& (side@[2 * m])@[1]@ == v1
                        &&& (side@[2 * m])@[2]@ == add_seqs(v1, path@)
                        &&& (side@[2 * m + 1])@[0]@ == v0
                        &&& (side@[2 * m + 1])@[1]@ == add_seqs(v1, path@)
                        &&& (side@[2 * m + 1])@[2]@ == add_seqs(v0, path@)
                    },
            decreases ns - k,
        {
            let segment = &approx.segments[k];
            let ends = segment.points();
            let v0 = ends[0];
            let v1 = ends[1];
            proof {
                assert(edge_translatable((cycle.edges@[k as int]).0, path@));
            }
            let moved = translation.transform_segment(segment);
            let moved_ends = moved.points();
            let v3 = moved_ends[0];
            let v2 = moved_ends[1];
            let lower = Triangle::from_points([v0, v1, v2]);
            let upper = Triangle::from_points([v0, v2, v3]);
            side.push(lower);
            side.push(upper);
            proof {
                lower.lemma_len();
                upper.lemma_len();
            }
            k += 1;
        }
        let side_face = Face::Triangles(side);
        proof {
            assert(side_face.spec_triangles().len() == 2 * cycle.edges@.len());
            assert(side_face_of_cycle(&side_face, cycle, path@));
        }
        let ghost side_ghost = side_face;
        shape.faces.add(side_face);
        proof {
            lemma_face_same_side(
                &shape.faces@[n2 + i as int],
                &side_ghost,
                &original.cycles@[i as int],
                path@,
            );
        }
        i += 1;
    }
    shape
}

} // verus!
