//! Staged construction of topology: partial objects.
//!
//! A partial object is a draft with every field optional. Helpers fill
//! several related fields consistently — a half-edge set to be a line
//! segment gets its curve, boundary, and surface vertices in one step —
//! and `build` completes the draft, inferring what was not given: a
//! missing global vertex is derived from the surface position, a missing
//! global curve from the surface-local path, and a missing global edge
//! from the curve and vertices already present.

use vstd::prelude::*;

use crate::math::{can_sub, lemma_product_range, p1, seq_bounded, Line, Point, MAX_COORD};
use crate::objects::{
    half_edge_valid, normalized_pair, objects_extend, Color, Curve, Cycle, Face, GlobalCurve,
    GlobalEdge, GlobalVertex, HalfEdge, Objects, Surface, SurfaceVertex,
};
use crate::storage::{Handle, StoreItem};

verus! {

/// The point of a surface at the given surface coordinates.
pub open spec fn surface_eval(s: Surface, p: Seq<int>) -> Seq<int> {
    Seq::new(3, |j: int| s.curve.origin@[j] + p[0] * s.curve.direction@[j] + p[1] * s.path@[j])
}

/// Whether a surface's geometry is within coordinate bounds.
pub open spec fn surface_bounded(s: Surface) -> bool {
    seq_bounded(s.curve.origin@, MAX_COORD as int) && seq_bounded(
        s.curve.direction@,
        MAX_COORD as int,
    ) && seq_bounded(s.path@, MAX_COORD as int)
}

/// Whether a spatial coordinate sequence fits the scalar type.
pub open spec fn fits_scalar(p: Seq<int>) -> bool {
    forall|j: int| 0 <= j < p.len() ==> i64::MIN <= #[trigger] p[j] <= i64::MAX
}

/// Map a surface position to its point in space.
fn point_on_surface(s: &Surface, p: &Point<2>) -> (r: Point<3>)
    requires
        surface_bounded(*s),
        seq_bounded(p@, MAX_COORD as int),
        fits_scalar(surface_eval(*s, p@)),
    ensures
        r@ == surface_eval(*s, p@),
{
    proof {
        p.lemma_len();
        s.curve.origin.lemma_len();
        s.curve.direction.lemma_len();
        s.path.lemma_len();
    }
    let pu: i128 = p.coord(0) as i128;
    let pv: i128 = p.coord(1) as i128;
    proof {
        assert(surface_eval(*s, p@)[0] == s.curve.origin@[0] + p@[0] * s.curve.direction@[0] + p@[1]
            * s.path@[0]);
        assert(surface_eval(*s, p@)[1] == s.curve.origin@[1] + p@[0] * s.curve.direction@[1] + p@[1]
            * s.path@[1]);
        assert(surface_eval(*s, p@)[2] == s.curve.origin@[2] + p@[0] * s.curve.direction@[2] + p@[1]
            * s.path@[2]);
        assert(i64::MIN <= surface_eval(*s, p@)[0] <= i64::MAX);
        assert(i64::MIN <= surface_eval(*s, p@)[1] <= i64::MAX);
        assert(i64::MIN <= surface_eval(*s, p@)[2] <= i64::MAX);
    }
    let x = eval_component(s.curve.origin.coord(0), pu, s.curve.direction.component(0), pv, s.path.component(0));
    let y = eval_component(s.curve.origin.coord(1), pu, s.curve.direction.component(1), pv, s.path.component(1));
    let z = eval_component(s.curve.origin.coord(2), pu, s.curve.direction.component(2), pv, s.path.component(2));
    proof {
        assert(x as int == surface_eval(*s, p@)[0]);
        assert(y as int == surface_eval(*s, p@)[1]);
        assert(z as int == surface_eval(*s, p@)[2]);
    }
    let r = crate::math::p3(x, y, z);
    proof {
        assert(r@ =~= surface_eval(*s, p@));
    }
    r
}

/// One coordinate of a surface evaluation: `o + a * u + b * v`.
fn eval_component(o: i64, a: i128, u: i64, b: i128, v: i64) -> (r: i64)
    requires
        -MAX_COORD as int <= o as int <= MAX_COORD as int,
        -MAX_COORD as int <= a as int <= MAX_COORD as int,
        -MAX_COORD as int <= u as int <= MAX_COORD as int,
        -MAX_COORD as int <= b as int <= MAX_COORD as int,
        -MAX_COORD as int <= v as int <= MAX_COORD as int,
        i64::MIN <= o as int + a as int * u as int + b as int * v as int <= i64::MAX,
    ensures
        r as int == o as int + a as int * u as int + b as int * v as int,
{
    proof {
        lemma_product_range(a as int, u as int, MAX_COORD as int, MAX_COORD as int);
        lemma_product_range(b as int, v as int, MAX_COORD as int, MAX_COORD as int);
        assert(MAX_COORD as int * MAX_COORD as int == 1000000000000000000000000int)
            by (nonlinear_arith);
    }
    let total: i128 = o as i128 + a * (u as i128) + b * (v as i128);
    total as i64
}

/// A draft of a surface vertex.
#[derive(Clone, Copy, Debug)]
pub struct PartialSurfaceVertex {
    /// The position in surface coordinates, if already set.
    pub position: Option<Point<2>>,
    /// The surface, if already set.
    pub surface: Option<Handle<Surface>>,
    /// The global form, if already set; inferred from the position
    /// otherwise.
    pub global_form: Option<Handle<GlobalVertex>>,
}

impl Default for PartialSurfaceVertex {
    /// An empty draft.
    fn default() -> (r: Self)
        ensures
            r.position is None,
            r.surface is None,
            r.global_form is None,
    {
        Self { position: None, surface: None, global_form: None }
    }
}

/// A draft of a curve.
#[derive(Clone, Copy, Debug)]
pub struct PartialCurve {
    /// The surface, if already set.
    pub surface: Option<Handle<Surface>>,
    /// The surface-local path, if already set.
    pub path: Option<Line<2>>,
    /// The global form, if already set; inferred from the path otherwise.
    pub global_form: Option<Handle<GlobalCurve>>,
}

impl Default for PartialCurve {
    /// An empty draft.
    fn default() -> (r: Self)
        ensures
            r.surface is None,
            r.path is None,
            r.global_form is None,
    {
        Self { surface: None, path: None, global_form: None }
    }
}

/// A draft of a half-edge.
#[derive(Clone, Copy, Debug)]
pub struct PartialHalfEdge {
    /// The draft of the curve.
    pub curve: PartialCurve,
    /// For each end: the boundary position on the curve, if set, and the
    /// draft of the surface vertex.
    pub vertices: [(Option<Point<1>>, PartialSurfaceVertex); 2],
    /// The global form, if already set; inferred from the curve and the
    /// vertices otherwise.
    pub global_form: Option<Handle<GlobalEdge>>,
}

impl Default for PartialHalfEdge {
    /// An empty draft.
    fn default() -> (r: Self)
        ensures
            r.curve.surface is None,
            r.curve.path is None,
            r.curve.global_form is None,
            (r.vertices@[0]).0 is None,
            (r.vertices@[1]).0 is None,
            (r.vertices@[0]).1.position is None,
            (r.vertices@[0]).1.surface is None,
            (r.vertices@[0]).1.global_form is None,
            (r.vertices@[1]).1.position is None,
            (r.vertices@[1]).1.surface is None,
            (r.vertices@[1]).1.global_form is None,
            r.global_form is None,
    {
        Self {
            curve: PartialCurve { surface: None, path: None, global_form: None },
            vertices: [
                (None, PartialSurfaceVertex { position: None, surface: None, global_form: None }),
                (None, PartialSurfaceVertex { position: None, surface: None, global_form: None }),
            ],
            global_form: None,
        }
    }
}

impl PartialHalfEdge {
    /// Set the half-edge to be the straight segment between two points
    /// of one surface: the surface, both vertex positions, the boundary,
    /// and the curve's path are all set consistently.
    pub fn update_as_line_segment_from_points(
        &mut self,
        surface: Handle<Surface>,
        points: [Point<2>; 2],
    )
        requires
            can_sub(points@[1]@, points@[0]@),
        ensures
            final(self).curve.surface == Some(surface),
            final(self).curve.global_form == old(self).curve.global_form,
            final(self).curve.path is Some,
            final(self).curve.path.unwrap().origin == points@[0],
            final(self).curve.path.unwrap().direction@ == crate::math::sub_seqs(
                points@[1]@,
                points@[0]@,
            ),
            (final(self).vertices@[0]).0 is Some,
            (final(self).vertices@[0]).0.unwrap()@ == seq![0int],
            (final(self).vertices@[1]).0 is Some,
            (final(self).vertices@[1]).0.unwrap()@ == seq![1int],
            (final(self).vertices@[0]).1.position == Some(points@[0]),
            (final(self).vertices@[1]).1.position == Some(points@[1]),
            (final(self).vertices@[0]).1.surface == Some(surface),
            (final(self).vertices@[1]).1.surface == Some(surface),
            (final(self).vertices@[0]).1.global_form == (old(self).vertices@[0]).1.global_form,
            (final(self).vertices@[1]).1.global_form == (old(self).vertices@[1]).1.global_form,
            final(self).global_form == old(self).global_form,
    {
        self.curve.surface = Some(surface);
        let v0 = self.vertices[0].1;
        let v1 = self.vertices[1].1;
        self.vertices = [
            (
                self.vertices[0].0,
                PartialSurfaceVertex {
                    position: Some(points[0]),
                    surface: Some(surface),
                    global_form: v0.global_form,
                },
            ),
            (
                self.vertices[1].0,
                PartialSurfaceVertex {
                    position: Some(points[1]),
                    surface: Some(surface),
                    global_form: v1.global_form,
                },
            ),
        ];
        self.update_as_line_segment();
    }

    /// Set the half-edge's curve and boundary to the straight segment
    /// between its two vertices' positions, which must be present.
    pub fn update_as_line_segment(&mut self)
        requires
            (old(self).vertices@[0]).1.position is Some,
            (old(self).vertices@[1]).1.position is Some,
            can_sub(
                (old(self).vertices@[1]).1.position.unwrap()@,
                (old(self).vertices@[0]).1.position.unwrap()@,
            ),
        ensures
            final(self).curve.surface == old(self).curve.surface,
            final(self).curve.global_form == old(self).curve.global_form,
            final(self).curve.path is Some,
            final(self).curve.path.unwrap().origin == (old(self).vertices@[0]).1.position.unwrap(),
            final(self).curve.path.unwrap().direction@ == crate::math::sub_seqs(
                (old(self).vertices@[1]).1.position.unwrap()@,
                (old(self).vertices@[0]).1.position.unwrap()@,
            ),
            (final(self).vertices@[0]).0 is Some,
            (final(self).vertices@[0]).0.unwrap()@ == seq![0int],
            (final(self).vertices@[1]).0 is Some,
            (final(self).vertices@[1]).0.unwrap()@ == seq![1int],
            (final(self).vertices@[0]).1 == (old(self).vertices@[0]).1,
            (final(self).vertices@[1]).1 == (old(self).vertices@[1]).1,
            final(self).global_form == old(self).global_form,
    {
        let a = self.vertices[0].1.position.unwrap();
        let b = self.vertices[1].1.position.unwrap();
        let path = Line::new(a, a.vector_to(&b));
        self.curve.path = Some(path);
        self.vertices = [(Some(p1(0)), self.vertices[0].1), (Some(p1(1)), self.vertices[1].1)];
    }

    /// Let the global form be inferred at build time from the curve and
    /// the vertices, discarding one that was set explicitly.
    pub fn infer_global_form(&mut self)
        ensures
            final(self).global_form is None,
            final(self).curve == old(self).curve,
            final(self).vertices@ == old(self).vertices@,
    {
        self.global_form = None;
    }

    /// Whether the draft is complete enough to build, and its data is
    /// resolvable and within bounds in the given store.
    pub open spec fn build_ready(&self, o: &Objects) -> bool {
        &&& self.curve.surface is Some
        &&& self.curve.path is Some
        &&& 0 <= self.curve.surface.unwrap()@ < o.surfaces@.len()
        &&& (self.vertices@[0]).0 is Some
        &&& (self.vertices@[1]).0 is Some
        &&& (self.vertices@[0]).1.position is Some
        &&& (self.vertices@[1]).1.position is Some
        &&& (self.curve.global_form is Some ==> 0 <= self.curve.global_form.unwrap()@
            < o.global_curves@.len())
        &&& ((self.vertices@[0]).1.global_form is Some ==> 0 <= (
        self.vertices@[0]).1.global_form.unwrap()@ < o.global_vertices@.len())
        &&& ((self.vertices@[1]).1.global_form is Some ==> 0 <= (
        self.vertices@[1]).1.global_form.unwrap()@ < o.global_vertices@.len())
        &&& (self.global_form is Some ==> 0 <= self.global_form.unwrap()@
            < o.global_edges@.len() && crate::objects::global_edge_valid(
            o,
            o.global_edges@[self.global_form.unwrap()@],
        ))
        &&& surface_bounded(o.surfaces@[self.curve.surface.unwrap()@])
        &&& seq_bounded((self.vertices@[0]).1.position.unwrap()@, MAX_COORD as int)
        &&& seq_bounded((self.vertices@[1]).1.position.unwrap()@, MAX_COORD as int)
        &&& seq_bounded(self.curve.path.unwrap().origin@, MAX_COORD as int)
        &&& seq_bounded(self.curve.path.unwrap().direction@, MAX_COORD as int)
        &&& fits_scalar(
            surface_eval(
                o.surfaces@[self.curve.surface.unwrap()@],
                (self.vertices@[0]).1.position.unwrap()@,
            ),
        )
        &&& fits_scalar(
            surface_eval(
                o.surfaces@[self.curve.surface.unwrap()@],
                (self.vertices@[1]).1.position.unwrap()@,
            ),
        )
        &&& crate::math::can_sub(
            self.resolved_position(o, 1),
            self.resolved_position(o, 0),
        )
        &&& crate::math::can_sub(
            self.resolved_position(o, 0),
            self.resolved_position(o, 1),
        )
    }

    /// The position in space of one boundary vertex: the stored position
    /// of its global form when one was given, and the evaluated surface
    /// position otherwise.
    pub open spec fn resolved_position(&self, o: &Objects, i: int) -> Seq<int> {
        let pv = (self.vertices@[i]).1;
        if pv.global_form is Some {
            o.global_vertices@[pv.global_form.unwrap()@].position@
        } else {
            surface_eval(o.surfaces@[self.curve.surface.unwrap()@], pv.position.unwrap()@)
        }
    }

    /// Build the half-edge, inserting its parts into the store and
    /// inferring every global form that was not given.
    pub fn build(&self, objects: &mut Objects) -> (r: HalfEdge)
        requires
            self.build_ready(old(objects)),
        ensures
            objects_extend(old(objects), final(objects)),
            r.spec_boundary()[0].0 == (self.vertices@[0]).0.unwrap(),
            r.spec_boundary()[1].0 == (self.vertices@[1]).0.unwrap(),
            half_edge_valid(final(objects), r),
            0 <= r.spec_curve()@ < final(objects).curves@.len(),
            built_matches_draft(*self, old(objects), final(objects), r),
            (self.vertices@[0]).1.global_form is Some
                ==> final(objects).surface_vertices@[r.spec_boundary()[0].1@].global_form@ == (
            self.vertices@[0]).1.global_form.unwrap()@,
            (self.vertices@[0]).1.global_form is None ==> canonical_gv(
                final(objects),
                final(objects).surface_vertices@[r.spec_boundary()[0].1@].global_form@,
                self.resolved_position(old(objects), 0),
            ),
            (self.vertices@[1]).1.global_form is None ==> canonical_gv(
                final(objects),
                final(objects).surface_vertices@[r.spec_boundary()[1].1@].global_form@,
                self.resolved_position(old(objects), 1),
            ),
            (self.vertices@[1]).1.global_form is Some
                ==> final(objects).surface_vertices@[r.spec_boundary()[1].1@].global_form@ == (
            self.vertices@[1]).1.global_form.unwrap()@,
            self.curve.global_form is Some ==> final(objects).curves@[r.spec_curve()@].global_form@
                == self.curve.global_form.unwrap()@,
            self.curve.global_form is None ==> inferred_curve_line(
                *self,
                old(objects),
                final(objects),
                r,
            ),
            self.global_form is Some ==> r.spec_global_form()@ == self.global_form.unwrap()@,
            self.global_form is None ==> inferred_global_edge(*self, old(objects), final(objects), r),
    {
        let surface = self.curve.surface.unwrap();
        let s = *objects.surfaces.get(&surface);
        let path = self.curve.path.unwrap();

        // Infer each global vertex from its surface position when it was
        // not given.
        let pv0 = self.vertices[0].1;
        let gv0 = match pv0.global_form {
            Some(h) => h,
            None => {
                let position = point_on_surface(&s, &pv0.position.unwrap());
                let value = GlobalVertex { position };
                let h = objects.global_vertices.insert(value);
                proof {
                    assert forall|j: int| 0 <= j < h@ implies (
                    #[trigger] objects.global_vertices@[j]).position@ != self.resolved_position(
                        old(objects),
                        0,
                    ) by {
                        assert(!objects.global_vertices@[j].same_spec(&value));
                    }
                    assert(canonical_gv(objects, h@, self.resolved_position(old(objects), 0)));
                }
                h
            },
        };
        let ghost after_gv0: Objects = *objects;
        let pv1 = self.vertices[1].1;
        let gv1 = match pv1.global_form {
            Some(h) => h,
            None => {
                let position = point_on_surface(&s, &pv1.position.unwrap());
                let value = GlobalVertex { position };
                let h = objects.global_vertices.insert(value);
                proof {
                    assert forall|j: int| 0 <= j < h@ implies (
                    #[trigger] objects.global_vertices@[j]).position@ != self.resolved_position(
                        old(objects),
                        1,
                    ) by {
                        assert(!objects.global_vertices@[j].same_spec(&value));
                    }
                    assert(canonical_gv(objects, h@, self.resolved_position(old(objects), 1)));
                }
                h
            },
        };
        proof {
            assert(objects.global_vertices@[gv0@].position@ == self.resolved_position(
                old(objects),
                0,
            ));
            assert(objects.global_vertices@[gv1@].position@ == self.resolved_position(
                old(objects),
                1,
            ));
        }

        // Infer the global curve when it was not given: the canonical
        // embedding runs from the lower-identity global vertex to the
        // higher, so that both directed uses of one segment share it.
        let gc = match self.curve.global_form {
            Some(h) => h,
            None => {
                let (lo, hi) = if gv0.id() <= gv1.id() {
                    (gv0, gv1)
                } else {
                    (gv1, gv0)
                };
                let lo_pos = objects.global_vertices.get(&lo).position;
                let hi_pos = objects.global_vertices.get(&hi).position;
                let gc_value = GlobalCurve { line: Line::from_points(lo_pos, hi_pos) };
                let h = objects.global_curves.insert(gc_value);
                proof {
                    assert(objects.global_curves@[h@].same_spec(&gc_value));
                }
                h
            },
        };
        let curve_value = Curve::new(surface, path, gc);
        let curve = objects.curves.insert(curve_value);

        let sv0_value = SurfaceVertex::new(pv0.position.unwrap(), surface, gv0);
        let sv0 = objects.surface_vertices.insert(sv0_value);
        let sv1_value = SurfaceVertex::new(pv1.position.unwrap(), surface, gv1);
        let sv1 = objects.surface_vertices.insert(sv1_value);

        // Infer the global edge from the curve and vertices when it was
        // not given.
        let ge = match self.global_form {
            Some(h) => h,
            None => {
                let ge_value = GlobalEdge::new(gc, [gv0, gv1]);
                let h = objects.global_edges.insert(ge_value);
                proof {
                    assert(objects.global_edges@[h@].same_spec(&ge_value));
                    objects.global_edges@[h@].lemma_vertices_len();
                    ge_value.lemma_vertices_len();
                    assert((objects.global_edges@[h@].spec_vertices()[0]@ == gv0@
                        && objects.global_edges@[h@].spec_vertices()[1]@ == gv1@) || (
                    objects.global_edges@[h@].spec_vertices()[0]@ == gv1@
                        && objects.global_edges@[h@].spec_vertices()[1]@ == gv0@));
                    assert(objects.global_edges@[h@].spec_curve()@ == gc@);
                }
                h
            },
        };
        let r = HalfEdge::new(
            curve,
            [(self.vertices[0].0.unwrap(), sv0), (self.vertices[1].0.unwrap(), sv1)],
            ge,
        );
        proof {
            assert(objects.curves@[curve@].same_spec(&curve_value));
            assert(objects.surface_vertices@[sv0@].same_spec(&sv0_value));
            assert(objects.surface_vertices@[sv1@].same_spec(&sv1_value));
            if self.global_form is Some {
                let geh = self.global_form.unwrap();
                assert(objects.global_edges@[geh@] == old(objects).global_edges@[geh@]);
            }
            objects.global_edges@[ge@].lemma_vertices_len();
            r.lemma_boundary_len();
            assert(objects.curves@[r.spec_curve()@].path.origin@ == self.curve.path.unwrap().origin@);
            assert(objects.global_vertices@[gv0@].position@ == self.resolved_position(
                old(objects),
                0,
            ));
            assert(objects.global_vertices@[gv1@].position@ == self.resolved_position(
                old(objects),
                1,
            ));
            assert(built_matches_draft(*self, old(objects), objects, r));
            if self.global_form is None {
                assert(inferred_global_edge(*self, old(objects), objects, r));
            }
            if pv0.global_form is None {
                assert forall|j: int| 0 <= j < gv0@ implies (
                #[trigger] objects.global_vertices@[j]).position@ != self.resolved_position(
                    old(objects),
                    0,
                ) by {
                    assert(objects.global_vertices@[j] == after_gv0.global_vertices@[j]);
                }
                assert(canonical_gv(objects, gv0@, self.resolved_position(old(objects), 0)));
            }
            if pv1.global_form is None {
                assert forall|j: int| 0 <= j < gv1@ implies (
                #[trigger] objects.global_vertices@[j]).position@ != self.resolved_position(
                    old(objects),
                    1,
                ) by {
                    assert(objects.global_vertices@[j] == after_gv0.global_vertices@[j]);
                }
                assert(canonical_gv(objects, gv1@, self.resolved_position(old(objects), 1)));
            }
        }
        r
    }

    /// Recover a draft from a built half-edge, so that it can seed
    /// further construction.
    pub fn from_half_edge(edge: Handle<HalfEdge>, objects: &Objects) -> (r: PartialHalfEdge)
        requires
            0 <= edge@ < objects.half_edges@.len(),
            half_edge_valid(objects, objects.half_edges@[edge@]),
        ensures
            r.global_form == Some(objects.half_edges@[edge@].spec_global_form()),
            r.curve.surface is Some,
            r.curve.surface.unwrap()@ == objects.curves@[objects.half_edges@[edge@].spec_curve()@].surface@,
            r.curve.path is Some,
            r.curve.path.unwrap() == objects.curves@[objects.half_edges@[edge@].spec_curve()@].path,
            r.curve.global_form is Some,
            r.curve.global_form.unwrap()@ == objects.curves@[objects.half_edges@[edge@].spec_curve()@].global_form@,
            (r.vertices@[0]).0 == Some(objects.half_edges@[edge@].spec_boundary()[0].0),
            (r.vertices@[1]).0 == Some(objects.half_edges@[edge@].spec_boundary()[1].0),
            (r.vertices@[0]).1.position == Some(
                objects.surface_vertices@[objects.half_edges@[edge@].spec_boundary()[0].1@].position,
            ),
            (r.vertices@[1]).1.position == Some(
                objects.surface_vertices@[objects.half_edges@[edge@].spec_boundary()[1].1@].position,
            ),
            (r.vertices@[0]).1.surface is Some,
            (r.vertices@[1]).1.surface is Some,
            (r.vertices@[0]).1.global_form is Some,
            (r.vertices@[0]).1.global_form.unwrap()@
                == objects.surface_vertices@[objects.half_edges@[edge@].spec_boundary()[0].1@].global_form@,
            (r.vertices@[1]).1.global_form is Some,
            (r.vertices@[1]).1.global_form.unwrap()@
                == objects.surface_vertices@[objects.half_edges@[edge@].spec_boundary()[1].1@].global_form@,
    {
        let e = *objects.half_edges.get(&edge);
        proof {
            e.lemma_boundary_len();
        }
        let c = *objects.curves.get(&e.curve());
        let b = e.boundary();
        let svs = e.surface_vertices();
        let sv0 = *objects.surface_vertices.get(&svs[0]);
        let sv1 = *objects.surface_vertices.get(&svs[1]);
        PartialHalfEdge {
            curve: PartialCurve {
                surface: Some(c.surface),
                path: Some(c.path),
                global_form: Some(c.global_form),
            },
            vertices: [
                (
                    Some(b[0]),
                    PartialSurfaceVertex {
                        position: Some(sv0.position),
                        surface: Some(sv0.surface),
                        global_form: Some(sv0.global_form),
                    },
                ),
                (
                    Some(b[1]),
                    PartialSurfaceVertex {
                        position: Some(sv1.position),
                        surface: Some(sv1.surface),
                        global_form: Some(sv1.global_form),
                    },
                ),
            ],
            global_form: Some(e.global_form()),
        }
    }
}


/// Whether the built half-edge `e`, resolved in `post`, matches the
/// draft `d` resolved in `pre`: boundary parameters, surface-local
/// positions, surface, curve path, and the two global vertex positions —
/// given or inferred from the surface positions.
pub open spec fn built_matches_draft(
    d: PartialHalfEdge,
    pre: &Objects,
    post: &Objects,
    e: HalfEdge,
) -> bool {
    &&& e.spec_boundary()[0].0@ == (d.vertices@[0]).0.unwrap()@
    &&& e.spec_boundary()[1].0@ == (d.vertices@[1]).0.unwrap()@
    &&& post.surface_vertices@[e.spec_boundary()[0].1@].position@ == (
    d.vertices@[0]).1.position.unwrap()@
    &&& post.surface_vertices@[e.spec_boundary()[1].1@].position@ == (
    d.vertices@[1]).1.position.unwrap()@
    &&& post.surface_vertices@[e.spec_boundary()[0].1@].surface@ == d.curve.surface.unwrap()@
    &&& post.surface_vertices@[e.spec_boundary()[1].1@].surface@ == d.curve.surface.unwrap()@
    &&& post.global_vertices@[post.surface_vertices@[e.spec_boundary()[0].1@].global_form@].position@
        == d.resolved_position(pre, 0)
    &&& post.global_vertices@[post.surface_vertices@[e.spec_boundary()[1].1@].global_form@].position@
        == d.resolved_position(pre, 1)
    &&& post.curves@[e.spec_curve()@].surface@ == d.curve.surface.unwrap()@
    &&& post.curves@[e.spec_curve()@].path.origin@ == d.curve.path.unwrap().origin@
    &&& post.curves@[e.spec_curve()@].path.direction@ == d.curve.path.unwrap().direction@
}

/// What the inferred global curve of a built half-edge is: the line
/// between the two resolved vertex positions, from one of them to the
/// other — the choice falls on the vertex with the lower identity.
pub open spec fn inferred_curve_line(
    d: PartialHalfEdge,
    pre: &Objects,
    post: &Objects,
    e: HalfEdge,
) -> bool {
    let l = post.global_curves@[post.curves@[e.spec_curve()@].global_form@].line;
    let p0 = d.resolved_position(pre, 0);
    let p1 = d.resolved_position(pre, 1);
    (l.origin@ == p0 && l.direction@ == crate::math::sub_seqs(p1, p0)) || (l.origin@ == p1
        && l.direction@ == crate::math::sub_seqs(p0, p1))
}

/// What the inferred global edge of a built half-edge is: over the
/// half-edge's own global curve, between the two resolved vertex
/// positions — in normalized order, so in one order or the other.
pub open spec fn inferred_global_edge(
    d: PartialHalfEdge,
    pre: &Objects,
    post: &Objects,
    e: HalfEdge,
) -> bool {
    let ge = post.global_edges@[e.spec_global_form()@];
    let q0 = post.global_vertices@[ge.spec_vertices()[0]@].position@;
    let q1 = post.global_vertices@[ge.spec_vertices()[1]@].position@;
    let p0 = d.resolved_position(pre, 0);
    let p1 = d.resolved_position(pre, 1);
    &&& ge.spec_curve()@ == post.curves@[e.spec_curve()@].global_form@
    &&& ((q0 == p0 && q1 == p1) || (q0 == p1 && q1 == p0))
}

/// Whether `g` is the canonical global vertex for the position: the
/// first stored global vertex whose position matches, as the
/// deduplicating store hands out.
pub open spec fn canonical_gv(o: &Objects, g: int, pos: Seq<int>) -> bool {
    &&& 0 <= g < o.global_vertices@.len()
    &&& o.global_vertices@[g].position@ == pos
    &&& forall|j: int| 0 <= j < g ==> (#[trigger] o.global_vertices@[j]).position@ != pos
}

/// A draft-match relation survives when both stores grow.
proof fn lemma_built_matches_draft_frame(
    d: PartialHalfEdge,
    pre0: &Objects,
    pre1: &Objects,
    post1: &Objects,
    post2: &Objects,
    e: HalfEdge,
)
    requires
        objects_extend(pre0, pre1),
        objects_extend(post1, post2),
        d.build_ready(pre0),
        half_edge_valid(post1, e),
        built_matches_draft(d, pre1, post1, e),
    ensures
        built_matches_draft(d, pre0, post2, e),
{
    assert(pre1.surfaces@[d.curve.surface.unwrap()@] == pre0.surfaces@[d.curve.surface.unwrap()@]);
    if (d.vertices@[0]).1.global_form is Some {
        let g = (d.vertices@[0]).1.global_form.unwrap()@;
        assert(pre1.global_vertices@[g] == pre0.global_vertices@[g]);
    }
    if (d.vertices@[1]).1.global_form is Some {
        let g = (d.vertices@[1]).1.global_form.unwrap()@;
        assert(pre1.global_vertices@[g] == pre0.global_vertices@[g]);
    }
    assert(d.resolved_position(pre1, 0) == d.resolved_position(pre0, 0));
    assert(d.resolved_position(pre1, 1) == d.resolved_position(pre0, 1));
    assert(post2.surface_vertices@[e.spec_boundary()[0].1@]
        == post1.surface_vertices@[e.spec_boundary()[0].1@]);
    assert(post2.surface_vertices@[e.spec_boundary()[1].1@]
        == post1.surface_vertices@[e.spec_boundary()[1].1@]);
    let g0 = post1.surface_vertices@[e.spec_boundary()[0].1@].global_form@;
    let g1 = post1.surface_vertices@[e.spec_boundary()[1].1@].global_form@;
    assert(post2.global_vertices@[g0] == post1.global_vertices@[g0]);
    assert(post2.global_vertices@[g1] == post1.global_vertices@[g1]);
    assert(post2.curves@[e.spec_curve()@] == post1.curves@[e.spec_curve()@]);
}

/// A draft of a cycle: the drafts of its half-edges, in order.
#[derive(Clone, Debug)]
pub struct PartialCycle {
    /// The drafts of the half-edges.
    pub half_edges: Vec<PartialHalfEdge>,
}

impl Default for PartialCycle {
    /// An empty draft.
    fn default() -> (r: Self)
        ensures
            r.half_edges@.len() == 0,
    {
        Self { half_edges: Vec::new() }
    }
}

impl PartialCycle {
    /// Whether every half-edge draft of the cycle can be built.
    pub open spec fn build_ready(&self, o: &Objects) -> bool {
        forall|i: int|
            0 <= i < self.half_edges@.len() ==> (#[trigger] self.half_edges@[i]).build_ready(o)
    }

    /// Build the cycle: every half-edge draft is built and inserted, in
    /// order.
    pub fn build(&self, objects: &mut Objects) -> (r: Cycle)
        requires
            self.build_ready(old(objects)),
        ensures
            objects_extend(old(objects), final(objects)),
            r.half_edges@.len() == self.half_edges@.len(),
            crate::objects::cycle_valid(final(objects), r),
            forall|i: int|
                0 <= i < r.half_edges@.len() ==> built_matches_draft(
                    self.half_edges@[i],
                    old(objects),
                    final(objects),
                    final(objects).half_edges@[(#[trigger] r.half_edges@[i])@],
                ),
    {
        let n = self.half_edges.len();
        let mut handles: Vec<Handle<HalfEdge>> = Vec::new();
        let mut i: usize = 0;
        while i < n
            invariant
                n == self.half_edges@.len(),
                i <= n,
                handles@.len() == i,
                objects_extend(old(objects), objects),
                self.build_ready(old(objects)),
                self.build_ready(objects),
                forall|k: int|
                    0 <= k < i ==> 0 <= (#[trigger] handles@[k])@ < objects.half_edges@.len()
                        && half_edge_valid(objects, objects.half_edges@[handles@[k]@])
                        && built_matches_draft(
                        self.half_edges@[k],
                        old(objects),
                        objects,
                        objects.half_edges@[handles@[k]@],
                    ),
            decreases n - i,
        {
            let ghost pre: Objects = *objects;
            let he = self.half_edges[i].build(objects);
            let ghost mid: Objects = *objects;
            let h = objects.half_edges.insert(he);
            proof {
                assert(objects.half_edges@[h@].same_spec(&he));
                lemma_build_ready_extend(self, &pre, objects);
                assert forall|k: int| 0 <= k < i + 1 implies 0 <= (#[trigger] handles@.push(h)[k])@
                    < objects.half_edges@.len() && half_edge_valid(
                    objects,
                    objects.half_edges@[handles@.push(h)[k]@],
                ) && built_matches_draft(
                    self.half_edges@[k],
                    old(objects),
                    objects,
                    objects.half_edges@[handles@.push(h)[k]@],
                ) by {
                    if k < i {
                        assert(handles@.push(h)[k] == handles@[k]);
                        assert(objects.half_edges@[handles@[k]@] == pre.half_edges@[handles@[k]@]);
                        crate::objects::lemma_half_edge_valid_extend(
                            &pre,
                            objects,
                            pre.half_edges@[handles@[k]@],
                        );
                        lemma_built_matches_draft_frame(
                            self.half_edges@[k],
                            old(objects),
                            old(objects),
                            &pre,
                            objects,
                            pre.half_edges@[handles@[k]@],
                        );
                    } else {
                        assert(handles@.push(h)[k] == h);
                        lemma_half_edge_valid_same(
                            objects,
                            objects.half_edges@[h@],
                            he,
                        );
                        lemma_built_matches_draft_frame(
                            self.half_edges@[k],
                            old(objects),
                            &pre,
                            &mid,
                            objects,
                            he,
                        );
                        assert(built_matches_draft(
                            self.half_edges@[k],
                            old(objects),
                            objects,
                            objects.half_edges@[h@],
                        ));
                    }
                }
            }
            handles.push(h);
            i += 1;
        }
        Cycle::new(handles)
    }
}

/// Building readiness survives store growth.
proof fn lemma_build_ready_extend(c: &PartialCycle, pre: &Objects, post: &Objects)
    requires
        objects_extend(pre, post),
        c.build_ready(pre),
    ensures
        c.build_ready(post),
{
    assert forall|i: int| 0 <= i < c.half_edges@.len() implies (
    #[trigger] c.half_edges@[i]).build_ready(post) by {
        let p = c.half_edges@[i];
        assert(p.build_ready(pre));
        assert(post.surfaces@[p.curve.surface.unwrap()@] == pre.surfaces@[p.curve.surface.unwrap()@]);
        if p.global_form is Some {
            assert(post.global_edges@[p.global_form.unwrap()@] == pre.global_edges@[p.global_form.unwrap()@]);
        }
    }
}

/// Structural equality preserves validity of a half-edge.
proof fn lemma_half_edge_valid_same(o: &Objects, a: HalfEdge, b: HalfEdge)
    requires
        a.same_spec(&b),
        half_edge_valid(o, b),
    ensures
        half_edge_valid(o, a),
{
    a.lemma_boundary_len();
    b.lemma_boundary_len();
}

/// A draft of a face.
#[derive(Clone, Debug)]
pub struct PartialFace {
    /// The draft of the exterior cycle.
    pub exterior: PartialCycle,
    /// The color, if already set; the default color otherwise.
    pub color: Option<Color>,
}

impl Default for PartialFace {
    /// An empty draft.
    fn default() -> (r: Self)
        ensures
            r.exterior.half_edges@.len() == 0,
            r.color is None,
    {
        Self { exterior: PartialCycle { half_edges: Vec::new() }, color: None }
    }
}

impl PartialFace {
    /// Build the face: the exterior cycle is built and inserted, and the
    /// color defaults to the default color when none was set.
    pub fn build(&self, objects: &mut Objects) -> (r: Face)
        requires
            self.exterior.build_ready(old(objects)),
        ensures
            objects_extend(old(objects), final(objects)),
            0 <= r.exterior@ < final(objects).cycles@.len(),
            final(objects).cycles@[r.exterior@].half_edges@.len()
                == self.exterior.half_edges@.len(),
            crate::objects::cycle_valid(final(objects), final(objects).cycles@[r.exterior@]),
            forall|i: int|
                0 <= i < self.exterior.half_edges@.len() ==> built_matches_draft(
                    #[trigger] self.exterior.half_edges@[i],
                    old(objects),
                    final(objects),
                    final(objects).half_edges@[final(objects).cycles@[r.exterior@].half_edges@[i]@],
                ),
            r.interiors@.len() == 0,
            match self.color {
                Some(c) => r.color.rgba@ == c.rgba@,
                None => r.color.rgba@ == seq![255u8, 255u8, 255u8, 255u8],
            },
    {
        let cycle_value = self.exterior.build(objects);
        let ghost cycle_g = cycle_value;
        let exterior = objects.cycles.insert(cycle_value);
        let color = match self.color {
            Some(c) => c,
            None => Color::default(),
        };
        proof {
            assert(objects.cycles@[exterior@].same_spec(&cycle_g));
            let stored = objects.cycles@[exterior@];
            assert forall|i: int| 0 <= i < self.exterior.half_edges@.len() implies
                built_matches_draft(
                #[trigger] self.exterior.half_edges@[i],
                old(objects),
                objects,
                objects.half_edges@[stored.half_edges@[i]@],
            ) && 0 <= stored.half_edges@[i]@ < objects.half_edges@.len() && half_edge_valid(
                objects,
                objects.half_edges@[stored.half_edges@[i]@],
            ) by {
                assert(stored.half_edges@[i]@ == cycle_g.half_edges@[i]@);
            }
            assert(crate::objects::cycle_valid(objects, stored));
        }
        Face { exterior, interiors: Vec::new(), color }
    }
}

} // verus!
