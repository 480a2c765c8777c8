//! Tolerance-bounded approximation of store-backed topology.
//!
//! An approximation deviates from the exact geometry by at most the
//! tolerance. The kernel's curves are lines, which are approximated
//! exactly by their end points at every tolerance, so a curve contributes
//! no interior points; the cache still records each curve's interior
//! approximation, keyed by the curve's global form, and repeated
//! approximation of the same curve yields the cached — hence identical —
//! result.

use vstd::prelude::*;

use crate::math::{Point, Scalar};
use crate::objects::{
    half_edge_valid, Cycle, Face, GlobalCurve, HalfEdge, Objects, Sketch,
};
use crate::storage::Handle;

verus! {

/// The error of a tolerance that is not strictly positive.
#[derive(Clone, Copy, Debug, PartialEq, Eq, PartialOrd, Ord, Hash)]
pub struct InvalidTolerance {
    /// The rejected value.
    pub value: Scalar,
}

/// A maximum deviation between exact geometry and its approximation:
/// a strictly positive scalar.
#[derive(Clone, Copy, Debug, PartialEq, Eq, PartialOrd, Ord, Hash)]
pub struct Tolerance {
    inner: Scalar,
}

impl Tolerance {
    /// The tolerance value.
    pub closed spec fn spec_inner(&self) -> int {
        self.inner as int
    }

    /// The invariant: a tolerance is strictly positive.
    pub open spec fn wf(&self) -> bool {
        self.spec_inner() > 0
    }

    /// Turn a scalar into a tolerance; a value that is not strictly
    /// positive is rejected.
    pub fn from_scalar(value: Scalar) -> (r: Result<Tolerance, InvalidTolerance>)
        ensures
            match r {
                Ok(t) => value > 0 && t.spec_inner() == value && t.wf(),
                Err(e) => value <= 0 && e.value == value,
            },
    {
        if value > 0 {
            Ok(Tolerance { inner: value })
        } else {
            Err(InvalidTolerance { value })
        }
    }

    /// Access the tolerance value.
    pub fn inner(&self) -> (r: Scalar)
        ensures
            r as int == self.spec_inner(),
    {
        self.inner
    }
}

/// The cache of one top-level approximation: for each global curve, the
/// interior points of its approximation. It must not be reused with a
/// different tolerance.
pub struct CurveCache {
    /// The cached interior approximations, keyed by global curve.
    pub entries: Vec<(Handle<GlobalCurve>, Vec<Point<3>>)>,
}

/// The interior points of a curve's approximation: for a line, none, at
/// every tolerance.
pub open spec fn spec_curve_interior(o: &Objects, gc: int) -> Seq<Point<3>> {
    Seq::empty()
}

/// Whether every cache entry records exactly the interior approximation
/// of its curve.
pub open spec fn curve_cache_wf(cache: &CurveCache, o: &Objects) -> bool {
    forall|i: int|
        0 <= i < cache.entries@.len() ==> (#[trigger] cache.entries@[i]).1@
            == spec_curve_interior(o, cache.entries@[i].0@)
}

impl CurveCache {
    /// Create an empty cache.
    pub fn new() -> (r: Self)
        ensures
            r.entries@.len() == 0,
    {
        Self { entries: Vec::new() }
    }
}

/// The start position of a half-edge: the position of its first
/// vertex's global form.
pub open spec fn spec_start_position(o: &Objects, e: HalfEdge) -> Point<3> {
    o.global_vertices@[o.surface_vertices@[e.spec_boundary()[0].1@].global_form@].position
}

/// The end position of a half-edge.
pub open spec fn spec_end_position(o: &Objects, e: HalfEdge) -> Point<3> {
    o.global_vertices@[o.surface_vertices@[e.spec_boundary()[1].1@].global_form@].position
}

/// What approximating a half-edge returns: its start position, the
/// interior points of its curve, and its end position. A pure function
/// of the store and the edge, so approximation is deterministic.
pub open spec fn spec_approx_half_edge(o: &Objects, e: HalfEdge) -> Seq<Point<3>> {
    seq![spec_start_position(o, e)] + spec_curve_interior(
        o,
        o.curves@[e.spec_curve()@].global_form@,
    ) + seq![spec_end_position(o, e)]
}

/// Approximate a half-edge within the tolerance, using and filling the
/// cache. The result is a pure function of the store and the edge, so
/// approximating the same edge twice — or two half-edges over the same
/// curve and vertices — gives element-wise identical sequences.
pub fn approx_half_edge_with_cache(
    edge: Handle<HalfEdge>,
    tolerance: Tolerance,
    cache: &mut CurveCache,
    objects: &Objects,
) -> (r: Vec<Point<3>>)
    requires
        tolerance.wf(),
        0 <= edge@ < objects.half_edges@.len(),
        half_edge_valid(objects, objects.half_edges@[edge@]),
        curve_cache_wf(old(cache), objects),
    ensures
        r@ == spec_approx_half_edge(objects, objects.half_edges@[edge@]),
        curve_cache_wf(final(cache), objects),
{
    let e = *objects.half_edges.get(&edge);
    proof {
        e.lemma_boundary_len();
    }
    let c = *objects.curves.get(&e.curve());
    let key = c.global_form;

    // Look up the curve's interior approximation, computing and caching
    // it when the curve has not been approximated yet. A line has no
    // interior points at any tolerance.
    let mut interior: Vec<Point<3>> = Vec::new();
    let n = cache.entries.len();
    let mut i: usize = 0;
    let mut found = false;
    while i < n && !found
        invariant
            n == cache.entries@.len(),
            i <= n,
            *cache == *old(cache),
            curve_cache_wf(cache, objects),
            found ==> interior@ == spec_curve_interior(objects, key@),
            !found ==> interior@.len() == 0,
        decreases n - i + (if found { 0int } else { 1int }),
    {
        let (k, v) = (cache.entries[i].0, crate::approx::copy_points(&cache.entries[i].1));
        if k.id() == key.id() {
            interior = v;
            found = true;
        } else {
            i += 1;
        }
    }
    if !found {
        cache.entries.push((key, copy_points(&interior)));
        proof {
            assert forall|j: int| 0 <= j < cache.entries@.len() implies (
            #[trigger] cache.entries@[j]).1@ == spec_curve_interior(
                objects,
                cache.entries@[j].0@,
            ) by {
                if j < cache.entries@.len() - 1 {
                    assert(cache.entries@[j] == old(cache).entries@[j]);
                }
            }
        }
    }

    let sv0 = *objects.surface_vertices.get(&e.start_vertex());
    let svs = e.surface_vertices();
    let sv1 = *objects.surface_vertices.get(&svs[1]);
    let start = objects.global_vertices.get(&sv0.global_form).position;
    let end = objects.global_vertices.get(&sv1.global_form).position;

    let mut r: Vec<Point<3>> = Vec::new();
    r.push(start);
    let m = interior.len();
    let mut k: usize = 0;
    while k < m
        invariant
            m == interior@.len(),
            k <= m,
            r@ =~= seq![start] + interior@.subrange(0, k as int),
        decreases m - k,
    {
        r.push(interior[k]);
        proof {
            assert(r@ =~= seq![start] + interior@.subrange(0, k + 1 as int));
        }
        k += 1;
    }
    r.push(end);
    proof {
        assert(interior@.subrange(0, m as int) =~= interior@);
        assert(interior@ =~= spec_curve_interior(objects, key@));
        assert(r@ =~= spec_approx_half_edge(objects, objects.half_edges@[edge@]));
    }
    r
}

/// Copy a vector of points.
pub fn copy_points(v: &Vec<Point<3>>) -> (r: Vec<Point<3>>)
    ensures
        r@ == v@,
{
    let mut r: Vec<Point<3>> = Vec::new();
    let n = v.len();
    let mut i: usize = 0;
    while i < n
        invariant
            n == v@.len(),
            i <= n,
            r@ =~= v@.subrange(0, i as int),
        decreases n - i,
    {
        r.push(v[i]);
        proof {
            assert(r@ =~= v@.subrange(0, i + 1 as int));
        }
        i += 1;
    }
    proof {
        assert(r@ =~= v@);
    }
    r
}

/// What approximating a cycle returns: the start position of each of its
/// half-edges, in order — each edge's end is the next edge's start, so
/// the closing point is not repeated.
pub open spec fn spec_approx_cycle(o: &Objects, c: Cycle) -> Seq<Point<3>> {
    Seq::new(c.half_edges@.len(), |i: int| spec_start_position(o, o.half_edges@[c.half_edges@[i]@]))
}

/// Approximate a cycle within the tolerance: one point per half-edge.
pub fn approx_cycle_with_cache(
    cycle: Handle<Cycle>,
    tolerance: Tolerance,
    cache: &mut CurveCache,
    objects: &Objects,
) -> (r: Vec<Point<3>>)
    requires
        tolerance.wf(),
        0 <= cycle@ < objects.cycles@.len(),
        crate::objects::cycle_valid(objects, objects.cycles@[cycle@]),
        curve_cache_wf(old(cache), objects),
    ensures
        r@ == spec_approx_cycle(objects, objects.cycles@[cycle@]),
        curve_cache_wf(final(cache), objects),
{
    let edges = {
        let c = objects.cycles.get(&cycle);
        crate::objects::copy_handles(&c.half_edges)
    };
    let n = edges.len();
    let mut r: Vec<Point<3>> = Vec::new();
    let mut i: usize = 0;
    while i < n
        invariant
            n == edges@.len(),
            i <= n,
            edges@ == objects.cycles@[cycle@].half_edges@,
            0 <= cycle@ < objects.cycles@.len(),
            crate::objects::cycle_valid(objects, objects.cycles@[cycle@]),
            curve_cache_wf(cache, objects),
            tolerance.wf(),
            r@.len() == i,
            forall|j: int|
                0 <= j < i ==> #[trigger] r@[j] == spec_start_position(
                    objects,
                    objects.half_edges@[edges@[j]@],
                ),
        decreases n - i,
    {
        let pts = approx_half_edge_with_cache(edges[i], tolerance, cache, objects);
        r.push(pts[0]);
        i += 1;
    }
    proof {
        assert(r@ =~= spec_approx_cycle(objects, objects.cycles@[cycle@]));
    }
    r
}

/// The approximation of one face: its exterior boundary polygon, and one
/// polygon per interior boundary.
pub struct FaceApprox {
    /// The polygon of the exterior cycle.
    pub exterior: Vec<Point<3>>,
    /// The polygons of the interior cycles.
    pub interiors: Vec<Vec<Point<3>>>,
}

/// Approximate a face within the tolerance: its exterior and interior
/// cycles, each as a polygon.
pub fn approx_face_with_cache(
    face: Handle<Face>,
    tolerance: Tolerance,
    cache: &mut CurveCache,
    objects: &Objects,
) -> (r: FaceApprox)
    requires
        tolerance.wf(),
        0 <= face@ < objects.faces@.len(),
        crate::objects::face_valid(objects, objects.faces@[face@]),
        curve_cache_wf(old(cache), objects),
    ensures
        r.exterior@ == spec_approx_cycle(
            objects,
            objects.cycles@[objects.faces@[face@].exterior@],
        ),
        r.interiors@.len() == objects.faces@[face@].interiors@.len(),
        forall|i: int|
            0 <= i < r.interiors@.len() ==> (#[trigger] r.interiors@[i])@ == spec_approx_cycle(
                objects,
                objects.cycles@[objects.faces@[face@].interiors@[i]@],
            ),
        curve_cache_wf(final(cache), objects),
{
    let (exterior0, interiors0) = {
        let f = objects.faces.get(&face);
        (f.exterior, crate::objects::copy_handles(&f.interiors))
    };
    let exterior = approx_cycle_with_cache(exterior0, tolerance, cache, objects);
    let n = interiors0.len();
    let mut interiors: Vec<Vec<Point<3>>> = Vec::new();
    let mut i: usize = 0;
    while i < n
        invariant
            n == interiors0@.len(),
            i <= n,
            interiors0@ == objects.faces@[face@].interiors@,
            0 <= face@ < objects.faces@.len(),
            crate::objects::face_valid(objects, objects.faces@[face@]),
            curve_cache_wf(cache, objects),
            tolerance.wf(),
            interiors@.len() == i,
            forall|j: int|
                0 <= j < i ==> (#[trigger] interiors@[j])@ == spec_approx_cycle(
                    objects,
                    objects.cycles@[interiors0@[j]@],
                ),
        decreases n - i,
    {
        let pts = approx_cycle_with_cache(interiors0[i], tolerance, cache, objects);
        interiors.push(pts);
        i += 1;
    }
    FaceApprox { exterior, interiors }
}

/// Approximate a sketch within the tolerance: one face approximation per
/// face.
pub fn approx_sketch_with_cache(
    sketch: Handle<Sketch>,
    tolerance: Tolerance,
    cache: &mut CurveCache,
    objects: &Objects,
) -> (r: Vec<FaceApprox>)
    requires
        tolerance.wf(),
        0 <= sketch@ < objects.sketches@.len(),
        crate::objects::sketch_valid(objects, objects.sketches@[sketch@]),
        curve_cache_wf(old(cache), objects),
    ensures
        r@.len() == objects.sketches@[sketch@].faces@.len(),
        forall|i: int|
            0 <= i < r@.len() ==> (#[trigger] r@[i]).exterior@ == spec_approx_cycle(
                objects,
                objects.cycles@[objects.faces@[objects.sketches@[sketch@].faces@[i]@].exterior@],
            ),
        forall|i: int|
            0 <= i < r@.len() ==> (#[trigger] r@[i]).interiors@.len()
                == objects.faces@[objects.sketches@[sketch@].faces@[i]@].interiors@.len(),
        forall|i: int, k: int|
            0 <= i < r@.len() && 0 <= k < r@[i].interiors@.len() ==> #[trigger] (r@[i].interiors@[k])@
                == spec_approx_cycle(
                objects,
                objects.cycles@[objects.faces@[objects.sketches@[sketch@].faces@[i]@].interiors@[k]@],
            ),
        curve_cache_wf(final(cache), objects),
{
    let faces = {
        let sk = objects.sketches.get(&sketch);
        crate::objects::copy_handles(&sk.faces)
    };
    let n = faces.len();
    let mut r: Vec<FaceApprox> = Vec::new();
    let mut i: usize = 0;
    while i < n
        invariant
            n == faces@.len(),
            i <= n,
            faces@ == objects.sketches@[sketch@].faces@,
            0 <= sketch@ < objects.sketches@.len(),
            crate::objects::sketch_valid(objects, objects.sketches@[sketch@]),
            curve_cache_wf(cache, objects),
            tolerance.wf(),
            r@.len() == i,
            forall|j: int|
                0 <= j < i ==> (#[trigger] r@[j]).exterior@ == spec_approx_cycle(
                    objects,
                    objects.cycles@[objects.faces@[faces@[j]@].exterior@],
                ),
            forall|j: int|
                0 <= j < i ==> (#[trigger] r@[j]).interiors@.len()
                    == objects.faces@[faces@[j]@].interiors@.len(),
            forall|j: int, k: int|
                0 <= j < i && 0 <= k < r@[j].interiors@.len() ==> #[trigger] (r@[j].interiors@[k])@
                    == spec_approx_cycle(
                    objects,
                    objects.cycles@[objects.faces@[faces@[j]@].interiors@[k]@],
                ),
        decreases n - i,
    {
        let fa = approx_face_with_cache(faces[i], tolerance, cache, objects);
        r.push(fa);
        i += 1;
    }
    r
}

/// Approximation is deterministic: two approximations of the same
/// half-edge in the same store, at the same tolerance and with the same
/// cache, are element-wise identical point sequences — which is what
/// makes two faces sharing an edge tessellate that edge without a seam.
pub proof fn lemma_approx_deterministic(
    o: &Objects,
    e: HalfEdge,
    r1: Seq<Point<3>>,
    r2: Seq<Point<3>>,
)
    requires
        r1 == spec_approx_half_edge(o, e),
        r2 == spec_approx_half_edge(o, e),
    ensures
        r1 == r2,
        r1.len() == r2.len(),
        forall|i: int| 0 <= i < r1.len() ==> r1[i] == r2[i],
{
}

} // verus!
