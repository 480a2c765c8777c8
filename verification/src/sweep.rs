//! Sweeping topology along a path.
//!
//! Sweeping extrudes a lower-dimensional piece of topology into a
//! higher-dimensional one: a half-edge sweeps into a face, a face into a
//! shell, a sketch into a solid. A [`SweepCache`] is threaded through one
//! top-level sweep so that a global vertex shared by two half-edges sweeps
//! to one translated vertex, and a curve shared by two edges sweeps to one
//! side surface; together with the store's deduplication this preserves
//! identity across shared boundaries.

use vstd::prelude::*;

use crate::math::{add_seqs, can_add, p1, p2, seq_bounded, v2, Line, Point, Vector, MAX_COORD};
use crate::objects::{
    curve_valid, cycle_in_range, cycle_valid, face_in_range, face_valid, global_edge_valid,
    half_edge_valid, normalized_pair, objects_extend, sketch_valid, surface_vertex_valid, Color,
    Curve, Cycle, Face, GlobalCurve, GlobalEdge, GlobalVertex, HalfEdge, Objects, Shell, Sketch,
    Solid, Surface, SurfaceVertex,
};
use crate::robust::triple_product;
use crate::storage::{Handle, StoreItem};

verus! {

/// The cache of one top-level sweep: which surface each global curve has
/// been swept to, and which translated vertex each global vertex has been
/// swept to.
pub struct SweepCache {
    /// For each global curve already swept, the surface it swept to.
    pub curves: Vec<(Handle<GlobalCurve>, Handle<Surface>)>,
    /// For each global vertex already swept, its translated copy.
    pub global_vertices: Vec<(Handle<GlobalVertex>, Handle<GlobalVertex>)>,
}

/// Whether every cache entry is consistent with the store and the sweep
/// path: curve entries map a global curve to the surface swept from it,
/// and vertex entries map a global vertex to its translation along the
/// path.
pub open spec fn cache_wf(cache: &SweepCache, o: &Objects, path: Vector<3>) -> bool {
    &&& forall|i: int, j: int|
        0 <= i < j < cache.curves@.len() ==> (#[trigger] cache.curves@[i]).0@ != (
        #[trigger] cache.curves@[j]).0@
    &&& forall|i: int, j: int|
        0 <= i < j < cache.global_vertices@.len() ==> (#[trigger] cache.global_vertices@[i]).0@
            != (#[trigger] cache.global_vertices@[j]).0@
    &&& forall|i: int|
        0 <= i < cache.curves@.len() ==> {
            let (key, val) = #[trigger] cache.curves@[i];
            &&& 0 <= key@ < o.global_curves@.len()
            &&& 0 <= val@ < o.surfaces@.len()
            &&& o.surfaces@[val@].curve.origin@ == o.global_curves@[key@].line.origin@
            &&& o.surfaces@[val@].curve.direction@ == o.global_curves@[key@].line.direction@
            &&& o.surfaces@[val@].path@ == path@
        }
    &&& forall|i: int|
        0 <= i < cache.global_vertices@.len() ==> {
            let (key, val) = #[trigger] cache.global_vertices@[i];
            &&& 0 <= key@ < o.global_vertices@.len()
            &&& 0 <= val@ < o.global_vertices@.len()
            &&& o.global_vertices@[val@].position@ == add_seqs(
                o.global_vertices@[key@].position@,
                path@,
            )
        }
}

impl SweepCache {
    /// Create an empty cache.
    pub fn new() -> (r: Self)
        ensures
            r.curves@.len() == 0,
            r.global_vertices@.len() == 0,
    {
        Self { curves: Vec::new(), global_vertices: Vec::new() }
    }
}

/// A consistent cache stays consistent when the store grows.
pub proof fn lemma_cache_wf_extend(
    cache: &SweepCache,
    pre: &Objects,
    post: &Objects,
    path: Vector<3>,
)
    requires
        cache_wf(cache, pre, path),
        objects_extend(pre, post),
    ensures
        cache_wf(cache, post, path),
{
    assert forall|i: int| 0 <= i < cache.curves@.len() implies {
        let (key, val) = #[trigger] cache.curves@[i];
        &&& 0 <= key@ < post.global_curves@.len()
        &&& 0 <= val@ < post.surfaces@.len()
        &&& post.surfaces@[val@].curve.origin@ == post.global_curves@[key@].line.origin@
        &&& post.surfaces@[val@].curve.direction@ == post.global_curves@[key@].line.direction@
        &&& post.surfaces@[val@].path@ == path@
    } by {
        let (key, val) = cache.curves@[i];
        assert(post.global_curves@[key@] == pre.global_curves@[key@]);
        assert(post.surfaces@[val@] == pre.surfaces@[val@]);
    }
    assert forall|i: int| 0 <= i < cache.global_vertices@.len() implies {
        let (key, val) = #[trigger] cache.global_vertices@[i];
        &&& 0 <= key@ < post.global_vertices@.len()
        &&& 0 <= val@ < post.global_vertices@.len()
        &&& post.global_vertices@[val@].position@ == add_seqs(
            post.global_vertices@[key@].position@,
            path@,
        )
    } by {
        let (key, val) = cache.global_vertices@[i];
        assert(post.global_vertices@[key@] == pre.global_vertices@[key@]);
        assert(post.global_vertices@[val@] == pre.global_vertices@[val@]);
    }
}

/// The position of the global form of a surface vertex.
pub open spec fn sv_global_position(o: &Objects, sv: int) -> Seq<int> {
    o.global_vertices@[o.surface_vertices@[sv].global_form@].position@
}

/// The global vertex at the far end of a side half-edge: the global form
/// of its second boundary vertex.
pub open spec fn side_top_gv(o: &Objects, rh: int) -> int {
    o.surface_vertices@[o.half_edges@[rh].spec_boundary()[1].1@].global_form@
}

/// Whether the cache records that the global vertex `key` swept to the
/// global vertex `val`.
pub open spec fn cache_maps_vertex(cache: &SweepCache, key: int, val: int) -> bool {
    exists|i: int|
        0 <= i < cache.global_vertices@.len() && (#[trigger] cache.global_vertices@[i]).0@ == key
            && cache.global_vertices@[i].1@ == val
}

/// Look up the surface a global curve has already been swept to.
#[verifier::loop_isolation(false)]
fn lookup_swept_curve(cache: &SweepCache, key: Handle<GlobalCurve>) -> (r: Option<
    Handle<Surface>,
>)
    ensures
        match r {
            Some(v) => exists|i: int|
                0 <= i < cache.curves@.len() && (#[trigger] cache.curves@[i]).0@ == key@
                    && cache.curves@[i].1@ == v@,
            None => forall|i: int|
                0 <= i < cache.curves@.len() ==> (#[trigger] cache.curves@[i]).0@ != key@,
        },
{
    let n = cache.curves.len();
    let mut i: usize = 0;
    while i < n
        invariant
            i <= n,
            forall|j: int| 0 <= j < i ==> (#[trigger] cache.curves@[j]).0@ != key@,
        decreases n - i,
    {
        let (k, v) = cache.curves[i];
        if k.id() == key.id() {
            return Some(v);
        }
        i += 1;
    }
    None
}

/// Look up the translated copy a global vertex has already been swept to.
#[verifier::loop_isolation(false)]
fn lookup_swept_vertex(cache: &SweepCache, key: Handle<GlobalVertex>) -> (r: Option<
    Handle<GlobalVertex>,
>)
    ensures
        match r {
            Some(v) => exists|i: int|
                0 <= i < cache.global_vertices@.len() && (#[trigger] cache.global_vertices@[i]).0@
                    == key@ && cache.global_vertices@[i].1@ == v@,
            None => forall|i: int|
                0 <= i < cache.global_vertices@.len() ==> (#[trigger] cache.global_vertices@[i]).0@
                    != key@,
        },
{
    let n = cache.global_vertices.len();
    let mut i: usize = 0;
    while i < n
        invariant
            i <= n,
            forall|j: int| 0 <= j < i ==> (#[trigger] cache.global_vertices@[j]).0@ != key@,
        decreases n - i,
    {
        let (k, v) = cache.global_vertices[i];
        if k.id() == key.id() {
            return Some(v);
        }
        i += 1;
    }
    None
}

/// Sweep a curve along a path: the result is the surface traced out by
/// the curve's global form, found in the cache when this curve was swept
/// before in the same operation.
pub fn sweep_curve_with_cache(
    curve: Handle<Curve>,
    path: Vector<3>,
    cache: &mut SweepCache,
    objects: &mut Objects,
) -> (r: Handle<Surface>)
    requires
        0 <= curve@ < old(objects).curves@.len(),
        curve_valid(old(objects), old(objects).curves@[curve@]),
        cache_wf(old(cache), old(objects), path),
    ensures
        objects_extend(old(objects), final(objects)),
        cache_wf(final(cache), final(objects), path),
        old(cache).curves@.is_prefix_of(final(cache).curves@),
        old(cache).global_vertices@ == final(cache).global_vertices@,
        0 <= r@ < final(objects).surfaces@.len(),
        final(objects).surfaces@[r@].curve.origin@ == final(objects).global_curves@[old(
            objects,
        ).curves@[curve@].global_form@].line.origin@,
        final(objects).surfaces@[r@].curve.direction@ == final(objects).global_curves@[old(
            objects,
        ).curves@[curve@].global_form@].line.direction@,
        final(objects).surfaces@[r@].path@ == path@,
{
    let c = *objects.curves.get(&curve);
    let key = c.global_form;
    if let Some(v) = lookup_swept_curve(cache, key) {
        return v;
    }
    let gc = *objects.global_curves.get(&key);
    let surface = Surface { curve: gc.line, path };
    let h = objects.surfaces.insert(surface);
    cache.curves.push((key, h));
    proof {
        assert forall|j: int| 0 <= j < cache.curves@.len() implies {
            let (key2, val2) = #[trigger] cache.curves@[j];
            &&& 0 <= key2@ < objects.global_curves@.len()
            &&& 0 <= val2@ < objects.surfaces@.len()
            &&& objects.surfaces@[val2@].curve.origin@
                == objects.global_curves@[key2@].line.origin@
            &&& objects.surfaces@[val2@].curve.direction@
                == objects.global_curves@[key2@].line.direction@
            &&& objects.surfaces@[val2@].path@ == path@
        } by {
            if j < cache.curves@.len() - 1 {
                let (key2, val2) = old(cache).curves@[j];
                assert(objects.surfaces@[val2@] == old(objects).surfaces@[val2@]);
            }
        }
    }
    h
}

/// Sweep one boundary vertex of a half-edge along a path: the result is
/// the side half-edge that connects the vertex to its translated copy on
/// the side surface. The translated global vertex is found in the cache
/// when the same global vertex was swept before in the same operation,
/// which is what keeps a corner shared by two half-edges a single vertex.
pub fn sweep_vertex_with_cache(
    t: Point<1>,
    sv: Handle<SurfaceVertex>,
    surface: Handle<Surface>,
    path: Vector<3>,
    cache: &mut SweepCache,
    objects: &mut Objects,
) -> (r: Handle<HalfEdge>)
    requires
        0 <= sv@ < old(objects).surface_vertices@.len(),
        surface_vertex_valid(old(objects), old(objects).surface_vertices@[sv@]),
        0 <= surface@ < old(objects).surfaces@.len(),
        can_add(sv_global_position(old(objects), sv@), path@),
        cache_wf(old(cache), old(objects), path),
    ensures
        objects_extend(old(objects), final(objects)),
        cache_wf(final(cache), final(objects), path),
        old(cache).curves@ == final(cache).curves@,
        old(cache).global_vertices@.is_prefix_of(final(cache).global_vertices@),
        cache_maps_vertex(
            final(cache),
            old(objects).surface_vertices@[sv@].global_form@,
            side_top_gv(final(objects), r@),
        ),
        0 <= r@ < final(objects).half_edges@.len(),
        half_edge_valid(final(objects), final(objects).half_edges@[r@]),
        final(objects).curves@[final(objects).half_edges@[r@].spec_curve()@].surface@ == surface@,
        final(objects).curves@[final(objects).half_edges@[r@].spec_curve()@].path.origin@ == seq![
            t@[0],
            0int,
        ],
        final(objects).curves@[final(objects).half_edges@[r@].spec_curve()@].path.direction@
            == seq![0int, 1int],
        final(objects).half_edges@[r@].spec_boundary()[0].0@ == seq![0int],
        final(objects).half_edges@[r@].spec_boundary()[1].0@ == seq![1int],
        final(objects).half_edges@[r@].spec_boundary()[0].1@ == sv@,
        final(objects).half_edges@[r@].spec_boundary()[1].1@
            < final(objects).surface_vertices@.len(),
        final(objects).surface_vertices@[final(objects).half_edges@[r@].spec_boundary()[1].1@].position@
            == seq![t@[0], 1int],
        final(objects).surface_vertices@[final(objects).half_edges@[r@].spec_boundary()[1].1@].surface@
            == surface@,
        sv_global_position(
            final(objects),
            final(objects).half_edges@[r@].spec_boundary()[1].1@,
        ) == add_seqs(sv_global_position(old(objects), sv@), path@),
{
    let bottom_sv = *objects.surface_vertices.get(&sv);
    let gv = bottom_sv.global_form;
    let gv_position = objects.global_vertices.get(&gv).position;

    // Find or create the translated global vertex.
    let top_gv = match lookup_swept_vertex(cache, gv) {
        Some(v) => v,
        None => {
            let translated = GlobalVertex { position: gv_position.translate(&path) };
            let h = objects.global_vertices.insert(translated);
            cache.global_vertices.push((gv, h));
            proof {
                assert(cache.global_vertices@[cache.global_vertices@.len() - 1] == (gv, h));
                assert(cache_maps_vertex(cache, gv@, h@));
                assert forall|j: int| 0 <= j < cache.global_vertices@.len() implies {
                    let (key2, val2) = #[trigger] cache.global_vertices@[j];
                    &&& 0 <= key2@ < objects.global_vertices@.len()
                    &&& 0 <= val2@ < objects.global_vertices@.len()
                    &&& objects.global_vertices@[val2@].position@ == add_seqs(
                        objects.global_vertices@[key2@].position@,
                        path@,
                    )
                } by {
                    if j < cache.global_vertices@.len() - 1 {
                        let (key2, val2) = old(cache).global_vertices@[j];
                        assert(objects.global_vertices@[key2@] == old(
                            objects,
                        ).global_vertices@[key2@]);
                        assert(objects.global_vertices@[val2@] == old(
                            objects,
                        ).global_vertices@[val2@]);
                    }
                }
            }
            h
        },
    };

    let ghost mid: Objects = *objects;
    proof {
        assert(cache_wf(cache, &mid, path));
    }

    // The side edge's global curve runs from the vertex along the path.
    let gc = objects.global_curves.insert(
        GlobalCurve { line: Line::new(gv_position, path) },
    );
    // Its surface-local curve is the vertical line at the curve parameter.
    let curve_value = Curve::new(surface, Line::new(p2(t.coord(0), 0), v2(0, 1)), gc);
    let curve = objects.curves.insert(curve_value);
    // The top surface vertex sits one path-length up.
    let top_sv_value = SurfaceVertex::new(p2(t.coord(0), 1), surface, top_gv);
    let top_sv = objects.surface_vertices.insert(top_sv_value);
    let ge_value = GlobalEdge::new(gc, [gv, top_gv]);
    let global_edge = objects.global_edges.insert(ge_value);
    let he_value = HalfEdge::new(curve, [(p1(0), sv), (p1(1), top_sv)], global_edge);
    let edge = objects.half_edges.insert(he_value);
    proof {
        lemma_cache_wf_extend(cache, &mid, objects, path);
        let e = objects.half_edges@[edge@];
        assert(e.same_spec(&he_value));
        assert(objects.curves@[curve@].same_spec(&curve_value));
        assert(objects.surface_vertices@[top_sv@].same_spec(&top_sv_value));
        assert(objects.global_edges@[global_edge@].same_spec(&ge_value));
        assert(objects.surface_vertices@[sv@] == old(objects).surface_vertices@[sv@]);
        assert(ge_value.spec_vertices() == normalized_pair(gv, top_gv));
        objects.global_edges@[global_edge@].lemma_vertices_len();
        e.lemma_boundary_len();
        assert(global_edge_valid(objects, objects.global_edges@[global_edge@]));
        assert(half_edge_valid(objects, e));
        assert(e.spec_boundary()[1].1@ == top_sv@);
        assert(objects.surface_vertices@[top_sv@].global_form@ == top_gv@);
        assert(objects.global_vertices@[top_gv@].position@ == add_seqs(
            sv_global_position(old(objects), sv@),
            path@,
        ));
        assert(side_top_gv(objects, edge@) == top_gv@);
        assert(cache_maps_vertex(cache, gv@, top_gv@));
    }
    edge
}


/// Whether every translation that sweeping or translating a half-edge
/// performs stays within the scalar type.
pub open spec fn he_translatable(o: &Objects, e: HalfEdge, path: Vector<3>) -> bool {
    &&& can_add(sv_global_position(o, e.spec_boundary()[0].1@), path@)
    &&& can_add(sv_global_position(o, e.spec_boundary()[1].1@), path@)
    &&& can_add(o.global_curves@[o.curves@[e.spec_curve()@].global_form@].line.origin@, path@)
    &&& can_add(o.surfaces@[o.curves@[e.spec_curve()@].surface@].curve.origin@, path@)
    &&& can_add(
        o.global_curves@[o.global_edges@[e.spec_global_form()@].spec_curve()@].line.origin@,
        path@,
    )
    &&& can_add(
        o.global_vertices@[o.global_edges@[e.spec_global_form()@].spec_vertices()[0]@].position@,
        path@,
    )
    &&& can_add(
        o.global_vertices@[o.global_edges@[e.spec_global_form()@].spec_vertices()[1]@].position@,
        path@,
    )
}

/// Whether a half-edge can be swept along a path: it is valid and all its
/// translations stay in range.
pub open spec fn he_sweepable(o: &Objects, eh: int, path: Vector<3>) -> bool {
    &&& 0 <= eh < o.half_edges@.len()
    &&& half_edge_valid(o, o.half_edges@[eh])
    &&& he_translatable(o, o.half_edges@[eh], path)
}

/// Whether every half-edge of a cycle can be swept along a path.
pub open spec fn cycle_sweepable(o: &Objects, ch: int, path: Vector<3>) -> bool {
    &&& 0 <= ch < o.cycles@.len()
    &&& forall|i: int|
        0 <= i < o.cycles@[ch].half_edges@.len() ==> he_sweepable(
            o,
            (#[trigger] o.cycles@[ch].half_edges@[i])@,
            path,
        )
}

/// Whether a face can be swept along a path: all the half-edges of all
/// its cycles can be, its exterior is nonempty, and the face's surface
/// and the path are bounded enough for the orientation test.
pub open spec fn face_sweepable(o: &Objects, fh: int, path: Vector<3>) -> bool {
    &&& 0 <= fh < o.faces@.len()
    &&& face_valid(o, o.faces@[fh])
    &&& cycle_sweepable(o, o.faces@[fh].exterior@, path)
    &&& forall|i: int|
        0 <= i < o.faces@[fh].interiors@.len() ==> cycle_sweepable(
            o,
            (#[trigger] o.faces@[fh].interiors@[i])@,
            path,
        )
    &&& o.cycles@[o.faces@[fh].exterior@].half_edges@.len() > 0
    &&& seq_bounded(face_surface(o, fh).curve.direction@, 2 * MAX_COORD as int)
    &&& seq_bounded(face_surface(o, fh).path@, 2 * MAX_COORD as int)
    &&& seq_bounded(path@, 2 * MAX_COORD as int)
}

/// The surface a face lies on: the surface of the curve of the first
/// half-edge of its exterior cycle.
pub open spec fn face_surface(o: &Objects, fh: int) -> Surface {
    o.surfaces@[o.curves@[o.half_edges@[o.cycles@[o.faces@[fh].exterior@].half_edges@[0]@].spec_curve()@].surface@]
}

/// Whether every face of a sketch can be swept along a path.
pub open spec fn sketch_sweepable(o: &Objects, sh: int, path: Vector<3>) -> bool {
    &&& 0 <= sh < o.sketches@.len()
    &&& forall|i: int|
        0 <= i < o.sketches@[sh].faces@.len() ==> face_sweepable(
            o,
            (#[trigger] o.sketches@[sh].faces@[i])@,
            path,
        )
}

/// A sweepable half-edge stays sweepable when the store grows.
pub proof fn lemma_he_sweepable_extend(pre: &Objects, post: &Objects, eh: int, path: Vector<3>)
    requires
        objects_extend(pre, post),
        he_sweepable(pre, eh, path),
    ensures
        he_sweepable(post, eh, path),
{
    let e = pre.half_edges@[eh];
    crate::objects::lemma_half_edge_valid_extend(pre, post, e);
    assert(post.half_edges@[eh] == pre.half_edges@[eh]);
    assert(post.curves@[e.spec_curve()@] == pre.curves@[e.spec_curve()@]);
    assert(post.global_edges@[e.spec_global_form()@] == pre.global_edges@[e.spec_global_form()@]);
    assert(post.surface_vertices@[e.spec_boundary()[0].1@] == pre.surface_vertices@[e.spec_boundary()[0].1@]);
    assert(post.surface_vertices@[e.spec_boundary()[1].1@] == pre.surface_vertices@[e.spec_boundary()[1].1@]);
}

/// A sweepable cycle stays sweepable when the store grows.
pub proof fn lemma_cycle_sweepable_extend(pre: &Objects, post: &Objects, ch: int, path: Vector<3>)
    requires
        objects_extend(pre, post),
        cycle_sweepable(pre, ch, path),
    ensures
        cycle_sweepable(post, ch, path),
{
    assert(post.cycles@[ch] == pre.cycles@[ch]);
    assert forall|i: int| 0 <= i < post.cycles@[ch].half_edges@.len() implies he_sweepable(
        post,
        (#[trigger] post.cycles@[ch].half_edges@[i])@,
        path,
    ) by {
        lemma_he_sweepable_extend(pre, post, post.cycles@[ch].half_edges@[i]@, path);
    }
}

/// A sweepable face stays sweepable when the store grows.
pub proof fn lemma_face_sweepable_extend(pre: &Objects, post: &Objects, fh: int, path: Vector<3>)
    requires
        objects_extend(pre, post),
        face_sweepable(pre, fh, path),
    ensures
        face_sweepable(post, fh, path),
{
    let f = pre.faces@[fh];
    crate::objects::lemma_face_valid_extend(pre, post, f);
    assert(post.faces@[fh] == pre.faces@[fh]);
    lemma_cycle_sweepable_extend(pre, post, f.exterior@, path);
    assert forall|i: int| 0 <= i < post.faces@[fh].interiors@.len() implies cycle_sweepable(
        post,
        (#[trigger] post.faces@[fh].interiors@[i])@,
        path,
    ) by {
        lemma_cycle_sweepable_extend(pre, post, f.interiors@[i]@, path);
    }
    assert(post.cycles@[f.exterior@] == pre.cycles@[f.exterior@]);
    let e0 = pre.cycles@[f.exterior@].half_edges@[0]@;
    assert(post.half_edges@[e0] == pre.half_edges@[e0]);
    assert(face_surface(post, fh) == face_surface(pre, fh));
}


/// Whether the half-edge at `rh` in `post` is the half-edge at `eh` in
/// `pre` with its two boundary entries exchanged: same curve, same
/// undirected global form, and the boundary pairs swapped.
pub open spec fn he_reversed(pre: &Objects, eh: int, post: &Objects, rh: int) -> bool {
    let a = pre.half_edges@[eh];
    let b = post.half_edges@[rh];
    &&& b.spec_curve()@ == a.spec_curve()@
    &&& b.spec_global_form()@ == a.spec_global_form()@
    &&& b.spec_boundary()[0].0@ == a.spec_boundary()[1].0@
    &&& b.spec_boundary()[0].1@ == a.spec_boundary()[1].1@
    &&& b.spec_boundary()[1].0@ == a.spec_boundary()[0].0@
    &&& b.spec_boundary()[1].1@ == a.spec_boundary()[0].1@
}

/// Whether the cycle at `rh` in `post` is the cycle at `ch` in `pre`
/// reversed: its half-edges in opposite order, each of them reversed.
pub open spec fn cycle_reversed(pre: &Objects, ch: int, post: &Objects, rh: int) -> bool {
    let a = pre.cycles@[ch];
    let b = post.cycles@[rh];
    &&& b.half_edges@.len() == a.half_edges@.len()
    &&& forall|i: int|
        0 <= i < a.half_edges@.len() ==> he_reversed(
            pre,
            a.half_edges@[a.half_edges@.len() - 1 - i]@,
            post,
            (#[trigger] b.half_edges@[i])@,
        )
}

/// Whether the face at `rh` in `post` is the face at `fh` in `pre`
/// reversed: every cycle reversed, the color kept.
pub open spec fn face_reversed(pre: &Objects, fh: int, post: &Objects, rh: int) -> bool {
    let a = pre.faces@[fh];
    let b = post.faces@[rh];
    &&& cycle_reversed(pre, a.exterior@, post, b.exterior@)
    &&& b.interiors@.len() == a.interiors@.len()
    &&& forall|i: int|
        0 <= i < a.interiors@.len() ==> cycle_reversed(
            pre,
            (#[trigger] a.interiors@[i])@,
            post,
            b.interiors@[i]@,
        )
    &&& b.color.rgba@ == a.color.rgba@
}

/// Whether the global edge at `rh` in `post` is the global edge at `gh`
/// in `pre` translated by `path`: its curve's line translated with the
/// direction kept, and its two vertices at the translated positions — in
/// one order or the other, since normalization re-sorts the pair.
pub open spec fn ge_translated(pre: &Objects, gh: int, post: &Objects, rh: int, path: Vector<3>) -> bool {
    let a = pre.global_edges@[gh];
    let b = post.global_edges@[rh];
    let p0 = add_seqs(pre.global_vertices@[a.spec_vertices()[0]@].position@, path@);
    let p1 = add_seqs(pre.global_vertices@[a.spec_vertices()[1]@].position@, path@);
    let q0 = post.global_vertices@[b.spec_vertices()[0]@].position@;
    let q1 = post.global_vertices@[b.spec_vertices()[1]@].position@;
    &&& post.global_curves@[b.spec_curve()@].line.origin@ == add_seqs(
        pre.global_curves@[a.spec_curve()@].line.origin@,
        path@,
    )
    &&& post.global_curves@[b.spec_curve()@].line.direction@
        == pre.global_curves@[a.spec_curve()@].line.direction@
    &&& ((q0 == p0 && q1 == p1) || (q0 == p1 && q1 == p0))
}

/// Whether the half-edge at `rh` in `post` is the half-edge at `eh` in
/// `pre` translated by `path`: boundary parameters and surface-local
/// coordinates kept, every global position translated, the curve's
/// global line translated with its direction kept, and the global form
/// over the translated vertex pair.
pub open spec fn he_translated(pre: &Objects, eh: int, post: &Objects, rh: int, path: Vector<3>) -> bool {
    let a = pre.half_edges@[eh];
    let b = post.half_edges@[rh];
    &&& b.spec_boundary()[0].0@ == a.spec_boundary()[0].0@
    &&& b.spec_boundary()[1].0@ == a.spec_boundary()[1].0@
    &&& post.surface_vertices@[b.spec_boundary()[0].1@].position@
        == pre.surface_vertices@[a.spec_boundary()[0].1@].position@
    &&& post.surface_vertices@[b.spec_boundary()[1].1@].position@
        == pre.surface_vertices@[a.spec_boundary()[1].1@].position@
    &&& sv_global_position(post, b.spec_boundary()[0].1@) == add_seqs(
        sv_global_position(pre, a.spec_boundary()[0].1@),
        path@,
    )
    &&& sv_global_position(post, b.spec_boundary()[1].1@) == add_seqs(
        sv_global_position(pre, a.spec_boundary()[1].1@),
        path@,
    )
    &&& post.curves@[b.spec_curve()@].path.origin@ == pre.curves@[a.spec_curve()@].path.origin@
    &&& post.curves@[b.spec_curve()@].path.direction@
        == pre.curves@[a.spec_curve()@].path.direction@
    &&& post.global_curves@[post.curves@[b.spec_curve()@].global_form@].line.origin@ == add_seqs(
        pre.global_curves@[pre.curves@[a.spec_curve()@].global_form@].line.origin@,
        path@,
    )
    &&& post.global_curves@[post.curves@[b.spec_curve()@].global_form@].line.direction@
        == pre.global_curves@[pre.curves@[a.spec_curve()@].global_form@].line.direction@
    &&& ge_translated(pre, a.spec_global_form()@, post, b.spec_global_form()@, path)
}

/// Whether the cycle at `rh` in `post` is the cycle at `ch` in `pre`
/// translated by `path`, half-edge by half-edge.
pub open spec fn cycle_translated(pre: &Objects, ch: int, post: &Objects, rh: int, path: Vector<3>) -> bool {
    let a = pre.cycles@[ch];
    let b = post.cycles@[rh];
    &&& b.half_edges@.len() == a.half_edges@.len()
    &&& forall|i: int|
        0 <= i < a.half_edges@.len() ==> he_translated(
            pre,
            (#[trigger] a.half_edges@[i])@,
            post,
            b.half_edges@[i]@,
            path,
        )
}

/// Whether the face at `rh` in `post` is the face at `fh` in `pre`
/// translated by `path`: every cycle translated element-wise, the color
/// kept.
pub open spec fn face_translated_in(pre: &Objects, fh: int, post: &Objects, rh: int, path: Vector<3>) -> bool {
    let a = pre.faces@[fh];
    let b = post.faces@[rh];
    &&& cycle_translated(pre, a.exterior@, post, b.exterior@, path)
    &&& b.interiors@.len() == a.interiors@.len()
    &&& forall|i: int|
        0 <= i < a.interiors@.len() ==> cycle_translated(
            pre,
            (#[trigger] a.interiors@[i])@,
            post,
            b.interiors@[i]@,
            path,
        )
    &&& b.color.rgba@ == a.color.rgba@
}

/// A reversal relation survives when both stores grow: the values it
/// speaks of stay where they are.
pub proof fn lemma_he_reversed_frame(
    pre0: &Objects,
    pre1: &Objects,
    post1: &Objects,
    post2: &Objects,
    eh: int,
    rh: int,
)
    requires
        objects_extend(pre0, pre1),
        objects_extend(post1, post2),
        0 <= eh < pre0.half_edges@.len(),
        0 <= rh < post1.half_edges@.len(),
        he_reversed(pre1, eh, post1, rh),
    ensures
        he_reversed(pre0, eh, post2, rh),
{
    assert(pre1.half_edges@[eh] == pre0.half_edges@[eh]);
    assert(post2.half_edges@[rh] == post1.half_edges@[rh]);
}

/// A translation relation survives when both stores grow.
pub proof fn lemma_he_translated_frame(
    pre0: &Objects,
    pre1: &Objects,
    post1: &Objects,
    post2: &Objects,
    eh: int,
    rh: int,
    path: Vector<3>,
)
    requires
        objects_extend(pre0, pre1),
        objects_extend(post1, post2),
        0 <= eh < pre0.half_edges@.len(),
        half_edge_valid(pre0, pre0.half_edges@[eh]),
        0 <= rh < post1.half_edges@.len(),
        half_edge_valid(post1, post1.half_edges@[rh]),
        he_translated(pre1, eh, post1, rh, path),
    ensures
        he_translated(pre0, eh, post2, rh, path),
{
    let a = pre0.half_edges@[eh];
    let b = post1.half_edges@[rh];
    assert(pre1.half_edges@[eh] == a);
    assert(post2.half_edges@[rh] == b);
    assert(pre1.surface_vertices@[a.spec_boundary()[0].1@]
        == pre0.surface_vertices@[a.spec_boundary()[0].1@]);
    assert(pre1.surface_vertices@[a.spec_boundary()[1].1@]
        == pre0.surface_vertices@[a.spec_boundary()[1].1@]);
    assert(post2.surface_vertices@[b.spec_boundary()[0].1@]
        == post1.surface_vertices@[b.spec_boundary()[0].1@]);
    assert(post2.surface_vertices@[b.spec_boundary()[1].1@]
        == post1.surface_vertices@[b.spec_boundary()[1].1@]);
    let agv0 = pre0.surface_vertices@[a.spec_boundary()[0].1@].global_form@;
    let agv1 = pre0.surface_vertices@[a.spec_boundary()[1].1@].global_form@;
    assert(pre1.global_vertices@[agv0] == pre0.global_vertices@[agv0]);
    assert(pre1.global_vertices@[agv1] == pre0.global_vertices@[agv1]);
    let bgv0 = post1.surface_vertices@[b.spec_boundary()[0].1@].global_form@;
    let bgv1 = post1.surface_vertices@[b.spec_boundary()[1].1@].global_form@;
    assert(post2.global_vertices@[bgv0] == post1.global_vertices@[bgv0]);
    assert(post2.global_vertices@[bgv1] == post1.global_vertices@[bgv1]);
    assert(pre1.curves@[a.spec_curve()@] == pre0.curves@[a.spec_curve()@]);
    assert(post2.curves@[b.spec_curve()@] == post1.curves@[b.spec_curve()@]);
    let agc = pre0.curves@[a.spec_curve()@].global_form@;
    let bgc = post1.curves@[b.spec_curve()@].global_form@;
    assert(pre1.global_curves@[agc] == pre0.global_curves@[agc]);
    assert(post2.global_curves@[bgc] == post1.global_curves@[bgc]);
    let age = pre0.global_edges@[a.spec_global_form()@];
    let bge = post1.global_edges@[b.spec_global_form()@];
    assert(pre1.global_edges@[a.spec_global_form()@] == age);
    assert(post2.global_edges@[b.spec_global_form()@] == bge);
    assert(pre1.global_curves@[age.spec_curve()@] == pre0.global_curves@[age.spec_curve()@]);
    assert(post2.global_curves@[bge.spec_curve()@] == post1.global_curves@[bge.spec_curve()@]);
    assert(pre1.global_vertices@[age.spec_vertices()[0]@]
        == pre0.global_vertices@[age.spec_vertices()[0]@]);
    assert(pre1.global_vertices@[age.spec_vertices()[1]@]
        == pre0.global_vertices@[age.spec_vertices()[1]@]);
    assert(post2.global_vertices@[bge.spec_vertices()[0]@]
        == post1.global_vertices@[bge.spec_vertices()[0]@]);
    assert(post2.global_vertices@[bge.spec_vertices()[1]@]
        == post1.global_vertices@[bge.spec_vertices()[1]@]);
}

/// A cycle translation relation survives when both stores grow.
pub proof fn lemma_cycle_translated_frame(
    pre0: &Objects,
    pre1: &Objects,
    post1: &Objects,
    post2: &Objects,
    ch: int,
    rh: int,
    path: Vector<3>,
)
    requires
        objects_extend(pre0, pre1),
        objects_extend(post1, post2),
        cycle_sweepable(pre0, ch, path),
        0 <= rh < post1.cycles@.len(),
        cycle_valid(post1, post1.cycles@[rh]),
        cycle_translated(pre1, ch, post1, rh, path),
    ensures
        cycle_translated(pre0, ch, post2, rh, path),
        cycle_valid(post2, post2.cycles@[rh]),
{
    let a = pre0.cycles@[ch];
    let b = post1.cycles@[rh];
    assert(pre1.cycles@[ch] == a);
    assert(post2.cycles@[rh] == b);
    crate::objects::lemma_cycle_valid_extend(post1, post2, b);
    assert forall|i: int| 0 <= i < a.half_edges@.len() implies he_translated(
        pre0,
        (#[trigger] a.half_edges@[i])@,
        post2,
        b.half_edges@[i]@,
        path,
    ) by {
        lemma_he_translated_frame(
            pre0,
            pre1,
            post1,
            post2,
            a.half_edges@[i]@,
            b.half_edges@[i]@,
            path,
        );
    }
}

/// Reverse a half-edge: the result traverses the same curve between the
/// same vertices in the opposite direction, under the same undirected
/// global form.
pub fn reverse_half_edge(edge: Handle<HalfEdge>, objects: &mut Objects) -> (r: Handle<HalfEdge>)
    requires
        0 <= edge@ < old(objects).half_edges@.len(),
    ensures
        objects_extend(old(objects), final(objects)),
        0 <= r@ < final(objects).half_edges@.len(),
        final(objects).half_edges@[r@].spec_curve()@ == old(objects).half_edges@[edge@].spec_curve()@,
        final(objects).half_edges@[r@].spec_global_form()@ == old(objects).half_edges@[edge@].spec_global_form()@,
        final(objects).half_edges@[r@].spec_boundary()[0].0@ == old(objects).half_edges@[edge@].spec_boundary()[1].0@,
        final(objects).half_edges@[r@].spec_boundary()[0].1@ == old(objects).half_edges@[edge@].spec_boundary()[1].1@,
        final(objects).half_edges@[r@].spec_boundary()[1].0@ == old(objects).half_edges@[edge@].spec_boundary()[0].0@,
        final(objects).half_edges@[r@].spec_boundary()[1].1@ == old(objects).half_edges@[edge@].spec_boundary()[0].1@,
        he_reversed(old(objects), edge@, final(objects), r@),
{
    let e = *objects.half_edges.get(&edge);
    let b = e.boundary();
    let svs = e.surface_vertices();
    let reversed = HalfEdge::new(e.curve(), [(b[1], svs[1]), (b[0], svs[0])], e.global_form());
    let h = objects.half_edges.insert(reversed);
    proof {
        assert(objects.half_edges@[h@].same_spec(&reversed));
        e.lemma_boundary_len();
        objects.half_edges@[h@].lemma_boundary_len();
    }
    h
}

/// Translate a half-edge along a path: every object it refers to is
/// translated and inserted, while surface-local coordinates are kept.
pub fn translate_half_edge(
    edge: Handle<HalfEdge>,
    path: Vector<3>,
    objects: &mut Objects,
) -> (r: Handle<HalfEdge>)
    requires
        he_sweepable(old(objects), edge@, path),
    ensures
        objects_extend(old(objects), final(objects)),
        0 <= r@ < final(objects).half_edges@.len(),
        half_edge_valid(final(objects), final(objects).half_edges@[r@]),
        he_translated(old(objects), edge@, final(objects), r@, path),
{
    let e = *objects.half_edges.get(&edge);
    proof {
        e.lemma_boundary_len();
    }
    let c = *objects.curves.get(&e.curve());
    let s = *objects.surfaces.get(&c.surface);
    let surface = objects.surfaces.insert(
        Surface { curve: s.curve.translate(&path), path: s.path },
    );
    let cgc = *objects.global_curves.get(&c.global_form);
    let gc_value = GlobalCurve { line: cgc.line.translate(&path) };
    let gc = objects.global_curves.insert(gc_value);
    let curve_value = Curve::new(surface, c.path, gc);
    let curve = objects.curves.insert(curve_value);

    let b = e.boundary();
    let svs = e.surface_vertices();
    let sv0 = *objects.surface_vertices.get(&svs[0]);
    let sv1 = *objects.surface_vertices.get(&svs[1]);
    let gv0_val = *objects.global_vertices.get(&sv0.global_form);
    let gv1_val = *objects.global_vertices.get(&sv1.global_form);
    let gv0_value = GlobalVertex { position: gv0_val.position.translate(&path) };
    let gv0 = objects.global_vertices.insert(gv0_value);
    let gv1_value = GlobalVertex { position: gv1_val.position.translate(&path) };
    let gv1 = objects.global_vertices.insert(gv1_value);
    let nsv0_value = SurfaceVertex::new(sv0.position, surface, gv0);
    let nsv0 = objects.surface_vertices.insert(nsv0_value);
    let nsv1_value = SurfaceVertex::new(sv1.position, surface, gv1);
    let nsv1 = objects.surface_vertices.insert(nsv1_value);

    let ge = *objects.global_edges.get(&e.global_form());
    let ge_gc_val = *objects.global_curves.get(&ge.curve());
    let ge_gc_value = GlobalCurve { line: ge_gc_val.line.translate(&path) };
    let ge_gc = objects.global_curves.insert(ge_gc_value);
    let ge_vs = ge.vertices().access_in_normalized_order();
    proof {
        ge.lemma_vertices_len();
    }
    let ge_gv0_val = *objects.global_vertices.get(&ge_vs[0]);
    let ge_gv1_val = *objects.global_vertices.get(&ge_vs[1]);
    let ge_gv0_value = GlobalVertex { position: ge_gv0_val.position.translate(&path) };
    let ge_gv0 = objects.global_vertices.insert(ge_gv0_value);
    let ge_gv1_value = GlobalVertex { position: ge_gv1_val.position.translate(&path) };
    let ge_gv1 = objects.global_vertices.insert(ge_gv1_value);
    let nge_value = GlobalEdge::new(ge_gc, [ge_gv0, ge_gv1]);
    let nge = objects.global_edges.insert(nge_value);

    let he_value = HalfEdge::new(curve, [(b[0], nsv0), (b[1], nsv1)], nge);
    let h = objects.half_edges.insert(he_value);
    proof {
        let a = old(objects).half_edges@[edge@];
        let out = objects.half_edges@[h@];
        assert(out.same_spec(&he_value));
        out.lemma_boundary_len();
        assert(objects.curves@[curve@].same_spec(&curve_value));
        assert(objects.global_curves@[gc@].same_spec(&gc_value));
        assert(objects.surface_vertices@[nsv0@].same_spec(&nsv0_value));
        assert(objects.surface_vertices@[nsv1@].same_spec(&nsv1_value));
        assert(objects.global_vertices@[gv0@].same_spec(&gv0_value));
        assert(objects.global_vertices@[gv1@].same_spec(&gv1_value));
        assert(objects.global_curves@[ge_gc@].same_spec(&ge_gc_value));
        assert(objects.global_vertices@[ge_gv0@].same_spec(&ge_gv0_value));
        assert(objects.global_vertices@[ge_gv1@].same_spec(&ge_gv1_value));
        assert(objects.global_edges@[nge@].same_spec(&nge_value));
        objects.global_edges@[nge@].lemma_vertices_len();
        assert(nge_value.spec_vertices() == normalized_pair(ge_gv0, ge_gv1));
        // the sources, unchanged in the final store
        assert(objects.half_edges@[edge@] == a);
        assert(objects.curves@[a.spec_curve()@] == old(objects).curves@[a.spec_curve()@]);
        assert(objects.surface_vertices@[a.spec_boundary()[0].1@] == old(
            objects,
        ).surface_vertices@[a.spec_boundary()[0].1@]);
        assert(objects.surface_vertices@[a.spec_boundary()[1].1@] == old(
            objects,
        ).surface_vertices@[a.spec_boundary()[1].1@]);
        assert(objects.global_vertices@[sv0.global_form@] == old(
            objects,
        ).global_vertices@[sv0.global_form@]);
        assert(objects.global_vertices@[sv1.global_form@] == old(
            objects,
        ).global_vertices@[sv1.global_form@]);
        assert(half_edge_valid(objects, out));
        assert(he_translated(old(objects), edge@, objects, h@, path));
    }
    h
}

/// Translate a cycle along a path, translating each of its half-edges.
pub fn translate_cycle(
    cycle: Handle<Cycle>,
    path: Vector<3>,
    objects: &mut Objects,
) -> (r: Handle<Cycle>)
    requires
        cycle_sweepable(old(objects), cycle@, path),
    ensures
        objects_extend(old(objects), final(objects)),
        0 <= r@ < final(objects).cycles@.len(),
        final(objects).cycles@[r@].half_edges@.len() == old(objects).cycles@[cycle@].half_edges@.len(),
        cycle_in_range(final(objects), final(objects).cycles@[r@]),
        cycle_valid(final(objects), final(objects).cycles@[r@]),
        cycle_translated(old(objects), cycle@, final(objects), r@, path),
{
    let edges = {
        let c = objects.cycles.get(&cycle);
        crate::objects::copy_handles(&c.half_edges)
    };
    let n = edges.len();
    let mut translated: Vec<Handle<HalfEdge>> = Vec::new();
    let mut i: usize = 0;
    while i < n
        invariant
            n == edges@.len(),
            i <= n,
            translated@.len() == i,
            edges@ == old(objects).cycles@[cycle@].half_edges@,
            objects_extend(old(objects), objects),
            cycle_sweepable(old(objects), cycle@, path),
            cycle_sweepable(objects, cycle@, path),
            0 <= cycle@ < objects.cycles@.len(),
            objects.cycles@[cycle@] == old(objects).cycles@[cycle@],
            forall|k: int|
                0 <= k < i ==> 0 <= (#[trigger] translated@[k])@ < objects.half_edges@.len()
                    && half_edge_valid(objects, objects.half_edges@[translated@[k]@])
                    && he_translated(old(objects), edges@[k]@, objects, translated@[k]@, path),
        decreases n - i,
    {
        let ghost pre: Objects = *objects;
        let t = translate_half_edge(edges[i], path, objects);
        translated.push(t);
        proof {
            lemma_cycle_sweepable_extend(&pre, objects, cycle@, path);
            assert forall|k: int| 0 <= k < i + 1 implies 0 <= (#[trigger] translated@[k])@
                < objects.half_edges@.len() && half_edge_valid(
                objects,
                objects.half_edges@[translated@[k]@],
            ) && he_translated(old(objects), edges@[k]@, objects, translated@[k]@, path) by {
                if k < i {
                    assert(objects.half_edges@[translated@[k]@]
                        == pre.half_edges@[translated@[k]@]);
                    crate::objects::lemma_half_edge_valid_extend(
                        &pre,
                        objects,
                        pre.half_edges@[translated@[k]@],
                    );
                    lemma_he_translated_frame(
                        old(objects),
                        old(objects),
                        &pre,
                        objects,
                        edges@[k]@,
                        translated@[k]@,
                        path,
                    );
                } else {
                    lemma_he_translated_frame(
                        old(objects),
                        &pre,
                        objects,
                        objects,
                        edges@[k]@,
                        translated@[k]@,
                        path,
                    );
                }
            }
        }
        i += 1;
    }
    let nc = Cycle::new(translated);
    let ghost ncg = nc;
    let h = objects.cycles.insert(nc);
    proof {
        assert(objects.cycles@[h@].same_spec(&ncg));
        assert(cycle_in_range(objects, objects.cycles@[h@]));
        assert(cycle_valid(objects, objects.cycles@[h@]));
        let out = objects.cycles@[h@];
        assert forall|k: int| 0 <= k < edges@.len() implies he_translated(
            old(objects),
            (#[trigger] old(objects).cycles@[cycle@].half_edges@[k])@,
            objects,
            out.half_edges@[k]@,
            path,
        ) by {
            assert(out.half_edges@[k]@ == translated@[k]@);
        }
        assert(cycle_translated(old(objects), cycle@, objects, h@, path));
    }
    h
}

/// Translate a face along a path, translating its cycles.
pub fn translate_face(
    face: Handle<Face>,
    path: Vector<3>,
    objects: &mut Objects,
) -> (r: Handle<Face>)
    requires
        face_sweepable(old(objects), face@, path),
    ensures
        objects_extend(old(objects), final(objects)),
        0 <= r@ < final(objects).faces@.len(),
        final(objects).faces@[r@].color.rgba@ == old(objects).faces@[face@].color.rgba@,
        face_in_range(final(objects), final(objects).faces@[r@]),
        face_valid(final(objects), final(objects).faces@[r@]),
        face_translated_in(old(objects), face@, final(objects), r@, path),
{
    let (exterior0, interiors0, color) = {
        let f = objects.faces.get(&face);
        (f.exterior, crate::objects::copy_handles(&f.interiors), f.color)
    };
    let exterior = translate_cycle(exterior0, path, objects);
    let n = interiors0.len();
    let mut interiors: Vec<Handle<Cycle>> = Vec::new();
    let mut i: usize = 0;
    while i < n
        invariant
            n == interiors0@.len(),
            i <= n,
            interiors0@ == old(objects).faces@[face@].interiors@,
            exterior0 == old(objects).faces@[face@].exterior,
            objects_extend(old(objects), objects),
            face_sweepable(old(objects), face@, path),
            forall|j: int|
                0 <= j < n ==> cycle_sweepable(objects, (#[trigger] interiors0@[j])@, path),
            0 <= exterior@ < objects.cycles@.len(),
            cycle_valid(objects, objects.cycles@[exterior@]),
            cycle_translated(old(objects), exterior0@, objects, exterior@, path),
            interiors@.len() == i,
            forall|k: int|
                0 <= k < i ==> 0 <= (#[trigger] interiors@[k])@ < objects.cycles@.len()
                    && cycle_valid(objects, objects.cycles@[interiors@[k]@])
                    && cycle_translated(
                    old(objects),
                    interiors0@[k]@,
                    objects,
                    interiors@[k]@,
                    path,
                ),
        decreases n - i,
    {
        let ghost pre: Objects = *objects;
        let t = translate_cycle(interiors0[i], path, objects);
        interiors.push(t);
        proof {
            assert forall|j: int| 0 <= j < n implies cycle_sweepable(
                objects,
                (#[trigger] interiors0@[j])@,
                path,
            ) by {
                lemma_cycle_sweepable_extend(&pre, objects, interiors0@[j]@, path);
            }
            lemma_cycle_translated_frame(
                old(objects),
                old(objects),
                &pre,
                objects,
                exterior0@,
                exterior@,
                path,
            );
            assert forall|k: int| 0 <= k < i + 1 implies 0 <= (#[trigger] interiors@[k])@
                < objects.cycles@.len() && cycle_valid(objects, objects.cycles@[interiors@[k]@])
                && cycle_translated(
                old(objects),
                interiors0@[k]@,
                objects,
                interiors@[k]@,
                path,
            ) by {
                if k < i {
                    lemma_cycle_translated_frame(
                        old(objects),
                        old(objects),
                        &pre,
                        objects,
                        interiors0@[k]@,
                        interiors@[k]@,
                        path,
                    );
                } else {
                    lemma_cycle_translated_frame(
                        old(objects),
                        &pre,
                        objects,
                        objects,
                        interiors0@[k]@,
                        interiors@[k]@,
                        path,
                    );
                }
            }
        }
        i += 1;
    }
    let nf = Face { exterior, interiors, color };
    let ghost nfg = nf;
    let h = objects.faces.insert(nf);
    proof {
        assert(objects.faces@[h@].same_spec(&nfg));
        assert(objects.faces@[face@] == old(objects).faces@[face@]);
        assert(face_in_range(objects, objects.faces@[h@]));
        assert(face_valid(objects, objects.faces@[h@]));
        let out = objects.faces@[h@];
        assert(out.exterior@ == exterior@);
        assert(cycle_translated(old(objects), exterior0@, objects, out.exterior@, path));
        assert forall|k: int| 0 <= k < old(objects).faces@[face@].interiors@.len() implies
            cycle_translated(
            old(objects),
            (#[trigger] old(objects).faces@[face@].interiors@[k])@,
            objects,
            out.interiors@[k]@,
            path,
        ) by {
            assert(out.interiors@[k]@ == interiors@[k]@);
        }
        assert(face_translated_in(old(objects), face@, objects, h@, path));
    }
    h
}

/// Reverse a cycle: its half-edges come in opposite order, each of them
/// reversed.
pub fn reverse_cycle(cycle: Handle<Cycle>, objects: &mut Objects) -> (r: Handle<Cycle>)
    requires
        0 <= cycle@ < old(objects).cycles@.len(),
        cycle_in_range(old(objects), old(objects).cycles@[cycle@]),
    ensures
        objects_extend(old(objects), final(objects)),
        0 <= r@ < final(objects).cycles@.len(),
        final(objects).cycles@[r@].half_edges@.len() == old(objects).cycles@[cycle@].half_edges@.len(),
        cycle_in_range(final(objects), final(objects).cycles@[r@]),
        cycle_valid(old(objects), old(objects).cycles@[cycle@]) ==> cycle_valid(
            final(objects),
            final(objects).cycles@[r@],
        ),
        cycle_reversed(old(objects), cycle@, final(objects), r@),
{
    let edges = {
        let c = objects.cycles.get(&cycle);
        crate::objects::copy_handles(&c.half_edges)
    };
    let n = edges.len();
    let mut reversed: Vec<Handle<HalfEdge>> = Vec::new();
    let mut i: usize = 0;
    while i < n
        invariant
            n == edges@.len(),
            i <= n,
            reversed@.len() == i,
            edges@ == old(objects).cycles@[cycle@].half_edges@,
            0 <= cycle@ < old(objects).cycles@.len(),
            cycle_in_range(old(objects), old(objects).cycles@[cycle@]),
            objects_extend(old(objects), objects),
            forall|j: int| 0 <= j < n ==> 0 <= (#[trigger] edges@[j])@ < objects.half_edges@.len(),
            forall|k: int|
                0 <= k < i ==> 0 <= (#[trigger] reversed@[k])@ < objects.half_edges@.len()
                    && he_reversed(old(objects), edges@[n - 1 - k]@, objects, reversed@[k]@),
            cycle_valid(old(objects), old(objects).cycles@[cycle@]) ==> forall|k: int|
                0 <= k < i ==> half_edge_valid(
                    objects,
                    objects.half_edges@[(#[trigger] reversed@[k])@],
                ),
        decreases n - i,
    {
        let ghost pre: Objects = *objects;
        let t = reverse_half_edge(edges[n - 1 - i], objects);
        reversed.push(t);
        proof {
            assert forall|k: int| 0 <= k < i + 1 implies 0 <= (#[trigger] reversed@[k])@
                < objects.half_edges@.len() && he_reversed(
                old(objects),
                edges@[n - 1 - k]@,
                objects,
                reversed@[k]@,
            ) by {
                assert(0 <= (old(objects).cycles@[cycle@].half_edges@[n - 1 - k])@ < old(
                    objects,
                ).half_edges@.len());
                if k < i {
                    lemma_he_reversed_frame(
                        old(objects),
                        old(objects),
                        &pre,
                        objects,
                        edges@[n - 1 - k]@,
                        reversed@[k]@,
                    );
                } else {
                    lemma_he_reversed_frame(
                        old(objects),
                        &pre,
                        objects,
                        objects,
                        edges@[n - 1 - k]@,
                        reversed@[k]@,
                    );
                }
            }
            if cycle_valid(old(objects), old(objects).cycles@[cycle@]) {
                assert forall|k: int| 0 <= k < i + 1 implies half_edge_valid(
                    objects,
                    objects.half_edges@[(#[trigger] reversed@[k])@],
                ) by {
                    if k < i {
                        crate::objects::lemma_half_edge_valid_extend(
                            &pre,
                            objects,
                            pre.half_edges@[reversed@[k]@],
                        );
                    } else {
                        crate::objects::lemma_half_edge_valid_extend(
                            old(objects),
                            &pre,
                            old(objects).half_edges@[edges@[n - 1 - k]@],
                        );
                        lemma_he_reversed_valid(&pre, edges@[n - 1 - k]@, objects, reversed@[k]@);
                    }
                }
            }
        }
        i += 1;
    }
    let nc = Cycle::new(reversed);
    let ghost ncg = nc;
    let h = objects.cycles.insert(nc);
    proof {
        assert(objects.cycles@[h@].same_spec(&ncg));
        assert(cycle_in_range(objects, objects.cycles@[h@]));
        let out = objects.cycles@[h@];
        assert forall|k: int| 0 <= k < n implies he_reversed(
            old(objects),
            old(objects).cycles@[cycle@].half_edges@[n - 1 - k]@,
            objects,
            (#[trigger] out.half_edges@[k])@,
        ) by {
            assert(out.half_edges@[k]@ == reversed@[k]@);
        }
        assert(cycle_reversed(old(objects), cycle@, objects, h@));
    }
    h
}

/// A cycle reversal relation survives when both stores grow.
pub proof fn lemma_cycle_reversed_frame(
    pre0: &Objects,
    pre1: &Objects,
    post1: &Objects,
    post2: &Objects,
    ch: int,
    rh: int,
)
    requires
        objects_extend(pre0, pre1),
        objects_extend(post1, post2),
        0 <= ch < pre0.cycles@.len(),
        cycle_in_range(pre0, pre0.cycles@[ch]),
        0 <= rh < post1.cycles@.len(),
        cycle_in_range(post1, post1.cycles@[rh]),
        cycle_reversed(pre1, ch, post1, rh),
    ensures
        cycle_reversed(pre0, ch, post2, rh),
{
    let a = pre0.cycles@[ch];
    let b = post1.cycles@[rh];
    assert(pre1.cycles@[ch] == a);
    assert(post2.cycles@[rh] == b);
    assert forall|i: int| 0 <= i < a.half_edges@.len() implies he_reversed(
        pre0,
        a.half_edges@[a.half_edges@.len() - 1 - i]@,
        post2,
        (#[trigger] b.half_edges@[i])@,
    ) by {
        lemma_he_reversed_frame(
            pre0,
            pre1,
            post1,
            post2,
            a.half_edges@[a.half_edges@.len() - 1 - i]@,
            b.half_edges@[i]@,
        );
    }
}

/// Reverse a face: all its cycles are reversed, so the face bounds the
/// same region with the opposite orientation.
pub fn reverse_face(face: Handle<Face>, objects: &mut Objects) -> (r: Handle<Face>)
    requires
        0 <= face@ < old(objects).faces@.len(),
        face_in_range(old(objects), old(objects).faces@[face@]),
    ensures
        objects_extend(old(objects), final(objects)),
        0 <= r@ < final(objects).faces@.len(),
        final(objects).faces@[r@].color.rgba@ == old(objects).faces@[face@].color.rgba@,
        face_in_range(final(objects), final(objects).faces@[r@]),
        face_valid(old(objects), old(objects).faces@[face@]) ==> face_valid(
            final(objects),
            final(objects).faces@[r@],
        ),
        face_reversed(old(objects), face@, final(objects), r@),
{
    let (exterior0, interiors0, color) = {
        let f = objects.faces.get(&face);
        (f.exterior, crate::objects::copy_handles(&f.interiors), f.color)
    };
    let exterior = reverse_cycle(exterior0, objects);
    let n = interiors0.len();
    let mut interiors: Vec<Handle<Cycle>> = Vec::new();
    let mut i: usize = 0;
    while i < n
        invariant
            n == interiors0@.len(),
            i <= n,
            interiors0@ == old(objects).faces@[face@].interiors@,
            exterior0 == old(objects).faces@[face@].exterior,
            0 <= face@ < old(objects).faces@.len(),
            face_in_range(old(objects), old(objects).faces@[face@]),
            objects_extend(old(objects), objects),
            forall|j: int|
                0 <= j < n ==> 0 <= (#[trigger] interiors0@[j])@ < objects.cycles@.len()
                    && cycle_in_range(objects, objects.cycles@[interiors0@[j]@]),
            0 <= exterior@ < objects.cycles@.len(),
            cycle_in_range(objects, objects.cycles@[exterior@]),
            cycle_reversed(old(objects), exterior0@, objects, exterior@),
            interiors@.len() == i,
            forall|k: int|
                0 <= k < i ==> 0 <= (#[trigger] interiors@[k])@ < objects.cycles@.len()
                    && cycle_in_range(objects, objects.cycles@[interiors@[k]@])
                    && cycle_reversed(old(objects), interiors0@[k]@, objects, interiors@[k]@),
            face_valid(old(objects), old(objects).faces@[face@]) ==> cycle_valid(
                objects,
                objects.cycles@[exterior@],
            ),
            face_valid(old(objects), old(objects).faces@[face@]) ==> forall|k: int|
                0 <= k < i ==> cycle_valid(
                    objects,
                    objects.cycles@[(#[trigger] interiors@[k])@],
                ),
        decreases n - i,
    {
        let ghost pre: Objects = *objects;
        let t = reverse_cycle(interiors0[i], objects);
        interiors.push(t);
        proof {
            assert forall|j: int| 0 <= j < n implies 0 <= (#[trigger] interiors0@[j])@
                < objects.cycles@.len() && cycle_in_range(objects, objects.cycles@[interiors0@[j]@]) by {
                assert(objects.cycles@[interiors0@[j]@] == pre.cycles@[interiors0@[j]@]);
            }
            assert(objects.cycles@[exterior@] == pre.cycles@[exterior@]);
            lemma_cycle_reversed_frame(
                old(objects),
                old(objects),
                &pre,
                objects,
                exterior0@,
                exterior@,
            );
            assert forall|k: int| 0 <= k < i + 1 implies 0 <= (#[trigger] interiors@[k])@
                < objects.cycles@.len() && cycle_in_range(objects, objects.cycles@[interiors@[k]@])
                && cycle_reversed(old(objects), interiors0@[k]@, objects, interiors@[k]@) by {
                if k < i {
                    assert(objects.cycles@[interiors@[k]@] == pre.cycles@[interiors@[k]@]);
                    lemma_cycle_reversed_frame(
                        old(objects),
                        old(objects),
                        &pre,
                        objects,
                        interiors0@[k]@,
                        interiors@[k]@,
                    );
                } else {
                    lemma_cycle_reversed_frame(
                        old(objects),
                        &pre,
                        objects,
                        objects,
                        interiors0@[k]@,
                        interiors@[k]@,
                    );
                }
            }
            if face_valid(old(objects), old(objects).faces@[face@]) {
                crate::objects::lemma_cycle_valid_extend(
                    &pre,
                    objects,
                    pre.cycles@[exterior@],
                );
                assert forall|k: int| 0 <= k < i + 1 implies cycle_valid(
                    objects,
                    objects.cycles@[(#[trigger] interiors@[k])@],
                ) by {
                    if k < i {
                        crate::objects::lemma_cycle_valid_extend(
                            &pre,
                            objects,
                            pre.cycles@[interiors@[k]@],
                        );
                    } else {
                        assert(pre.cycles@[interiors0@[k]@] == old(
                            objects,
                        ).cycles@[interiors0@[k]@]);
                    }
                }
            }
        }
        i += 1;
    }
    let nf = Face { exterior, interiors, color };
    let ghost nfg = nf;
    let h = objects.faces.insert(nf);
    proof {
        assert(objects.faces@[h@].same_spec(&nfg));
        assert(objects.faces@[face@] == old(objects).faces@[face@]);
        assert(face_in_range(objects, objects.faces@[h@]));
        let out = objects.faces@[h@];
        assert(out.exterior@ == exterior@);
        assert forall|k: int| 0 <= k < old(objects).faces@[face@].interiors@.len() implies
            cycle_reversed(
            old(objects),
            (#[trigger] old(objects).faces@[face@].interiors@[k])@,
            objects,
            out.interiors@[k]@,
        ) by {
            assert(out.interiors@[k]@ == interiors@[k]@);
        }
        assert(face_reversed(old(objects), face@, objects, h@));
    }
    h
}


/// Whether the cache records the sweep of the given surface vertex's
/// global form: some global vertex of the store is its translated copy,
/// and the cache maps the one to the other. Together with the cache's
/// key uniqueness this pins the swept copy: a later sweep of a half-edge
/// sharing the global vertex receives the identical translated vertex.
pub open spec fn swept_vertex_recorded(
    cache: &SweepCache,
    pre: &Objects,
    sv: int,
    post: &Objects,
    path: Vector<3>,
) -> bool {
    exists|v: int|
        0 <= v < post.global_vertices@.len() && #[trigger] cache_maps_vertex(
            cache,
            pre.surface_vertices@[sv].global_form@,
            v,
        ) && post.global_vertices@[v].position@ == add_seqs(sv_global_position(pre, sv), path@)
}

/// A recorded mapping survives when the cache and the store grow.
proof fn lemma_cache_maps_prefix(cache1: &SweepCache, cache2: &SweepCache, key: int, v: int)
    requires
        cache1.global_vertices@.is_prefix_of(cache2.global_vertices@),
        cache_maps_vertex(cache1, key, v),
    ensures
        cache_maps_vertex(cache2, key, v),
{
    let i = choose|i: int|
        0 <= i < cache1.global_vertices@.len() && (#[trigger] cache1.global_vertices@[i]).0@ == key
            && cache1.global_vertices@[i].1@ == v;
    assert(cache2.global_vertices@[i] == cache1.global_vertices@[i]);
}

/// The surface vertex a half-edge starts from.
pub open spec fn first_sv(o: &Objects, eh: int) -> int {
    o.half_edges@[eh].spec_boundary()[0].1@
}

/// The surface vertex a half-edge ends at.
pub open spec fn last_sv(o: &Objects, eh: int) -> int {
    o.half_edges@[eh].spec_boundary()[1].1@
}

/// The cycle invariant: each half-edge ends at the surface vertex the
/// cyclically next half-edge starts from — compared by surface-vertex
/// identity, not global identity, since global forms may coincide when a
/// closed curve is swept.
pub open spec fn cycle_closed(o: &Objects, c: Cycle) -> bool {
    &&& c.half_edges@.len() > 0
    &&& forall|k: int|
        0 <= k < c.half_edges@.len() ==> last_sv(o, (#[trigger] c.half_edges@[k])@) == first_sv(
            o,
            c.half_edges@[(k + 1) % (c.half_edges@.len() as int)]@,
        )
}

/// Whether boundary entry `k` of the re-derived edge `b` corresponds to
/// boundary entry `i` of the swept edge `a`: the curve parameter is kept,
/// the fresh surface vertex sits at that parameter on the bottom rim of
/// the side surface, and it references the same global vertex as the
/// swept edge's.
pub open spec fn bottom_pair_matches(
    pre: &Objects,
    a: HalfEdge,
    post: &Objects,
    b: HalfEdge,
    i: int,
    k: int,
) -> bool {
    &&& b.spec_boundary()[k].0@ == a.spec_boundary()[i].0@
    &&& post.surface_vertices@[b.spec_boundary()[k].1@].position@ == seq![
        a.spec_boundary()[i].0@[0],
        0int,
    ]
    &&& post.surface_vertices@[b.spec_boundary()[k].1@].global_form@
        == pre.surface_vertices@[a.spec_boundary()[i].1@].global_form@
}

/// Whether the half-edge at `bh` in `post` is the bottom edge of sweeping
/// the half-edge at `eh` in `pre`: the swept edge re-derived on the side
/// surface, with the same global curve, the same undirected global form,
/// and fresh surface vertices over the same global vertices — with the
/// two boundary entries possibly exchanged by the reorientation step.
pub open spec fn bottom_edge_of_sweep(pre: &Objects, eh: int, post: &Objects, bh: int) -> bool {
    let a = pre.half_edges@[eh];
    let b = post.half_edges@[bh];
    &&& post.curves@[b.spec_curve()@].global_form@ == pre.curves@[a.spec_curve()@].global_form@
    &&& b.spec_global_form()@ == a.spec_global_form()@
    &&& ((bottom_pair_matches(pre, a, post, b, 0, 0) && bottom_pair_matches(pre, a, post, b, 1, 1))
        || (bottom_pair_matches(pre, a, post, b, 0, 1) && bottom_pair_matches(
        pre,
        a,
        post,
        b,
        1,
        0,
    )))
}

/// Whether boundary entry `k` of the top edge `b` corresponds to boundary
/// entry `i` of the swept edge `a`: the curve parameter is kept, the
/// surface vertex sits at that parameter on the top rim of the side
/// surface, and its global position is the swept edge's vertex position
/// translated along the path.
pub open spec fn top_pair_matches(
    pre: &Objects,
    a: HalfEdge,
    post: &Objects,
    b: HalfEdge,
    i: int,
    k: int,
    path: Vector<3>,
) -> bool {
    &&& b.spec_boundary()[k].0@ == a.spec_boundary()[i].0@
    &&& post.surface_vertices@[b.spec_boundary()[k].1@].position@ == seq![
        a.spec_boundary()[i].0@[0],
        1int,
    ]
    &&& sv_global_position(post, b.spec_boundary()[k].1@) == add_seqs(
        sv_global_position(pre, a.spec_boundary()[i].1@),
        path@,
    )
}

/// Whether the half-edge at `th` in `post` is the top edge of sweeping
/// the half-edge at `eh` in `pre` along `path`: its global curve is the
/// swept edge's translated along the path, and its vertices sit at the
/// swept edge's parameters on the top rim, at the translated global
/// positions — with the two boundary entries possibly exchanged by the
/// reorientation step.
pub open spec fn top_edge_of_sweep(
    pre: &Objects,
    eh: int,
    post: &Objects,
    th: int,
    path: Vector<3>,
) -> bool {
    let a = pre.half_edges@[eh];
    let b = post.half_edges@[th];
    &&& post.global_curves@[post.curves@[b.spec_curve()@].global_form@].line.origin@ == add_seqs(
        pre.global_curves@[pre.curves@[a.spec_curve()@].global_form@].line.origin@,
        path@,
    )
    &&& post.global_curves@[post.curves@[b.spec_curve()@].global_form@].line.direction@
        == pre.global_curves@[pre.curves@[a.spec_curve()@].global_form@].line.direction@
    &&& ((top_pair_matches(pre, a, post, b, 0, 0, path) && top_pair_matches(
        pre,
        a,
        post,
        b,
        1,
        1,
        path,
    )) || (top_pair_matches(pre, a, post, b, 0, 1, path) && top_pair_matches(
        pre,
        a,
        post,
        b,
        1,
        0,
        path,
    )))
}

/// A bottom-edge fact survives when both stores grow.
proof fn lemma_bottom_edge_frame(
    pre: &Objects,
    eh: int,
    post1: &Objects,
    post2: &Objects,
    bh: int,
)
    requires
        objects_extend(post1, post2),
        0 <= eh < pre.half_edges@.len(),
        half_edge_valid(pre, pre.half_edges@[eh]),
        0 <= bh < post1.half_edges@.len(),
        half_edge_valid(post1, post1.half_edges@[bh]),
        bottom_edge_of_sweep(pre, eh, post1, bh),
    ensures
        bottom_edge_of_sweep(pre, eh, post2, bh),
{
    let b = post1.half_edges@[bh];
    assert(post2.half_edges@[bh] == b);
    assert(post2.curves@[b.spec_curve()@] == post1.curves@[b.spec_curve()@]);
    assert(post2.surface_vertices@[b.spec_boundary()[0].1@]
        == post1.surface_vertices@[b.spec_boundary()[0].1@]);
    assert(post2.surface_vertices@[b.spec_boundary()[1].1@]
        == post1.surface_vertices@[b.spec_boundary()[1].1@]);
}

/// A bottom-edge fact carries over to the reversed edge: reversal only
/// exchanges the two boundary entries.
proof fn lemma_bottom_edge_reversed(
    pre: &Objects,
    eh: int,
    post1: &Objects,
    bh: int,
    post2: &Objects,
    rh: int,
)
    requires
        objects_extend(post1, post2),
        0 <= eh < pre.half_edges@.len(),
        half_edge_valid(pre, pre.half_edges@[eh]),
        0 <= bh < post1.half_edges@.len(),
        half_edge_valid(post1, post1.half_edges@[bh]),
        0 <= rh < post2.half_edges@.len(),
        he_reversed(post1, bh, post2, rh),
        bottom_edge_of_sweep(pre, eh, post1, bh),
    ensures
        bottom_edge_of_sweep(pre, eh, post2, rh),
{
    let a = pre.half_edges@[eh];
    let b = post1.half_edges@[bh];
    let c = post2.half_edges@[rh];
    assert(post2.curves@[c.spec_curve()@] == post1.curves@[b.spec_curve()@]);
    assert(post2.surface_vertices@[c.spec_boundary()[0].1@]
        == post1.surface_vertices@[b.spec_boundary()[1].1@]);
    assert(post2.surface_vertices@[c.spec_boundary()[1].1@]
        == post1.surface_vertices@[b.spec_boundary()[0].1@]);
    if bottom_pair_matches(pre, a, post1, b, 0, 0) && bottom_pair_matches(pre, a, post1, b, 1, 1) {
        assert(bottom_pair_matches(pre, a, post2, c, 0, 1));
        assert(bottom_pair_matches(pre, a, post2, c, 1, 0));
    } else {
        assert(bottom_pair_matches(pre, a, post2, c, 0, 0));
        assert(bottom_pair_matches(pre, a, post2, c, 1, 1));
    }
}

/// A reversed half-edge is valid when its source is: it refers to the
/// same objects.
proof fn lemma_he_reversed_valid(post1: &Objects, bh: int, post2: &Objects, rh: int)
    requires
        objects_extend(post1, post2),
        0 <= bh < post1.half_edges@.len(),
        half_edge_valid(post1, post1.half_edges@[bh]),
        0 <= rh < post2.half_edges@.len(),
        he_reversed(post1, bh, post2, rh),
    ensures
        half_edge_valid(post2, post2.half_edges@[rh]),
{
    let b = post1.half_edges@[bh];
    let c = post2.half_edges@[rh];
    c.lemma_boundary_len();
    crate::objects::lemma_half_edge_valid_extend(post1, post2, b);
    assert(post2.curves@[c.spec_curve()@] == post1.curves@[b.spec_curve()@]);
    assert(post2.surface_vertices@[c.spec_boundary()[0].1@]
        == post1.surface_vertices@[b.spec_boundary()[1].1@]);
    assert(post2.surface_vertices@[c.spec_boundary()[1].1@]
        == post1.surface_vertices@[b.spec_boundary()[0].1@]);
    assert(post2.global_edges@[c.spec_global_form()@]
        == post1.global_edges@[b.spec_global_form()@]);
}

/// A top-edge fact survives when both stores grow.
proof fn lemma_top_edge_frame(
    pre: &Objects,
    eh: int,
    post1: &Objects,
    post2: &Objects,
    th: int,
    path: Vector<3>,
)
    requires
        objects_extend(post1, post2),
        0 <= eh < pre.half_edges@.len(),
        half_edge_valid(pre, pre.half_edges@[eh]),
        0 <= th < post1.half_edges@.len(),
        half_edge_valid(post1, post1.half_edges@[th]),
        top_edge_of_sweep(pre, eh, post1, th, path),
    ensures
        top_edge_of_sweep(pre, eh, post2, th, path),
{
    let b = post1.half_edges@[th];
    assert(post2.half_edges@[th] == b);
    assert(post2.curves@[b.spec_curve()@] == post1.curves@[b.spec_curve()@]);
    let gch = post1.curves@[b.spec_curve()@].global_form@;
    assert(post2.global_curves@[gch] == post1.global_curves@[gch]);
    assert(post2.surface_vertices@[b.spec_boundary()[0].1@]
        == post1.surface_vertices@[b.spec_boundary()[0].1@]);
    assert(post2.surface_vertices@[b.spec_boundary()[1].1@]
        == post1.surface_vertices@[b.spec_boundary()[1].1@]);
    let g0 = post1.surface_vertices@[b.spec_boundary()[0].1@].global_form@;
    let g1 = post1.surface_vertices@[b.spec_boundary()[1].1@].global_form@;
    assert(post2.global_vertices@[g0] == post1.global_vertices@[g0]);
    assert(post2.global_vertices@[g1] == post1.global_vertices@[g1]);
}

/// A top-edge fact carries over to the reversed edge.
proof fn lemma_top_edge_reversed(
    pre: &Objects,
    eh: int,
    post1: &Objects,
    th: int,
    post2: &Objects,
    rh: int,
    path: Vector<3>,
)
    requires
        objects_extend(post1, post2),
        0 <= eh < pre.half_edges@.len(),
        half_edge_valid(pre, pre.half_edges@[eh]),
        0 <= th < post1.half_edges@.len(),
        half_edge_valid(post1, post1.half_edges@[th]),
        0 <= rh < post2.half_edges@.len(),
        he_reversed(post1, th, post2, rh),
        top_edge_of_sweep(pre, eh, post1, th, path),
    ensures
        top_edge_of_sweep(pre, eh, post2, rh, path),
{
    let a = pre.half_edges@[eh];
    let b = post1.half_edges@[th];
    let c = post2.half_edges@[rh];
    assert(post2.curves@[c.spec_curve()@] == post1.curves@[b.spec_curve()@]);
    let gch = post1.curves@[b.spec_curve()@].global_form@;
    assert(post2.global_curves@[gch] == post1.global_curves@[gch]);
    assert(post2.surface_vertices@[c.spec_boundary()[0].1@]
        == post1.surface_vertices@[b.spec_boundary()[1].1@]);
    assert(post2.surface_vertices@[c.spec_boundary()[1].1@]
        == post1.surface_vertices@[b.spec_boundary()[0].1@]);
    let g0 = post1.surface_vertices@[b.spec_boundary()[0].1@].global_form@;
    let g1 = post1.surface_vertices@[b.spec_boundary()[1].1@].global_form@;
    assert(post2.global_vertices@[g0] == post1.global_vertices@[g0]);
    assert(post2.global_vertices@[g1] == post1.global_vertices@[g1]);
    if top_pair_matches(pre, a, post1, b, 0, 0, path) && top_pair_matches(
        pre,
        a,
        post1,
        b,
        1,
        1,
        path,
    ) {
        assert(top_pair_matches(pre, a, post2, c, 0, 1, path));
        assert(top_pair_matches(pre, a, post2, c, 1, 0, path));
    } else {
        assert(top_pair_matches(pre, a, post2, c, 0, 0, path));
        assert(top_pair_matches(pre, a, post2, c, 1, 1, path));
    }
}

/// Whether every half-edge of the cycle lies on one surface: the plane
/// swept from the given edge's global curve along the path.
pub open spec fn cycle_on_swept_surface(
    pre: &Objects,
    eh: int,
    post: &Objects,
    c: Cycle,
    path: Vector<3>,
) -> bool {
    let s = post.curves@[post.half_edges@[c.half_edges@[0]@].spec_curve()@].surface@;
    let gc = pre.global_curves@[pre.curves@[pre.half_edges@[eh].spec_curve()@].global_form@];
    &&& 0 <= s < post.surfaces@.len()
    &&& post.surfaces@[s].curve.origin@ == gc.line.origin@
    &&& post.surfaces@[s].curve.direction@ == gc.line.direction@
    &&& post.surfaces@[s].path@ == path@
    &&& forall|k: int|
        0 <= k < c.half_edges@.len()
            ==> post.curves@[post.half_edges@[(#[trigger] c.half_edges@[k])@].spec_curve()@].surface@
            == s
}

/// Whether boundary entry `k` of the side edge `b` is one end of the
/// sweep of boundary entry `i` of the swept edge `a`: the bottom end
/// (`v` zero) keeps the swept edge's global vertex at the bottom rim, the
/// top end (`v` one) sits at the top rim at the translated position.
pub open spec fn side_pair_matches(
    pre: &Objects,
    a: HalfEdge,
    post: &Objects,
    b: HalfEdge,
    i: int,
    k: int,
    path: Vector<3>,
    v: int,
) -> bool {
    &&& b.spec_boundary()[k].0@ == seq![v]
    &&& post.surface_vertices@[b.spec_boundary()[k].1@].position@ == seq![
        a.spec_boundary()[i].0@[0],
        v,
    ]
    &&& if v == 0 {
        post.surface_vertices@[b.spec_boundary()[k].1@].global_form@
            == pre.surface_vertices@[a.spec_boundary()[i].1@].global_form@
    } else {
        sv_global_position(post, b.spec_boundary()[k].1@) == add_seqs(
            sv_global_position(pre, a.spec_boundary()[i].1@),
            path@,
        )
    }
}

/// Whether the half-edge at `sh` in `post` is the side edge swept from
/// boundary entry `i` of the half-edge at `eh` in `pre`: its curve is the
/// vertical line at that boundary's parameter, and its ends are the
/// bottom and top rim copies of the swept vertex — possibly exchanged by
/// the reorientation step.
pub open spec fn side_edge_of_sweep(
    pre: &Objects,
    eh: int,
    post: &Objects,
    sh: int,
    path: Vector<3>,
    i: int,
) -> bool {
    let a = pre.half_edges@[eh];
    let b = post.half_edges@[sh];
    &&& post.curves@[b.spec_curve()@].path.origin@ == seq![a.spec_boundary()[i].0@[0], 0int]
    &&& post.curves@[b.spec_curve()@].path.direction@ == seq![0int, 1int]
    &&& ((side_pair_matches(pre, a, post, b, i, 0, path, 0) && side_pair_matches(
        pre,
        a,
        post,
        b,
        i,
        1,
        path,
        1,
    )) || (side_pair_matches(pre, a, post, b, i, 0, path, 1) && side_pair_matches(
        pre,
        a,
        post,
        b,
        i,
        1,
        path,
        0,
    )))
}

/// A side-edge fact survives when both stores grow.
proof fn lemma_side_edge_frame(
    pre: &Objects,
    eh: int,
    post1: &Objects,
    post2: &Objects,
    sh: int,
    path: Vector<3>,
    i: int,
)
    requires
        objects_extend(post1, post2),
        0 <= eh < pre.half_edges@.len(),
        half_edge_valid(pre, pre.half_edges@[eh]),
        0 <= sh < post1.half_edges@.len(),
        half_edge_valid(post1, post1.half_edges@[sh]),
        side_edge_of_sweep(pre, eh, post1, sh, path, i),
    ensures
        side_edge_of_sweep(pre, eh, post2, sh, path, i),
{
    let b = post1.half_edges@[sh];
    assert(post2.half_edges@[sh] == b);
    assert(post2.curves@[b.spec_curve()@] == post1.curves@[b.spec_curve()@]);
    assert(post2.surface_vertices@[b.spec_boundary()[0].1@]
        == post1.surface_vertices@[b.spec_boundary()[0].1@]);
    assert(post2.surface_vertices@[b.spec_boundary()[1].1@]
        == post1.surface_vertices@[b.spec_boundary()[1].1@]);
    let g0 = post1.surface_vertices@[b.spec_boundary()[0].1@].global_form@;
    let g1 = post1.surface_vertices@[b.spec_boundary()[1].1@].global_form@;
    assert(post2.global_vertices@[g0] == post1.global_vertices@[g0]);
    assert(post2.global_vertices@[g1] == post1.global_vertices@[g1]);
}

/// A side-edge fact carries over to the reversed edge.
proof fn lemma_side_edge_reversed(
    pre: &Objects,
    eh: int,
    post1: &Objects,
    sh: int,
    post2: &Objects,
    rh: int,
    path: Vector<3>,
    i: int,
)
    requires
        objects_extend(post1, post2),
        0 <= eh < pre.half_edges@.len(),
        half_edge_valid(pre, pre.half_edges@[eh]),
        0 <= sh < post1.half_edges@.len(),
        half_edge_valid(post1, post1.half_edges@[sh]),
        0 <= rh < post2.half_edges@.len(),
        he_reversed(post1, sh, post2, rh),
        side_edge_of_sweep(pre, eh, post1, sh, path, i),
    ensures
        side_edge_of_sweep(pre, eh, post2, rh, path, i),
{
    let a = pre.half_edges@[eh];
    let b = post1.half_edges@[sh];
    let c = post2.half_edges@[rh];
    assert(post2.curves@[c.spec_curve()@] == post1.curves@[b.spec_curve()@]);
    assert(post2.surface_vertices@[c.spec_boundary()[0].1@]
        == post1.surface_vertices@[b.spec_boundary()[1].1@]);
    assert(post2.surface_vertices@[c.spec_boundary()[1].1@]
        == post1.surface_vertices@[b.spec_boundary()[0].1@]);
    let g0 = post1.surface_vertices@[b.spec_boundary()[0].1@].global_form@;
    let g1 = post1.surface_vertices@[b.spec_boundary()[1].1@].global_form@;
    assert(post2.global_vertices@[g0] == post1.global_vertices@[g0]);
    assert(post2.global_vertices@[g1] == post1.global_vertices@[g1]);
    if side_pair_matches(pre, a, post1, b, i, 0, path, 0) && side_pair_matches(
        pre,
        a,
        post1,
        b,
        i,
        1,
        path,
        1,
    ) {
        assert(side_pair_matches(pre, a, post2, c, i, 0, path, 1));
        assert(side_pair_matches(pre, a, post2, c, i, 1, path, 0));
    } else {
        assert(side_pair_matches(pre, a, post2, c, i, 0, path, 0));
        assert(side_pair_matches(pre, a, post2, c, i, 1, path, 1));
    }
}

/// The cycles of a face: the exterior first, then the interiors.
pub open spec fn cycles_of_face(o: &Objects, fh: int) -> Seq<Handle<Cycle>> {
    seq![o.faces@[fh].exterior] + o.faces@[fh].interiors@
}

/// The total number of half-edges over a sequence of cycles.
pub open spec fn sum_cycle_lens(o: &Objects, cs: Seq<Handle<Cycle>>) -> int
    decreases cs.len(),
{
    if cs.len() == 0 {
        0
    } else {
        sum_cycle_lens(o, cs.drop_last()) + o.cycles@[cs.last()@].half_edges@.len()
    }
}

/// The total number of boundary half-edges of a face, over all its
/// cycles.
pub open spec fn face_boundary_count(o: &Objects, fh: int) -> int {
    sum_cycle_lens(o, cycles_of_face(o, fh))
}

/// The global form of the first half-edge of a face's exterior cycle.
pub open spec fn bottom_edge_global_form(o: &Objects, fh: int) -> int {
    o.half_edges@[o.cycles@[o.faces@[fh].exterior@].half_edges@[0]@].spec_global_form()@
}

/// Sweep a half-edge along a path into the face it traces out.
///
/// The face's boundary is a cycle of four half-edges: a bottom edge
/// re-derived on the side surface under the swept edge's global form, two
/// side edges swept from the bottom edge's vertices, and a top edge whose
/// global curve is the bottom's translated along the path. Edges whose
/// surface vertices do not meet their neighbor's are reversed, so that
/// consecutive edges share their surface vertex.
#[verifier::rlimit(50)]
#[verifier::spinoff_prover]
pub fn sweep_half_edge_with_cache(
    edge: Handle<HalfEdge>,
    color: Color,
    path: Vector<3>,
    cache: &mut SweepCache,
    objects: &mut Objects,
) -> (r: Handle<Face>)
    requires
        he_sweepable(old(objects), edge@, path),
        cache_wf(old(cache), old(objects), path),
    ensures
        objects_extend(old(objects), final(objects)),
        cache_wf(final(cache), final(objects), path),
        old(cache).curves@.is_prefix_of(final(cache).curves@),
        old(cache).global_vertices@.is_prefix_of(final(cache).global_vertices@),
        0 <= r@ < final(objects).faces@.len(),
        final(objects).faces@[r@].color.rgba@ == color.rgba@,
        final(objects).faces@[r@].interiors@.len() == 0,
        0 <= final(objects).faces@[r@].exterior@ < final(objects).cycles@.len(),
        final(objects).cycles@[final(objects).faces@[r@].exterior@].half_edges@.len() == 4,
        0 <= final(objects).cycles@[final(objects).faces@[r@].exterior@].half_edges@[0]@
            < final(objects).half_edges@.len(),
        0 <= final(objects).cycles@[final(objects).faces@[r@].exterior@].half_edges@[2]@
            < final(objects).half_edges@.len(),
        bottom_edge_global_form(final(objects), r@)
            == old(objects).half_edges@[edge@].spec_global_form()@,
        bottom_edge_of_sweep(
            old(objects),
            edge@,
            final(objects),
            final(objects).cycles@[final(objects).faces@[r@].exterior@].half_edges@[0]@,
        ),
        top_edge_of_sweep(
            old(objects),
            edge@,
            final(objects),
            final(objects).cycles@[final(objects).faces@[r@].exterior@].half_edges@[2]@,
            path,
        ),
        cycle_closed(final(objects), final(objects).cycles@[final(objects).faces@[r@].exterior@]),
        swept_vertex_recorded(
            final(cache),
            old(objects),
            old(objects).half_edges@[edge@].spec_boundary()[0].1@,
            final(objects),
            path,
        ),
        swept_vertex_recorded(
            final(cache),
            old(objects),
            old(objects).half_edges@[edge@].spec_boundary()[1].1@,
            final(objects),
            path,
        ),
        cycle_on_swept_surface(
            old(objects),
            edge@,
            final(objects),
            final(objects).cycles@[final(objects).faces@[r@].exterior@],
            path,
        ),
        0 <= final(objects).cycles@[final(objects).faces@[r@].exterior@].half_edges@[1]@
            < final(objects).half_edges@.len(),
        0 <= final(objects).cycles@[final(objects).faces@[r@].exterior@].half_edges@[3]@
            < final(objects).half_edges@.len(),
        side_edge_of_sweep(
            old(objects),
            edge@,
            final(objects),
            final(objects).cycles@[final(objects).faces@[r@].exterior@].half_edges@[1]@,
            path,
            1,
        ),
        side_edge_of_sweep(
            old(objects),
            edge@,
            final(objects),
            final(objects).cycles@[final(objects).faces@[r@].exterior@].half_edges@[3]@,
            path,
            0,
        ),
        swept_side_face(old(objects), edge@, final(objects), r@, color),
{
    let e = *objects.half_edges.get(&edge);
    proof {
        e.lemma_boundary_len();
    }
    let surface = sweep_curve_with_cache(e.curve(), path, cache, objects);
    let ghost s0: Objects = *objects;
    proof {
        assert(objects.curves@[e.spec_curve()@] == old(objects).curves@[e.spec_curve()@]);
    }
    let c = *objects.curves.get(&e.curve());
    let b = e.boundary();
    let svs = e.surface_vertices();

    // The swept edge cannot serve as the bottom edge of the new face: it
    // lies on another surface. Re-derive a bottom edge on the side
    // surface, under the same global forms.
    let bottom_curve_val = Curve::new(surface, Line::new(p2(0, 0), v2(1, 0)), c.global_form);
    let bottom_curve = objects.curves.insert(bottom_curve_val);
    proof {
        assert(objects.surface_vertices@[svs@[0]@] == old(objects).surface_vertices@[svs@[0]@]);
        assert(objects.surface_vertices@[svs@[1]@] == old(objects).surface_vertices@[svs@[1]@]);
    }
    let sv0 = *objects.surface_vertices.get(&svs[0]);
    let sv1 = *objects.surface_vertices.get(&svs[1]);
    let nsv0_val = SurfaceVertex::new(p2(b[0].coord(0), 0), surface, sv0.global_form);
    let nsv0 = objects.surface_vertices.insert(nsv0_val);
    let nsv1_val = SurfaceVertex::new(p2(b[1].coord(0), 0), surface, sv1.global_form);
    let nsv1 = objects.surface_vertices.insert(nsv1_val);
    let bottom_val = HalfEdge::new(bottom_curve, [(b[0], nsv0), (b[1], nsv1)], e.global_form());
    let bottom = objects.half_edges.insert(bottom_val);
    let ghost s1b: Objects = *objects;
    proof {
        lemma_cache_wf_extend(cache, &s0, objects, path);
        assert(objects.surface_vertices@[nsv0@].same_spec(&nsv0_val));
        assert(objects.surface_vertices@[nsv1@].same_spec(&nsv1_val));
        assert(objects.global_vertices@[sv0.global_form@] == old(
            objects,
        ).global_vertices@[sv0.global_form@]);
        assert(objects.global_vertices@[sv1.global_form@] == old(
            objects,
        ).global_vertices@[sv1.global_form@]);
        assert(surface_vertex_valid(objects, objects.surface_vertices@[nsv0@]));
        assert(surface_vertex_valid(objects, objects.surface_vertices@[nsv1@]));
        assert(can_add(sv_global_position(objects, nsv0@), path@));
        assert(can_add(sv_global_position(objects, nsv1@), path@));
        assert(objects.half_edges@[bottom@].same_spec(&bottom_val));
        objects.half_edges@[bottom@].lemma_boundary_len();
        assert(objects.curves@[bottom_curve@].same_spec(&bottom_curve_val));
        let a = old(objects).half_edges@[edge@];
        let bstored = objects.half_edges@[bottom@];
        assert(objects.curves@[bstored.spec_curve()@].global_form@ == old(
            objects,
        ).curves@[a.spec_curve()@].global_form@);
        assert(bottom_pair_matches(old(objects), a, objects, bstored, 0, 0));
        assert(bottom_pair_matches(old(objects), a, objects, bstored, 1, 1));
        assert(bottom_edge_of_sweep(old(objects), edge@, objects, bottom@));
        assert(objects.global_edges@[bstored.spec_global_form()@] == old(
            objects,
        ).global_edges@[a.spec_global_form()@]);
        assert(half_edge_valid(objects, objects.half_edges@[bottom@]));
    }

    // Sweep the bottom edge's two vertices into the side edges.
    let side0 = sweep_vertex_with_cache(b[0], nsv0, surface, path, cache, objects);
    let ghost s_side0: Objects = *objects;
    proof {
        assert(surface_vertex_valid(objects, objects.surface_vertices@[nsv1@]));
        assert(can_add(sv_global_position(objects, nsv1@), path@));
    }
    let ghost cache_after0: SweepCache = *cache;
    let ghost v_top0: int = side_top_gv(objects, side0@);
    proof {
        assert(cache_maps_vertex(&cache_after0, sv0.global_form@, v_top0));
    }
    let side1 = sweep_vertex_with_cache(b[1], nsv1, surface, path, cache, objects);
    let ghost s2: Objects = *objects;
    let ghost v_top1: int = side_top_gv(objects, side1@);
    proof {
        lemma_cache_maps_prefix(&cache_after0, cache, sv0.global_form@, v_top0);
        assert(cache_maps_vertex(cache, sv1.global_form@, v_top1));
        assert(objects.global_vertices@[v_top0].position@ == add_seqs(
            sv_global_position(old(objects), e.spec_boundary()[0].1@),
            path@,
        ));
        assert(objects.global_vertices@[v_top1].position@ == add_seqs(
            sv_global_position(old(objects), e.spec_boundary()[1].1@),
            path@,
        ));
        assert(old(objects).surface_vertices@[e.spec_boundary()[0].1@].global_form@
            == sv0.global_form@);
        assert(old(objects).surface_vertices@[e.spec_boundary()[1].1@].global_form@
            == sv1.global_form@);
        assert(swept_vertex_recorded(cache, old(objects), e.spec_boundary()[0].1@, objects, path));
        assert(swept_vertex_recorded(cache, old(objects), e.spec_boundary()[1].1@, objects, path));
    }

    // The top edge's global curve is the bottom's, translated along the
    // path; its surface vertices are the side edges' far vertices.
    proof {
        assert(objects.global_curves@[c.global_form@] == old(
            objects,
        ).global_curves@[c.global_form@]);
    }
    let cgc = *objects.global_curves.get(&c.global_form);
    let tgc_val = GlobalCurve { line: cgc.line.translate(&path) };
    let tgc = objects.global_curves.insert(tgc_val);
    let top_curve_val = Curve::new(surface, Line::new(p2(0, 1), v2(1, 0)), tgc);
    let top_curve = objects.curves.insert(top_curve_val);
    let se0 = *objects.half_edges.get(&side0);
    let se1 = *objects.half_edges.get(&side1);
    let tsv0 = se0.surface_vertices()[1];
    let tsv1 = se1.surface_vertices()[1];
    proof {
        se0.lemma_boundary_len();
        se1.lemma_boundary_len();
        assert(objects.surface_vertices@[tsv0@] == s2.surface_vertices@[tsv0@]);
        assert(objects.surface_vertices@[tsv1@] == s2.surface_vertices@[tsv1@]);
    }
    let tv0 = *objects.surface_vertices.get(&tsv0);
    let tv1 = *objects.surface_vertices.get(&tsv1);
    let tge_val = GlobalEdge::new(tgc, [tv0.global_form, tv1.global_form]);
    let tge = objects.global_edges.insert(tge_val);
    let top_val = HalfEdge::new(top_curve, [(b[0], tsv0), (b[1], tsv1)], tge);
    let top = objects.half_edges.insert(top_val);

    // Assemble the boundary cycle, reorienting edges whose surface
    // vertices do not meet. The comparison is by surface vertex identity,
    // not global identity: when a closed curve is swept, distinct surface
    // vertices can share one global vertex.
    let mut edges: Vec<Handle<HalfEdge>> = Vec::new();
    edges.push(bottom);
    edges.push(side1);
    edges.push(top);
    edges.push(side0);
    let ghost n0: int = nsv0@;
    let ghost n1: int = nsv1@;
    let ghost t0id: int = tsv0@;
    let ghost t1id: int = tsv1@;
    let ghost cache_base: SweepCache = *cache;
    let ghost objects_base: Objects = *objects;
    proof {
        lemma_cache_wf_extend(cache, &s2, objects, path);
        assert(objects.half_edges@[bottom@].spec_global_form()@ == e.spec_global_form()@);
        // The bottom-edge facts, established just after the bottom edge
        // was built, still hold now.
        lemma_bottom_edge_frame(old(objects), edge@, &s1b, objects, bottom@);
        crate::objects::lemma_half_edge_valid_extend(
            &s1b,
            objects,
            s1b.half_edges@[bottom@],
        );
        // The top edge satisfies the top-edge facts: its vertices are the
        // side edges' far vertices, whose positions the vertex sweeps
        // pinned down.
        let a = old(objects).half_edges@[edge@];
        let tstored = objects.half_edges@[top@];
        assert(tstored.same_spec(&top_val));
        tstored.lemma_boundary_len();
        assert(objects.curves@[top_curve@].same_spec(&top_curve_val));
        assert(objects.global_curves@[tgc@].same_spec(&tgc_val));
        assert(objects.global_edges@[tge@].same_spec(&tge_val));
        objects.global_edges@[tge@].lemma_vertices_len();
        assert(old(objects).global_curves@[old(objects).curves@[a.spec_curve()@].global_form@]
            == cgc);
        assert(objects.surface_vertices@[tsv0@] == s2.surface_vertices@[tsv0@]);
        assert(objects.surface_vertices@[tsv1@] == s2.surface_vertices@[tsv1@]);
        assert(objects.global_vertices@[tv0.global_form@]
            == s2.global_vertices@[tv0.global_form@]);
        assert(objects.global_vertices@[tv1.global_form@]
            == s2.global_vertices@[tv1.global_form@]);
        assert(sv_global_position(objects, tsv0@) == add_seqs(
            sv_global_position(old(objects), a.spec_boundary()[0].1@),
            path@,
        ));
        assert(sv_global_position(objects, tsv1@) == add_seqs(
            sv_global_position(old(objects), a.spec_boundary()[1].1@),
            path@,
        ));
        assert(top_pair_matches(old(objects), a, objects, tstored, 0, 0, path));
        assert(top_pair_matches(old(objects), a, objects, tstored, 1, 1, path));
        assert(top_edge_of_sweep(old(objects), edge@, objects, top@, path));
        assert(half_edge_valid(objects, objects.half_edges@[top@]));
        // The side edges are valid and are the sweeps of the two boundary
        // vertices.
        crate::objects::lemma_half_edge_valid_extend(
            &s_side0,
            objects,
            s_side0.half_edges@[side0@],
        );
        crate::objects::lemma_half_edge_valid_extend(&s2, objects, s2.half_edges@[side1@]);
        assert(objects.half_edges@[side0@] == s_side0.half_edges@[side0@]);
        assert(objects.surface_vertices@[nsv0@] == s1b.surface_vertices@[nsv0@]);
        assert(objects.surface_vertices@[nsv1@] == s1b.surface_vertices@[nsv1@]);
        assert(objects.curves@[s_side0.half_edges@[side0@].spec_curve()@]
            == s_side0.curves@[s_side0.half_edges@[side0@].spec_curve()@]);
        assert(objects.curves@[s2.half_edges@[side1@].spec_curve()@]
            == s2.curves@[s2.half_edges@[side1@].spec_curve()@]);
        assert(objects.surface_vertices@[s_side0.half_edges@[side0@].spec_boundary()[1].1@]
            == s_side0.surface_vertices@[s_side0.half_edges@[side0@].spec_boundary()[1].1@]);
        assert(objects.surface_vertices@[s2.half_edges@[side1@].spec_boundary()[1].1@]
            == s2.surface_vertices@[s2.half_edges@[side1@].spec_boundary()[1].1@]);
        assert(side_pair_matches(
            old(objects),
            e,
            objects,
            objects.half_edges@[side0@],
            0,
            0,
            path,
            0,
        ));
        assert(side_pair_matches(
            old(objects),
            e,
            objects,
            objects.half_edges@[side0@],
            0,
            1,
            path,
            1,
        ));
        assert(side_edge_of_sweep(old(objects), edge@, objects, side0@, path, 0));
        assert(side_pair_matches(
            old(objects),
            e,
            objects,
            objects.half_edges@[side1@],
            1,
            0,
            path,
            0,
        ));
        assert(side_pair_matches(
            old(objects),
            e,
            objects,
            objects.half_edges@[side1@],
            1,
            1,
            path,
            1,
        ));
        assert(side_edge_of_sweep(old(objects), edge@, objects, side1@, path, 1));
        // Every edge's curve lies on the swept side surface.
        assert(objects.curves@[objects.half_edges@[bottom@].spec_curve()@].surface@ == surface@);
        assert(objects.curves@[objects.half_edges@[top@].spec_curve()@].surface@ == surface@);
        assert(objects.curves@[objects.half_edges@[side0@].spec_curve()@] == s2.curves@[s2.half_edges@[side0@].spec_curve()@]);
        assert(objects.curves@[objects.half_edges@[side1@].spec_curve()@] == s2.curves@[s2.half_edges@[side1@].spec_curve()@]);
        assert(objects.curves@[objects.half_edges@[side0@].spec_curve()@].surface@ == surface@);
        assert(objects.curves@[objects.half_edges@[side1@].spec_curve()@].surface@ == surface@);
        assert(objects.surfaces@[surface@] == s0.surfaces@[surface@]);
        // The endpoints of the four edges, by surface-vertex identity.
        assert(objects.half_edges@[bottom@] == s1b.half_edges@[bottom@]);
        assert(first_sv(objects, bottom@) == n0 && last_sv(objects, bottom@) == n1);
        assert(objects.half_edges@[side0@] == s2.half_edges@[side0@]);
        assert(objects.half_edges@[side1@] == s2.half_edges@[side1@]);
        assert(first_sv(objects, side0@) == n0 && last_sv(objects, side0@) == t0id);
        assert(first_sv(objects, side1@) == n1 && last_sv(objects, side1@) == t1id);
        assert(first_sv(objects, top@) == t0id && last_sv(objects, top@) == t1id);
    }
    let mut i: usize = 0;
    while i < 4
        invariant
            i <= 4,
            edges@.len() == 4,
            he_sweepable(old(objects), edge@, path),
            forall|k: int| 0 <= k < 4 ==> 0 <= (#[trigger] edges@[k])@ < objects.half_edges@.len(),
            objects_extend(&objects_base, objects),
            *cache == cache_base,
            cache_wf(cache, objects, path),
            0 <= edges@[0]@ < objects.half_edges@.len(),
            0 <= edges@[2]@ < objects.half_edges@.len(),
            half_edge_valid(objects, objects.half_edges@[edges@[0]@]),
            half_edge_valid(objects, objects.half_edges@[edges@[1]@]),
            half_edge_valid(objects, objects.half_edges@[edges@[2]@]),
            half_edge_valid(objects, objects.half_edges@[edges@[3]@]),
            side_edge_of_sweep(old(objects), edge@, objects, edges@[1]@, path, 1),
            side_edge_of_sweep(old(objects), edge@, objects, edges@[3]@, path, 0),
            objects.half_edges@[edges@[0]@].spec_global_form()@ == e.spec_global_form()@,
            bottom_edge_of_sweep(old(objects), edge@, objects, edges@[0]@),
            top_edge_of_sweep(old(objects), edge@, objects, edges@[2]@, path),
            first_sv(objects, edges@[0]@) == n0 && last_sv(objects, edges@[0]@) == n1,
            first_sv(objects, edges@[1]@) == n1 && last_sv(objects, edges@[1]@) == t1id,
            i <= 1 ==> first_sv(objects, edges@[2]@) == t0id && last_sv(objects, edges@[2]@)
                == t1id,
            i >= 2 ==> first_sv(objects, edges@[2]@) == t1id && last_sv(objects, edges@[2]@)
                == t0id,
            i <= 2 ==> first_sv(objects, edges@[3]@) == n0 && last_sv(objects, edges@[3]@)
                == t0id,
            i >= 3 ==> first_sv(objects, edges@[3]@) == t0id && last_sv(objects, edges@[3]@)
                == n0,
            0 <= surface@ < objects.surfaces@.len(),
            objects.surfaces@[surface@].curve.origin@ == old(objects).global_curves@[old(
                objects,
            ).curves@[e.spec_curve()@].global_form@].line.origin@,
            objects.surfaces@[surface@].curve.direction@ == old(objects).global_curves@[old(
                objects,
            ).curves@[e.spec_curve()@].global_form@].line.direction@,
            objects.surfaces@[surface@].path@ == path@,
            forall|k: int|
                0 <= k < 4 ==> 0 <= objects.half_edges@[(#[trigger] edges@[k])@].spec_curve()@
                    < objects.curves@.len()
                    && objects.curves@[objects.half_edges@[edges@[k]@].spec_curve()@].surface@
                    == surface@,
        decreases 4 - i,
    {
        let j: usize = if i == 3 {
            0
        } else {
            i + 1
        };
        let ei = *objects.half_edges.get(&edges[i]);
        let ej = *objects.half_edges.get(&edges[j]);
        proof {
            ei.lemma_boundary_len();
            ej.lemma_boundary_len();
        }
        let prev_last = ei.surface_vertices()[1];
        let next_first = ej.surface_vertices()[0];
        proof {
            assert(prev_last@ == last_sv(objects, edges@[i as int]@));
            assert(next_first@ == first_sv(objects, edges@[j as int]@));
        }
        if prev_last.id() != next_first.id() {
            let ghost pre: Objects = *objects;
            let ghost b0: int = edges@[0]@;
            let ghost b2: int = edges@[2]@;
            let ghost edges_before: Seq<Handle<HalfEdge>> = edges@;
            let rev = reverse_half_edge(edges[j], objects);
            edges.set(j, rev);
            proof {
                assert forall|k: int| 0 <= k < 4 implies 0 <= objects.half_edges@[(
                #[trigger] edges@[k])@].spec_curve()@ < objects.curves@.len()
                    && objects.curves@[objects.half_edges@[edges@[k]@].spec_curve()@].surface@
                    == surface@ by {
                    let eh2 = edges@[k]@;
                    if k == j as int {
                        assert(objects.half_edges@[eh2].spec_curve()@ == pre.half_edges@[(
                        edges_before[k])@].spec_curve()@);
                        let cid = pre.half_edges@[(edges_before[k])@].spec_curve()@;
                        assert(objects.curves@[cid] == pre.curves@[cid]);
                    } else {
                        assert(eh2 == (edges_before[k])@);
                        assert(objects.half_edges@[eh2] == pre.half_edges@[eh2]);
                        let cid = pre.half_edges@[eh2].spec_curve()@;
                        assert(objects.curves@[cid] == pre.curves@[cid]);
                    }
                }
                assert(objects.half_edges@[edges@[0]@] == pre.half_edges@[edges@[0]@] || j == 0);
                assert(objects.half_edges@[edges@[1]@] == pre.half_edges@[edges@[1]@] || j == 1);
                assert(objects.half_edges@[edges@[2]@] == pre.half_edges@[edges@[2]@] || j == 2);
                assert(objects.half_edges@[edges@[3]@] == pre.half_edges@[edges@[3]@] || j == 3);
                lemma_cache_wf_extend(cache, &pre, objects, path);
                let ghost b1: int = edges_before[1]@;
                let ghost b3: int = edges_before[3]@;
                if j == 0 {
                    lemma_bottom_edge_reversed(old(objects), edge@, &pre, b0, objects, rev@);
                    lemma_he_reversed_valid(&pre, b0, objects, rev@);
                } else {
                    lemma_bottom_edge_frame(old(objects), edge@, &pre, objects, b0);
                    crate::objects::lemma_half_edge_valid_extend(
                        &pre,
                        objects,
                        pre.half_edges@[b0],
                    );
                }
                if j == 2 {
                    lemma_top_edge_reversed(old(objects), edge@, &pre, b2, objects, rev@, path);
                    lemma_he_reversed_valid(&pre, b2, objects, rev@);
                } else {
                    lemma_top_edge_frame(old(objects), edge@, &pre, objects, b2, path);
                    crate::objects::lemma_half_edge_valid_extend(
                        &pre,
                        objects,
                        pre.half_edges@[b2],
                    );
                }
                if j == 1 {
                    lemma_side_edge_reversed(old(objects), edge@, &pre, b1, objects, rev@, path, 1);
                    lemma_he_reversed_valid(&pre, b1, objects, rev@);
                } else {
                    lemma_side_edge_frame(old(objects), edge@, &pre, objects, b1, path, 1);
                    crate::objects::lemma_half_edge_valid_extend(
                        &pre,
                        objects,
                        pre.half_edges@[b1],
                    );
                }
                if j == 3 {
                    lemma_side_edge_reversed(old(objects), edge@, &pre, b3, objects, rev@, path, 0);
                    lemma_he_reversed_valid(&pre, b3, objects, rev@);
                } else {
                    lemma_side_edge_frame(old(objects), edge@, &pre, objects, b3, path, 0);
                    crate::objects::lemma_half_edge_valid_extend(
                        &pre,
                        objects,
                        pre.half_edges@[b3],
                    );
                }
            }
        }
        i += 1;
    }
    let ghost s3: Objects = *objects;
    let cycle_value = Cycle::new(edges);
    let ghost cycle_ghost = cycle_value;
    let cycle = objects.cycles.insert(cycle_value);
    let face_value = Face { exterior: cycle, interiors: Vec::new(), color };
    let ghost face_ghost = face_value;
    let h = objects.faces.insert(face_value);
    proof {
        lemma_cache_wf_extend(cache, &objects_base, objects, path);
        assert(objects.faces@[h@].same_spec(&face_ghost));
        assert(objects.cycles@[cycle@].same_spec(&cycle_ghost));
        let cyc0: int = objects.cycles@[objects.faces@[h@].exterior@].half_edges@[0]@;
        let cyc2: int = objects.cycles@[objects.faces@[h@].exterior@].half_edges@[2]@;
        assert(cyc0 == edges@[0]@);
        assert(cyc2 == edges@[2]@);
        lemma_bottom_edge_frame(old(objects), edge@, &s3, objects, cyc0);
        lemma_top_edge_frame(old(objects), edge@, &s3, objects, cyc2, path);
        let cyc1: int = objects.cycles@[objects.faces@[h@].exterior@].half_edges@[1]@;
        let cyc3: int = objects.cycles@[objects.faces@[h@].exterior@].half_edges@[3]@;
        assert(cyc1 == edges@[1]@);
        assert(cyc3 == edges@[3]@);
        lemma_side_edge_frame(old(objects), edge@, &s3, objects, cyc1, path, 1);
        lemma_side_edge_frame(old(objects), edge@, &s3, objects, cyc3, path, 0);
        assert(objects.global_vertices@[v_top0] == s2.global_vertices@[v_top0]);
        assert(objects.global_vertices@[v_top1] == s2.global_vertices@[v_top1]);
        assert(swept_vertex_recorded(cache, old(objects), e.spec_boundary()[0].1@, objects, path));
        assert(swept_vertex_recorded(cache, old(objects), e.spec_boundary()[1].1@, objects, path));
    }
    h
}

/// The identity marker of a side face: a face with no interiors and the
/// given color, whose exterior is a closed four-edge cycle, and whose
/// first edge keeps the undirected global form of the half-edge the face
/// was swept from. The full geometry of such a face is stated on the
/// half-edge sweep itself.
pub open spec fn swept_side_face(
    pre: &Objects,
    eh: int,
    post: &Objects,
    fh: int,
    color: Color,
) -> bool {
    &&& 0 <= fh < post.faces@.len()
    &&& post.faces@[fh].interiors@.len() == 0
    &&& post.faces@[fh].color.rgba@ == color.rgba@
    &&& 0 <= post.faces@[fh].exterior@ < post.cycles@.len()
    &&& {
        let c = post.cycles@[post.faces@[fh].exterior@];
        &&& c.half_edges@.len() == 4
        &&& forall|k: int| 0 <= k < 4 ==> 0 <= (#[trigger] c.half_edges@[k])@ < post.half_edges@.len()
        &&& post.half_edges@[c.half_edges@[0]@].spec_global_form()@
            == pre.half_edges@[eh].spec_global_form()@
        &&& cycle_closed(post, c)
    }
}

/// A side-face marker survives when the store grows.
proof fn lemma_swept_side_face_frame(
    pre: &Objects,
    eh: int,
    post1: &Objects,
    post2: &Objects,
    fh: int,
    color: Color,
)
    requires
        objects_extend(post1, post2),
        0 <= eh < pre.half_edges@.len(),
        swept_side_face(pre, eh, post1, fh, color),
    ensures
        swept_side_face(pre, eh, post2, fh, color),
{
    assert(post2.faces@[fh] == post1.faces@[fh]);
    let ch = post1.faces@[fh].exterior@;
    assert(post2.cycles@[ch] == post1.cycles@[ch]);
    let c = post1.cycles@[ch];
    assert forall|k: int| 0 <= k < c.half_edges@.len() implies last_sv(
        post2,
        (#[trigger] c.half_edges@[k])@,
    ) == first_sv(post2, c.half_edges@[(k + 1) % (c.half_edges@.len() as int)]@) by {
        assert(post2.half_edges@[c.half_edges@[k]@] == post1.half_edges@[c.half_edges@[k]@]);
        let k2 = (k + 1) % (c.half_edges@.len() as int);
        assert(post2.half_edges@[c.half_edges@[k2]@] == post1.half_edges@[c.half_edges@[k2]@]);
    }
    assert(post2.half_edges@[c.half_edges@[0]@] == post1.half_edges@[c.half_edges@[0]@]);
}

/// Whether a sweep of the face runs against its surface's orientation:
/// the exact sign of the triple product of the surface axes and the
/// path.
pub open spec fn sweep_is_negative(o: &Objects, fh: int, path: Vector<3>) -> bool {
    crate::robust::triple(
        face_surface(o, fh).curve.direction@,
        face_surface(o, fh).path@,
        path@,
    ) < 0
}

/// A face reversal relation survives when the store grows.
proof fn lemma_face_reversed_frame(
    pre: &Objects,
    fh: int,
    post1: &Objects,
    post2: &Objects,
    rh: int,
)
    requires
        objects_extend(post1, post2),
        0 <= fh < pre.faces@.len(),
        face_in_range(pre, pre.faces@[fh]),
        0 <= rh < post1.faces@.len(),
        face_in_range(post1, post1.faces@[rh]),
        face_reversed(pre, fh, post1, rh),
    ensures
        face_reversed(pre, fh, post2, rh),
        face_in_range(post2, post2.faces@[rh]),
{
    let a = pre.faces@[fh];
    let b = post1.faces@[rh];
    assert(post2.faces@[rh] == b);
    assert(post2.cycles@[b.exterior@] == post1.cycles@[b.exterior@]);
    lemma_cycle_reversed_frame(pre, pre, post1, post2, a.exterior@, b.exterior@);
    assert forall|i: int| 0 <= i < a.interiors@.len() implies cycle_reversed(
        pre,
        (#[trigger] a.interiors@[i])@,
        post2,
        b.interiors@[i]@,
    ) by {
        lemma_cycle_reversed_frame(pre, pre, post1, post2, a.interiors@[i]@, b.interiors@[i]@);
    }
    assert forall|i: int| 0 <= i < b.interiors@.len() implies 0 <= (#[trigger] b.interiors@[i])@
        < post2.cycles@.len() && cycle_in_range(post2, post2.cycles@[b.interiors@[i]@]) by {
        assert(post2.cycles@[b.interiors@[i]@] == post1.cycles@[b.interiors@[i]@]);
    }
}

/// A face translation relation survives when both stores grow.
proof fn lemma_face_translated_in_frame(
    pre0: &Objects,
    pre1: &Objects,
    post1: &Objects,
    post2: &Objects,
    fh: int,
    rh: int,
    path: Vector<3>,
)
    requires
        objects_extend(pre0, pre1),
        objects_extend(post1, post2),
        face_sweepable(pre0, fh, path),
        0 <= rh < post1.faces@.len(),
        face_valid(post1, post1.faces@[rh]),
        face_translated_in(pre1, fh, post1, rh, path),
    ensures
        face_translated_in(pre0, fh, post2, rh, path),
        face_valid(post2, post2.faces@[rh]),
{
    let a = pre0.faces@[fh];
    let b = post1.faces@[rh];
    assert(pre1.faces@[fh] == a);
    assert(post2.faces@[rh] == b);
    crate::objects::lemma_face_valid_extend(post1, post2, b);
    lemma_cycle_translated_frame(pre0, pre1, post1, post2, a.exterior@, b.exterior@, path);
    assert forall|i: int| 0 <= i < a.interiors@.len() implies cycle_translated(
        pre0,
        (#[trigger] a.interiors@[i])@,
        post2,
        b.interiors@[i]@,
        path,
    ) by {
        lemma_cycle_translated_frame(
            pre0,
            pre1,
            post1,
            post2,
            a.interiors@[i]@,
            b.interiors@[i]@,
            path,
        );
    }
}

/// Sweep a face along a path into the shell that bounds the swept
/// volume: the face itself at the bottom, its translated copy at the top,
/// and one side face swept from each boundary half-edge. The face whose
/// normal points along the path is reversed so that both bottom and top
/// face outward.
#[verifier::rlimit(80)]
#[verifier::spinoff_prover]
pub fn sweep_face_with_cache(
    face: Handle<Face>,
    path: Vector<3>,
    cache: &mut SweepCache,
    objects: &mut Objects,
) -> (r: Handle<Shell>)
    requires
        face_sweepable(old(objects), face@, path),
        cache_wf(old(cache), old(objects), path),
    ensures
        objects_extend(old(objects), final(objects)),
        cache_wf(final(cache), final(objects), path),
        old(cache).curves@.is_prefix_of(final(cache).curves@),
        old(cache).global_vertices@.is_prefix_of(final(cache).global_vertices@),
        0 <= r@ < final(objects).shells@.len(),
        final(objects).shells@[r@].faces@.len() == 2 + face_boundary_count(old(objects), face@),
        sweep_is_negative(old(objects), face@, path)
            ==> (final(objects).shells@[r@].faces@[0])@ == face@,
        !sweep_is_negative(old(objects), face@, path) ==> face_reversed(
            old(objects),
            face@,
            final(objects),
            final(objects).shells@[r@].faces@[0]@,
        ),
        !sweep_is_negative(old(objects), face@, path) ==> face_translated_in(
            old(objects),
            face@,
            final(objects),
            final(objects).shells@[r@].faces@[1]@,
            path,
        ),
{
    let (exterior0, interiors0, color) = {
        let f = objects.faces.get(&face);
        (f.exterior, crate::objects::copy_handles(&f.interiors), f.color)
    };

    // Decide which way the sweep runs relative to the face's surface, by
    // the exact orientation of the surface axes against the path.
    let surface = {
        let first_edge = {
            let cyc = objects.cycles.get(&exterior0);
            cyc.half_edges[0]
        };
        let he = *objects.half_edges.get(&first_edge);
        let cu = *objects.curves.get(&he.curve());
        *objects.surfaces.get(&cu.surface)
    };
    let orientation = triple_product(&surface.curve.direction, &surface.path, &path);
    let is_negative_sweep = orientation < 0;
    proof {
        assert(surface == face_surface(old(objects), face@));
        assert(is_negative_sweep == sweep_is_negative(old(objects), face@, path));
    }

    // The bottom face keeps or flips its orientation so that it faces
    // away from the swept volume; the top face is the translated copy,
    // flipped the other way.
    proof {
        crate::objects::lemma_face_valid_in_range(old(objects), old(objects).faces@[face@]);
    }
    let bottom = if is_negative_sweep {
        face
    } else {
        reverse_face(face, objects)
    };
    proof {
        lemma_face_sweepable_extend(old(objects), objects, face@, path);
    }
    let ghost s1: Objects = *objects;
    let top = {
        let t = translate_face(face, path, objects);
        if is_negative_sweep {
            reverse_face(t, objects)
        } else {
            t
        }
    };
    proof {
        lemma_face_sweepable_extend(&s1, objects, face@, path);
        lemma_cache_wf_extend(cache, old(objects), objects, path);
        if !is_negative_sweep {
            // Carry the bottom reversal and the top translation up to the
            // current store.
            lemma_face_reversed_frame(old(objects), face@, &s1, objects, bottom@);
            lemma_face_translated_in_frame(
                old(objects),
                &s1,
                objects,
                objects,
                face@,
                top@,
                path,
            );
        }
    }

    let mut faces: Vec<Handle<Face>> = Vec::new();
    faces.push(bottom);
    faces.push(top);

    // Sweep every boundary half-edge of every cycle into a side face.
    let mut all_cycles: Vec<Handle<Cycle>> = Vec::new();
    all_cycles.push(exterior0);
    let ni = interiors0.len();
    let mut k: usize = 0;
    while k < ni
        invariant
            k <= ni,
            ni == interiors0@.len(),
            all_cycles@ =~= seq![exterior0] + interiors0@.subrange(0, k as int),
        decreases ni - k,
    {
        all_cycles.push(interiors0[k]);
        proof {
            assert(all_cycles@ =~= seq![exterior0] + interiors0@.subrange(0, k + 1 as int));
        }
        k += 1;
    }
    proof {
        assert(interiors0@.subrange(0, ni as int) =~= interiors0@);
        assert(all_cycles@ =~= cycles_of_face(old(objects), face@));
    }

    let nc = all_cycles.len();
    let ghost base: Objects = *objects;
    let ghost cache_at_base: SweepCache = *cache;
    let mut ci: usize = 0;
    while ci < nc
        invariant
            ci <= nc,
            nc == all_cycles@.len(),
            all_cycles@ == cycles_of_face(old(objects), face@),
            face_sweepable(old(objects), face@, path),
            objects_extend(&base, objects),
            objects_extend(old(objects), objects),
            cache_wf(cache, objects, path),
            cache_at_base.curves@.is_prefix_of(cache.curves@),
            cache_at_base.global_vertices@.is_prefix_of(cache.global_vertices@),
            forall|j: int|
                0 <= j < nc ==> cycle_sweepable(objects, (#[trigger] all_cycles@[j])@, path)
                    && objects.cycles@[all_cycles@[j]@] == old(objects).cycles@[all_cycles@[j]@],
            faces@.len() == 2 + sum_cycle_lens(old(objects), all_cycles@.subrange(0, ci as int)),
            faces@.len() >= 2,
            faces@[0]@ == bottom@,
            faces@[1]@ == top@,
            color == old(objects).faces@[face@].color,
            is_negative_sweep == sweep_is_negative(old(objects), face@, path),
            is_negative_sweep ==> bottom@ == face@,
            !is_negative_sweep ==> 0 <= bottom@ < objects.faces@.len() && face_in_range(
                objects,
                objects.faces@[bottom@],
            ) && face_reversed(old(objects), face@, objects, bottom@),
            !is_negative_sweep ==> 0 <= top@ < objects.faces@.len() && face_valid(
                objects,
                objects.faces@[top@],
            ) && face_translated_in(old(objects), face@, objects, top@, path),
        decreases nc - ci,
    {
        let edges = {
            let cyc = objects.cycles.get(&all_cycles[ci]);
            crate::objects::copy_handles(&cyc.half_edges)
        };
        let ne = edges.len();
        let mut ei: usize = 0;
        while ei < ne
            invariant
                ei <= ne,
                ci < nc,
                nc == all_cycles@.len(),
                ne == edges@.len(),
                all_cycles@ == cycles_of_face(old(objects), face@),
                face_sweepable(old(objects), face@, path),
                edges@ == old(objects).cycles@[all_cycles@[ci as int]@].half_edges@,
                objects_extend(&base, objects),
                objects_extend(old(objects), objects),
                cache_wf(cache, objects, path),
                cache_at_base.curves@.is_prefix_of(cache.curves@),
                cache_at_base.global_vertices@.is_prefix_of(cache.global_vertices@),
                forall|j: int|
                    0 <= j < nc ==> cycle_sweepable(objects, (#[trigger] all_cycles@[j])@, path)
                        && objects.cycles@[all_cycles@[j]@] == old(objects).cycles@[all_cycles@[j]@],
                faces@.len() == 2 + sum_cycle_lens(old(objects), all_cycles@.subrange(0, ci as int))
                    + ei,
                faces@.len() >= 2,
                faces@[0]@ == bottom@,
                faces@[1]@ == top@,
                color == old(objects).faces@[face@].color,
                is_negative_sweep == sweep_is_negative(old(objects), face@, path),
                is_negative_sweep ==> bottom@ == face@,
                !is_negative_sweep ==> 0 <= bottom@ < objects.faces@.len() && face_in_range(
                    objects,
                    objects.faces@[bottom@],
                ) && face_reversed(old(objects), face@, objects, bottom@),
                !is_negative_sweep ==> 0 <= top@ < objects.faces@.len() && face_valid(
                    objects,
                    objects.faces@[top@],
                ) && face_translated_in(old(objects), face@, objects, top@, path),
            decreases ne - ei,
        {
            let ghost pre: Objects = *objects;
            let side = sweep_half_edge_with_cache(edges[ei], color, path, cache, objects);
            faces.push(side);
            proof {
                assert(faces@[0]@ == bottom@);
                assert(faces@[1]@ == top@);
                assert forall|j: int| 0 <= j < nc implies cycle_sweepable(
                    objects,
                    (#[trigger] all_cycles@[j])@,
                    path,
                ) && objects.cycles@[all_cycles@[j]@] == old(objects).cycles@[all_cycles@[j]@] by {
                    lemma_cycle_sweepable_extend(&pre, objects, all_cycles@[j]@, path);
                }
                if !is_negative_sweep {
                    lemma_face_reversed_frame(old(objects), face@, &pre, objects, bottom@);
                    lemma_face_translated_in_frame(
                        old(objects),
                        old(objects),
                        &pre,
                        objects,
                        face@,
                        top@,
                        path,
                    );
                }
            }
            ei += 1;
        }
        proof {
            let cs = all_cycles@.subrange(0, ci + 1 as int);
            assert(cs.drop_last() =~= all_cycles@.subrange(0, ci as int));
            assert(cs.last() == all_cycles@[ci as int]);
        }
        ci += 1;
    }
    proof {
        assert(all_cycles@.subrange(0, nc as int) =~= all_cycles@);
    }
    let ghost s4: Objects = *objects;
    let shell_value = Shell { faces };
    let ghost shell_ghost = shell_value;
    let h = objects.shells.insert(shell_value);
    proof {
        assert(objects.shells@[h@].same_spec(&shell_ghost));
        assert(objects.shells@[h@].faces@[0]@ == bottom@);
        assert(objects.shells@[h@].faces@[1]@ == top@);
        if !is_negative_sweep {
            lemma_face_reversed_frame(old(objects), face@, &s4, objects, bottom@);
            lemma_face_translated_in_frame(
                old(objects),
                old(objects),
                &s4,
                objects,
                face@,
                top@,
                path,
            );
        }
    }
    h
}

/// The total half-edge count over a sequence of cycles does not change
/// when the store grows.
proof fn lemma_sum_cycle_lens_stable(pre: &Objects, post: &Objects, cs: Seq<Handle<Cycle>>)
    requires
        objects_extend(pre, post),
        forall|i: int| 0 <= i < cs.len() ==> 0 <= (#[trigger] cs[i])@ < pre.cycles@.len(),
    ensures
        sum_cycle_lens(post, cs) == sum_cycle_lens(pre, cs),
    decreases cs.len(),
{
    if cs.len() > 0 {
        lemma_sum_cycle_lens_stable(pre, post, cs.drop_last());
        assert(post.cycles@[cs.last()@] == pre.cycles@[cs.last()@]);
    }
}

/// The boundary count of a face does not change when the store grows.
proof fn lemma_face_boundary_count_stable(pre: &Objects, post: &Objects, fh: int)
    requires
        objects_extend(pre, post),
        0 <= fh < pre.faces@.len(),
        face_in_range(pre, pre.faces@[fh]),
    ensures
        face_boundary_count(post, fh) == face_boundary_count(pre, fh),
{
    assert(post.faces@[fh] == pre.faces@[fh]);
    assert(cycles_of_face(post, fh) =~= cycles_of_face(pre, fh));
    lemma_sum_cycle_lens_stable(pre, post, cycles_of_face(pre, fh));
}

/// Sweep a sketch along a path into a solid: every face of the sketch
/// sweeps into one shell of the solid, all sharing one cache, so that
/// topology shared between faces sweeps to shared topology.
pub fn sweep_sketch_with_cache(
    sketch: Handle<Sketch>,
    path: Vector<3>,
    cache: &mut SweepCache,
    objects: &mut Objects,
) -> (r: Handle<Solid>)
    requires
        sketch_sweepable(old(objects), sketch@, path),
        cache_wf(old(cache), old(objects), path),
    ensures
        objects_extend(old(objects), final(objects)),
        cache_wf(final(cache), final(objects), path),
        0 <= r@ < final(objects).solids@.len(),
        final(objects).solids@[r@].shells@.len() == old(objects).sketches@[sketch@].faces@.len(),
        forall|i: int|
            0 <= i < final(objects).solids@[r@].shells@.len() ==> {
                let sh = (#[trigger] final(objects).solids@[r@].shells@[i])@;
                &&& 0 <= sh < final(objects).shells@.len()
                &&& final(objects).shells@[sh].faces@.len() == 2 + face_boundary_count(
                    old(objects),
                    old(objects).sketches@[sketch@].faces@[i]@,
                )
            },
{
    let sketch_faces = {
        let sk = objects.sketches.get(&sketch);
        crate::objects::copy_handles(&sk.faces)
    };
    let n = sketch_faces.len();
    let mut shells: Vec<Handle<Shell>> = Vec::new();
    let mut i: usize = 0;
    while i < n
        invariant
            i <= n,
            n == sketch_faces@.len(),
            sketch_faces@ == old(objects).sketches@[sketch@].faces@,
            sketch_sweepable(old(objects), sketch@, path),
            shells@.len() == i,
            objects_extend(old(objects), objects),
            cache_wf(cache, objects, path),
            forall|j: int|
                0 <= j < n ==> face_sweepable(objects, (#[trigger] sketch_faces@[j])@, path),
            forall|k: int|
                0 <= k < i ==> 0 <= (#[trigger] shells@[k])@ < objects.shells@.len()
                    && objects.shells@[shells@[k]@].faces@.len() == 2 + face_boundary_count(
                    old(objects),
                    sketch_faces@[k]@,
                ),
        decreases n - i,
    {
        let ghost pre: Objects = *objects;
        let shell = sweep_face_with_cache(sketch_faces[i], path, cache, objects);
        shells.push(shell);
        proof {
            assert forall|j: int| 0 <= j < n implies face_sweepable(
                objects,
                (#[trigger] sketch_faces@[j])@,
                path,
            ) by {
                lemma_face_sweepable_extend(&pre, objects, sketch_faces@[j]@, path);
            }
            assert forall|k: int| 0 <= k < i + 1 implies 0 <= (#[trigger] shells@[k])@
                < objects.shells@.len() && objects.shells@[shells@[k]@].faces@.len() == 2
                + face_boundary_count(old(objects), sketch_faces@[k]@) by {
                if k < i {
                    assert(objects.shells@[shells@[k]@] == pre.shells@[shells@[k]@]);
                } else {
                    crate::objects::lemma_face_valid_in_range(
                        old(objects),
                        old(objects).faces@[sketch_faces@[k]@],
                    );
                    lemma_face_boundary_count_stable(old(objects), &pre, sketch_faces@[k]@);
                }
            }
        }
        i += 1;
    }
    let ghost s5: Objects = *objects;
    let solid_value = Solid { shells };
    let ghost solid_ghost = solid_value;
    let h = objects.solids.insert(solid_value);
    proof {
        assert(objects.solids@[h@].same_spec(&solid_ghost));
        let out = objects.solids@[h@];
        assert forall|i: int| 0 <= i < out.shells@.len() implies {
            let sh = (#[trigger] out.shells@[i])@;
            &&& 0 <= sh < objects.shells@.len()
            &&& objects.shells@[sh].faces@.len() == 2 + face_boundary_count(
                old(objects),
                old(objects).sketches@[sketch@].faces@[i]@,
            )
        } by {
            assert(out.shells@[i]@ == shells@[i]@);
            assert(objects.shells@[shells@[i]@] == s5.shells@[shells@[i]@]);
        }
    }
    h
}

/// Sweep a half-edge along a path with a fresh cache.
pub fn sweep_half_edge(
    edge: Handle<HalfEdge>,
    color: Color,
    path: Vector<3>,
    objects: &mut Objects,
) -> (r: Handle<Face>)
    requires
        he_sweepable(old(objects), edge@, path),
    ensures
        objects_extend(old(objects), final(objects)),
        0 <= r@ < final(objects).faces@.len(),
        final(objects).faces@[r@].color.rgba@ == color.rgba@,
        final(objects).faces@[r@].interiors@.len() == 0,
        0 <= final(objects).faces@[r@].exterior@ < final(objects).cycles@.len(),
        final(objects).cycles@[final(objects).faces@[r@].exterior@].half_edges@.len() == 4,
        0 <= final(objects).cycles@[final(objects).faces@[r@].exterior@].half_edges@[0]@
            < final(objects).half_edges@.len(),
        0 <= final(objects).cycles@[final(objects).faces@[r@].exterior@].half_edges@[2]@
            < final(objects).half_edges@.len(),
        bottom_edge_global_form(final(objects), r@)
            == old(objects).half_edges@[edge@].spec_global_form()@,
        bottom_edge_of_sweep(
            old(objects),
            edge@,
            final(objects),
            final(objects).cycles@[final(objects).faces@[r@].exterior@].half_edges@[0]@,
        ),
        top_edge_of_sweep(
            old(objects),
            edge@,
            final(objects),
            final(objects).cycles@[final(objects).faces@[r@].exterior@].half_edges@[2]@,
            path,
        ),
{
    let mut cache = SweepCache::new();
    sweep_half_edge_with_cache(edge, color, path, &mut cache, objects)
}

/// Sweep a face along a path with a fresh cache.
pub fn sweep_face(face: Handle<Face>, path: Vector<3>, objects: &mut Objects) -> (r: Handle<Shell>)
    requires
        face_sweepable(old(objects), face@, path),
    ensures
        objects_extend(old(objects), final(objects)),
        0 <= r@ < final(objects).shells@.len(),
        final(objects).shells@[r@].faces@.len() == 2 + face_boundary_count(old(objects), face@),
        sweep_is_negative(old(objects), face@, path)
            ==> (final(objects).shells@[r@].faces@[0])@ == face@,
        !sweep_is_negative(old(objects), face@, path) ==> face_reversed(
            old(objects),
            face@,
            final(objects),
            final(objects).shells@[r@].faces@[0]@,
        ),
        !sweep_is_negative(old(objects), face@, path) ==> face_translated_in(
            old(objects),
            face@,
            final(objects),
            final(objects).shells@[r@].faces@[1]@,
            path,
        ),
{
    let mut cache = SweepCache::new();
    sweep_face_with_cache(face, path, &mut cache, objects)
}

/// Sweep a sketch along a path with a fresh cache.
pub fn sweep_sketch(
    sketch: Handle<Sketch>,
    path: Vector<3>,
    objects: &mut Objects,
) -> (r: Handle<Solid>)
    requires
        sketch_sweepable(old(objects), sketch@, path),
    ensures
        objects_extend(old(objects), final(objects)),
        0 <= r@ < final(objects).solids@.len(),
        final(objects).solids@[r@].shells@.len() == old(objects).sketches@[sketch@].faces@.len(),
        forall|i: int|
            0 <= i < final(objects).solids@[r@].shells@.len() ==> {
                let sh = (#[trigger] final(objects).solids@[r@].shells@[i])@;
                &&& 0 <= sh < final(objects).shells@.len()
                &&& final(objects).shells@[sh].faces@.len() == 2 + face_boundary_count(
                    old(objects),
                    old(objects).sketches@[sketch@].faces@[i]@,
                )
            },
{
    let mut cache = SweepCache::new();
    sweep_sketch_with_cache(sketch, path, &mut cache, objects)
}


/// Decide whether a point can be translated by the path without leaving
/// the scalar range.
fn check_can_add(p: &Point<3>, path: &Vector<3>) -> (r: bool)
    ensures
        r == can_add(p@, path@),
{
    proof {
        p.lemma_len();
        path.lemma_len();
    }
    let mut j: usize = 0;
    while j < 3
        invariant
            j <= 3,
            p@.len() == 3,
            path@.len() == 3,
            forall|k: int|
                0 <= k < j ==> i64::MIN <= #[trigger] (p@[k] + path@[k]) <= i64::MAX,
        decreases 3 - j,
    {
        let total: i128 = p.coord(j) as i128 + path.component(j) as i128;
        if total < i64::MIN as i128 || total > i64::MAX as i128 {
            proof {
                assert(!(i64::MIN <= p@[j as int] + path@[j as int] <= i64::MAX));
                assert(!can_add(p@, path@));
            }
            return false;
        }
        j += 1;
    }
    true
}

/// Decide whether every component of a vector is within the given bound.
fn check_vector_within(v: &Vector<3>, bound: i64) -> (r: bool)
    requires
        bound >= 0,
    ensures
        r == seq_bounded(v@, bound as int),
{
    proof {
        v.lemma_len();
    }
    let mut j: usize = 0;
    while j < 3
        invariant
            j <= 3,
            bound >= 0,
            v@.len() == 3,
            forall|k: int| 0 <= k < j ==> -bound <= #[trigger] v@[k] <= bound,
        decreases 3 - j,
    {
        let c = v.component(j);
        if c < -bound || c > bound {
            proof {
                assert(!(-bound <= v@[j as int] <= bound));
                assert(!seq_bounded(v@, bound as int));
            }
            return false;
        }
        j += 1;
    }
    true
}

/// Decide whether a half-edge can be swept along the path: the
/// executable counterpart of `he_sweepable`, for callers that must test
/// the sweep's precondition rather than rely on how the edge was built.
#[verifier::loop_isolation(false)]
pub fn is_half_edge_sweepable(
    edge: Handle<HalfEdge>,
    path: Vector<3>,
    objects: &Objects,
) -> (r: bool)
    ensures
        r == he_sweepable(objects, edge@, path),
{
    if edge.id() >= objects.half_edges.len() {
        return false;
    }
    let e = *objects.half_edges.get(&edge);
    proof {
        e.lemma_boundary_len();
    }
    if e.curve().id() >= objects.curves.len() {
        return false;
    }
    let c = *objects.curves.get(&e.curve());
    if c.surface.id() >= objects.surfaces.len() {
        return false;
    }
    if c.global_form.id() >= objects.global_curves.len() {
        return false;
    }
    let svs = e.surface_vertices();
    if svs[0].id() >= objects.surface_vertices.len() || svs[1].id()
        >= objects.surface_vertices.len() {
        return false;
    }
    let sv0 = *objects.surface_vertices.get(&svs[0]);
    let sv1 = *objects.surface_vertices.get(&svs[1]);
    if sv0.surface.id() >= objects.surfaces.len() || sv0.global_form.id()
        >= objects.global_vertices.len() {
        return false;
    }
    if sv1.surface.id() >= objects.surfaces.len() || sv1.global_form.id()
        >= objects.global_vertices.len() {
        return false;
    }
    if e.global_form().id() >= objects.global_edges.len() {
        return false;
    }
    let ge = *objects.global_edges.get(&e.global_form());
    proof {
        ge.lemma_vertices_len();
    }
    let ge_vs = ge.vertices().access_in_normalized_order();
    if ge.curve().id() >= objects.global_curves.len() {
        return false;
    }
    if ge_vs[0].id() >= objects.global_vertices.len() || ge_vs[1].id()
        >= objects.global_vertices.len() {
        return false;
    }
    proof {
        assert(half_edge_valid(objects, objects.half_edges@[edge@]));
    }
    let gv0 = *objects.global_vertices.get(&sv0.global_form);
    let gv1 = *objects.global_vertices.get(&sv1.global_form);
    if !check_can_add(&gv0.position, &path) || !check_can_add(&gv1.position, &path) {
        return false;
    }
    let cgc = *objects.global_curves.get(&c.global_form);
    if !check_can_add(&cgc.line.origin, &path) {
        return false;
    }
    let s = *objects.surfaces.get(&c.surface);
    if !check_can_add(&s.curve.origin, &path) {
        return false;
    }
    let ge_gc = *objects.global_curves.get(&ge.curve());
    if !check_can_add(&ge_gc.line.origin, &path) {
        return false;
    }
    let ge_gv0 = *objects.global_vertices.get(&ge_vs[0]);
    let ge_gv1 = *objects.global_vertices.get(&ge_vs[1]);
    if !check_can_add(&ge_gv0.position, &path) || !check_can_add(&ge_gv1.position, &path) {
        return false;
    }
    proof {
        assert(he_translatable(objects, objects.half_edges@[edge@], path));
    }
    true
}

/// Decide whether every half-edge of a cycle can be swept along the path.
#[verifier::loop_isolation(false)]
pub fn is_cycle_sweepable(cycle: Handle<Cycle>, path: Vector<3>, objects: &Objects) -> (r: bool)
    ensures
        r == cycle_sweepable(objects, cycle@, path),
{
    if cycle.id() >= objects.cycles.len() {
        return false;
    }
    let edges = {
        let c = objects.cycles.get(&cycle);
        crate::objects::copy_handles(&c.half_edges)
    };
    let n = edges.len();
    let mut i: usize = 0;
    while i < n
        invariant
            i <= n,
            forall|k: int| 0 <= k < i ==> he_sweepable(objects, (#[trigger] edges@[k])@, path),
        decreases n - i,
    {
        if !is_half_edge_sweepable(edges[i], path, objects) {
            return false;
        }
        i += 1;
    }
    true
}

/// Decide whether a face can be swept along the path: the executable
/// counterpart of `face_sweepable`.
#[verifier::loop_isolation(false)]
pub fn is_face_sweepable(face: Handle<Face>, path: Vector<3>, objects: &Objects) -> (r: bool)
    ensures
        r == face_sweepable(objects, face@, path),
{
    if face.id() >= objects.faces.len() {
        return false;
    }
    let (exterior, interiors) = {
        let f = objects.faces.get(&face);
        (f.exterior, crate::objects::copy_handles(&f.interiors))
    };
    if !is_cycle_sweepable(exterior, path, objects) {
        return false;
    }
    let n = interiors.len();
    let mut i: usize = 0;
    while i < n
        invariant
            i <= n,
            forall|k: int|
                0 <= k < i ==> cycle_sweepable(objects, (#[trigger] interiors@[k])@, path),
        decreases n - i,
    {
        if !is_cycle_sweepable(interiors[i], path, objects) {
            return false;
        }
        i += 1;
    }
    let first_len = {
        let cyc = objects.cycles.get(&exterior);
        cyc.half_edges.len()
    };
    if first_len == 0 {
        return false;
    }
    let surface = {
        let first_edge = {
            let cyc = objects.cycles.get(&exterior);
            cyc.half_edges[0]
        };
        let he = *objects.half_edges.get(&first_edge);
        let cu = *objects.curves.get(&he.curve());
        *objects.surfaces.get(&cu.surface)
    };
    proof {
        assert(surface == face_surface(objects, face@));
    }
    if !check_vector_within(&surface.curve.direction, 2 * crate::math::MAX_COORD)
        || !check_vector_within(&surface.path, 2 * crate::math::MAX_COORD)
        || !check_vector_within(&path, 2 * crate::math::MAX_COORD) {
        return false;
    }
    proof {
        assert(face_valid(objects, objects.faces@[face@]));
    }
    true
}

/// Decide whether every face of a sketch can be swept along the path:
/// the executable counterpart of `sketch_sweepable`, so that a caller
/// can test the sweep's precondition and refuse the input instead of
/// relying on how the sketch was built.
#[verifier::loop_isolation(false)]
pub fn is_sketch_sweepable(sketch: Handle<Sketch>, path: Vector<3>, objects: &Objects) -> (r: bool)
    ensures
        r == sketch_sweepable(objects, sketch@, path),
{
    if sketch.id() >= objects.sketches.len() {
        return false;
    }
    let faces = {
        let sk = objects.sketches.get(&sketch);
        crate::objects::copy_handles(&sk.faces)
    };
    let n = faces.len();
    let mut i: usize = 0;
    while i < n
        invariant
            i <= n,
            forall|k: int| 0 <= k < i ==> face_sweepable(objects, (#[trigger] faces@[k])@, path),
        decreases n - i,
    {
        if !is_face_sweepable(faces[i], path, objects) {
            return false;
        }
        i += 1;
    }
    true
}

} // verus!
