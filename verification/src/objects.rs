//! The topological objects of the kernel and their shared store.
//!
//! Every object is an immutable value that refers to other objects through
//! handles into one [`Objects`] store. Identity therefore flows from the
//! store: two objects are the same exactly when their handles are equal,
//! and insertion deduplicates structurally equal values (see
//! [`crate::storage`]).
//!
//! Curves are lines. A circle's sample points have irrational coordinates,
//! which the exact integer scalar cannot carry, so circular geometry stays
//! outside the verified kernel.

use vstd::prelude::*;

use crate::math::{Line, Point, Vector};
use crate::storage::{Handle, Store, StoreItem};

verus! {

/// Whether two sequences of handles refer to the same instances, in order.
pub open spec fn handle_seqs_match<T>(a: Seq<Handle<T>>, b: Seq<Handle<T>>) -> bool {
    a.len() == b.len() && forall|i: int| 0 <= i < a.len() ==> #[trigger] a[i]@ == b[i]@
}

/// Decide whether two handle vectors refer to the same instances, in order.
pub fn handles_match<T>(a: &Vec<Handle<T>>, b: &Vec<Handle<T>>) -> (r: bool)
    ensures
        r == handle_seqs_match(a@, b@),
{
    if a.len() != b.len() {
        return false;
    }
    let n = a.len();
    let mut i: usize = 0;
    while i < n
        invariant
            n == a@.len() == b@.len(),
            i <= n,
            forall|j: int| 0 <= j < i ==> #[trigger] a@[j]@ == b@[j]@,
        decreases n - i,
    {
        if a[i].id() != b[i].id() {
            return false;
        }
        i += 1;
    }
    true
}

/// Copy a vector of handles.
pub fn copy_handles<T>(v: &Vec<Handle<T>>) -> (r: Vec<Handle<T>>)
    ensures
        r@ == v@,
{
    let mut r: Vec<Handle<T>> = Vec::new();
    let n = v.len();
    let mut i: usize = 0;
    while i < n
        invariant
            n == v@.len(),
            i <= n,
            r@ =~= v@.subrange(0, i as int),
        decreases n - i,
    {
        r.push(v[i]);
        proof {
            assert(r@ =~= v@.subrange(0, i + 1 as int));
        }
        i += 1;
    }
    proof {
        assert(r@ =~= v@);
    }
    r
}

/// A surface color, as four channel values.
#[derive(Clone, Copy, Debug, Hash, PartialEq, Eq, PartialOrd, Ord)]
pub struct Color {
    /// Red, green, blue, and alpha channels.
    pub rgba: [u8; 4],
}

impl Color {
    /// Create a color from its four channels.
    pub fn new(rgba: [u8; 4]) -> (r: Self)
        ensures
            r.rgba@ =~= rgba@,
    {
        Self { rgba }
    }

    /// Decide whether two colors have equal channels.
    pub fn same(&self, other: &Self) -> (r: bool)
        ensures
            r == (self.rgba@ == other.rgba@),
    {
        if self.rgba[0] == other.rgba[0] && self.rgba[1] == other.rgba[1] && self.rgba[2]
            == other.rgba[2] && self.rgba[3] == other.rgba[3] {
            proof {
                assert(self.rgba@ =~= other.rgba@);
            }
            true
        } else {
            false
        }
    }
}

impl Default for Color {
    /// The default color is opaque white.
    fn default() -> (r: Self)
        ensures
            r.rgba@ =~= seq![255u8, 255u8, 255u8, 255u8],
    {
        Self { rgba: [255, 255, 255, 255] }
    }
}

/// A vertex in global, three-dimensional coordinates: the one canonical
/// identity of a corner of the model, however many surfaces refer to it.
#[derive(Clone, Copy, Debug, Hash, PartialEq, Eq, PartialOrd, Ord)]
pub struct GlobalVertex {
    /// The position of the vertex.
    pub position: Point<3>,
}

impl StoreItem for GlobalVertex {
    open spec fn same_spec(&self, other: &Self) -> bool {
        self.position@ == other.position@
    }

    fn same(&self, other: &Self) -> (r: bool) {
        self.position.same(&other.position)
    }

    proof fn lemma_same_reflexive(&self) {
    }
}

/// A curve in global, three-dimensional coordinates: the canonical
/// embedding that surface-local curves refer to.
#[derive(Clone, Copy, Debug, Hash, PartialEq, Eq, PartialOrd, Ord)]
pub struct GlobalCurve {
    /// The line that embeds the curve in space.
    pub line: Line<3>,
}

impl StoreItem for GlobalCurve {
    open spec fn same_spec(&self, other: &Self) -> bool {
        self.line.origin@ == other.line.origin@ && self.line.direction@ == other.line.direction@
    }

    fn same(&self, other: &Self) -> (r: bool) {
        self.line.same(&other.line)
    }

    proof fn lemma_same_reflexive(&self) {
    }
}

/// A surface: the plane swept by a line when translated along a path.
/// A point with surface coordinates `(u, v)` lies at
/// `curve.origin + u * curve.direction + v * path` in space.
#[derive(Clone, Copy, Debug, Hash, PartialEq, Eq, PartialOrd, Ord)]
pub struct Surface {
    /// The line that sweeps the surface.
    pub curve: Line<3>,
    /// The path along which the line is swept.
    pub path: Vector<3>,
}

impl StoreItem for Surface {
    open spec fn same_spec(&self, other: &Self) -> bool {
        self.curve.origin@ == other.curve.origin@ && self.curve.direction@
            == other.curve.direction@ && self.path@ == other.path@
    }

    fn same(&self, other: &Self) -> (r: bool) {
        self.curve.same(&other.curve) && self.path.same(&other.path)
    }

    proof fn lemma_same_reflexive(&self) {
    }
}

/// A curve in the coordinates of one surface, tied to its canonical
/// global form.
#[derive(Clone, Copy, Debug, Hash, PartialEq, Eq, PartialOrd, Ord)]
pub struct Curve {
    /// The surface the curve lies on.
    pub surface: Handle<Surface>,
    /// The curve's shape in surface coordinates.
    pub path: Line<2>,
    /// The canonical embedding of the curve in space.
    pub global_form: Handle<GlobalCurve>,
}

impl Curve {
    /// Create a curve on a surface with the given global form.
    pub fn new(surface: Handle<Surface>, path: Line<2>, global_form: Handle<GlobalCurve>) -> (r:
        Self)
        ensures
            r == (Curve { surface, path, global_form }),
    {
        Self { surface, path, global_form }
    }
}

impl StoreItem for Curve {
    open spec fn same_spec(&self, other: &Self) -> bool {
        self.surface@ == other.surface@ && self.path.origin@ == other.path.origin@
            && self.path.direction@ == other.path.direction@ && self.global_form@
            == other.global_form@
    }

    fn same(&self, other: &Self) -> (r: bool) {
        self.surface.id() == other.surface.id() && self.path.same(&other.path) && self.global_form.id()
            == other.global_form.id()
    }

    proof fn lemma_same_reflexive(&self) {
    }
}

/// A vertex in the coordinates of one surface, tied to its canonical
/// global form.
#[derive(Clone, Copy, Debug, Hash, PartialEq, Eq, PartialOrd, Ord)]
pub struct SurfaceVertex {
    /// The position of the vertex in surface coordinates.
    pub position: Point<2>,
    /// The surface the vertex lies on.
    pub surface: Handle<Surface>,
    /// The canonical identity of the vertex in space.
    pub global_form: Handle<GlobalVertex>,
}

impl SurfaceVertex {
    /// Create a surface vertex with the given global form.
    pub fn new(
        position: Point<2>,
        surface: Handle<Surface>,
        global_form: Handle<GlobalVertex>,
    ) -> (r: Self)
        ensures
            r == (SurfaceVertex { position, surface, global_form }),
    {
        Self { position, surface, global_form }
    }
}

impl StoreItem for SurfaceVertex {
    open spec fn same_spec(&self, other: &Self) -> bool {
        self.position@ == other.position@ && self.surface@ == other.surface@ && self.global_form@
            == other.global_form@
    }

    fn same(&self, other: &Self) -> (r: bool) {
        self.position.same(&other.position) && self.surface.id() == other.surface.id()
            && self.global_form.id() == other.global_form.id()
    }

    proof fn lemma_same_reflexive(&self) {
    }
}

/// A half-edge: a directed use of a curve between two boundary vertices,
/// on one surface.
#[derive(Clone, Copy, Debug, Hash, PartialEq, Eq, PartialOrd, Ord)]
pub struct HalfEdge {
    curve: Handle<Curve>,
    boundary: [(Point<1>, Handle<SurfaceVertex>); 2],
    global_form: Handle<GlobalEdge>,
}

impl HalfEdge {
    /// The curve that defines the half-edge's geometry.
    pub closed spec fn spec_curve(&self) -> Handle<Curve> {
        self.curve
    }

    /// The boundary of the half-edge on the curve: for each end, the curve
    /// parameter and the surface vertex at that end.
    pub closed spec fn spec_boundary(&self) -> Seq<(Point<1>, Handle<SurfaceVertex>)> {
        self.boundary@
    }

    /// The undirected global form of the half-edge.
    pub closed spec fn spec_global_form(&self) -> Handle<GlobalEdge> {
        self.global_form
    }

    /// A half-edge always has exactly two boundary entries.
    pub proof fn lemma_boundary_len(&self)
        ensures
            self.spec_boundary().len() == 2,
    {
    }

    /// Create an instance of `HalfEdge`.
    pub fn new(
        curve: Handle<Curve>,
        boundary: [(Point<1>, Handle<SurfaceVertex>); 2],
        global_form: Handle<GlobalEdge>,
    ) -> (r: Self)
        ensures
            r.spec_curve() == curve,
            r.spec_boundary() =~= boundary@,
            r.spec_global_form() == global_form,
    {
        Self { curve, boundary, global_form }
    }

    /// Access the curve that defines the half-edge's geometry.
    pub fn curve(&self) -> (r: Handle<Curve>)
        ensures
            r == self.spec_curve(),
    {
        self.curve
    }

    /// Access the boundary points of the half-edge on the curve.
    pub fn boundary(&self) -> (r: [Point<1>; 2])
        ensures
            r@ =~= seq![self.spec_boundary()[0].0, self.spec_boundary()[1].0],
    {
        [self.boundary[0].0, self.boundary[1].0]
    }

    /// Access the vertex from where this half-edge starts.
    pub fn start_vertex(&self) -> (r: Handle<SurfaceVertex>)
        ensures
            r == self.spec_boundary()[0].1,
    {
        self.boundary[0].1
    }

    /// Access the surface vertices that bound the half-edge.
    pub fn surface_vertices(&self) -> (r: [Handle<SurfaceVertex>; 2])
        ensures
            r@ =~= seq![self.spec_boundary()[0].1, self.spec_boundary()[1].1],
    {
        [self.boundary[0].1, self.boundary[1].1]
    }

    /// Access the global form of the half-edge.
    pub fn global_form(&self) -> (r: Handle<GlobalEdge>)
        ensures
            r == self.spec_global_form(),
    {
        self.global_form
    }
}

impl StoreItem for HalfEdge {
    open spec fn same_spec(&self, other: &Self) -> bool {
        self.spec_curve()@ == other.spec_curve()@ && self.spec_boundary()[0].0@
            == other.spec_boundary()[0].0@ && self.spec_boundary()[0].1@
            == other.spec_boundary()[0].1@ && self.spec_boundary()[1].0@
            == other.spec_boundary()[1].0@ && self.spec_boundary()[1].1@
            == other.spec_boundary()[1].1@ && self.spec_global_form()@
            == other.spec_global_form()@
    }

    fn same(&self, other: &Self) -> (r: bool) {
        self.curve.id() == other.curve.id() && self.boundary[0].0.same(&other.boundary[0].0)
            && self.boundary[0].1.id() == other.boundary[0].1.id() && self.boundary[1].0.same(
            &other.boundary[1].0,
        ) && self.boundary[1].1.id() == other.boundary[1].1.id() && self.global_form.id()
            == other.global_form.id()
    }

    proof fn lemma_same_reflexive(&self) {
    }
}

/// The two vertices of a global edge, in normalized order.
///
/// A global edge is undirected, so the pair of vertices that bound it must
/// not carry an order; storing them sorted by handle identity makes two
/// edges over the same vertices equal however the pair was given.
#[derive(Clone, Copy, Debug, Hash, PartialEq, Eq, PartialOrd, Ord)]
pub struct VerticesInNormalizedOrder([Handle<GlobalVertex>; 2]);

/// The pair `a`, `b` sorted by handle identity, smaller first.
pub open spec fn normalized_pair(
    a: Handle<GlobalVertex>,
    b: Handle<GlobalVertex>,
) -> Seq<Handle<GlobalVertex>> {
    if a@ < b@ {
        seq![a, b]
    } else {
        seq![b, a]
    }
}

impl VerticesInNormalizedOrder {
    /// The two vertices, in normalized order.
    pub closed spec fn spec_vertices(&self) -> Seq<Handle<GlobalVertex>> {
        self.0@
    }

    /// Construct a new instance of `VerticesInNormalizedOrder`.
    ///
    /// The provided vertices can be in any order. The returned `bool`
    /// value indicates whether the normalization changed the order.
    pub fn new(vertices: [Handle<GlobalVertex>; 2]) -> (r: (Self, bool))
        ensures
            r.0.spec_vertices() =~= normalized_pair(vertices@[0], vertices@[1]),
            r.1 == !(vertices@[0]@ < vertices@[1]@),
    {
        let a = vertices[0];
        let b = vertices[1];
        if a.id() < b.id() {
            (Self([a, b]), false)
        } else {
            (Self([b, a]), true)
        }
    }

    /// A normalized pair always holds exactly two vertices.
    pub proof fn lemma_vertices_len(&self)
        ensures
            self.spec_vertices().len() == 2,
    {
    }

    /// Access the vertices, in normalized order.
    pub fn access_in_normalized_order(&self) -> (r: [Handle<GlobalVertex>; 2])
        ensures
            r@ =~= self.spec_vertices(),
    {
        [self.0[0], self.0[1]]
    }
}

/// An edge in global coordinates: the canonical, undirected identity that
/// every half-edge traversing the same physical edge refers to, in either
/// direction.
#[derive(Clone, Copy, Debug, Hash, PartialEq, Eq, PartialOrd, Ord)]
pub struct GlobalEdge {
    curve: Handle<GlobalCurve>,
    vertices: VerticesInNormalizedOrder,
}

impl GlobalEdge {
    /// The curve that defines the edge's geometry.
    pub closed spec fn spec_curve(&self) -> Handle<GlobalCurve> {
        self.curve
    }

    /// The edge's two vertices, in normalized order.
    pub closed spec fn spec_vertices(&self) -> Seq<Handle<GlobalVertex>> {
        self.vertices.spec_vertices()
    }

    /// Create a new instance.
    ///
    /// The order of `vertices` is irrelevant: two global edges over the
    /// same curve and the same pair of vertices are equal, whatever order
    /// the pair was given in.
    pub fn new(curve: Handle<GlobalCurve>, vertices: [Handle<GlobalVertex>; 2]) -> (r: Self)
        ensures
            r.spec_curve() == curve,
            r.spec_vertices() =~= normalized_pair(vertices@[0], vertices@[1]),
    {
        let (vertices, _) = VerticesInNormalizedOrder::new(vertices);
        Self { curve, vertices }
    }

    /// A global edge always has exactly two vertices.
    pub proof fn lemma_vertices_len(&self)
        ensures
            self.spec_vertices().len() == 2,
    {
        self.vertices.lemma_vertices_len();
    }

    /// Access the curve that defines the edge's geometry.
    pub fn curve(&self) -> (r: Handle<GlobalCurve>)
        ensures
            r == self.spec_curve(),
    {
        self.curve
    }

    /// Access the vertices that bound the edge on the curve.
    ///
    /// The returned vertices are in normalized order, which need not match
    /// the order they were passed to [`GlobalEdge::new`] in.
    pub fn vertices(&self) -> (r: VerticesInNormalizedOrder)
        ensures
            r.spec_vertices() == self.spec_vertices(),
    {
        self.vertices
    }
}

impl StoreItem for GlobalEdge {
    open spec fn same_spec(&self, other: &Self) -> bool {
        self.spec_curve()@ == other.spec_curve()@ && self.spec_vertices()[0]@
            == other.spec_vertices()[0]@ && self.spec_vertices()[1]@ == other.spec_vertices()[1]@
    }

    fn same(&self, other: &Self) -> (r: bool) {
        self.curve.id() == other.curve.id() && self.vertices.0[0].id() == other.vertices.0[0].id()
            && self.vertices.0[1].id() == other.vertices.0[1].id()
    }

    proof fn lemma_same_reflexive(&self) {
    }
}

/// Normalization makes the global edge directionless: for two distinct
/// vertices, building the pair in either order yields the same normalized
/// pair, and hence structurally equal — deduplicated — global edges.
pub proof fn lemma_normalized_pair_undirected(a: Handle<GlobalVertex>, b: Handle<GlobalVertex>)
    requires
        a@ != b@,
    ensures
        normalized_pair(a, b) == normalized_pair(b, a),
{
    if a@ < b@ {
        assert(normalized_pair(a, b) =~= normalized_pair(b, a));
    } else {
        assert(b@ < a@);
        assert(normalized_pair(a, b) =~= normalized_pair(b, a));
    }
}

/// The undirected-identity law at the level of whole global edges: two
/// global edges built over the same curve from the same two distinct
/// vertices, in either order, are structurally equal, so the store gives
/// them one identity.
pub proof fn lemma_global_edge_undirected(
    e1: GlobalEdge,
    e2: GlobalEdge,
    curve: Handle<GlobalCurve>,
    a: Handle<GlobalVertex>,
    b: Handle<GlobalVertex>,
)
    requires
        a@ != b@,
        e1.spec_curve() == curve,
        e1.spec_vertices() == normalized_pair(a, b),
        e2.spec_curve() == curve,
        e2.spec_vertices() == normalized_pair(b, a),
    ensures
        e1.same_spec(&e2),
{
    lemma_normalized_pair_undirected(a, b);
}

/// A closed loop of half-edges bounding a region of one surface.
#[derive(Clone, Debug, Hash, PartialEq, Eq, PartialOrd, Ord)]
pub struct Cycle {
    /// The half-edges of the cycle, in order.
    pub half_edges: Vec<Handle<HalfEdge>>,
}

impl Cycle {
    /// Create a cycle from its half-edges.
    pub fn new(half_edges: Vec<Handle<HalfEdge>>) -> (r: Self)
        ensures
            r.half_edges@ == half_edges@,
    {
        Self { half_edges }
    }
}

impl StoreItem for Cycle {
    open spec fn same_spec(&self, other: &Self) -> bool {
        handle_seqs_match(self.half_edges@, other.half_edges@)
    }

    fn same(&self, other: &Self) -> (r: bool) {
        handles_match(&self.half_edges, &other.half_edges)
    }

    proof fn lemma_same_reflexive(&self) {
    }
}

/// A region of one surface, bounded by an exterior cycle and any number
/// of interior cycles that cut holes into it.
#[derive(Clone, Debug, Hash, PartialEq, Eq, PartialOrd, Ord)]
pub struct Face {
    /// The cycle that bounds the face on the outside.
    pub exterior: Handle<Cycle>,
    /// The cycles that bound the face's holes.
    pub interiors: Vec<Handle<Cycle>>,
    /// The color of the face.
    pub color: Color,
}

impl StoreItem for Face {
    open spec fn same_spec(&self, other: &Self) -> bool {
        self.exterior@ == other.exterior@ && handle_seqs_match(self.interiors@, other.interiors@)
            && self.color.rgba@ == other.color.rgba@
    }

    fn same(&self, other: &Self) -> (r: bool) {
        self.exterior.id() == other.exterior.id() && handles_match(
            &self.interiors,
            &other.interiors,
        ) && self.color.same(&other.color)
    }

    proof fn lemma_same_reflexive(&self) {
    }
}

/// A set of faces intended to bound a solid.
#[derive(Clone, Debug, Hash, PartialEq, Eq, PartialOrd, Ord)]
pub struct Shell {
    /// The faces of the shell.
    pub faces: Vec<Handle<Face>>,
}

impl StoreItem for Shell {
    open spec fn same_spec(&self, other: &Self) -> bool {
        handle_seqs_match(self.faces@, other.faces@)
    }

    fn same(&self, other: &Self) -> (r: bool) {
        handles_match(&self.faces, &other.faces)
    }

    proof fn lemma_same_reflexive(&self) {
    }
}

/// A solid, bounded by its shells.
#[derive(Clone, Debug, Hash, PartialEq, Eq, PartialOrd, Ord)]
pub struct Solid {
    /// The shells that bound the solid.
    pub shells: Vec<Handle<Shell>>,
}

impl StoreItem for Solid {
    open spec fn same_spec(&self, other: &Self) -> bool {
        handle_seqs_match(self.shells@, other.shells@)
    }

    fn same(&self, other: &Self) -> (r: bool) {
        handles_match(&self.shells, &other.shells)
    }

    proof fn lemma_same_reflexive(&self) {
    }
}

/// A planar collection of faces: the typical input of a sweep.
#[derive(Clone, Debug, Hash, PartialEq, Eq, PartialOrd, Ord)]
pub struct Sketch {
    /// The faces of the sketch.
    pub faces: Vec<Handle<Face>>,
}

impl StoreItem for Sketch {
    open spec fn same_spec(&self, other: &Self) -> bool {
        handle_seqs_match(self.faces@, other.faces@)
    }

    fn same(&self, other: &Self) -> (r: bool) {
        handles_match(&self.faces, &other.faces)
    }

    proof fn lemma_same_reflexive(&self) {
    }
}

/// The one store of a modeling pass: every object kind in its own arena.
pub struct Objects {
    /// All surfaces.
    pub surfaces: Store<Surface>,
    /// All global curves.
    pub global_curves: Store<GlobalCurve>,
    /// All surface-local curves.
    pub curves: Store<Curve>,
    /// All global vertices.
    pub global_vertices: Store<GlobalVertex>,
    /// All surface vertices.
    pub surface_vertices: Store<SurfaceVertex>,
    /// All global edges.
    pub global_edges: Store<GlobalEdge>,
    /// All half-edges.
    pub half_edges: Store<HalfEdge>,
    /// All cycles.
    pub cycles: Store<Cycle>,
    /// All faces.
    pub faces: Store<Face>,
    /// All shells.
    pub shells: Store<Shell>,
    /// All solids.
    pub solids: Store<Solid>,
    /// All sketches.
    pub sketches: Store<Sketch>,
}

impl Objects {
    /// Create an empty store.
    pub fn new() -> (r: Self)
        ensures
            r.surfaces@.len() == 0,
            r.global_curves@.len() == 0,
            r.curves@.len() == 0,
            r.global_vertices@.len() == 0,
            r.surface_vertices@.len() == 0,
            r.global_edges@.len() == 0,
            r.half_edges@.len() == 0,
            r.cycles@.len() == 0,
            r.faces@.len() == 0,
            r.shells@.len() == 0,
            r.solids@.len() == 0,
            r.sketches@.len() == 0,
    {
        Self {
            surfaces: Store::new(),
            global_curves: Store::new(),
            curves: Store::new(),
            global_vertices: Store::new(),
            surface_vertices: Store::new(),
            global_edges: Store::new(),
            half_edges: Store::new(),
            cycles: Store::new(),
            faces: Store::new(),
            shells: Store::new(),
            solids: Store::new(),
            sketches: Store::new(),
        }
    }

    /// Whether a surface is the plane spanned by the first two
    /// coordinate axes.
    pub open spec fn surface_is_xy_plane(s: Surface) -> bool {
        s.curve.origin@ == seq![0int, 0int, 0int] && s.curve.direction@ == seq![1int, 0int, 0int]
            && s.path@ == seq![0int, 1int, 0int]
    }

    /// Whether a surface is the plane spanned by the first and third
    /// coordinate axes.
    pub open spec fn surface_is_xz_plane(s: Surface) -> bool {
        s.curve.origin@ == seq![0int, 0int, 0int] && s.curve.direction@ == seq![1int, 0int, 0int]
            && s.path@ == seq![0int, 0int, 1int]
    }

    /// The handle of the plane spanned by the first two coordinate axes,
    /// inserting the plane if it is not stored yet.
    pub fn xy_plane(&mut self) -> (r: Handle<Surface>)
        ensures
            0 <= r@ < final(self).surfaces@.len(),
            Self::surface_is_xy_plane(final(self).surfaces@[r@]),
            forall|j: int|
                0 <= j < r@ ==> !Self::surface_is_xy_plane(#[trigger] final(self).surfaces@[j]),
            final(self).surfaces@.len() >= old(self).surfaces@.len(),
            forall|j: int|
                0 <= j < old(self).surfaces@.len() ==> #[trigger] final(self).surfaces@[j] == old(
                    self,
                ).surfaces@[j],
            final(self).surfaces@.len() <= old(self).surfaces@.len() + 1,
            unchanged_but_surfaces(old(self), final(self)),
    {
        let surface = Surface {
            curve: Line::new(crate::math::p3(0, 0, 0), crate::math::v3(1, 0, 0)),
            path: crate::math::v3(0, 1, 0),
        };
        let h = self.surfaces.insert(surface);
        proof {
            assert(Self::surface_is_xy_plane(surface));
            assert forall|j: int| 0 <= j < h@ implies !Self::surface_is_xy_plane(
                #[trigger] self.surfaces@[j],
            ) by {
                assert(!self.surfaces@[j].same_spec(&surface));
            }
        }
        h
    }

    /// The handle of the plane spanned by the first and third coordinate
    /// axes, inserting the plane if it is not stored yet.
    pub fn xz_plane(&mut self) -> (r: Handle<Surface>)
        ensures
            0 <= r@ < final(self).surfaces@.len(),
            Self::surface_is_xz_plane(final(self).surfaces@[r@]),
            forall|j: int|
                0 <= j < r@ ==> !Self::surface_is_xz_plane(#[trigger] final(self).surfaces@[j]),
            final(self).surfaces@.len() >= old(self).surfaces@.len(),
            forall|j: int|
                0 <= j < old(self).surfaces@.len() ==> #[trigger] final(self).surfaces@[j] == old(
                    self,
                ).surfaces@[j],
            final(self).surfaces@.len() <= old(self).surfaces@.len() + 1,
            unchanged_but_surfaces(old(self), final(self)),
    {
        let surface = Surface {
            curve: Line::new(crate::math::p3(0, 0, 0), crate::math::v3(1, 0, 0)),
            path: crate::math::v3(0, 0, 1),
        };
        let h = self.surfaces.insert(surface);
        proof {
            assert(Self::surface_is_xz_plane(surface));
            assert forall|j: int| 0 <= j < h@ implies !Self::surface_is_xz_plane(
                #[trigger] self.surfaces@[j],
            ) by {
                assert(!self.surfaces@[j].same_spec(&surface));
            }
        }
        h
    }
}

/// Whether every arena of the store except the surfaces is unchanged.
pub open spec fn unchanged_but_surfaces(pre: &Objects, post: &Objects) -> bool {
    post.global_curves@ == pre.global_curves@ && post.curves@ == pre.curves@
        && post.global_vertices@ == pre.global_vertices@ && post.surface_vertices@
        == pre.surface_vertices@ && post.global_edges@ == pre.global_edges@ && post.half_edges@
        == pre.half_edges@ && post.cycles@ == pre.cycles@ && post.faces@ == pre.faces@
        && post.shells@ == pre.shells@ && post.solids@ == pre.solids@ && post.sketches@
        == pre.sketches@
}

/// Whether every arena of `post` extends the corresponding arena of
/// `pre`: stores only grow, and what is stored never changes.
pub open spec fn objects_extend(pre: &Objects, post: &Objects) -> bool {
    &&& pre.surfaces@.is_prefix_of(post.surfaces@)
    &&& pre.global_curves@.is_prefix_of(post.global_curves@)
    &&& pre.curves@.is_prefix_of(post.curves@)
    &&& pre.global_vertices@.is_prefix_of(post.global_vertices@)
    &&& pre.surface_vertices@.is_prefix_of(post.surface_vertices@)
    &&& pre.global_edges@.is_prefix_of(post.global_edges@)
    &&& pre.half_edges@.is_prefix_of(post.half_edges@)
    &&& pre.cycles@.is_prefix_of(post.cycles@)
    &&& pre.faces@.is_prefix_of(post.faces@)
    &&& pre.shells@.is_prefix_of(post.shells@)
    &&& pre.solids@.is_prefix_of(post.solids@)
    &&& pre.sketches@.is_prefix_of(post.sketches@)
}

/// Whether a curve's handles can be resolved in the store.
pub open spec fn curve_valid(o: &Objects, c: Curve) -> bool {
    0 <= c.surface@ < o.surfaces@.len() && 0 <= c.global_form@ < o.global_curves@.len()
}

/// Whether a surface vertex's handles can be resolved in the store.
pub open spec fn surface_vertex_valid(o: &Objects, v: SurfaceVertex) -> bool {
    0 <= v.surface@ < o.surfaces@.len() && 0 <= v.global_form@ < o.global_vertices@.len()
}

/// Whether a global edge's handles can be resolved in the store.
pub open spec fn global_edge_valid(o: &Objects, e: GlobalEdge) -> bool {
    0 <= e.spec_curve()@ < o.global_curves@.len() && e.spec_vertices().len() == 2 && 0
        <= e.spec_vertices()[0]@ < o.global_vertices@.len() && 0 <= e.spec_vertices()[1]@
        < o.global_vertices@.len()
}

/// Whether a half-edge and everything it refers to can be resolved in the
/// store.
pub open spec fn half_edge_valid(o: &Objects, e: HalfEdge) -> bool {
    &&& 0 <= e.spec_curve()@ < o.curves@.len()
    &&& curve_valid(o, o.curves@[e.spec_curve()@])
    &&& e.spec_boundary().len() == 2
    &&& 0 <= e.spec_boundary()[0].1@ < o.surface_vertices@.len()
    &&& 0 <= e.spec_boundary()[1].1@ < o.surface_vertices@.len()
    &&& surface_vertex_valid(o, o.surface_vertices@[e.spec_boundary()[0].1@])
    &&& surface_vertex_valid(o, o.surface_vertices@[e.spec_boundary()[1].1@])
    &&& 0 <= e.spec_global_form()@ < o.global_edges@.len()
    &&& global_edge_valid(o, o.global_edges@[e.spec_global_form()@])
}

/// Whether a cycle and all its half-edges can be resolved in the store.
pub open spec fn cycle_valid(o: &Objects, c: Cycle) -> bool {
    forall|i: int|
        0 <= i < c.half_edges@.len() ==> 0 <= (#[trigger] c.half_edges@[i])@
            < o.half_edges@.len() && half_edge_valid(o, o.half_edges@[c.half_edges@[i]@])
}

/// Whether a face and all its cycles can be resolved in the store.
pub open spec fn face_valid(o: &Objects, f: Face) -> bool {
    &&& 0 <= f.exterior@ < o.cycles@.len()
    &&& cycle_valid(o, o.cycles@[f.exterior@])
    &&& forall|i: int|
        0 <= i < f.interiors@.len() ==> 0 <= (#[trigger] f.interiors@[i])@ < o.cycles@.len()
            && cycle_valid(o, o.cycles@[f.interiors@[i]@])
}

/// Whether a sketch and all its faces can be resolved in the store.
pub open spec fn sketch_valid(o: &Objects, s: Sketch) -> bool {
    forall|i: int|
        0 <= i < s.faces@.len() ==> 0 <= (#[trigger] s.faces@[i])@ < o.faces@.len() && face_valid(
            o,
            o.faces@[s.faces@[i]@],
        )
}

/// Whether every half-edge handle of a cycle is in range of the store.
pub open spec fn cycle_in_range(o: &Objects, c: Cycle) -> bool {
    forall|i: int|
        0 <= i < c.half_edges@.len() ==> 0 <= (#[trigger] c.half_edges@[i])@
            < o.half_edges@.len()
}

/// Whether every cycle handle of a face is in range of the store, with
/// every referenced cycle in range itself.
pub open spec fn face_in_range(o: &Objects, f: Face) -> bool {
    &&& 0 <= f.exterior@ < o.cycles@.len()
    &&& cycle_in_range(o, o.cycles@[f.exterior@])
    &&& forall|i: int|
        0 <= i < f.interiors@.len() ==> 0 <= (#[trigger] f.interiors@[i])@ < o.cycles@.len()
            && cycle_in_range(o, o.cycles@[f.interiors@[i]@])
}

/// A valid face is in range.
pub proof fn lemma_face_valid_in_range(o: &Objects, f: Face)
    requires
        face_valid(o, f),
    ensures
        face_in_range(o, f),
{
}

/// Everything a valid half-edge refers to stays valid when the store
/// grows.
pub proof fn lemma_half_edge_valid_extend(pre: &Objects, post: &Objects, e: HalfEdge)
    requires
        objects_extend(pre, post),
        half_edge_valid(pre, e),
    ensures
        half_edge_valid(post, e),
{
}

/// A valid cycle stays valid when the store grows.
pub proof fn lemma_cycle_valid_extend(pre: &Objects, post: &Objects, c: Cycle)
    requires
        objects_extend(pre, post),
        cycle_valid(pre, c),
    ensures
        cycle_valid(post, c),
{
    assert forall|i: int| 0 <= i < c.half_edges@.len() implies 0 <= (#[trigger] c.half_edges@[i])@
        < post.half_edges@.len() && half_edge_valid(post, post.half_edges@[c.half_edges@[i]@]) by {
        assert(0 <= c.half_edges@[i]@ < pre.half_edges@.len());
        assert(post.half_edges@[c.half_edges@[i]@] == pre.half_edges@[c.half_edges@[i]@]);
        lemma_half_edge_valid_extend(pre, post, pre.half_edges@[c.half_edges@[i]@]);
    }
}

/// A valid face stays valid when the store grows.
pub proof fn lemma_face_valid_extend(pre: &Objects, post: &Objects, f: Face)
    requires
        objects_extend(pre, post),
        face_valid(pre, f),
    ensures
        face_valid(post, f),
{
    lemma_cycle_valid_extend(pre, post, pre.cycles@[f.exterior@]);
    assert forall|i: int| 0 <= i < f.interiors@.len() implies 0 <= (#[trigger] f.interiors@[i])@
        < post.cycles@.len() && cycle_valid(post, post.cycles@[f.interiors@[i]@]) by {
        lemma_cycle_valid_extend(pre, post, pre.cycles@[f.interiors@[i]@]);
    }
}

} // verus!
