//! The topological entities of the shape layer.
//!
//! These entities carry their geometry by value: a handle of the shape
//! layer wraps the value it refers to, and identity coincides with
//! geometric equality — which the shape's vertex-uniqueness validation
//! makes unambiguous.

use vstd::prelude::*;

use crate::geometry::{on_line_at, Curve, Surface};
use crate::math::{can_add, p1, Point, Transform, Triangle};
use crate::shape::Handle;

verus! {

/// The vertices of a shape, as plain values.
#[derive(Clone, Debug, PartialEq, Eq, PartialOrd, Ord, Hash)]
pub struct Vertices(pub Vec<Vertex<3>>);

/// A vertex: a point that is part of a shape's topology.
///
/// A vertex must never be re-created from scratch for a location where a
/// vertex already exists; the shape's insertion check enforces that two
/// distinct vertices keep a minimum distance.
#[derive(Clone, Copy, Debug, Eq, Hash, PartialEq, Ord, PartialOrd)]
pub struct Vertex<const D: usize> {
    location: Point<D>,
    canonical: Point<3>,
}

impl<const D: usize> Vertex<D> {
    /// The location of the vertex, in its own coordinate system.
    pub closed spec fn spec_location(&self) -> Point<D> {
        self.location
    }

    /// The canonical location of the vertex, in space.
    pub closed spec fn spec_canonical(&self) -> Point<3> {
        self.canonical
    }

    /// Access the location of this vertex.
    pub fn location(&self) -> (r: &Point<D>)
        ensures
            *r == self.spec_location(),
    {
        &self.location
    }

    /// Convert the vertex to its canonical form.
    pub fn to_canonical(&self) -> (r: Vertex<3>)
        ensures
            r.spec_location() == self.spec_canonical(),
            r.spec_canonical() == self.spec_canonical(),
    {
        Vertex { location: self.canonical, canonical: self.canonical }
    }
}

/// Whether two vertices have the same location and canonical form.
pub open spec fn vertex_same(a: Vertex<3>, b: Vertex<3>) -> bool {
    a.spec_location()@ == b.spec_location()@ && a.spec_canonical()@ == b.spec_canonical()@
}

impl Vertex<3> {
    /// Create a vertex at the given location.
    ///
    /// This must not be used to re-create a vertex that already exists;
    /// see the type's documentation.
    pub fn create_at(location: Point<3>) -> (r: Self)
        ensures
            r.spec_location() == location,
            r.spec_canonical() == location,
    {
        Self { location, canonical: location }
    }

    /// The point of the vertex.
    pub fn point(&self) -> (r: Point<3>)
        ensures
            r == self.spec_location(),
    {
        self.location
    }

    /// Translate the vertex: both its location and its canonical form
    /// move by the offset.
    pub fn translate(&self, offset: &crate::math::Vector<3>) -> (r: Vertex<3>)
        requires
            can_add(self.spec_location()@, offset@),
            can_add(self.spec_canonical()@, offset@),
        ensures
            r.spec_location()@ == crate::math::add_seqs(self.spec_location()@, offset@),
            r.spec_canonical()@ == crate::math::add_seqs(self.spec_canonical()@, offset@),
    {
        Vertex {
            location: self.location.translate(offset),
            canonical: self.canonical.translate(offset),
        }
    }

    /// Convert the vertex to a one-dimensional vertex in the given
    /// curve's coordinate system. The vertex must lie on the curve at an
    /// integer parameter.
    pub fn to_1d(&self, curve: &Curve) -> (r: Vertex<1>)
        requires
            self.spec_location().in_bounds(),
            curve.spec_line().origin.in_bounds(),
            curve.spec_line().direction.in_bounds(),
            exists|j: int| 0 <= j < 3 && #[trigger] curve.spec_line().direction@[j] != 0,
            exists|t: int| on_line_at(curve.spec_line(), t, self.spec_location()@),
        ensures
            on_line_at(curve.spec_line(), r.spec_location()@[0], self.spec_location()@),
            r.spec_canonical() == self.spec_canonical(),
    {
        let location = curve.point_model_to_curve(&self.location);
        Vertex { location, canonical: self.canonical }
    }
}

impl Vertex<1> {
    /// Create a transformed vertex.
    ///
    /// The transform applies to the canonical form only; the
    /// one-dimensional location stays as it is, since the curve that
    /// carries it is expected to be transformed alongside by the caller.
    #[must_use]
    pub fn transform(self, transform: &Transform) -> (r: Self)
        requires
            can_add(self.spec_canonical()@, transform.spec_offset()),
        ensures
            r.spec_location() == self.spec_location(),
            r.spec_canonical()@ == crate::math::add_seqs(
                self.spec_canonical()@,
                transform.spec_offset(),
            ),
    {
        Vertex {
            location: self.location,
            canonical: transform.transform_point(&self.canonical),
        }
    }
}

/// An edge of a shape: a curve bounded by two vertices.
#[derive(Clone, Copy, Debug, PartialEq, Eq, PartialOrd, Ord, Hash)]
pub struct Edge {
    /// The curve that carries the edge.
    pub curve: Curve,
    /// The two vertices that bound the edge.
    pub vertices: [Handle<Vertex<3>>; 2],
}

/// Whether two edges have the same curve and the same vertices.
pub open spec fn edge_same(a: Edge, b: Edge) -> bool {
    &&& a.curve.spec_line().origin@ == b.curve.spec_line().origin@
    &&& a.curve.spec_line().direction@ == b.curve.spec_line().direction@
    &&& vertex_same((a.vertices@[0]).0, (b.vertices@[0]).0)
    &&& vertex_same((a.vertices@[1]).0, (b.vertices@[1]).0)
}

/// Decide whether two edges have the same curve and vertices.
pub fn edge_same_exec(a: &Edge, b: &Edge) -> (r: bool)
    ensures
        r == edge_same(*a, *b),
{
    a.curve.same(&b.curve) && a.vertices[0].0.point().same(&b.vertices[0].0.point())
        && a.vertices[0].0.to_canonical().point().same(&b.vertices[0].0.to_canonical().point())
        && a.vertices[1].0.point().same(&b.vertices[1].0.point())
        && a.vertices[1].0.to_canonical().point().same(&b.vertices[1].0.to_canonical().point())
}

/// A cycle: a closed loop of edges bounding a face.
#[derive(Clone, Debug, PartialEq, Eq, PartialOrd, Ord, Hash)]
pub struct Cycle {
    /// The edges of the cycle, in order.
    pub edges: Vec<Handle<Edge>>,
}

/// Whether two cycles consist of the same edges, in order.
pub open spec fn cycle_same(a: &Cycle, b: &Cycle) -> bool {
    a.edges@.len() == b.edges@.len() && forall|i: int|
        0 <= i < a.edges@.len() ==> edge_same((#[trigger] a.edges@[i]).0, b.edges@[i].0)
}

/// Decide whether two cycles consist of the same edges.
pub fn cycle_same_exec(a: &Cycle, b: &Cycle) -> (r: bool)
    ensures
        r == cycle_same(a, b),
{
    if a.edges.len() != b.edges.len() {
        return false;
    }
    let n = a.edges.len();
    let mut i: usize = 0;
    while i < n
        invariant
            n == a.edges@.len() == b.edges@.len(),
            i <= n,
            forall|j: int| 0 <= j < i ==> edge_same((#[trigger] a.edges@[j]).0, b.edges@[j].0),
        decreases n - i,
    {
        if !edge_same_exec(&a.edges[i].0, &b.edges[i].0) {
            return false;
        }
        i += 1;
    }
    true
}

/// Copy a cycle.
pub fn copy_cycle(c: &Cycle) -> (r: Cycle)
    ensures
        r.edges@ == c.edges@,
{
    let mut edges: Vec<Handle<Edge>> = Vec::new();
    let n = c.edges.len();
    let mut i: usize = 0;
    while i < n
        invariant
            n == c.edges@.len(),
            i <= n,
            edges@ =~= c.edges@.subrange(0, i as int),
        decreases n - i,
    {
        edges.push(c.edges[i]);
        proof {
            assert(edges@ =~= c.edges@.subrange(0, i + 1 as int));
        }
        i += 1;
    }
    proof {
        assert(edges@ =~= c.edges@);
    }
    Cycle { edges }
}

/// A face of a shape.
#[derive(Clone, Debug, PartialEq, Eq, PartialOrd, Ord, Hash)]
pub enum Face {
    /// A face in boundary representation: a region of a surface bounded
    /// by cycles.
    Face {
        /// The surface the face lies on.
        surface: Handle<Surface>,
        /// The cycles that bound the face.
        cycles: Vec<Handle<Cycle>>,
    },
    /// A face as a plain triangle list, the form the sweep's side walls
    /// take before they are carried over to boundary representation.
    Triangles(Vec<Triangle>),
}

/// Whether two triangles have the same corners.
pub open spec fn triangle_same(a: Triangle, b: Triangle) -> bool {
    a@.len() == 3 && b@.len() == 3 && forall|k: int| 0 <= k < 3 ==> (#[trigger] a@[k])@ == b@[k]@
}

impl Face {
    /// Whether the face is in boundary representation.
    pub open spec fn is_brep(&self) -> bool {
        match self {
            Face::Face { .. } => true,
            Face::Triangles(..) => false,
        }
    }

    /// The surface of a boundary-representation face.
    pub open spec fn spec_surface(&self) -> Surface {
        match self {
            Face::Face { surface, .. } => surface.0,
            Face::Triangles(..) => vstd::pervasive::arbitrary(),
        }
    }

    /// The cycles of a boundary-representation face.
    pub open spec fn spec_cycles(&self) -> Seq<Handle<Cycle>> {
        match self {
            Face::Face { cycles, .. } => cycles@,
            Face::Triangles(..) => Seq::empty(),
        }
    }

    /// The triangles of a triangle-list face.
    pub open spec fn spec_triangles(&self) -> Seq<Triangle> {
        match self {
            Face::Face { .. } => Seq::empty(),
            Face::Triangles(ts) => ts@,
        }
    }
}

/// Whether two faces have the same geometry.
pub open spec fn face_same(a: &Face, b: &Face) -> bool {
    if a.is_brep() && b.is_brep() {
        &&& a.spec_surface().spec_swept().curve.origin@
            == b.spec_surface().spec_swept().curve.origin@
        &&& a.spec_surface().spec_swept().curve.direction@
            == b.spec_surface().spec_swept().curve.direction@
        &&& a.spec_surface().spec_swept().path@ == b.spec_surface().spec_swept().path@
        &&& a.spec_cycles().len() == b.spec_cycles().len()
        &&& forall|i: int|
            0 <= i < a.spec_cycles().len() ==> cycle_same(
                &(#[trigger] a.spec_cycles()[i]).0,
                &b.spec_cycles()[i].0,
            )
    } else if !a.is_brep() && !b.is_brep() {
        a.spec_triangles().len() == b.spec_triangles().len() && forall|i: int|
            0 <= i < a.spec_triangles().len() ==> triangle_same(
                #[trigger] a.spec_triangles()[i],
                b.spec_triangles()[i],
            )
    } else {
        false
    }
}

/// Decide whether two triangles have the same corners.
pub fn triangle_same_exec(a: &Triangle, b: &Triangle) -> (r: bool)
    ensures
        r == triangle_same(*a, *b),
{
    let pa = a.points();
    let pb = b.points();
    pa[0].same(&pb[0]) && pa[1].same(&pb[1]) && pa[2].same(&pb[2])
}

/// Decide whether two faces have the same geometry.
pub fn face_same_exec(a: &Face, b: &Face) -> (r: bool)
    ensures
        r == face_same(a, b),
{
    match (a, b) {
        (Face::Face { surface: sa, cycles: ca }, Face::Face { surface: sb, cycles: cb }) => {
            proof {
                assert(ca@ == a.spec_cycles());
                assert(cb@ == b.spec_cycles());
                assert(sa.0 == a.spec_surface());
                assert(sb.0 == b.spec_surface());
            }
            if !sa.0.same(&sb.0) {
                return false;
            }
            if ca.len() != cb.len() {
                return false;
            }
            let n = ca.len();
            let mut i: usize = 0;
            while i < n
                invariant
                    n == ca@.len() == cb@.len(),
                    i <= n,
                    ca@ == a.spec_cycles(),
                    cb@ == b.spec_cycles(),
                    forall|j: int|
                        0 <= j < i ==> cycle_same(
                            &(#[trigger] a.spec_cycles()[j]).0,
                            &b.spec_cycles()[j].0,
                        ),
                decreases n - i,
            {
                if !cycle_same_exec(&ca[i].0, &cb[i].0) {
                    proof {
                        if face_same(a, b) {
                            assert(cycle_same(
                                &(a.spec_cycles()[i as int]).0,
                                &b.spec_cycles()[i as int].0,
                            ));
                        }
                    }
                    return false;
                }
                i += 1;
            }
            true
        },
        (Face::Triangles(ta), Face::Triangles(tb)) => {
            proof {
                assert(ta@ == a.spec_triangles());
                assert(tb@ == b.spec_triangles());
            }
            if ta.len() != tb.len() {
                return false;
            }
            let n = ta.len();
            let mut i: usize = 0;
            while i < n
                invariant
                    n == ta@.len() == tb@.len(),
                    i <= n,
                    ta@ == a.spec_triangles(),
                    tb@ == b.spec_triangles(),
                    forall|j: int|
                        0 <= j < i ==> triangle_same(
                            #[trigger] a.spec_triangles()[j],
                            b.spec_triangles()[j],
                        ),
                decreases n - i,
            {
                if !triangle_same_exec(&ta[i], &tb[i]) {
                    proof {
                        if face_same(a, b) {
                            assert(triangle_same(
                                a.spec_triangles()[i as int],
                                b.spec_triangles()[i as int],
                            ));
                        }
                    }
                    return false;
                }
                i += 1;
            }
            true
        },
        _ => false,
    }
}

/// Copy a face.
pub fn copy_face(f: &Face) -> (r: Face)
    ensures
        face_same(&r, f),
{
    match f {
        Face::Face { surface, cycles } => {
            proof {
                assert(cycles@ == f.spec_cycles());
                assert(surface.0 == f.spec_surface());
            }
            let mut cs: Vec<Handle<Cycle>> = Vec::new();
            let n = cycles.len();
            let mut i: usize = 0;
            while i < n
                invariant
                    n == cycles@.len(),
                    i <= n,
                    cs@.len() == i,
                    cycles@ == f.spec_cycles(),
                    forall|j: int|
                        0 <= j < i ==> cycle_same(&(#[trigger] cs@[j]).0, &f.spec_cycles()[j].0),
                decreases n - i,
            {
                cs.push(Handle(copy_cycle(&cycles[i].0)));
                i += 1;
            }
            let r = Face::Face { surface: Handle(surface.0), cycles: cs };
            proof {
                assert(r.spec_cycles() == cs@);
                assert(r.spec_surface().spec_swept() == f.spec_surface().spec_swept());
            }
            r
        },
        Face::Triangles(ts) => {
            proof {
                assert(ts@ == f.spec_triangles());
            }
            let mut out: Vec<Triangle> = Vec::new();
            let n = ts.len();
            let mut i: usize = 0;
            while i < n
                invariant
                    n == ts@.len(),
                    i <= n,
                    out@.len() == i,
                    ts@ == f.spec_triangles(),
                    forall|j: int|
                        0 <= j < i ==> triangle_same(#[trigger] out@[j], f.spec_triangles()[j]),
                decreases n - i,
            {
                out.push(ts[i]);
                proof {
                    ts@[i as int].lemma_len();
                }
                i += 1;
            }
            let r = Face::Triangles(out);
            proof {
                assert(r.spec_triangles() == out@);
            }
            r
        },
    }
}


/// Face geometric equality is reflexive.
pub proof fn lemma_face_same_reflexive(f: &Face)
    ensures
        face_same(f, f),
{
    if !f.is_brep() {
        assert forall|i: int| 0 <= i < f.spec_triangles().len() implies triangle_same(
            #[trigger] f.spec_triangles()[i],
            f.spec_triangles()[i],
        ) by {
            f.spec_triangles()[i].lemma_len();
        }
    }
}


/// Face geometric equality is transitive.
pub proof fn lemma_face_same_transitive(a: &Face, b: &Face, c: &Face)
    requires
        face_same(a, b),
        face_same(b, c),
    ensures
        face_same(a, c),
{
    if a.is_brep() && b.is_brep() && c.is_brep() {
        assert forall|i: int| 0 <= i < a.spec_cycles().len() implies cycle_same(
            &(#[trigger] a.spec_cycles()[i]).0,
            &c.spec_cycles()[i].0,
        ) by {
            assert(cycle_same(&a.spec_cycles()[i].0, &b.spec_cycles()[i].0));
            assert(cycle_same(&b.spec_cycles()[i].0, &c.spec_cycles()[i].0));
            let ca = &a.spec_cycles()[i].0;
            let cb = &b.spec_cycles()[i].0;
            let cc = &c.spec_cycles()[i].0;
            assert forall|k: int| 0 <= k < ca.edges@.len() implies edge_same(
                (#[trigger] ca.edges@[k]).0,
                cc.edges@[k].0,
            ) by {
                assert(edge_same(ca.edges@[k].0, cb.edges@[k].0));
                assert(edge_same(cb.edges@[k].0, cc.edges@[k].0));
            }
        }
    } else if !a.is_brep() && !b.is_brep() && !c.is_brep() {
        assert forall|i: int| 0 <= i < a.spec_triangles().len() implies triangle_same(
            #[trigger] a.spec_triangles()[i],
            c.spec_triangles()[i],
        ) by {
            assert(triangle_same(a.spec_triangles()[i], b.spec_triangles()[i]));
            assert(triangle_same(b.spec_triangles()[i], c.spec_triangles()[i]));
        }
    }
}

} // verus!
