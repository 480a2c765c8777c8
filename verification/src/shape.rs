//! The shape: a container of topology with validation at insertion.
//!
//! The shape layer keeps its objects by value: a [`Handle`] wraps the
//! value it names. Insertion into the vertex collection enforces the
//! kernel's vertex-uniqueness invariant — no two vertices closer than the
//! shape's minimum distance — and insertion into the cycle collection
//! checks that the cycle's edges are part of the shape.

use vstd::prelude::*;

use crate::geometry::Surface;
use crate::math::{can_sub, lemma_product_range, sub_seqs, Point, Scalar, MAX_COORD};
use crate::topology::{
    copy_cycle, copy_face, edge_same, edge_same_exec, face_same, face_same_exec, Cycle, Edge,
    Face, Vertex,
};

verus! {

/// The default minimum distance between distinct vertices: half a
/// micrometer, in the base unit of a nanometer.
pub const DEFAULT_MIN_DISTANCE: Scalar = 500;

/// A handle of the shape layer: it carries the value it names. Identity
/// coincides with value equality, which the vertex-uniqueness validation
/// keeps unambiguous.
#[derive(Clone, Copy, Debug, PartialEq, Eq, PartialOrd, Ord, Hash)]
pub struct Handle<T>(pub T);

impl<T> Handle<T> {
    /// Access the value the handle names.
    pub fn get(&self) -> (r: &T)
        ensures
            *r == self.0,
    {
        &self.0
    }
}

/// The squared distance between two points in space.
pub open spec fn dist_sq(a: Seq<int>, b: Seq<int>) -> int {
    (a[0] - b[0]) * (a[0] - b[0]) + (a[1] - b[1]) * (a[1] - b[1]) + (a[2] - b[2]) * (a[2] - b[2])
}

/// Compute the squared distance between two bounded points exactly.
pub fn dist_sq_exec(a: &Point<3>, b: &Point<3>) -> (r: i128)
    requires
        a.in_bounds(),
        b.in_bounds(),
    ensures
        r as int == dist_sq(a@, b@),
{
    proof {
        a.lemma_len();
        b.lemma_len();
    }
    let dx: i128 = a.coord(0) as i128 - b.coord(0) as i128;
    let dy: i128 = a.coord(1) as i128 - b.coord(1) as i128;
    let dz: i128 = a.coord(2) as i128 - b.coord(2) as i128;
    proof {
        let m: int = 2000000000000;
        assert(-MAX_COORD <= a@[0] <= MAX_COORD && -MAX_COORD <= b@[0] <= MAX_COORD);
        assert(-MAX_COORD <= a@[1] <= MAX_COORD && -MAX_COORD <= b@[1] <= MAX_COORD);
        assert(-MAX_COORD <= a@[2] <= MAX_COORD && -MAX_COORD <= b@[2] <= MAX_COORD);
        lemma_product_range(dx as int, dx as int, m, m);
        lemma_product_range(dy as int, dy as int, m, m);
        lemma_product_range(dz as int, dz as int, m, m);
        assert(m * m == 4000000000000000000000000int) by (nonlinear_arith)
            requires
                m == 2000000000000,
        ;
    }
    dx * dx + dy * dy + dz * dz
}

/// The error of inserting a vertex too close to an existing one.
#[derive(Clone, Copy, Debug, PartialEq, Eq, PartialOrd, Ord, Hash)]
pub struct UniquenessError {
    /// The already-stored vertex that the new one came too close to.
    pub existing: Vertex<3>,
}

/// The vertices of a shape, with the uniqueness validation.
pub struct Vertices {
    min_distance: Scalar,
    items: Vec<Vertex<3>>,
}

impl View for Vertices {
    type V = Seq<Vertex<3>>;

    closed spec fn view(&self) -> Seq<Vertex<3>> {
        self.items@
    }
}

impl Vertices {
    /// The minimum distance the collection enforces.
    pub closed spec fn spec_min_distance(&self) -> int {
        self.min_distance as int
    }

    /// The collection's invariant: a positive, bounded minimum distance,
    /// and every stored vertex within coordinate bounds.
    pub open spec fn wf(&self) -> bool {
        &&& 0 < self.spec_min_distance() <= MAX_COORD
        &&& forall|j: int|
            0 <= j < self@.len() ==> (#[trigger] self@[j]).spec_location().in_bounds()
    }

    /// Create an empty collection enforcing the given minimum distance.
    pub fn new(min_distance: Scalar) -> (r: Self)
        requires
            0 < min_distance <= MAX_COORD,
        ensures
            r.wf(),
            r@.len() == 0,
            r.spec_min_distance() == min_distance,
    {
        Self { min_distance, items: Vec::new() }
    }

    /// The number of vertices.
    pub fn len(&self) -> (r: usize)
        ensures
            r == self@.len(),
    {
        self.items.len()
    }

    /// Access a vertex by position.
    pub fn get(&self, i: usize) -> (r: &Vertex<3>)
        requires
            i < self@.len(),
        ensures
            *r == self@[i as int],
    {
        &self.items[i]
    }

    /// Add a vertex to the shape.
    ///
    /// The vertex must keep the minimum distance from every vertex
    /// already stored: a new vertex closer than that to an existing one
    /// is rejected, naming the vertex it collided with; a vertex at
    /// exactly the minimum distance is accepted.
    pub fn add(&mut self, point: Point<3>) -> (r: Result<Handle<Vertex<3>>, UniquenessError>)
        requires
            old(self).wf(),
            point.in_bounds(),
        ensures
            final(self).wf(),
            final(self).spec_min_distance() == old(self).spec_min_distance(),
            match r {
                Ok(h) => {
                    &&& forall|j: int|
                        0 <= j < old(self)@.len() ==> dist_sq(
                            (#[trigger] old(self)@[j]).spec_location()@,
                            point@,
                        ) >= old(self).spec_min_distance() * old(self).spec_min_distance()
                    &&& h.0.spec_location() == point
                    &&& h.0.spec_canonical() == point
                    &&& final(self)@ == old(self)@.push(h.0)
                },
                Err(e) => {
                    &&& exists|j: int|
                        0 <= j < old(self)@.len() && (#[trigger] old(self)@[j]) == e.existing
                            && dist_sq(e.existing.spec_location()@, point@) < old(
                            self,
                        ).spec_min_distance() * old(self).spec_min_distance()
                    &&& final(self)@ == old(self)@
                },
            },
    {
        proof {
            lemma_product_range(
                self.min_distance as int,
                self.min_distance as int,
                MAX_COORD as int,
                MAX_COORD as int,
            );
        }
        let min_sq: i128 = (self.min_distance as i128) * (self.min_distance as i128);
        let n = self.items.len();
        let mut i: usize = 0;
        while i < n
            invariant
                n == self.items@.len(),
                i <= n,
                *self == *old(self),
                old(self).wf(),
                point.in_bounds(),
                min_sq as int == self.spec_min_distance() * self.spec_min_distance(),
                forall|j: int|
                    0 <= j < i ==> dist_sq((#[trigger] self.items@[j]).spec_location()@, point@)
                        >= self.spec_min_distance() * self.spec_min_distance(),
            decreases n - i,
        {
            let existing = self.items[i];
            let d = dist_sq_exec(existing.location(), &point);
            if d < min_sq {
                return Err(UniquenessError { existing });
            }
            i += 1;
        }
        let vertex = Vertex::create_at(point);
        self.items.push(vertex);
        Ok(Handle(vertex))
    }
}

/// The edges of a shape.
pub struct Edges {
    items: Vec<Edge>,
}

impl View for Edges {
    type V = Seq<Edge>;

    closed spec fn view(&self) -> Seq<Edge> {
        self.items@
    }
}

impl Edges {
    /// Create an empty collection.
    pub fn new() -> (r: Self)
        ensures
            r@.len() == 0,
    {
        Self { items: Vec::new() }
    }

    /// The number of edges.
    pub fn len(&self) -> (r: usize)
        ensures
            r == self@.len(),
    {
        self.items.len()
    }

    /// Access an edge by position.
    pub fn get(&self, i: usize) -> (r: &Edge)
        requires
            i < self@.len(),
        ensures
            *r == self@[i as int],
    {
        &self.items[i]
    }

    /// Whether the collection holds an edge with the given geometry.
    pub fn contains_same(&self, edge: &Edge) -> (r: bool)
        ensures
            r == edge_known(*edge, self@),
    {
        let n = self.items.len();
        let mut i: usize = 0;
        while i < n
            invariant
                n == self.items@.len(),
                i <= n,
                forall|j: int| 0 <= j < i ==> !edge_same(#[trigger] self.items@[j], *edge),
            decreases n - i,
        {
            if edge_same_exec(&self.items[i], edge) {
                proof {
                    assert(edge_same(self@[i as int], *edge));
                    assert(edge_known(*edge, self@));
                }
                return true;
            }
            i += 1;
        }
        false
    }

    /// Add a straight edge between two vertices.
    pub fn add_line_segment(&mut self, vertices: [Handle<Vertex<3>>; 2]) -> (r: Handle<Edge>)
        requires
            can_sub(
                (vertices@[1]).0.spec_location()@,
                (vertices@[0]).0.spec_location()@,
            ),
        ensures
            r.0.curve.spec_line().origin == (vertices@[0]).0.spec_location(),
            r.0.curve.spec_line().direction@ == sub_seqs(
                (vertices@[1]).0.spec_location()@,
                (vertices@[0]).0.spec_location()@,
            ),
            r.0.vertices@ == vertices@,
            final(self)@ == old(self)@.push(r.0),
    {
        let a = vertices[0];
        let b = vertices[1];
        let curve = crate::geometry::Curve::line_from_points(a.0.point(), b.0.point());
        let edge = Edge { curve, vertices: [a, b] };
        self.items.push(edge);
        proof {
            assert(edge.vertices@ =~= vertices@);
        }
        Handle(edge)
    }
}

/// Whether an edge with the given geometry is among the given edges.
pub open spec fn edge_known(e: Edge, edges: Seq<Edge>) -> bool {
    exists|j: int| 0 <= j < edges.len() && edge_same(#[trigger] edges[j], e)
}

/// Whether every edge of a cycle is, by geometry, among the given edges.
pub open spec fn all_edges_known(cycle: &Cycle, edges: Seq<Edge>) -> bool {
    forall|i: int|
        0 <= i < cycle.edges@.len() ==> edge_known((#[trigger] cycle.edges@[i]).0, edges)
}

/// The error of adding a cycle whose edge is not part of the shape.
#[derive(Clone, Copy, Debug, PartialEq, Eq, PartialOrd, Ord, Hash)]
pub struct UnknownEdge {
    /// The position, within the cycle, of the first edge that the shape
    /// does not hold.
    pub index: usize,
}

/// The cycles of a shape, validated against its edges.
pub struct Cycles {
    items: Vec<Cycle>,
}

impl View for Cycles {
    type V = Seq<Cycle>;

    closed spec fn view(&self) -> Seq<Cycle> {
        self.items@
    }
}

impl Cycles {
    /// Create an empty collection.
    pub fn new() -> (r: Self)
        ensures
            r@.len() == 0,
    {
        Self { items: Vec::new() }
    }

    /// The number of cycles.
    pub fn len(&self) -> (r: usize)
        ensures
            r == self@.len(),
    {
        self.items.len()
    }

    /// Access a cycle by position.
    pub fn get(&self, i: usize) -> (r: &Cycle)
        requires
            i < self@.len(),
        ensures
            *r == self@[i as int],
    {
        &self.items[i]
    }

    /// Add a cycle to the shape.
    ///
    /// Every edge of the cycle must be part of the shape: the first edge
    /// that is not makes the insertion fail, naming its position.
    pub fn add(&mut self, cycle: Cycle, edges: &Edges) -> (r: Result<Handle<Cycle>, UnknownEdge>)
        ensures
            match r {
                Ok(h) => {
                    &&& all_edges_known(&cycle, edges@)
                    &&& h.0.edges@ == cycle.edges@
                    &&& final(self)@.len() == old(self)@.len() + 1
                    &&& final(self)@[old(self)@.len() as int].edges@ == cycle.edges@
                    &&& forall|j: int| 0 <= j < old(self)@.len() ==> final(self)@[j] == old(self)@[j]
                },
                Err(e) => {
                    &&& e.index < cycle.edges@.len()
                    &&& !edge_known((cycle.edges@[e.index as int]).0, edges@)
                    &&& final(self)@ == old(self)@
                },
            },
    {
        let n = cycle.edges.len();
        let mut i: usize = 0;
        while i < n
            invariant
                n == cycle.edges@.len(),
                i <= n,
                *self == *old(self),
                forall|k: int| 0 <= k < i ==> edge_known((#[trigger] cycle.edges@[k]).0, edges@),
            decreases n - i,
        {
            if !edges.contains_same(&cycle.edges[i].0) {
                return Err(UnknownEdge { index: i });
            }
            i += 1;
        }
        let stored = copy_cycle(&cycle);
        self.items.push(stored);
        proof {
            assert(all_edges_known(&cycle, edges@));
        }
        Ok(Handle(cycle))
    }

    /// Access all cycles of the shape.
    pub fn all(&self) -> (r: Vec<Handle<Cycle>>)
        ensures
            r@.len() == self@.len(),
            forall|i: int| 0 <= i < r@.len() ==> (#[trigger] r@[i]).0.edges@ == self@[i].edges@,
    {
        let n = self.items.len();
        let mut r: Vec<Handle<Cycle>> = Vec::new();
        let mut i: usize = 0;
        while i < n
            invariant
                n == self.items@.len(),
                i <= n,
                r@.len() == i,
                forall|j: int|
                    0 <= j < i ==> (#[trigger] r@[j]).0.edges@ == self.items@[j].edges@,
            decreases n - i,
        {
            r.push(Handle(copy_cycle(&self.items[i])));
            i += 1;
        }
        r
    }
}

/// The faces of a shape.
pub struct Faces {
    items: Vec<Face>,
}

impl View for Faces {
    type V = Seq<Face>;

    closed spec fn view(&self) -> Seq<Face> {
        self.items@
    }
}

impl Faces {
    /// Create an empty collection.
    pub fn new() -> (r: Self)
        ensures
            r@.len() == 0,
    {
        Self { items: Vec::new() }
    }

    /// The number of faces.
    pub fn len(&self) -> (r: usize)
        ensures
            r == self@.len(),
    {
        self.items.len()
    }

    /// Access a face by position.
    pub fn get(&self, i: usize) -> (r: &Face)
        requires
            i < self@.len(),
        ensures
            *r == self@[i as int],
    {
        &self.items[i]
    }

    /// Add a face to the shape.
    pub fn add(&mut self, face: Face) -> (r: Handle<Face>)
        ensures
            final(self)@.len() == old(self)@.len() + 1,
            face_same(&final(self)@[old(self)@.len() as int], &face),
            forall|j: int| 0 <= j < old(self)@.len() ==> final(self)@[j] == old(self)@[j],
            face_same(&r.0, &face),
    {
        let stored = copy_face(&face);
        self.items.push(stored);
        proof {
            crate::topology::lemma_face_same_reflexive(&face);
        }
        Handle(face)
    }

    /// Whether the shape holds a face with the same geometry.
    pub fn contains(&self, face: &Handle<Face>) -> (r: bool)
        ensures
            r == exists|j: int| 0 <= j < self@.len() && face_same(&(#[trigger] self@[j]), &face.0),
    {
        let n = self.items.len();
        let mut i: usize = 0;
        while i < n
            invariant
                n == self.items@.len(),
                i <= n,
                forall|j: int| 0 <= j < i ==> !face_same(&(#[trigger] self.items@[j]), &face.0),
            decreases n - i,
        {
            if face_same_exec(&self.items[i], &face.0) {
                proof {
                    assert(face_same(&self@[i as int], &face.0));
                }
                return true;
            }
            i += 1;
        }
        false
    }

    /// Access all faces of the shape.
    pub fn all(&self) -> (r: Vec<Handle<Face>>)
        ensures
            r@.len() == self@.len(),
            forall|i: int| 0 <= i < r@.len() ==> face_same(&(#[trigger] r@[i]).0, &self@[i]),
    {
        let n = self.items.len();
        let mut r: Vec<Handle<Face>> = Vec::new();
        let mut i: usize = 0;
        while i < n
            invariant
                n == self.items@.len(),
                i <= n,
                r@.len() == i,
                forall|j: int| 0 <= j < i ==> face_same(&(#[trigger] r@[j]).0, &self.items@[j]),
            decreases n - i,
        {
            r.push(Handle(copy_face(&self.items[i])));
            i += 1;
        }
        r
    }
}

/// The surfaces of a shape.
pub struct Surfaces {
    items: Vec<Surface>,
}

impl View for Surfaces {
    type V = Seq<Surface>;

    closed spec fn view(&self) -> Seq<Surface> {
        self.items@
    }
}

impl Surfaces {
    /// Create an empty collection.
    pub fn new() -> (r: Self)
        ensures
            r@.len() == 0,
    {
        Self { items: Vec::new() }
    }

    /// Add a surface to the shape.
    pub fn add(&mut self, surface: Surface) -> (r: Handle<Surface>)
        ensures
            final(self)@ == old(self)@.push(surface),
            r.0 == surface,
    {
        self.items.push(surface);
        Handle(surface)
    }
}

/// A shape: the container for one model's topology, with validation.
pub struct Shape {
    /// The shape's vertices.
    pub vertices: Vertices,
    /// The shape's edges.
    pub edges: Edges,
    /// The shape's cycles.
    pub cycles: Cycles,
    /// The shape's faces.
    pub faces: Faces,
    /// The shape's surfaces.
    pub surfaces: Surfaces,
}

impl Shape {
    /// Create an empty shape with the default minimum vertex distance.
    pub fn new() -> (r: Self)
        ensures
            r.vertices.wf(),
            r.vertices@.len() == 0,
            r.edges@.len() == 0,
            r.cycles@.len() == 0,
            r.faces@.len() == 0,
            r.surfaces@.len() == 0,
            r.vertices.spec_min_distance() == DEFAULT_MIN_DISTANCE,
    {
        Self {
            vertices: Vertices::new(DEFAULT_MIN_DISTANCE),
            edges: Edges::new(),
            cycles: Cycles::new(),
            faces: Faces::new(),
            surfaces: Surfaces::new(),
        }
    }

    /// The same shape with another minimum vertex distance; only
    /// meaningful before any vertex was added.
    pub fn with_min_distance(self, min_distance: Scalar) -> (r: Self)
        requires
            0 < min_distance <= MAX_COORD,
        ensures
            r.vertices.wf(),
            r.vertices@.len() == 0,
            r.vertices.spec_min_distance() == min_distance,
            r.edges@ == self.edges@,
            r.cycles@ == self.cycles@,
            r.faces@ == self.faces@,
            r.surfaces@ == self.surfaces@,
    {
        Self { vertices: Vertices::new(min_distance), ..self }
    }
}

} // verus!
