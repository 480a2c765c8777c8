//! Points, vectors, lines, and segments over an exact integer scalar.
//!
//! Coordinates are 64-bit integers, understood as fixed-point values in the
//! kernel's base unit. Keeping them exact makes equality, distance
//! comparison, and every sign-sensitive decision decidable without rounding
//! error; the price is that operations which could overflow carry explicit
//! preconditions.

use vstd::prelude::*;

verus! {

/// The scalar type for all coordinates: an exact fixed-point value.
pub type Scalar = i64;

/// The largest coordinate magnitude for which the kernel's products and sums
/// (distances, orientation determinants) are proved free of overflow.
pub const MAX_COORD: Scalar = 1_000_000_000_000;

/// Whether every entry of `s` has magnitude at most `b`.
pub open spec fn seq_bounded(s: Seq<int>, b: int) -> bool {
    forall|j: int| 0 <= j < s.len() ==> -b <= #[trigger] s[j] <= b
}

/// Whether the componentwise sum of `a` and `b` stays within the scalar type.
pub open spec fn can_add(a: Seq<int>, b: Seq<int>) -> bool {
    forall|j: int|
        0 <= j < a.len() && j < b.len() ==> i64::MIN <= #[trigger] (a[j] + b[j]) <= i64::MAX
}

/// Whether the componentwise difference `a - b` stays within the scalar type.
pub open spec fn can_sub(a: Seq<int>, b: Seq<int>) -> bool {
    forall|j: int|
        0 <= j < a.len() && j < b.len() ==> i64::MIN <= #[trigger] (a[j] - b[j]) <= i64::MAX
}

/// The componentwise sum of two coordinate sequences of equal length.
pub open spec fn add_seqs(a: Seq<int>, b: Seq<int>) -> Seq<int> {
    Seq::new(a.len(), |j: int| a[j] + b[j])
}

/// The componentwise difference `a - b` of two coordinate sequences.
pub open spec fn sub_seqs(a: Seq<int>, b: Seq<int>) -> Seq<int> {
    Seq::new(a.len(), |j: int| a[j] - b[j])
}

/// If `|x| <= bx` and `|y| <= by`, then `|x * y| <= bx * by`.
pub proof fn lemma_product_range(x: int, y: int, bx: int, by: int)
    requires
        0 <= bx,
        0 <= by,
        -bx <= x <= bx,
        -by <= y <= by,
    ensures
        -(bx * by) <= x * y <= bx * by,
{
    assert(-(bx * by) <= x * y <= bx * by) by (nonlinear_arith)
        requires
            0 <= bx,
            0 <= by,
            -bx <= x <= bx,
            -by <= y <= by,
    ;
}

/// A point in `D`-dimensional space.
#[derive(Clone, Copy, Debug, Hash, PartialEq, Eq, PartialOrd, Ord)]
pub struct Point<const D: usize> {
    coords: [Scalar; D],
}

impl<const D: usize> View for Point<D> {
    type V = Seq<int>;

    closed spec fn view(&self) -> Seq<int> {
        self.coords@.map_values(|c: Scalar| c as int)
    }
}

impl<const D: usize> Point<D> {
    /// Create a point from its coordinates.
    pub fn new(coords: [Scalar; D]) -> (r: Self)
        ensures
            r@.len() == D,
            forall|j: int| 0 <= j < D ==> r@[j] == coords@[j] as int,
    {
        Self { coords }
    }

    /// Access one coordinate of the point.
    pub fn coord(&self, i: usize) -> (r: Scalar)
        requires
            i < D,
        ensures
            r as int == self@[i as int],
    {
        self.coords[i]
    }

    /// The number of coordinates is always `D`.
    pub proof fn lemma_len(&self)
        ensures
            self@.len() == D,
    {
    }

    /// Report whether two points have equal coordinates.
    pub fn same(&self, other: &Self) -> (r: bool)
        ensures
            r == (self@ == other@),
    {
        let mut i: usize = 0;
        while i < D
            invariant
                i <= D,
                forall|j: int| 0 <= j < i ==> self@[j] == other@[j],
            decreases D - i,
        {
            if self.coords[i] != other.coords[i] {
                assert(self@[i as int] != other@[i as int]);
                return false;
            }
            i += 1;
        }
        proof {
            assert(self@ =~= other@);
        }
        true
    }

    /// Whether every coordinate has magnitude at most `MAX_COORD`.
    pub open spec fn in_bounds(&self) -> bool {
        seq_bounded(self@, MAX_COORD as int)
    }
}

/// A vector in `D`-dimensional space: a difference of points.
#[derive(Clone, Copy, Debug, Hash, PartialEq, Eq, PartialOrd, Ord)]
pub struct Vector<const D: usize> {
    components: [Scalar; D],
}

impl<const D: usize> View for Vector<D> {
    type V = Seq<int>;

    closed spec fn view(&self) -> Seq<int> {
        self.components@.map_values(|c: Scalar| c as int)
    }
}

impl<const D: usize> Vector<D> {
    /// Create a vector from its components.
    pub fn new(components: [Scalar; D]) -> (r: Self)
        ensures
            r@.len() == D,
            forall|j: int| 0 <= j < D ==> r@[j] == components@[j] as int,
    {
        Self { components }
    }

    /// Access one component of the vector.
    pub fn component(&self, i: usize) -> (r: Scalar)
        requires
            i < D,
        ensures
            r as int == self@[i as int],
    {
        self.components[i]
    }

    /// The number of components is always `D`.
    pub proof fn lemma_len(&self)
        ensures
            self@.len() == D,
    {
    }

    /// Report whether two vectors have equal components.
    pub fn same(&self, other: &Self) -> (r: bool)
        ensures
            r == (self@ == other@),
    {
        let mut i: usize = 0;
        while i < D
            invariant
                i <= D,
                forall|j: int| 0 <= j < i ==> self@[j] == other@[j],
            decreases D - i,
        {
            if self.components[i] != other.components[i] {
                assert(self@[i as int] != other@[i as int]);
                return false;
            }
            i += 1;
        }
        proof {
            assert(self@ =~= other@);
        }
        true
    }

    /// Whether every component has magnitude at most `MAX_COORD`.
    pub open spec fn in_bounds(&self) -> bool {
        seq_bounded(self@, MAX_COORD as int)
    }
}

/// Shorthand for a one-dimensional point (a position on a curve).
pub fn p1(t: Scalar) -> (r: Point<1>)
    ensures
        r@ =~= seq![t as int],
{
    Point::new([t])
}

/// Shorthand for a two-dimensional point (a position on a surface).
pub fn p2(u: Scalar, v: Scalar) -> (r: Point<2>)
    ensures
        r@ =~= seq![u as int, v as int],
{
    Point::new([u, v])
}

/// Shorthand for a three-dimensional point.
pub fn p3(x: Scalar, y: Scalar, z: Scalar) -> (r: Point<3>)
    ensures
        r@ =~= seq![x as int, y as int, z as int],
{
    Point::new([x, y, z])
}

/// Shorthand for a two-dimensional vector.
pub fn v2(u: Scalar, v: Scalar) -> (r: Vector<2>)
    ensures
        r@ =~= seq![u as int, v as int],
{
    Vector::new([u, v])
}

/// Shorthand for a three-dimensional vector.
pub fn v3(x: Scalar, y: Scalar, z: Scalar) -> (r: Vector<3>)
    ensures
        r@ =~= seq![x as int, y as int, z as int],
{
    Vector::new([x, y, z])
}

impl Point<3> {
    /// Translate the point by a vector.
    pub fn translate(&self, path: &Vector<3>) -> (r: Point<3>)
        requires
            can_add(self@, path@),
        ensures
            r@ =~= add_seqs(self@, path@),
    {
        Point::new([
            self.coord(0) + path.component(0),
            self.coord(1) + path.component(1),
            self.coord(2) + path.component(2),
        ])
    }

    /// The vector leading from `self` to `other`.
    pub fn vector_to(&self, other: &Point<3>) -> (r: Vector<3>)
        requires
            can_sub(other@, self@),
        ensures
            r@ =~= sub_seqs(other@, self@),
    {
        Vector::new([
            other.coord(0) - self.coord(0),
            other.coord(1) - self.coord(1),
            other.coord(2) - self.coord(2),
        ])
    }
}

impl Point<2> {
    /// Translate the point by a vector.
    pub fn translate(&self, path: &Vector<2>) -> (r: Point<2>)
        requires
            can_add(self@, path@),
        ensures
            r@ =~= add_seqs(self@, path@),
    {
        Point::new([self.coord(0) + path.component(0), self.coord(1) + path.component(1)])
    }

    /// The vector leading from `self` to `other`.
    pub fn vector_to(&self, other: &Point<2>) -> (r: Vector<2>)
        requires
            can_sub(other@, self@),
        ensures
            r@ =~= sub_seqs(other@, self@),
    {
        Vector::new([other.coord(0) - self.coord(0), other.coord(1) - self.coord(1)])
    }
}

/// A line, defined by an origin and a direction; the point at parameter `t`
/// is `origin + t * direction`.
#[derive(Clone, Copy, Debug, Hash, PartialEq, Eq, PartialOrd, Ord)]
pub struct Line<const D: usize> {
    /// The point at parameter zero.
    pub origin: Point<D>,
    /// The displacement from parameter `t` to parameter `t + 1`.
    pub direction: Vector<D>,
}

impl<const D: usize> Line<D> {
    /// Create a line from its origin and direction.
    pub fn new(origin: Point<D>, direction: Vector<D>) -> (r: Self)
        ensures
            r.origin == origin,
            r.direction == direction,
    {
        Self { origin, direction }
    }

    /// Report whether two lines have equal origins and directions.
    pub fn same(&self, other: &Self) -> (r: bool)
        ensures
            r == (self.origin@ == other.origin@ && self.direction@ == other.direction@),
    {
        self.origin.same(&other.origin) && self.direction.same(&other.direction)
    }
}

impl Line<3> {
    /// The line through `a` at parameter zero and `b` at parameter one.
    pub fn from_points(a: Point<3>, b: Point<3>) -> (r: Self)
        requires
            can_sub(b@, a@),
        ensures
            r.origin == a,
            r.direction@ =~= sub_seqs(b@, a@),
    {
        Self { origin: a, direction: a.vector_to(&b) }
    }

    /// The same line, translated by `path`.
    pub fn translate(&self, path: &Vector<3>) -> (r: Self)
        requires
            can_add(self.origin@, path@),
        ensures
            r.origin@ =~= add_seqs(self.origin@, path@),
            r.direction == self.direction,
    {
        Self { origin: self.origin.translate(path), direction: self.direction }
    }
}

/// A line segment, defined by its two end points.
#[derive(Clone, Copy, Debug, Hash, PartialEq, Eq, PartialOrd, Ord)]
pub struct Segment<const D: usize> {
    a: Point<D>,
    b: Point<D>,
}

impl<const D: usize> View for Segment<D> {
    type V = Seq<Point<D>>;

    closed spec fn view(&self) -> Seq<Point<D>> {
        seq![self.a, self.b]
    }
}

impl<const D: usize> Segment<D> {
    /// Create a segment from its two end points.
    pub fn from_points(points: [Point<D>; 2]) -> (r: Self)
        ensures
            r@ =~= seq![points@[0], points@[1]],
    {
        Self { a: points[0], b: points[1] }
    }

    /// The two end points of the segment.
    pub fn points(&self) -> (r: [Point<D>; 2])
        ensures
            r@ =~= self@,
    {
        [self.a, self.b]
    }
}

impl Segment<3> {
    /// The same segment, translated by `path`.
    pub fn translate(&self, path: &Vector<3>) -> (r: Self)
        requires
            can_add(self@[0]@, path@),
            can_add(self@[1]@, path@),
        ensures
            r@[0]@ =~= add_seqs(self@[0]@, path@),
            r@[1]@ =~= add_seqs(self@[1]@, path@),
    {
        Self { a: self.a.translate(path), b: self.b.translate(path) }
    }
}

/// A transform of three-dimensional space.
///
/// Only translations are supported: they are the one rigid motion that is
/// exact over integer coordinates, and the one the sweep algorithm needs.
/// Rotations would require irrational coordinates and live outside the
/// verified kernel.
#[derive(Clone, Copy, Debug, Hash, PartialEq, Eq, PartialOrd, Ord)]
pub struct Transform {
    offset: Vector<3>,
}

impl Transform {
    /// The transform that translates by `offset`.
    pub fn translation(offset: Vector<3>) -> (r: Self)
        ensures
            r.spec_offset() == offset@,
    {
        Self { offset }
    }

    /// The transform that leaves every point where it is.
    pub fn identity() -> (r: Self)
        ensures
            r.spec_offset() =~= seq![0int, 0int, 0int],
    {
        Self { offset: v3(0, 0, 0) }
    }

    /// The translation the transform applies.
    pub closed spec fn spec_offset(&self) -> Seq<int> {
        self.offset@
    }

    /// Access the translation vector.
    pub fn offset(&self) -> (r: Vector<3>)
        ensures
            r@ == self.spec_offset(),
    {
        self.offset
    }

    /// Apply the transform to a point.
    pub fn transform_point(&self, point: &Point<3>) -> (r: Point<3>)
        requires
            can_add(point@, self.spec_offset()),
        ensures
            r@ =~= add_seqs(point@, self.spec_offset()),
    {
        point.translate(&self.offset)
    }

    /// Apply the transform to a segment.
    pub fn transform_segment(&self, segment: &Segment<3>) -> (r: Segment<3>)
        requires
            can_add(segment@[0]@, self.spec_offset()),
            can_add(segment@[1]@, self.spec_offset()),
        ensures
            r@[0]@ =~= add_seqs(segment@[0]@, self.spec_offset()),
            r@[1]@ =~= add_seqs(segment@[1]@, self.spec_offset()),
    {
        segment.translate(&self.offset)
    }
}

/// A triangle in three-dimensional space.
#[derive(Clone, Copy, Debug, Hash, PartialEq, Eq, PartialOrd, Ord)]
pub struct Triangle {
    points: [Point<3>; 3],
}

impl View for Triangle {
    type V = Seq<Point<3>>;

    closed spec fn view(&self) -> Seq<Point<3>> {
        self.points@
    }
}

impl Triangle {
    /// Create a triangle from its three corners.
    pub fn from_points(points: [Point<3>; 3]) -> (r: Self)
        ensures
            r@ =~= points@,
    {
        Self { points }
    }

    /// A triangle always has exactly three corners.
    pub proof fn lemma_len(&self)
        ensures
            self@.len() == 3,
    {
    }

    /// The three corners of the triangle.
    pub fn points(&self) -> (r: [Point<3>; 3])
        ensures
            r@ =~= self@,
    {
        self.points
    }
}

} // verus!
