//! Curves and surfaces in canonical, three-dimensional form.
//!
//! These are the geometry carriers of the shape layer: a curve is a line
//! in space, and a surface is the plane swept by a curve along a path.
//! Circles are not offered: their sample points have irrational
//! coordinates, which the exact integer scalar cannot carry.

use vstd::prelude::*;

use crate::math::{can_add, can_sub, p1, sub_seqs, Line, Point, Vector, MAX_COORD};

verus! {

/// Whether `p` is the point of line `l` at parameter `t`.
pub open spec fn on_line_at(l: Line<3>, t: int, p: Seq<int>) -> bool {
    p.len() == 3 && forall|j: int|
        0 <= j < 3 ==> #[trigger] p[j] == l.origin@[j] + t * l.direction@[j]
}

/// A curve in canonical, three-dimensional form.
#[derive(Clone, Copy, Debug, Hash, PartialEq, Eq, PartialOrd, Ord)]
pub enum Curve {
    /// A line, parametrized by its origin and direction.
    Line(Line<3>),
}

impl Curve {
    /// The line that carries the curve.
    pub closed spec fn spec_line(&self) -> Line<3> {
        match self {
            Curve::Line(l) => *l,
        }
    }

    /// The line through `a` at parameter zero and `b` at parameter one.
    pub fn line_from_points(a: Point<3>, b: Point<3>) -> (r: Self)
        requires
            can_sub(b@, a@),
        ensures
            r.spec_line().origin == a,
            r.spec_line().direction@ =~= sub_seqs(b@, a@),
    {
        Curve::Line(Line::from_points(a, b))
    }

    /// Access the carried line.
    pub fn line(&self) -> (r: Line<3>)
        ensures
            r == self.spec_line(),
    {
        match self {
            Curve::Line(l) => *l,
        }
    }

    /// Whether two curves carry the same line.
    pub fn same(&self, other: &Self) -> (r: bool)
        ensures
            r == (self.spec_line().origin@ == other.spec_line().origin@
                && self.spec_line().direction@ == other.spec_line().direction@),
    {
        self.line().same(&other.line())
    }

    /// The same curve, translated.
    pub fn translate(&self, path: &Vector<3>) -> (r: Self)
        requires
            can_add(self.spec_line().origin@, path@),
        ensures
            r.spec_line().origin@ =~= crate::math::add_seqs(self.spec_line().origin@, path@),
            r.spec_line().direction == self.spec_line().direction,
    {
        Curve::Line(self.line().translate(path))
    }

    /// Convert a point in space to the curve's own coordinates.
    ///
    /// The point must lie on the curve at an integer parameter; the
    /// result is that parameter.
    pub fn point_model_to_curve(&self, point: &Point<3>) -> (r: Point<1>)
        requires
            point.in_bounds(),
            self.spec_line().origin.in_bounds(),
            self.spec_line().direction.in_bounds(),
            exists|j: int| 0 <= j < 3 && #[trigger] self.spec_line().direction@[j] != 0,
            exists|t: int| on_line_at(self.spec_line(), t, point@),
        ensures
            on_line_at(self.spec_line(), r@[0], point@),
    {
        let line = self.line();
        proof {
            point.lemma_len();
            line.origin.lemma_len();
            line.direction.lemma_len();
        }
        let j: usize = if line.direction.component(0) != 0 {
            0
        } else if line.direction.component(1) != 0 {
            1
        } else {
            proof {
                let jj = choose|jj: int| 0 <= jj < 3 && #[trigger] line.direction@[jj] != 0;
                assert(jj == 2);
            }
            2
        };
        let num: i64 = point.coord(j) - line.origin.coord(j);
        let den: i64 = line.direction.component(j);
        let t = exact_div(num, den);
        proof {
            let t0 = choose|t0: int| on_line_at(self.spec_line(), t0, point@);
            assert(point@[j as int] == line.origin@[j as int] + t0 * line.direction@[j as int]);
            assert(num as int == t0 * (den as int));
            lemma_unique_factor(num as int, den as int, t as int, t0);
            assert forall|k: int| 0 <= k < 3 implies #[trigger] point@[k] == line.origin@[k]
                + (t as int) * line.direction@[k] by {
                assert(point@[k] == line.origin@[k] + t0 * line.direction@[k]);
            }
        }
        p1(t)
    }
}

/// Divide `num` by `den`, which must divide it exactly.
fn exact_div(num: i64, den: i64) -> (r: i64)
    requires
        den != 0,
        -2 * MAX_COORD as int <= num as int <= 2 * MAX_COORD as int,
        -MAX_COORD as int <= den as int <= MAX_COORD as int,
        exists|t: int| num as int == #[trigger] (t * den as int),
    ensures
        num as int == r as int * den as int,
{
    let num_abs: u64 = if num >= 0 {
        num as u64
    } else {
        (-num) as u64
    };
    let den_abs: u64 = if den >= 0 {
        den as u64
    } else {
        (-den) as u64
    };
    let q_abs: u64 = num_abs / den_abs;
    proof {
        let t0 = choose|t: int| num as int == #[trigger] (t * den as int);
        lemma_abs_factor(num as int, den as int, t0);
        let ta = if t0 >= 0 {
            t0
        } else {
            -t0
        };
        assert(num_abs as int == ta * den_abs as int);
        vstd::arithmetic::mul::lemma_mul_is_commutative(ta, den_abs as int);
        vstd::arithmetic::div_mod::lemma_div_multiples_vanish(ta, den_abs as int);
        assert(q_abs as int == ta);
    }
    let q: i64 = if (num < 0) != (den < 0) && q_abs != 0 {
        -(q_abs as i64)
    } else {
        q_abs as i64
    };
    proof {
        let t0 = choose|t: int| num as int == #[trigger] (t * den as int);
        lemma_sign_of_factor(num as int, den as int, t0);
        assert(num as int == q as int * den as int) by (nonlinear_arith)
            requires
                num as int == t0 * den as int,
                q as int == t0,
        ;
    }
    q
}

/// If `num == t * den`, the absolute values satisfy the same relation.
proof fn lemma_abs_factor(num: int, den: int, t: int)
    requires
        num == t * den,
    ensures
        (if num >= 0 {
            num
        } else {
            -num
        }) == (if t >= 0 {
            t
        } else {
            -t
        }) * (if den >= 0 {
            den
        } else {
            -den
        }),
{
    assert((if num >= 0 {
        num
    } else {
        -num
    }) == (if t >= 0 {
        t
    } else {
        -t
    }) * (if den >= 0 {
        den
    } else {
        -den
    })) by (nonlinear_arith)
        requires
            num == t * den,
    ;
}

/// A nonzero divisor determines the factor uniquely.
proof fn lemma_unique_factor(num: int, den: int, a: int, b: int)
    requires
        den != 0,
        num == a * den,
        num == b * den,
    ensures
        a == b,
{
    assert(a == b) by (nonlinear_arith)
        requires
            den != 0,
            a * den == b * den,
    ;
}

/// The sign-adjusted absolute quotient is the factor itself.
proof fn lemma_sign_of_factor(num: int, den: int, t0: int)
    requires
        den != 0,
        num == t0 * den,
    ensures
        ({
            let ta = if t0 >= 0 {
                t0
            } else {
                -t0
            };
            if (num < 0) != (den < 0) && ta != 0 {
                -ta
            } else {
                ta
            }
        }) == t0,
{
    let ta = if t0 >= 0 {
        t0
    } else {
        -t0
    };
    assert(((if (num < 0) != (den < 0) && ta != 0 {
        -ta
    } else {
        ta
    })) == t0) by (nonlinear_arith)
        requires
            den != 0,
            num == t0 * den,
            ta == (if t0 >= 0 {
                t0
            } else {
                -t0
            }),
    ;
}

/// A surface: the plane swept by a curve along a path.
#[derive(Clone, Copy, Debug, Hash, PartialEq, Eq, PartialOrd, Ord)]
pub struct Swept {
    /// The swept curve.
    pub curve: Line<3>,
    /// The path the curve is swept along.
    pub path: Vector<3>,
}

impl Swept {
    /// The plane through three points: the line from the first to the
    /// second, swept along the vector from the first to the third.
    pub fn plane_from_points(points: [Point<3>; 3]) -> (r: Self)
        requires
            can_sub(points@[1]@, points@[0]@),
            can_sub(points@[2]@, points@[0]@),
        ensures
            r.curve.origin == points@[0],
            r.curve.direction@ =~= sub_seqs(points@[1]@, points@[0]@),
            r.path@ =~= sub_seqs(points@[2]@, points@[0]@),
    {
        let a = points[0];
        let b = points[1];
        let c = points[2];
        Swept { curve: Line::from_points(a, b), path: a.vector_to(&c) }
    }
}

/// A surface of a shape.
#[derive(Clone, Copy, Debug, Hash, PartialEq, Eq, PartialOrd, Ord)]
pub enum Surface {
    /// A plane, represented as a swept line.
    Swept(Swept),
}

impl Surface {
    /// The swept-curve form of the surface.
    pub closed spec fn spec_swept(&self) -> Swept {
        match self {
            Surface::Swept(s) => *s,
        }
    }

    /// Access the swept-curve form.
    pub fn swept(&self) -> (r: Swept)
        ensures
            r == self.spec_swept(),
    {
        match self {
            Surface::Swept(s) => *s,
        }
    }

    /// Whether two surfaces have equal geometry.
    pub fn same(&self, other: &Self) -> (r: bool)
        ensures
            r == (self.spec_swept().curve.origin@ == other.spec_swept().curve.origin@
                && self.spec_swept().curve.direction@ == other.spec_swept().curve.direction@
                && self.spec_swept().path@ == other.spec_swept().path@),
    {
        let a = self.swept();
        let b = other.swept();
        a.curve.same(&b.curve) && a.path.same(&b.path)
    }

    /// The same surface, translated.
    pub fn translate(&self, path: &Vector<3>) -> (r: Self)
        requires
            can_add(self.spec_swept().curve.origin@, path@),
        ensures
            r.spec_swept().curve.origin@ =~= crate::math::add_seqs(
                self.spec_swept().curve.origin@,
                path@,
            ),
            r.spec_swept().curve.direction == self.spec_swept().curve.direction,
            r.spec_swept().path == self.spec_swept().path,
    {
        let s = self.swept();
        Surface::Swept(Swept { curve: s.curve.translate(path), path: s.path })
    }
}

} // verus!
