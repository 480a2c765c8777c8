//! The robust orientation predicate.
//!
//! `orient3d` reports on which side of the plane through three points a
//! fourth point lies. Over floating-point coordinates this test is the
//! classic source of inconsistent topology decisions; over the kernel's
//! exact integer coordinates the determinant can be evaluated exactly in a
//! wide intermediate type, so the returned value — not merely its sign — is
//! the true orientation determinant, for every admissible input.

use vstd::prelude::*;

use crate::math::{add_seqs, lemma_product_range, seq_bounded, sub_seqs, Point, Vector, MAX_COORD};
use vstd::arithmetic::mul::{
    lemma_mul_is_associative, lemma_mul_is_commutative, lemma_mul_is_distributive_add,
    lemma_mul_is_distributive_add_other_way, lemma_mul_is_distributive_sub,
};

verus! {

/// The scalar triple product `w · (u × v)` of three coordinate triples,
/// written out as the expansion that the evaluation uses.
pub open spec fn triple(u: Seq<int>, v: Seq<int>, w: Seq<int>) -> int {
    w[2] * (u[0] * v[1] - v[0] * u[1]) + v[2] * (w[0] * u[1] - u[0] * w[1]) + u[2] * (v[0] * w[1]
        - w[0] * v[1])
}

/// The orientation determinant of four points: the signed volume spanned by
/// `a - d`, `b - d`, `c - d`. It is zero exactly when the four points are
/// coplanar, and its sign tells on which side of the oriented plane through
/// `a`, `b`, `c` the point `d` lies.
pub open spec fn det3(a: Seq<int>, b: Seq<int>, c: Seq<int>, d: Seq<int>) -> int {
    triple(sub_seqs(a, d), sub_seqs(b, d), sub_seqs(c, d))
}

/// Evaluate the scalar triple product of three bounded vectors exactly.
pub fn triple_product(u: &Vector<3>, v: &Vector<3>, w: &Vector<3>) -> (r: i128)
    requires
        seq_bounded(u@, 2 * MAX_COORD as int),
        seq_bounded(v@, 2 * MAX_COORD as int),
        seq_bounded(w@, 2 * MAX_COORD as int),
    ensures
        r as int == triple(u@, v@, w@),
{
    proof {
        u.lemma_len();
        v.lemma_len();
        w.lemma_len();
    }
    let ux: i128 = u.component(0) as i128;
    let uy: i128 = u.component(1) as i128;
    let uz: i128 = u.component(2) as i128;
    let vx: i128 = v.component(0) as i128;
    let vy: i128 = v.component(1) as i128;
    let vz: i128 = v.component(2) as i128;
    let wx: i128 = w.component(0) as i128;
    let wy: i128 = w.component(1) as i128;
    let wz: i128 = w.component(2) as i128;
    proof {
        let b: int = 2000000000000;
        let bsq: int = 4000000000000000000000000;
        assert(-b <= u@[0] <= b && -b <= u@[1] <= b && -b <= u@[2] <= b);
        assert(-b <= v@[0] <= b && -b <= v@[1] <= b && -b <= v@[2] <= b);
        assert(-b <= w@[0] <= b && -b <= w@[1] <= b && -b <= w@[2] <= b);
        assert(b * b == bsq) by (nonlinear_arith)
            requires
                b == 2000000000000,
                bsq == 4000000000000000000000000,
        ;
        lemma_product_range(ux as int, vy as int, b, b);
        lemma_product_range(vx as int, uy as int, b, b);
        lemma_product_range(wx as int, uy as int, b, b);
        lemma_product_range(ux as int, wy as int, b, b);
        lemma_product_range(vx as int, wy as int, b, b);
        lemma_product_range(wx as int, vy as int, b, b);
        lemma_product_range(wz as int, ux as int * vy as int - vx as int * uy as int, b, 2 * bsq);
        lemma_product_range(vz as int, wx as int * uy as int - ux as int * wy as int, b, 2 * bsq);
        lemma_product_range(uz as int, vx as int * wy as int - wx as int * vy as int, b, 2 * bsq);
        assert(b * (2 * bsq) == 16000000000000000000000000000000000000) by (nonlinear_arith)
            requires
                b == 2000000000000,
                bsq == 4000000000000000000000000,
        ;
    }
    wz * (ux * vy - vx * uy) + vz * (wx * uy - ux * wy) + uz * (vx * wy - wx * vy)
}

/// Test a point's orientation against a plane.
///
/// Returns the exact orientation determinant of the four points; in
/// particular its sign is reliable for every admissible input, however
/// close to coplanar the points are.
pub fn orient3d(pa: Point<3>, pb: Point<3>, pc: Point<3>, pd: Point<3>) -> (r: i128)
    requires
        pa.in_bounds(),
        pb.in_bounds(),
        pc.in_bounds(),
        pd.in_bounds(),
    ensures
        r as int == det3(pa@, pb@, pc@, pd@),
        r > 0 <==> det3(pa@, pb@, pc@, pd@) > 0,
        r == 0 <==> det3(pa@, pb@, pc@, pd@) == 0,
{
    proof {
        pa.lemma_len();
        pb.lemma_len();
        pc.lemma_len();
        pd.lemma_len();
    }
    let u = pd.vector_to(&pa);
    let v = pd.vector_to(&pb);
    let w = pd.vector_to(&pc);
    proof {
        let bb: int = 2 * MAX_COORD as int;
        assert forall|j: int| 0 <= j < 3 implies -bb <= #[trigger] u@[j] <= bb && -bb <= v@[j]
            <= bb && -bb <= w@[j] <= bb by {
            assert(-MAX_COORD <= pa@[j] <= MAX_COORD);
            assert(-MAX_COORD <= pb@[j] <= MAX_COORD);
            assert(-MAX_COORD <= pc@[j] <= MAX_COORD);
            assert(-MAX_COORD <= pd@[j] <= MAX_COORD);
        }
    }
    triple_product(&u, &v, &w)
}

/// Exchanging the first two vectors flips the sign of the triple product.
proof fn lemma_triple_swap_first(u: Seq<int>, v: Seq<int>, w: Seq<int>)
    ensures
        triple(v, u, w) == -triple(u, v, w),
{
    assert(triple(v, u, w) == -triple(u, v, w)) by (nonlinear_arith);
}

/// Exchanging the last two vectors flips the sign of the triple product.
proof fn lemma_triple_swap_last(u: Seq<int>, v: Seq<int>, w: Seq<int>)
    ensures
        triple(u, w, v) == -triple(u, v, w),
{
    assert(triple(u, w, v) == -triple(u, v, w)) by (nonlinear_arith);
}

/// Rotating the three vectors leaves the triple product unchanged.
proof fn lemma_triple_rotate(u: Seq<int>, v: Seq<int>, w: Seq<int>)
    ensures
        triple(w, u, v) == triple(u, v, w),
{
    lemma_triple_swap_last(u, v, w);
    lemma_triple_swap_first(u, w, v);
}

/// A triple product with a repeated vector in the last two slots is zero.
proof fn lemma_triple_repeat_last(u: Seq<int>, v: Seq<int>)
    ensures
        triple(u, v, v) == 0,
{
    lemma_triple_swap_last(u, v, v);
}

/// A triple product with a repeated vector in the first two slots is zero.
proof fn lemma_triple_repeat_first(u: Seq<int>, w: Seq<int>)
    ensures
        triple(u, u, w) == 0,
{
    lemma_triple_swap_first(u, u, w);
}

/// Scaling the first vector scales the triple product.
proof fn lemma_triple_scale_first(u: Seq<int>, p: Seq<int>, k: int, v: Seq<int>, w: Seq<int>)
    requires
        u[0] == k * p[0],
        u[1] == k * p[1],
        u[2] == k * p[2],
    ensures
        triple(u, v, w) == k * triple(p, v, w),
{
    let c1 = p[0] * v[1] - v[0] * p[1];
    let c2 = w[0] * p[1] - p[0] * w[1];
    let c3 = v[0] * w[1] - w[0] * v[1];
    assert(u[0] * v[1] == k * (p[0] * v[1])) by {
        lemma_mul_is_associative(k, p[0], v[1]);
    }
    assert(v[0] * u[1] == k * (v[0] * p[1])) by {
        lemma_mul_is_commutative(v[0], k * p[1]);
        lemma_mul_is_associative(k, p[1], v[0]);
        lemma_mul_is_commutative(p[1], v[0]);
    }
    assert(w[0] * u[1] == k * (w[0] * p[1])) by {
        lemma_mul_is_commutative(w[0], k * p[1]);
        lemma_mul_is_associative(k, p[1], w[0]);
        lemma_mul_is_commutative(p[1], w[0]);
    }
    assert(u[0] * w[1] == k * (p[0] * w[1])) by {
        lemma_mul_is_associative(k, p[0], w[1]);
    }
    assert(w[2] * (u[0] * v[1] - v[0] * u[1]) == k * (w[2] * c1)) by {
        lemma_mul_is_distributive_sub(k, p[0] * v[1], v[0] * p[1]);
        lemma_mul_is_associative(w[2], k, c1);
        lemma_mul_is_commutative(w[2], k);
        lemma_mul_is_associative(k, w[2], c1);
    }
    assert(v[2] * (w[0] * u[1] - u[0] * w[1]) == k * (v[2] * c2)) by {
        lemma_mul_is_distributive_sub(k, w[0] * p[1], p[0] * w[1]);
        lemma_mul_is_associative(v[2], k, c2);
        lemma_mul_is_commutative(v[2], k);
        lemma_mul_is_associative(k, v[2], c2);
    }
    assert(u[2] * c3 == k * (p[2] * c3)) by {
        lemma_mul_is_associative(k, p[2], c3);
    }
    assert(k * (w[2] * c1) + k * (v[2] * c2) + k * (p[2] * c3) == k * (w[2] * c1 + v[2] * c2 + p[2]
        * c3)) by {
        lemma_mul_is_distributive_add(k, w[2] * c1, v[2] * c2);
        lemma_mul_is_distributive_add(k, w[2] * c1 + v[2] * c2, p[2] * c3);
    }
}

/// Adding vectors in the first slot adds the triple products.
proof fn lemma_triple_add_first(u: Seq<int>, p: Seq<int>, q: Seq<int>, v: Seq<int>, w: Seq<int>)
    requires
        u[0] == p[0] + q[0],
        u[1] == p[1] + q[1],
        u[2] == p[2] + q[2],
    ensures
        triple(u, v, w) == triple(p, v, w) + triple(q, v, w),
{
    assert(u[0] * v[1] == p[0] * v[1] + q[0] * v[1]) by {
        lemma_mul_is_distributive_add_other_way(v[1], p[0], q[0]);
    }
    assert(v[0] * u[1] == v[0] * p[1] + v[0] * q[1]) by {
        lemma_mul_is_distributive_add(v[0], p[1], q[1]);
    }
    assert(w[0] * u[1] == w[0] * p[1] + w[0] * q[1]) by {
        lemma_mul_is_distributive_add(w[0], p[1], q[1]);
    }
    assert(u[0] * w[1] == p[0] * w[1] + q[0] * w[1]) by {
        lemma_mul_is_distributive_add_other_way(w[1], p[0], q[0]);
    }
    assert(w[2] * (u[0] * v[1] - v[0] * u[1]) == w[2] * (p[0] * v[1] - v[0] * p[1]) + w[2] * (q[0]
        * v[1] - v[0] * q[1])) by {
        lemma_mul_is_distributive_add(
            w[2],
            p[0] * v[1] - v[0] * p[1],
            q[0] * v[1] - v[0] * q[1],
        );
    }
    assert(v[2] * (w[0] * u[1] - u[0] * w[1]) == v[2] * (w[0] * p[1] - p[0] * w[1]) + v[2] * (w[0]
        * q[1] - q[0] * w[1])) by {
        lemma_mul_is_distributive_add(
            v[2],
            w[0] * p[1] - p[0] * w[1],
            w[0] * q[1] - q[0] * w[1],
        );
    }
    assert(u[2] * (v[0] * w[1] - w[0] * v[1]) == p[2] * (v[0] * w[1] - w[0] * v[1]) + q[2] * (v[0]
        * w[1] - w[0] * v[1])) by {
        lemma_mul_is_distributive_add_other_way(v[0] * w[1] - w[0] * v[1], p[2], q[2]);
    }
}

/// The triple product is linear in its first argument: if componentwise
/// `u = k1 * p + k2 * q`, the product splits accordingly.
proof fn lemma_triple_linear_first(
    u: Seq<int>,
    p: Seq<int>,
    q: Seq<int>,
    k1: int,
    k2: int,
    v: Seq<int>,
    w: Seq<int>,
)
    requires
        u[0] == k1 * p[0] + k2 * q[0],
        u[1] == k1 * p[1] + k2 * q[1],
        u[2] == k1 * p[2] + k2 * q[2],
    ensures
        triple(u, v, w) == k1 * triple(p, v, w) + k2 * triple(q, v, w),
{
    let sp = Seq::new(3, |j: int| k1 * p[j]);
    let sq = Seq::new(3, |j: int| k2 * q[j]);
    lemma_triple_add_first(u, sp, sq, v, w);
    lemma_triple_scale_first(sp, p, k1, v, w);
    lemma_triple_scale_first(sq, q, k2, v, w);
}

/// A triple product of three vectors that all lie in the span of two
/// vectors `p` and `q` is zero.
proof fn lemma_triple_in_span(
    u: Seq<int>,
    v: Seq<int>,
    w: Seq<int>,
    p: Seq<int>,
    q: Seq<int>,
    ku1: int,
    ku2: int,
    kv1: int,
    kv2: int,
    kw1: int,
    kw2: int,
)
    requires
        forall|j: int| 0 <= j < 3 ==> #[trigger] u[j] == ku1 * p[j] + ku2 * q[j],
        forall|j: int| 0 <= j < 3 ==> #[trigger] v[j] == kv1 * p[j] + kv2 * q[j],
        forall|j: int| 0 <= j < 3 ==> #[trigger] w[j] == kw1 * p[j] + kw2 * q[j],
    ensures
        triple(u, v, w) == 0,
{
    // Any product with p or q in the first slot and the two span vectors
    // behind it vanishes, because splitting the remaining slots only ever
    // produces repeated vectors.
    assert(triple(p, v, w) == 0) by {
        lemma_triple_rotate(v, w, p);
        lemma_triple_linear_first(w, p, q, kw1, kw2, p, v);
        assert(triple(p, p, v) == 0) by {
            lemma_triple_repeat_first(p, v);
        }
        assert(triple(q, p, v) == 0) by {
            lemma_triple_rotate(q, p, v);
            lemma_triple_linear_first(v, p, q, kv1, kv2, q, p);
            lemma_triple_rotate(p, q, p);
            lemma_triple_repeat_last(q, p);
            lemma_triple_repeat_first(p, q);
            lemma_triple_rotate(q, q, p);
            lemma_triple_repeat_first(q, p);
        }
    }
    assert(triple(q, v, w) == 0) by {
        lemma_triple_rotate(v, w, q);
        lemma_triple_linear_first(w, p, q, kw1, kw2, q, v);
        assert(triple(q, q, v) == 0) by {
            lemma_triple_repeat_first(q, v);
        }
        assert(triple(p, q, v) == 0) by {
            lemma_triple_rotate(p, q, v);
            lemma_triple_linear_first(v, p, q, kv1, kv2, p, q);
            lemma_triple_rotate(q, p, q);
            lemma_triple_repeat_last(p, q);
            lemma_triple_repeat_first(q, p);
            lemma_triple_rotate(p, p, q);
            lemma_triple_repeat_first(p, q);
        }
    }
    lemma_triple_linear_first(u, p, q, ku1, ku2, v, w);
    assert(ku1 * triple(p, v, w) == 0);
    assert(ku2 * triple(q, v, w) == 0);
}

/// Exchanging the first two points flips the sign of the orientation
/// determinant.
pub proof fn lemma_det3_swap_first_two(a: Seq<int>, b: Seq<int>, c: Seq<int>, d: Seq<int>)
    ensures
        det3(b, a, c, d) == -det3(a, b, c, d),
{
    lemma_triple_swap_first(sub_seqs(a, d), sub_seqs(b, d), sub_seqs(c, d));
}

/// Exchanging the second and third points flips the sign of the orientation
/// determinant.
pub proof fn lemma_det3_swap_last_two(a: Seq<int>, b: Seq<int>, c: Seq<int>, d: Seq<int>)
    ensures
        det3(a, c, b, d) == -det3(a, b, c, d),
{
    lemma_triple_swap_last(sub_seqs(a, d), sub_seqs(b, d), sub_seqs(c, d));
}

/// Exchanging the third point with the reference point flips the sign of
/// the orientation determinant. Together with the other two exchange laws
/// this makes the determinant alternating in all four points.
pub proof fn lemma_det3_swap_with_reference(a: Seq<int>, b: Seq<int>, c: Seq<int>, d: Seq<int>)
    requires
        a.len() == 3 && b.len() == 3 && c.len() == 3 && d.len() == 3,
    ensures
        det3(a, b, d, c) == -det3(a, b, c, d),
{
    let u = sub_seqs(a, d);
    let v = sub_seqs(b, d);
    let w = sub_seqs(c, d);
    let up = sub_seqs(a, c);
    let vp = sub_seqs(b, c);
    let wp = sub_seqs(d, c);
    let mw = Seq::new(3, |j: int| -w[j]);
    // Componentwise: up = u - w, vp = v - w, wp = -w.
    assert(forall|j: int| 0 <= j < 3 ==> #[trigger] up[j] == u[j] + mw[j]);
    assert(forall|j: int| 0 <= j < 3 ==> #[trigger] vp[j] == v[j] + mw[j]);
    assert(forall|j: int| 0 <= j < 3 ==> #[trigger] wp[j] == (-1) * w[j]);
    // triple(up, vp, wp) == -triple(w, up, vp) by rotating and scaling wp.
    lemma_triple_rotate(up, vp, wp);
    lemma_triple_scale_first(wp, w, -1, up, vp);
    // triple(w, up, vp) rotates to triple(up, vp, w); split up.
    lemma_triple_rotate(up, vp, w);
    lemma_triple_add_first(up, u, mw, vp, w);
    // triple(mw, vp, w) == -triple(w, vp, w) == 0.
    lemma_triple_scale_first(mw, w, -1, vp, w);
    lemma_triple_rotate(vp, w, w);
    lemma_triple_repeat_last(vp, w);
    // triple(u, vp, w): rotate so vp leads, then split it.
    lemma_triple_rotate(vp, w, u);
    lemma_triple_add_first(vp, v, mw, w, u);
    lemma_triple_scale_first(mw, w, -1, w, u);
    lemma_triple_repeat_first(w, u);
    // triple(v, w, u) rotates back to triple(u, v, w).
    lemma_triple_rotate(u, v, w);
}

/// Exchanging the first and third points flips the sign of the
/// orientation determinant.
pub proof fn lemma_det3_swap_outer_two(a: Seq<int>, b: Seq<int>, c: Seq<int>, d: Seq<int>)
    ensures
        det3(c, b, a, d) == -det3(a, b, c, d),
{
    lemma_det3_swap_last_two(a, b, c, d);
    lemma_det3_swap_first_two(a, c, b, d);
    lemma_det3_swap_last_two(c, a, b, d);
}

/// Exchanging the second point with the reference point flips the sign
/// of the orientation determinant.
pub proof fn lemma_det3_swap_second_with_reference(
    a: Seq<int>,
    b: Seq<int>,
    c: Seq<int>,
    d: Seq<int>,
)
    requires
        a.len() == 3 && b.len() == 3 && c.len() == 3 && d.len() == 3,
    ensures
        det3(a, d, c, b) == -det3(a, b, c, d),
{
    lemma_det3_swap_last_two(a, b, c, d);
    lemma_det3_swap_with_reference(a, c, b, d);
    lemma_det3_swap_last_two(a, c, d, b);
}

/// Exchanging the first point with the reference point flips the sign
/// of the orientation determinant. With the other exchange laws, every
/// exchange of two of the four points flips the sign: the determinant is
/// alternating.
pub proof fn lemma_det3_swap_first_with_reference(
    a: Seq<int>,
    b: Seq<int>,
    c: Seq<int>,
    d: Seq<int>,
)
    requires
        a.len() == 3 && b.len() == 3 && c.len() == 3 && d.len() == 3,
    ensures
        det3(d, b, c, a) == -det3(a, b, c, d),
{
    lemma_det3_swap_first_two(a, b, c, d);
    lemma_det3_swap_last_two(b, a, c, d);
    lemma_det3_swap_with_reference(b, c, a, d);
    lemma_det3_swap_last_two(b, c, d, a);
    lemma_det3_swap_first_two(b, d, c, a);
}

/// Translating all four points leaves the orientation determinant
/// unchanged: it depends only on the points' differences.
pub proof fn lemma_det3_translation(
    a: Seq<int>,
    b: Seq<int>,
    c: Seq<int>,
    d: Seq<int>,
    p: Seq<int>,
)
    requires
        a.len() == 3 && b.len() == 3 && c.len() == 3 && d.len() == 3,
    ensures
        det3(add_seqs(a, p), add_seqs(b, p), add_seqs(c, p), add_seqs(d, p)) == det3(a, b, c, d),
{
    assert(sub_seqs(add_seqs(a, p), add_seqs(d, p)) =~= sub_seqs(a, d));
    assert(sub_seqs(add_seqs(b, p), add_seqs(d, p)) =~= sub_seqs(b, d));
    assert(sub_seqs(add_seqs(c, p), add_seqs(d, p)) =~= sub_seqs(c, d));
}

/// Four points of which the last is an integer affine combination
/// `a + s * (b - a) + t * (c - a)` of the first three are coplanar: the
/// orientation determinant is exactly zero.
pub proof fn lemma_det3_coplanar(a: Seq<int>, b: Seq<int>, c: Seq<int>, d: Seq<int>, s: int, t: int)
    requires
        a.len() == 3 && b.len() == 3 && c.len() == 3 && d.len() == 3,
        forall|j: int|
            0 <= j < 3 ==> #[trigger] d[j] == a[j] + s * (b[j] - a[j]) + t * (c[j] - a[j]),
    ensures
        det3(a, b, c, d) == 0,
{
    let u = sub_seqs(a, d);
    let v = sub_seqs(b, d);
    let w = sub_seqs(c, d);
    let p = sub_seqs(b, a);
    let q = sub_seqs(c, a);
    // Componentwise: u = -s*p - t*q, v = (1-s)*p - t*q, w = -s*p + (1-t)*q,
    // so all three difference vectors lie in the span of p and q.
    assert forall|j: int| 0 <= j < 3 implies #[trigger] u[j] == (-s) * p[j] + (-t) * q[j] by {
        lemma_coplanar_component(a[j], b[j], c[j], d[j], p[j], q[j], s, t);
    }
    assert forall|j: int| 0 <= j < 3 implies #[trigger] v[j] == (1 - s) * p[j] + (-t) * q[j] by {
        lemma_coplanar_component(a[j], b[j], c[j], d[j], p[j], q[j], s, t);
    }
    assert forall|j: int| 0 <= j < 3 implies #[trigger] w[j] == (-s) * p[j] + (1 - t) * q[j] by {
        lemma_coplanar_component(a[j], b[j], c[j], d[j], p[j], q[j], s, t);
    }
    lemma_triple_in_span(u, v, w, p, q, -s, -t, 1 - s, -t, -s, 1 - t);
}

/// One coordinate of the affine-combination decomposition used by
/// `lemma_det3_coplanar`.
proof fn lemma_coplanar_component(aj: int, bj: int, cj: int, dj: int, pj: int, qj: int, s: int, t: int)
    requires
        dj == aj + s * (bj - aj) + t * (cj - aj),
        pj == bj - aj,
        qj == cj - aj,
    ensures
        aj - dj == (-s) * pj + (-t) * qj,
        bj - dj == (1 - s) * pj + (-t) * qj,
        cj - dj == (-s) * pj + (1 - t) * qj,
{
    assert(aj - dj == (-s) * pj + (-t) * qj && bj - dj == (1 - s) * pj + (-t) * qj && cj - dj == (
    -s) * pj + (1 - t) * qj) by (nonlinear_arith)
        requires
            dj == aj + s * (bj - aj) + t * (cj - aj),
            pj == bj - aj,
            qj == cj - aj,
    ;
}

} // verus!
