//! Approximation of shape-layer topology into points and segments.
//!
//! An approximation must deviate from the exact geometry by no more than
//! the given tolerance. The shape layer's curves are lines, and a line is
//! approximated exactly — by its two end points — whatever the tolerance;
//! the tolerance parameter is what a curved-geometry approximation would
//! subdivide by.

use vstd::prelude::*;

use crate::math::{Point, Scalar, Segment};
use crate::topology::{Cycle, Edge};

verus! {

/// Whether a point with these coordinates occurs in the sequence.
pub open spec fn point_in(p: Seq<int>, pts: Seq<Point<3>>) -> bool {
    exists|j: int| 0 <= j < pts.len() && (#[trigger] pts[j])@ == p
}

/// Whether `p` is an end point of one of the cycle's edges.
pub open spec fn is_cycle_endpoint(c: &Cycle, p: Seq<int>) -> bool {
    exists|i: int|
        0 <= i < c.edges@.len() && (p == ((#[trigger] c.edges@[i]).0.vertices@[0]).0.spec_location()@
            || p == ((c.edges@[i]).0.vertices@[1]).0.spec_location()@)
}

/// Decide whether a point with the same coordinates occurs in the vector.
fn contains_point(pts: &Vec<Point<3>>, p: &Point<3>) -> (r: bool)
    ensures
        r == point_in(p@, pts@),
{
    let n = pts.len();
    let mut i: usize = 0;
    while i < n
        invariant
            n == pts@.len(),
            i <= n,
            forall|j: int| 0 <= j < i ==> (#[trigger] pts@[j])@ != p@,
        decreases n - i,
    {
        if pts[i].same(p) {
            proof {
                assert(point_in(p@, pts@));
            }
            return true;
        }
        i += 1;
    }
    false
}

/// An approximation of a piece of topology: its distinct points, and the
/// straight segments that join them.
pub struct Approximation {
    /// The distinct points of the approximation.
    pub points: Vec<Point<3>>,
    /// One segment for each approximated edge.
    pub segments: Vec<Segment<3>>,
}

impl Approximation {
    /// Approximate a cycle: one segment per edge, joining the edges'
    /// vertices exactly, and the distinct end points of those segments.
    pub fn for_cycle(cycle: &Cycle, tolerance: Scalar) -> (r: Approximation)
        requires
            tolerance >= 0,
        ensures
            r.segments@.len() == cycle.edges@.len(),
            forall|i: int|
                0 <= i < cycle.edges@.len() ==> (#[trigger] r.segments@[i])@[0]@ == ((
                cycle.edges@[i]).0.vertices@[0]).0.spec_location()@ && r.segments@[i]@[1]@ == ((
                cycle.edges@[i]).0.vertices@[1]).0.spec_location()@,
            forall|j: int|
                0 <= j < r.points@.len() ==> is_cycle_endpoint(cycle, (#[trigger] r.points@[j])@),
            forall|j: int, k: int|
                0 <= j < k < r.points@.len() ==> (#[trigger] r.points@[j])@ != (
                #[trigger] r.points@[k])@,
            forall|i: int|
                0 <= i < cycle.edges@.len() ==> point_in(
                    ((#[trigger] cycle.edges@[i]).0.vertices@[0]).0.spec_location()@,
                    r.points@,
                ) && point_in(
                    ((cycle.edges@[i]).0.vertices@[1]).0.spec_location()@,
                    r.points@,
                ),
    {
        let n = cycle.edges.len();
        let mut points: Vec<Point<3>> = Vec::new();
        let mut segments: Vec<Segment<3>> = Vec::new();
        let mut i: usize = 0;
        while i < n
            invariant
                n == cycle.edges@.len(),
                i <= n,
                segments@.len() == i,
                forall|k: int|
                    0 <= k < i ==> (#[trigger] segments@[k])@[0]@ == ((
                    cycle.edges@[k]).0.vertices@[0]).0.spec_location()@ && segments@[k]@[1]@ == ((
                    cycle.edges@[k]).0.vertices@[1]).0.spec_location()@,
                forall|j: int|
                    0 <= j < points@.len() ==> is_cycle_endpoint(cycle, (#[trigger] points@[j])@),
                forall|j: int, k: int|
                    0 <= j < k < points@.len() ==> (#[trigger] points@[j])@ != (
                    #[trigger] points@[k])@,
                forall|k: int|
                    0 <= k < i ==> point_in(
                        ((#[trigger] cycle.edges@[k]).0.vertices@[0]).0.spec_location()@,
                        points@,
                    ) && point_in(
                        ((cycle.edges@[k]).0.vertices@[1]).0.spec_location()@,
                        points@,
                    ),
            decreases n - i,
        {
            let edge = &cycle.edges[i].0;
            let a = *edge.vertices[0].0.location();
            let b = *edge.vertices[1].0.location();
            proof {
                assert(is_cycle_endpoint(cycle, a@));
                assert(is_cycle_endpoint(cycle, b@));
            }
            segments.push(Segment::from_points([a, b]));
            let ghost points_before: Seq<Point<3>> = points@;
            if !contains_point(&points, &a) {
                points.push(a);
                proof {
                    assert(points@[points@.len() - 1] == a);
                }
            }
            proof {
                assert(point_in(a@, points@));
                assert forall|j: int, k: int| 0 <= j < k < points@.len() implies (
                #[trigger] points@[j])@ != (#[trigger] points@[k])@ by {
                    if k < points_before.len() {
                        assert(points@[j] == points_before[j] && points@[k] == points_before[k]);
                    } else {
                        assert(!point_in(points@[k]@, points_before));
                    }
                }
            }
            let ghost points_mid: Seq<Point<3>> = points@;
            if !contains_point(&points, &b) {
                points.push(b);
                proof {
                    assert(points@[points@.len() - 1] == b);
                }
            }
            proof {
                assert(point_in(b@, points@));
                assert forall|j: int, k: int| 0 <= j < k < points@.len() implies (
                #[trigger] points@[j])@ != (#[trigger] points@[k])@ by {
                    if k < points_mid.len() {
                        assert(points@[j] == points_mid[j] && points@[k] == points_mid[k]);
                    } else {
                        assert(!point_in(points@[k]@, points_mid));
                    }
                }
                assert forall|k: int| 0 <= k < i + 1 implies point_in(
                    ((#[trigger] cycle.edges@[k]).0.vertices@[0]).0.spec_location()@,
                    points@,
                ) && point_in(
                    ((cycle.edges@[k]).0.vertices@[1]).0.spec_location()@,
                    points@,
                ) by {
                    if k < i {
                        lemma_point_in_extends(
                            ((cycle.edges@[k]).0.vertices@[0]).0.spec_location()@,
                            points_before,
                            points@,
                        );
                        lemma_point_in_extends(
                            ((cycle.edges@[k]).0.vertices@[1]).0.spec_location()@,
                            points_before,
                            points@,
                        );
                    } else {
                        lemma_point_in_extends(a@, points_mid, points@);
                    }
                }
            }
            i += 1;
        }
        Approximation { points, segments }
    }
}

/// A point stays present when the sequence grows at the end.
proof fn lemma_point_in_extends(p: Seq<int>, pre: Seq<Point<3>>, post: Seq<Point<3>>)
    requires
        point_in(p, pre),
        pre.is_prefix_of(post),
    ensures
        point_in(p, post),
{
    let j = choose|j: int| 0 <= j < pre.len() && (#[trigger] pre[j])@ == p;
    assert(post[j] == pre[j]);
}

} // verus!
