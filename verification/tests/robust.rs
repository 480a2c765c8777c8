//! Tests for the robust orientation predicate.

use fj_kernel::math::p3;
use fj_kernel::robust::orient3d;

#[test]
fn orient3d_reports_the_exact_side() {
    let a = p3(0, 0, 0);
    let b = p3(1, 0, 0);
    let c = p3(0, 1, 0);

    assert_eq!(orient3d(a, b, c, p3(0, 0, -1)), 1);
    assert_eq!(orient3d(a, b, c, p3(0, 0, 1)), -1);
    assert_eq!(orient3d(a, b, c, p3(7, 11, 0)), 0);
}

#[test]
fn orient3d_flips_sign_on_swaps() {
    let a = p3(0, 0, 0);
    let b = p3(2, 0, 0);
    let c = p3(0, 2, 0);
    let d = p3(0, 0, -3);

    let reference = orient3d(a, b, c, d);
    assert!(reference > 0);
    assert_eq!(orient3d(b, a, c, d), -reference);
    assert_eq!(orient3d(a, c, b, d), -reference);
    assert_eq!(orient3d(a, b, d, c), -reference);
}

#[test]
fn orient3d_is_sign_correct_near_coplanarity() {
    // Four points that are nearly coplanar: the fourth sits one single
    // unit above the plane of three far-apart points. A naive
    // floating-point evaluation of this determinant would drown in
    // cancellation; the exact evaluation reports the true sign.
    let a = p3(0, 0, 0);
    let b = p3(1_000_000_000, 0, 0);
    let c = p3(0, 1_000_000_000, 0);

    let just_above = p3(123_456_789, 987_654_321, 1);
    let just_below = p3(123_456_789, 987_654_321, -1);
    let exactly_on = p3(123_456_789, 987_654_321, 0);

    assert!(orient3d(a, b, c, just_above) < 0);
    assert!(orient3d(a, b, c, just_below) > 0);
    assert_eq!(orient3d(a, b, c, exactly_on), 0);
}
