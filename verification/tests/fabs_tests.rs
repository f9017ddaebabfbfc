use quickcheck::quickcheck;
use quickcheck::TestResult;
use selection_sort::fabs_bits;

/// The absolute-value branch on `f32`, through its verified bit-level model.
fn fabs(x: f32) -> f32 {
    f32::from_bits(fabs_bits(x.to_bits()))
}

// A classic unit test: the absolute value of -1 is 1.

#[test]
fn test_fabs_classic() {
    assert_eq!(1.0, fabs(-1.0));
}

// Absolute values should never be negative

fn prop_no_neg(x: f32) -> bool {
    fabs(x) >= 0.0
}

#[test]
fn test_fabs_never_negative() {
    quickcheck(prop_no_neg as fn(f32) -> bool);
}

// Absolute values should always be same distance from 0
// as original

fn prop_fabs_same_distance(x: f32) -> bool {
    let ax = fabs(x);
    ax == x || ax == -x
}

#[test]
fn test_fabs_same_distance() {
    quickcheck(prop_fabs_same_distance as fn(f32) -> bool);
}

// Absolute values should always return same value

fn prop_fabs_always_same(x: f32) -> bool {
    fabs(x) == fabs(x)
}

#[test]
fn test_fabs_always_same() {
    quickcheck(prop_fabs_always_same as fn(f32) -> bool);
}

// Absolute values should be idempotent

fn prop_fabs_idempotent(x: f32) -> bool {
    fabs(x) == fabs(fabs(x))
}

#[test]
fn test_fabs_idempotent() {
    quickcheck(prop_fabs_idempotent as fn(f32) -> bool);
}

// If a number is not negative, the absolute value of x should
// be equal to x.

fn prop_nonnegative_equal(x: f32) -> TestResult {
    if x < 0.0 {
        TestResult::discard()
    } else {
        TestResult::from_bool(fabs(x) == x)
    }
}

#[test]
fn test_fabs_nonnegative_equal() {
    quickcheck(prop_nonnegative_equal as fn(f32) -> TestResult);
}

// If a number is negative, the absolute value of x should
// be greater than x.

fn prop_negative_gt(x: f32) -> TestResult {
    if x >= 0.0 {
        TestResult::discard()
    } else {
        TestResult::from_bool(fabs(x) > x)
    }
}

#[test]
fn test_fabs_negative_gt() {
    quickcheck(prop_negative_gt as fn(f32) -> TestResult);
}

// Concrete edge cases

#[test]
fn test_fabs_zero() {
    assert_eq!(0.0, fabs(0.0));
    assert!(fabs(0.0).is_sign_positive());
}

#[test]
fn test_fabs_negative_zero_sign_preserved() {
    // -0.0 satisfies the branch's `x >= 0.0` test, so it comes back
    // unchanged, negative sign and all
    let r = fabs(-0.0);
    assert_eq!(r, 0.0);
    assert!(r.is_sign_negative());
    assert_eq!(r.to_bits(), (-0.0f32).to_bits());
}

#[test]
fn test_fabs_nan_stays_nan() {
    assert!(fabs(f32::NAN).is_nan());
}

#[test]
fn test_fabs_infinity() {
    assert_eq!(f32::INFINITY, fabs(f32::NEG_INFINITY));
    assert_eq!(f32::INFINITY, fabs(f32::INFINITY));
}

#[test]
fn test_fabs_positive_fixed_point() {
    assert_eq!(3.5, fabs(3.5));
}

#[test]
fn test_fabs_negative_concrete() {
    assert_eq!(2.25, fabs(-2.25));
    assert!(fabs(-2.25) > -2.25);
    assert_eq!(fabs(fabs(-2.25)), fabs(-2.25));
}

#[test]
fn test_fabs_deterministic_concrete() {
    let x = -12.75f32;
    assert_eq!(fabs(x).to_bits(), fabs(x).to_bits());
}
