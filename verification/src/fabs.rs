//! The single-precision absolute-value branch `if x >= 0.0 { x } else { -x }`,
//! modelled on the IEEE-754 bit encoding of `x`.  The verifier does not admit
//! floating-point values, so the routine works on the 32 encoding bits, where
//! the comparison with zero, negation, and NaN-hood are all plain bit tests:
//! negation flips the sign bit and leaves every other bit alone, `x >= 0.0`
//! holds exactly of the non-NaN encodings with sign bit clear and of both
//! zeros, and a NaN never satisfies the comparison.

use vstd::prelude::*;

verus! {

/// Sign bit of the IEEE-754 single-precision encoding.
pub const SIGN_MASK: u32 = 0x8000_0000;

/// Exponent field of the encoding.
pub const EXP_MASK: u32 = 0x7f80_0000;

/// Fraction (significand) field of the encoding.
pub const FRAC_MASK: u32 = 0x007f_ffff;

/// Everything but the sign: the magnitude bits.
pub const MAG_MASK: u32 = 0x7fff_ffff;

/// The encoding denotes a NaN: exponent all ones and a nonzero fraction.
pub open spec fn is_nan(b: u32) -> bool {
    b & EXP_MASK == EXP_MASK && b & FRAC_MASK != 0
}

/// The sign bit is set: the encoding of a negative value, of the negative
/// zero, or of a NaN with negative sign.
pub open spec fn sign_set(b: u32) -> bool {
    b & SIGN_MASK != 0
}

/// The encoding with its sign bit cleared.
pub open spec fn magnitude(b: u32) -> u32 {
    b & MAG_MASK
}

/// The comparison `x >= 0.0` on encodings: it holds of every non-NaN
/// encoding whose sign bit is clear, of both zeros, and of nothing else.
pub open spec fn ge_zero(b: u32) -> bool {
    !is_nan(b) && (!sign_set(b) || magnitude(b) == 0)
}

/// What the absolute-value branch returns: the encoding itself when it
/// satisfies `x >= 0.0`, otherwise the encoding with its sign bit flipped
/// (IEEE-754 negation).
pub open spec fn spec_fabs(b: u32) -> u32 {
    if ge_zero(b) {
        b
    } else {
        b ^ SIGN_MASK
    }
}

/// Absolute value on the bit encoding of a single-precision number:
/// returns the encoding unchanged when it satisfies `x >= 0.0` (so the
/// negative zero comes back as it is), and otherwise flips the sign bit.
/// The result is a function of the argument alone, so two calls on equal
/// encodings return equal results.
pub fn fabs_bits(b: u32) -> (r: u32)
    ensures
        r == spec_fabs(b),
{
    let nan = (b & EXP_MASK) == EXP_MASK && (b & FRAC_MASK) != 0;
    if !nan && ((b & SIGN_MASK) == 0 || (b & MAG_MASK) == 0) {
        b
    } else {
        b ^ SIGN_MASK
    }
}

/// Numeric order of the non-NaN encodings: sign and magnitude read as a
/// signed integer.  Both zero encodings map to zero, and the IEEE-754
/// order of two non-NaN values is the order of their keys.
pub open spec fn order_key(b: u32) -> int {
    if sign_set(b) {
        -(magnitude(b) as int)
    } else {
        magnitude(b) as int
    }
}

/// Flipping the sign bit negates the sign test and changes nothing else:
/// NaN-hood and the magnitude bits stay as they were.
proof fn lemma_flip_sign(b: u32)
    ensures
        sign_set(b ^ SIGN_MASK) == !sign_set(b),
        is_nan(b ^ SIGN_MASK) == is_nan(b),
        magnitude(b ^ SIGN_MASK) == magnitude(b),
{
    assert(((b ^ 0x8000_0000u32) & 0x8000_0000u32 != 0) == !(b & 0x8000_0000u32 != 0))
        by (bit_vector);
    assert((b ^ 0x8000_0000u32) & 0x7f80_0000u32 == b & 0x7f80_0000u32) by (bit_vector);
    assert((b ^ 0x8000_0000u32) & 0x007f_ffffu32 == b & 0x007f_ffffu32) by (bit_vector);
    assert((b ^ 0x8000_0000u32) & 0x7fff_ffffu32 == b & 0x7fff_ffffu32) by (bit_vector);
}

/// The result of `abs` is never negative.  A NaN argument is exempt, as it
/// is from every ordering comparison: for every other argument the result
/// is not a NaN either, satisfies the `>= 0.0` test itself, and its order
/// key is at least the key of either zero.
pub proof fn lemma_fabs_nonnegative(b: u32)
    requires
        !is_nan(b),
    ensures
        !is_nan(spec_fabs(b)),
        ge_zero(spec_fabs(b)),
        order_key(spec_fabs(b)) >= 0,
{
    lemma_flip_sign(b);
}

/// `abs` keeps the distance from zero: the result is either the argument
/// itself or the argument with its sign flipped, and the magnitude bits
/// never change.
pub proof fn lemma_fabs_distance(b: u32)
    ensures
        spec_fabs(b) == b || spec_fabs(b) == b ^ SIGN_MASK,
        magnitude(spec_fabs(b)) == magnitude(b),
{
    lemma_flip_sign(b);
}

/// `abs` is deterministic: equal encodings give equal results.  Together
/// with the contract of `fabs_bits`, whose result is exactly `spec_fabs`
/// of its argument, repeated calls on the same argument agree.
pub proof fn lemma_fabs_deterministic(b1: u32, b2: u32)
    requires
        b1 == b2,
    ensures
        spec_fabs(b1) == spec_fabs(b2),
{
}

/// `abs` is idempotent away from NaN: applying it twice gives what one
/// application gives.  A NaN is the one exception: no NaN satisfies
/// `x >= 0.0`, so each application flips the sign of a NaN, and two
/// applications undo one.
pub proof fn lemma_fabs_idempotent(b: u32)
    requires
        !is_nan(b),
    ensures
        spec_fabs(spec_fabs(b)) == spec_fabs(b),
{
    lemma_flip_sign(b);
}

/// On an argument that already satisfies `x >= 0.0` — the positive values,
/// either zero, or infinity — `abs` is the identity.
pub proof fn lemma_fabs_fixed_on_nonnegative(b: u32)
    requires
        ge_zero(b),
    ensures
        spec_fabs(b) == b,
{
}

/// On a strictly negative argument `abs` strictly increases: the result's
/// order key exceeds the argument's.
pub proof fn lemma_fabs_negative_increases(b: u32)
    requires
        !is_nan(b),
        sign_set(b),
        magnitude(b) != 0,
    ensures
        order_key(spec_fabs(b)) > order_key(b),
{
    lemma_flip_sign(b);
}

} // verus!
