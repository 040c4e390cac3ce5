//! The IEEE-754 binary64 format, read from a component's bit pattern.
//!
//! A component is held as the `u64` that holds its bits: the sign in the top
//! bit, then eleven bits of biased exponent, then fifty-two bits of fraction.
use vstd::prelude::*;

verus! {

/// The sign bit.
pub const SIGN_BIT: u64 = 0x8000_0000_0000_0000;

/// The bits of positive infinity; every larger magnitude is a NaN.
pub const INF_BITS: u64 = 0x7ff0_0000_0000_0000;

/// The bits of the quiet NaN that std names `f64::NAN`.
pub const NAN_BITS: u64 = 0x7ff8_0000_0000_0000;

/// The bits of `1.0`.
pub const ONE_BITS: u64 = 0x3ff0_0000_0000_0000;

/// The component with its sign bit cleared.
pub open spec fn magnitude(b: u64) -> u64 {
    (b % SIGN_BIT) as u64
}

/// True where the sign bit is set (also for `-0.0` and negative NaNs).
pub open spec fn sign_negative(b: u64) -> bool {
    b >= SIGN_BIT
}

pub open spec fn nan(b: u64) -> bool {
    magnitude(b) > INF_BITS
}

pub open spec fn infinite(b: u64) -> bool {
    magnitude(b) == INF_BITS
}

pub open spec fn zero(b: u64) -> bool {
    magnitude(b) == 0
}

/// The component with its sign bit flipped: IEEE negation.
pub open spec fn flip_sign(b: u64) -> u64 {
    if sign_negative(b) {
        (b - SIGN_BIT) as u64
    } else {
        (b + SIGN_BIT) as u64
    }
}

/// An integer that orders the non-NaN binary64 values as the reals they
/// denote do: positive bit patterns grow with their value, negative ones
/// shrink, and both zeros map to `0`.
pub open spec fn order_key(b: u64) -> int {
    if sign_negative(b) {
        -(magnitude(b) as int)
    } else {
        magnitude(b) as int
    }
}

/// IEEE equality of two components: no NaN is equal to anything, and
/// `+0.0 == -0.0`.
pub open spec fn float_eq(a: u64, b: u64) -> bool {
    !nan(a) && !nan(b) && order_key(a) == order_key(b)
}

/// IEEE comparison of two components: `None` where either is a NaN.
pub open spec fn float_cmp(a: u64, b: u64) -> Option<core::cmp::Ordering> {
    if nan(a) || nan(b) {
        None
    } else if order_key(a) < order_key(b) {
        Some(core::cmp::Ordering::Less)
    } else if order_key(a) == order_key(b) {
        Some(core::cmp::Ordering::Equal)
    } else {
        Some(core::cmp::Ordering::Greater)
    }
}

/// True where the bits are those of a NaN.
pub fn is_nan_bits(b: u64) -> (r: bool)
    ensures
        r == nan(b),
{
    b % SIGN_BIT > INF_BITS
}

/// True where the bits are those of an infinity.
pub fn is_infinite_bits(b: u64) -> (r: bool)
    ensures
        r == infinite(b),
{
    b % SIGN_BIT == INF_BITS
}

/// True where the bits are those of `+0.0` or `-0.0`.
pub fn is_zero_bits(b: u64) -> (r: bool)
    ensures
        r == zero(b),
{
    b % SIGN_BIT == 0
}

/// True where the sign bit is set.
pub fn is_sign_negative_bits(b: u64) -> (r: bool)
    ensures
        r == sign_negative(b),
{
    b >= SIGN_BIT
}

/// IEEE negation: the sign bit flipped.
pub fn neg_bits(b: u64) -> (r: u64)
    ensures
        r == flip_sign(b),
        magnitude(r) == magnitude(b),
        sign_negative(r) == !sign_negative(b),
{
    if b >= SIGN_BIT {
        b - SIGN_BIT
    } else {
        b + SIGN_BIT
    }
}

/// Flipping the sign twice gives back the same bits.
pub proof fn lemma_flip_sign_involutive(b: u64)
    ensures
        flip_sign(flip_sign(b)) == b,
{
}

/// IEEE equality of two components.
pub fn eq_bits(a: u64, b: u64) -> (r: bool)
    ensures
        r == float_eq(a, b),
{
    if is_nan_bits(a) || is_nan_bits(b) {
        false
    } else {
        key(a) == key(b)
    }
}

fn key(b: u64) -> (r: i128)
    ensures
        r == order_key(b),
{
    if b >= SIGN_BIT {
        -((b - SIGN_BIT) as i128)
    } else {
        b as i128
    }
}

/// IEEE comparison of two components.
pub fn cmp_bits(a: u64, b: u64) -> (r: Option<core::cmp::Ordering>)
    ensures
        r == float_cmp(a, b),
{
    if is_nan_bits(a) || is_nan_bits(b) {
        None
    } else {
        let ka = key(a);
        let kb = key(b);
        if ka < kb {
            Some(core::cmp::Ordering::Less)
        } else if ka == kb {
            Some(core::cmp::Ordering::Equal)
        } else {
            Some(core::cmp::Ordering::Greater)
        }
    }
}

} // verus!
