//! The double-double: an unevaluated sum of two binary64 components.
use crate::binary64::{
    eq_bits, flip_sign, float_cmp, float_eq, infinite, is_infinite_bits, is_nan_bits,
    is_sign_negative_bits, is_zero_bits, magnitude, nan, neg_bits, sign_negative, zero, INF_BITS,
    NAN_BITS, ONE_BITS, SIGN_BIT,
};
use vstd::arithmetic::power2::pow2;
use vstd::prelude::*;

verus! {

/// A double-double number: the real `c0 + c1`, where `c0` and `c1` are
/// binary64 values held as their bit patterns.
#[derive(Clone, Copy, Debug)]
pub struct Double(pub u64, pub u64);

/// The bit pattern of the largest magnitude that a trailing component may
/// have beside a leading component `b`: half a unit in the last place of `b`,
/// or zero where that half unit is below the smallest subnormal.
pub open spec fn half_ulp_bound(b: u64) -> int {
    let e = magnitude(b) / 0x10_0000_0000_0000;
    let e = if e < 1 { 1 } else { e };
    if e >= 54 {
        (e - 53) * 0x10_0000_0000_0000
    } else if e >= 2 {
        pow2((e - 2) as nat) as int
    } else {
        0
    }
}

impl Double {
    pub open spec fn spec_zero() -> Double {
        Double(0, 0)
    }

    /// Positive zero.
    #[verifier::when_used_as_spec(spec_zero)]
    pub fn zero() -> (r: Double)
        ensures
            r == Double::spec_zero(),
            r.canonical(),
    {
        Double(0, 0)
    }

    pub open spec fn spec_neg_zero() -> Double {
        Double(SIGN_BIT, 0)
    }

    /// Negative zero.
    #[verifier::when_used_as_spec(spec_neg_zero)]
    pub fn neg_zero() -> (r: Double)
        ensures
            r == Double::spec_neg_zero(),
            r.canonical(),
    {
        Double(SIGN_BIT, 0)
    }

    pub open spec fn spec_one() -> Double {
        Double(ONE_BITS, 0)
    }

    /// One.
    #[verifier::when_used_as_spec(spec_one)]
    pub fn one() -> (r: Double)
        ensures
            r == Double::spec_one(),
            r.canonical(),
    {
        Double(ONE_BITS, 0)
    }

    pub open spec fn spec_neg_one() -> Double {
        Double(0xbff0_0000_0000_0000, 0)
    }

    /// Minus one.
    #[verifier::when_used_as_spec(spec_neg_one)]
    pub fn neg_one() -> (r: Double)
        ensures
            r == Double::spec_neg_one(),
            r.canonical(),
    {
        Double(0xbff0_0000_0000_0000, 0)
    }

    pub open spec fn spec_nan() -> Double {
        Double(NAN_BITS, NAN_BITS)
    }

    /// A quiet NaN in both components.
    #[verifier::when_used_as_spec(spec_nan)]
    pub fn nan() -> (r: Double)
        ensures
            r == Double::spec_nan(),
            r.canonical(),
    {
        Double(NAN_BITS, NAN_BITS)
    }

    pub open spec fn spec_infinity() -> Double {
        Double(INF_BITS, 0)
    }

    /// Positive infinity.
    #[verifier::when_used_as_spec(spec_infinity)]
    pub fn infinity() -> (r: Double)
        ensures
            r == Double::spec_infinity(),
            r.canonical(),
    {
        Double(INF_BITS, 0)
    }

    pub open spec fn spec_neg_infinity() -> Double {
        Double(0xfff0_0000_0000_0000, 0)
    }

    /// Negative infinity.
    #[verifier::when_used_as_spec(spec_neg_infinity)]
    pub fn neg_infinity() -> (r: Double)
        ensures
            r == Double::spec_neg_infinity(),
            r.canonical(),
    {
        Double(0xfff0_0000_0000_0000, 0)
    }

    pub open spec fn spec_pi() -> Double {
        Double(0x4009_21fb_5444_2d18, 0x3ca1_a626_3314_5c07)
    }

    /// π.
    #[verifier::when_used_as_spec(spec_pi)]
    pub fn pi() -> (r: Double)
        ensures
            r == Double::spec_pi(),
            r.canonical(),
    {
        Double(0x4009_21fb_5444_2d18, 0x3ca1_a626_3314_5c07)
    }

    pub open spec fn spec_frac_pi_2() -> Double {
        Double(0x3ff9_21fb_5444_2d18, 0x3c91_a626_3314_5c07)
    }

    /// π/2.
    #[verifier::when_used_as_spec(spec_frac_pi_2)]
    pub fn frac_pi_2() -> (r: Double)
        ensures
            r == Double::spec_frac_pi_2(),
            r.canonical(),
    {
        Double(0x3ff9_21fb_5444_2d18, 0x3c91_a626_3314_5c07)
    }

    pub open spec fn spec_frac_pi_4() -> Double {
        Double(0x3fe9_21fb_5444_2d18, 0x3c81_a626_3314_5c07)
    }

    /// π/4.
    #[verifier::when_used_as_spec(spec_frac_pi_4)]
    pub fn frac_pi_4() -> (r: Double)
        ensures
            r == Double::spec_frac_pi_4(),
            r.canonical(),
    {
        Double(0x3fe9_21fb_5444_2d18, 0x3c81_a626_3314_5c07)
    }

    pub open spec fn spec_frac_3_pi_4() -> Double {
        Double(0x4002_d97c_7f33_21d2, 0x3c9a_7939_4c9e_8a0a)
    }

    /// 3π/4.
    #[verifier::when_used_as_spec(spec_frac_3_pi_4)]
    pub fn frac_3_pi_4() -> (r: Double)
        ensures
            r == Double::spec_frac_3_pi_4(),
            r.canonical(),
    {
        Double(0x4002_d97c_7f33_21d2, 0x3c9a_7939_4c9e_8a0a)
    }

    /// The non-overlap and magnitude-ordering invariant: the trailing
    /// component is at most half a unit in the last place of the leading one.
    /// It is waived for NaNs and where the leading component is infinite.
    pub open spec fn canonical(self) -> bool {
        nan(self.0) || nan(self.1) || infinite(self.0) || magnitude(self.1) <= half_ulp_bound(
            self.0,
        )
    }

    pub open spec fn spec_is_nan(&self) -> bool {
        nan(self.0) || nan(self.1)
    }

    pub open spec fn spec_is_infinite(&self) -> bool {
        infinite(self.0)
    }

    pub open spec fn spec_is_finite(&self) -> bool {
        !infinite(self.0) && !nan(self.0)
    }

    pub open spec fn spec_is_zero(&self) -> bool {
        zero(self.0)
    }

    pub open spec fn spec_is_sign_negative(&self) -> bool {
        sign_negative(self.0)
    }

    /// Both components with their signs flipped.
    pub open spec fn negated(self) -> Double {
        Double(flip_sign(self.0), flip_sign(self.1))
    }

    /// The value itself where its leading component is positive, else its
    /// negation.
    pub open spec fn absolute(self) -> Double {
        if sign_negative(self.0) {
            self.negated()
        } else {
            self
        }
    }

    /// Componentwise IEEE equality.
    pub open spec fn same_value(self, other: Double) -> bool {
        float_eq(self.0, other.0) && float_eq(self.1, other.1)
    }

    /// Lexicographic order over the components; unordered where either value
    /// holds a NaN.
    pub open spec fn order(self, other: Double) -> Option<core::cmp::Ordering> {
        if self.spec_is_nan() || other.spec_is_nan() {
            None
        } else if float_cmp(self.0, other.0) == Some(core::cmp::Ordering::Equal) {
            float_cmp(self.1, other.1)
        } else {
            float_cmp(self.0, other.0)
        }
    }

    /// True where either component is a NaN.
    #[verifier::when_used_as_spec(spec_is_nan)]
    pub fn is_nan(&self) -> (r: bool)
        ensures
            r == self.spec_is_nan(),
    {
        is_nan_bits(self.0) || is_nan_bits(self.1)
    }

    /// True where the leading component is an infinity.
    #[verifier::when_used_as_spec(spec_is_infinite)]
    pub fn is_infinite(&self) -> (r: bool)
        ensures
            r == self.spec_is_infinite(),
    {
        is_infinite_bits(self.0)
    }

    /// True where the leading component is neither infinite nor a NaN.
    #[verifier::when_used_as_spec(spec_is_finite)]
    pub fn is_finite(&self) -> (r: bool)
        ensures
            r == self.spec_is_finite(),
    {
        !is_infinite_bits(self.0) && !is_nan_bits(self.0)
    }

    /// True where the leading component is `+0.0` or `-0.0`.
    #[verifier::when_used_as_spec(spec_is_zero)]
    pub fn is_zero(&self) -> (r: bool)
        ensures
            r == self.spec_is_zero(),
    {
        is_zero_bits(self.0)
    }

    /// True where the leading component's sign bit is set.
    #[verifier::when_used_as_spec(spec_is_sign_negative)]
    pub fn is_sign_negative(&self) -> (r: bool)
        ensures
            r == self.spec_is_sign_negative(),
    {
        is_sign_negative_bits(self.0)
    }

    /// True where the leading component's sign bit is clear.
    pub fn is_sign_positive(&self) -> (r: bool)
        ensures
            r == !self.spec_is_sign_negative(),
    {
        !is_sign_negative_bits(self.0)
    }

    /// The value whose leading component is the binary64 with bits `hi` and
    /// whose trailing component is `+0.0`.
    pub fn from_f64_bits(hi: u64) -> (r: Double)
        ensures
            r == Double(hi, 0),
            r.canonical(),
    {
        Double(hi, 0)
    }

    /// The bits of the leading component: the nearest binary64 to the value.
    pub fn to_f64_bits(self) -> (r: u64)
        ensures
            r == self.0,
    {
        self.0
    }

    /// The negation: the sign of every component flipped.
    pub fn neg(self) -> (r: Double)
        ensures
            r == self.negated(),
            self.canonical() ==> r.canonical(),
    {
        Double(neg_bits(self.0), neg_bits(self.1))
    }

    /// The absolute value.
    pub fn abs(self) -> (r: Double)
        ensures
            r == self.absolute(),
            self.canonical() ==> r.canonical(),
    {
        if self.is_sign_negative() {
            self.neg()
        } else {
            self
        }
    }

    /// The lexicographic comparison that `partial_cmp` makes.
    pub fn compare(&self, other: &Double) -> (r: Option<core::cmp::Ordering>)
        ensures
            r == self.order(*other),
    {
        if self.is_nan() || other.is_nan() {
            None
        } else {
            let first = crate::binary64::cmp_bits(self.0, other.0);
            match first {
                Some(core::cmp::Ordering::Equal) => crate::binary64::cmp_bits(self.1, other.1),
                _ => first,
            }
        }
    }

    /// The minimum of two values: `self` where it is less than or equal to
    /// `other`, else `other`, and `other` where the two are unordered.
    pub fn min(self, other: Double) -> (r: Double)
        ensures
            r == (match self.order(other) {
                Some(core::cmp::Ordering::Less) | Some(core::cmp::Ordering::Equal) => self,
                _ => other,
            }),
            self.canonical() && other.canonical() ==> r.canonical(),
    {
        match self.compare(&other) {
            Some(ordering) => match ordering {
                core::cmp::Ordering::Less | core::cmp::Ordering::Equal => self,
                core::cmp::Ordering::Greater => other,
            },
            None => other,
        }
    }

    /// The maximum of two values: `self` where it is greater than `other`,
    /// else `other`, and `other` where the two are unordered.
    pub fn max(self, other: Double) -> (r: Double)
        ensures
            r == (match self.order(other) {
                Some(core::cmp::Ordering::Greater) => self,
                _ => other,
            }),
            self.canonical() && other.canonical() ==> r.canonical(),
    {
        match self.compare(&other) {
            Some(ordering) => match ordering {
                core::cmp::Ordering::Less | core::cmp::Ordering::Equal => other,
                core::cmp::Ordering::Greater => self,
            },
            None => other,
        }
    }
}

impl PartialEq for Double {
    fn eq(&self, other: &Double) -> (r: bool) {
        eq_bits(self.0, other.0) && eq_bits(self.1, other.1)
    }
}

impl vstd::std_specs::cmp::PartialEqSpecImpl for Double {
    open spec fn obeys_eq_spec() -> bool {
        true
    }

    open spec fn eq_spec(&self, other: &Double) -> bool {
        self.same_value(*other)
    }
}

impl PartialOrd for Double {
    fn partial_cmp(&self, other: &Double) -> (r: Option<core::cmp::Ordering>) {
        self.compare(other)
    }
}

impl vstd::std_specs::cmp::PartialOrdSpecImpl for Double {
    open spec fn obeys_partial_cmp_spec() -> bool {
        true
    }

    open spec fn partial_cmp_spec(&self, other: &Double) -> Option<core::cmp::Ordering> {
        self.order(*other)
    }
}

/// Negation is an involution: negating twice gives back every component.
pub proof fn lemma_neg_involutive(a: Double)
    ensures
        a.negated().negated() == a,
{
    crate::binary64::lemma_flip_sign_involutive(a.0);
    crate::binary64::lemma_flip_sign_involutive(a.1);
}

/// Promoting a binary64 and reading the leading component back gives back the
/// same bits.
pub proof fn lemma_f64_round_trip(x: u64)
    ensures
        Double(x, 0).0 == x,
        Double(x, 0).canonical(),
{
}

/// The absolute value is idempotent.
pub proof fn lemma_abs_idempotent(a: Double)
    ensures
        a.absolute().absolute() == a.absolute(),
{
}

} // verus!
