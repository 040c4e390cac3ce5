//! The quad-double: an unevaluated sum of four binary64 components.
use crate::binary64::{
    flip_sign, infinite, magnitude, is_infinite_bits, is_nan_bits, is_sign_negative_bits, is_zero_bits,
    nan, neg_bits, sign_negative, zero,
};
use crate::double::half_ulp_bound;
use vstd::prelude::*;

verus! {

/// A quad-double number: the real `c0 + c1 + c2 + c3`, each component a
/// binary64 held as its bit pattern, largest first.
#[derive(Clone, Copy, Debug)]
pub struct Quad(pub u64, pub u64, pub u64, pub u64);

impl Quad {
    /// The non-overlap and magnitude-ordering invariant: each component is
    /// at most half a unit in the last place of the one before it. It is
    /// waived for NaNs and where the leading component is infinite.
    pub open spec fn canonical(self) -> bool {
        self.spec_is_nan() || infinite(self.0) || {
            &&& magnitude(self.1) <= half_ulp_bound(self.0)
            &&& magnitude(self.2) <= half_ulp_bound(self.1)
            &&& magnitude(self.3) <= half_ulp_bound(self.2)
        }
    }

    pub open spec fn spec_is_nan(&self) -> bool {
        nan(self.0) || nan(self.1) || nan(self.2) || nan(self.3)
    }

    pub open spec fn spec_is_infinite(&self) -> bool {
        infinite(self.0)
    }

    pub open spec fn spec_is_zero(&self) -> bool {
        zero(self.0)
    }

    pub open spec fn spec_is_sign_negative(&self) -> bool {
        sign_negative(self.0)
    }

    /// Every component with its sign flipped.
    pub open spec fn negated(self) -> Quad {
        Quad(flip_sign(self.0), flip_sign(self.1), flip_sign(self.2), flip_sign(self.3))
    }

    /// The negation where the leading component is negative, else the value
    /// itself.
    pub open spec fn absolute(self) -> Quad {
        if sign_negative(self.0) {
            self.negated()
        } else {
            self
        }
    }

    /// True where any component is a NaN.
    #[verifier::when_used_as_spec(spec_is_nan)]
    pub fn is_nan(&self) -> (r: bool)
        ensures
            r == self.spec_is_nan(),
    {
        is_nan_bits(self.0) || is_nan_bits(self.1) || is_nan_bits(self.2) || is_nan_bits(self.3)
    }

    /// True where the leading component is an infinity.
    #[verifier::when_used_as_spec(spec_is_infinite)]
    pub fn is_infinite(&self) -> (r: bool)
        ensures
            r == self.spec_is_infinite(),
    {
        is_infinite_bits(self.0)
    }

    /// True where the leading component is `+0.0` or `-0.0`.
    #[verifier::when_used_as_spec(spec_is_zero)]
    pub fn is_zero(&self) -> (r: bool)
        ensures
            r == self.spec_is_zero(),
    {
        is_zero_bits(self.0)
    }

    /// True where the leading component's sign bit is set.
    #[verifier::when_used_as_spec(spec_is_sign_negative)]
    pub fn is_sign_negative(&self) -> (r: bool)
        ensures
            r == self.spec_is_sign_negative(),
    {
        is_sign_negative_bits(self.0)
    }

    /// The negation: the sign of every component flipped.
    pub fn neg(self) -> (r: Quad)
        ensures
            r == self.negated(),
            self.canonical() ==> r.canonical(),
    {
        Quad(neg_bits(self.0), neg_bits(self.1), neg_bits(self.2), neg_bits(self.3))
    }

    /// The absolute value: the negation where the leading component is
    /// negative, else the value itself.
    pub fn abs(self) -> (r: Quad)
        ensures
            r == self.absolute(),
            self.canonical() ==> r.canonical(),
    {
        if self.is_sign_negative() {
            self.neg()
        } else {
            self
        }
    }
}

/// Negation is an involution: negating twice gives back every component.
pub proof fn lemma_quad_neg_involutive(a: Quad)
    ensures
        a.negated().negated() == a,
{
    crate::binary64::lemma_flip_sign_involutive(a.0);
    crate::binary64::lemma_flip_sign_involutive(a.1);
    crate::binary64::lemma_flip_sign_involutive(a.2);
    crate::binary64::lemma_flip_sign_involutive(a.3);
}

/// The absolute value is idempotent.
pub proof fn lemma_quad_abs_idempotent(a: Quad)
    ensures
        a.absolute().absolute() == a.absolute(),
{
}

} // verus!
