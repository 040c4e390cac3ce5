//! The IEEE special-value policy of the arithmetic operators.
//!
//! Each function decides the result where a NaN, an infinity or a zero
//! divisor settles it, and returns `None` where both operands are finite and
//! the result must be computed by error-free transformations.
use crate::binary64::nan;
use crate::double::Double;
use vstd::prelude::*;

verus! {

/// The NaN that an operation on `a` and `b` passes on: the first leading
/// component that is a NaN, sign and payload kept, in both components.
pub open spec fn passed_nan(a: Double, b: Double) -> Double {
    if nan(a.0) {
        Double(a.0, a.0)
    } else if nan(b.0) {
        Double(b.0, b.0)
    } else {
        Double::nan()
    }
}

/// Infinity with the given sign.
pub open spec fn signed_infinity(negative: bool) -> Double {
    if negative {
        Double::neg_infinity()
    } else {
        Double::infinity()
    }
}

/// Zero with the given sign.
pub open spec fn signed_zero(negative: bool) -> Double {
    if negative {
        Double::neg_zero()
    } else {
        Double::zero()
    }
}

/// The sum where special values decide it.
pub open spec fn sum_policy(a: Double, b: Double) -> Option<Double> {
    if a.is_nan() || b.is_nan() {
        Some(passed_nan(a, b))
    } else if a.is_infinite() && b.is_infinite() {
        if a.is_sign_negative() == b.is_sign_negative() {
            Some(signed_infinity(a.is_sign_negative()))
        } else {
            Some(Double::nan())
        }
    } else if a.is_infinite() {
        Some(signed_infinity(a.is_sign_negative()))
    } else if b.is_infinite() {
        Some(signed_infinity(b.is_sign_negative()))
    } else {
        None
    }
}

/// The product where special values decide it: the sign of an infinite
/// result is the exclusive or of the operands' signs.
pub open spec fn product_policy(a: Double, b: Double) -> Option<Double> {
    if a.is_nan() || b.is_nan() {
        Some(passed_nan(a, b))
    } else if a.is_infinite() || b.is_infinite() {
        if a.is_zero() || b.is_zero() {
            Some(Double::nan())
        } else {
            Some(signed_infinity(a.is_sign_negative() != b.is_sign_negative()))
        }
    } else {
        None
    }
}

/// The quotient where special values or a zero divisor decide it.
pub open spec fn quotient_policy(a: Double, b: Double) -> Option<Double> {
    let negative = a.is_sign_negative() != b.is_sign_negative();
    if a.is_nan() || b.is_nan() {
        Some(passed_nan(a, b))
    } else if a.is_infinite() {
        if b.is_infinite() {
            Some(Double::nan())
        } else {
            Some(signed_infinity(negative))
        }
    } else if b.is_infinite() {
        Some(signed_zero(negative))
    } else if b.is_zero() {
        if a.is_zero() {
            Some(Double::nan())
        } else {
            Some(signed_infinity(negative))
        }
    } else {
        None
    }
}

/// The square root where special values or the sign decide it.
pub open spec fn sqrt_policy(a: Double) -> Option<Double> {
    if a.is_nan() {
        Some(passed_nan(a, a))
    } else if a.is_zero() {
        Some(a)
    } else if a.is_sign_negative() {
        Some(Double::nan())
    } else if a.is_infinite() {
        Some(Double::infinity())
    } else {
        None
    }
}

fn pass_nan(a: Double, b: Double) -> (r: Double)
    ensures
        r == passed_nan(a, b),
{
    if crate::binary64::is_nan_bits(a.0) {
        Double(a.0, a.0)
    } else if crate::binary64::is_nan_bits(b.0) {
        Double(b.0, b.0)
    } else {
        Double::nan()
    }
}

fn infinity_signed(negative: bool) -> (r: Double)
    ensures
        r == signed_infinity(negative),
        r.canonical(),
{
    if negative {
        Double::neg_infinity()
    } else {
        Double::infinity()
    }
}

fn zero_signed(negative: bool) -> (r: Double)
    ensures
        r == signed_zero(negative),
        r.canonical(),
{
    if negative {
        Double::neg_zero()
    } else {
        Double::zero()
    }
}

impl Double {
    /// The sum of `self` and `other` where special values decide it: a NaN
    /// passes on, infinities of opposite signs give NaN, and an infinity
    /// beside a finite value gives that infinity. `None` for two finite
    /// operands.
    pub fn special_sum(self, other: Double) -> (r: Option<Double>)
        ensures
            r == sum_policy(self, other),
            r matches Some(v) ==> v.canonical(),
            r is None <==> (self.is_finite() && other.is_finite() && !self.is_nan()
                && !other.is_nan()),
    {
        if self.is_nan() || other.is_nan() {
            Some(pass_nan(self, other))
        } else if self.is_infinite() && other.is_infinite() {
            if self.is_sign_negative() == other.is_sign_negative() {
                Some(infinity_signed(self.is_sign_negative()))
            } else {
                Some(Double::nan())
            }
        } else if self.is_infinite() {
            Some(infinity_signed(self.is_sign_negative()))
        } else if other.is_infinite() {
            Some(infinity_signed(other.is_sign_negative()))
        } else {
            None
        }
    }

    /// The difference `self - other` where special values decide it: the sum
    /// with the negation of `other`.
    pub fn special_difference(self, other: Double) -> (r: Option<Double>)
        ensures
            r == sum_policy(self, other.negated()),
            r matches Some(v) ==> v.canonical(),
    {
        self.special_sum(other.neg())
    }

    /// The product where special values decide it: a NaN passes on, zero
    /// times infinity gives NaN, and otherwise an infinity takes the
    /// exclusive or of the signs. `None` for two finite operands.
    pub fn special_product(self, other: Double) -> (r: Option<Double>)
        ensures
            r == product_policy(self, other),
            r matches Some(v) ==> v.canonical(),
            r is None <==> (self.is_finite() && other.is_finite() && !self.is_nan()
                && !other.is_nan()),
    {
        if self.is_nan() || other.is_nan() {
            Some(pass_nan(self, other))
        } else if self.is_infinite() || other.is_infinite() {
            if self.is_zero() || other.is_zero() {
                Some(Double::nan())
            } else {
                Some(infinity_signed(self.is_sign_negative() != other.is_sign_negative()))
            }
        } else {
            None
        }
    }

    /// The quotient where special values or a zero divisor decide it.
    /// `None` for a finite dividend and a finite non-zero divisor.
    pub fn special_quotient(self, other: Double) -> (r: Option<Double>)
        ensures
            r == quotient_policy(self, other),
            r matches Some(v) ==> v.canonical(),
            r is None <==> (self.is_finite() && other.is_finite() && !self.is_nan()
                && !other.is_nan() && !other.is_zero()),
    {
        let negative = self.is_sign_negative() != other.is_sign_negative();
        if self.is_nan() || other.is_nan() {
            Some(pass_nan(self, other))
        } else if self.is_infinite() {
            if other.is_infinite() {
                Some(Double::nan())
            } else {
                Some(infinity_signed(negative))
            }
        } else if other.is_infinite() {
            Some(zero_signed(negative))
        } else if other.is_zero() {
            if self.is_zero() {
                Some(Double::nan())
            } else {
                Some(infinity_signed(negative))
            }
        } else {
            None
        }
    }

    /// The square root where special values or the sign decide it: a zero
    /// is its own root, a negative value gives NaN, positive infinity gives
    /// itself. `None` for a positive finite value.
    pub fn special_sqrt(self) -> (r: Option<Double>)
        ensures
            r == sqrt_policy(self),
            self.canonical() ==> (r matches Some(v) ==> v.canonical()),
            r is None <==> (self.is_finite() && !self.is_nan() && !self.is_zero()
                && !self.is_sign_negative()),
    {
        if self.is_nan() {
            Some(pass_nan(self, self))
        } else if self.is_zero() {
            Some(self)
        } else if self.is_sign_negative() {
            Some(Double::nan())
        } else if self.is_infinite() {
            Some(Double::infinity())
        } else {
            None
        }
    }
}

} // verus!
