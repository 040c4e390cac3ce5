//! The exactly known values of the two-argument inverse tangent.
use crate::double::Double;
use vstd::prelude::*;

verus! {

/// The angle of the point `(x, y)` where it is one of the quadrant constants
/// (or NaN), and `None` where the point lies in general position: both
/// coordinates finite and non-zero, and `y` equal to neither `x` nor `-x`.
///
/// A NaN in either coordinate gives NaN. A finite `y` beside an infinite `x`
/// gives zero whatever the sign of `x`.
pub open spec fn quadrant_angle(y: Double, x: Double) -> Option<Double> {
    if y.is_nan() || x.is_nan() {
        Some(Double::nan())
    } else if x.is_zero() {
        if y.is_zero() {
            Some(Double::nan())
        } else if !y.is_sign_negative() {
            Some(Double::frac_pi_2())
        } else {
            Some(Double::frac_pi_2().negated())
        }
    } else if y.is_zero() {
        if !x.is_sign_negative() {
            Some(Double::zero())
        } else {
            Some(Double::pi())
        }
    } else if y.is_infinite() {
        if x.is_infinite() {
            Some(Double::nan())
        } else if !y.is_sign_negative() {
            Some(Double::frac_pi_2())
        } else {
            Some(Double::frac_pi_2().negated())
        }
    } else if x.is_infinite() {
        Some(Double::zero())
    } else if y.same_value(x) {
        if !y.is_sign_negative() {
            Some(Double::frac_pi_4())
        } else {
            Some(Double::frac_3_pi_4().negated())
        }
    } else if y.same_value(x.negated()) {
        if !y.is_sign_negative() {
            Some(Double::frac_3_pi_4())
        } else {
            Some(Double::frac_pi_4().negated())
        }
    } else {
        None
    }
}

/// For finite non-zero coordinates the exactly known angles are the four
/// diagonal ones, ±π/4 and ±3π/4; every other such point is left to
/// refinement.
pub proof fn lemma_exact_angles_off_axes(y: Double, x: Double)
    requires
        y.is_finite(),
        x.is_finite(),
        !y.is_zero(),
        !x.is_zero(),
        !y.is_nan(),
        !x.is_nan(),
    ensures
        quadrant_angle(y, x) matches Some(a) ==> (a == Double::frac_pi_4() || a
            == Double::frac_pi_4().negated() || a == Double::frac_3_pi_4() || a
            == Double::frac_3_pi_4().negated()),
{
}

impl Double {
    /// The two-argument inverse tangent of `self` (the ordinate `y`) and
    /// `other` (the abscissa `x`), in the range [-π, π], where it is exactly
    /// known: on an axis, at an infinity, on a diagonal, or NaN.
    ///
    /// A finite ordinate beside an infinite abscissa gives zero for either
    /// sign of the abscissa, where IEEE `atan2` would give ±π for `-∞`.
    ///
    /// `None` means that the point lies in general position, where the angle
    /// is found by Newton refinement of a binary64 estimate in double-double
    /// arithmetic.
    pub fn atan2(self, other: Double) -> (r: Option<Double>)
        ensures
            r == quadrant_angle(self, other),
            r is None <==> (self.is_finite() && other.is_finite() && !self.is_zero()
                && !other.is_zero() && !self.is_nan() && !other.is_nan() && !self.same_value(other)
                && !self.same_value(other.negated())),
            r matches Some(a) ==> a.canonical(),
    {
        if self.is_nan() || other.is_nan() {
            Some(Double::nan())
        } else if other.is_zero() {
            if self.is_zero() {
                Some(Double::nan())
            } else if self.is_sign_positive() {
                Some(Double::frac_pi_2())
            } else {
                Some(Double::frac_pi_2().neg())
            }
        } else if self.is_zero() {
            if other.is_sign_positive() {
                Some(Double::zero())
            } else {
                Some(Double::pi())
            }
        } else if self.is_infinite() {
            if other.is_infinite() {
                Some(Double::nan())
            } else if self.is_sign_positive() {
                Some(Double::frac_pi_2())
            } else {
                Some(Double::frac_pi_2().neg())
            }
        } else if other.is_infinite() {
            Some(Double::zero())
        } else if self == other {
            if self.is_sign_positive() {
                Some(Double::frac_pi_4())
            } else {
                Some(Double::frac_3_pi_4().neg())
            }
        } else if self == other.neg() {
            if self.is_sign_positive() {
                Some(Double::frac_3_pi_4())
            } else {
                Some(Double::frac_pi_4().neg())
            }
        } else {
            None
        }
    }
}

} // verus!
