use qd::double::Double;

fn same(a: Double, b: Double) -> bool {
    a.0 == b.0 && a.1 == b.1
}

fn angle(y: Double, x: Double) -> Double {
    y.atan2(x).expect("an exactly known angle")
}

#[test]
fn zero() {
    assert!(angle(Double::zero(), Double::zero()).is_nan());
    assert!(same(Double::zero(), angle(Double::zero(), Double::one())));
    assert!(same(Double::pi(), angle(Double::zero(), Double::neg_one())));
    assert!(same(Double::frac_pi_2(), angle(Double::one(), Double::zero())));
    assert!(same(Double::frac_pi_2().neg(), angle(Double::neg_one(), Double::zero())));
}

#[test]
fn one() {
    assert!(same(Double::frac_pi_4(), angle(Double::one(), Double::one())));
    assert!(same(Double::frac_3_pi_4().neg(), angle(Double::neg_one(), Double::neg_one())));
    assert!(same(Double::frac_3_pi_4(), angle(Double::one(), Double::neg_one())));
    assert!(same(Double::frac_pi_4().neg(), angle(Double::neg_one(), Double::one())));
}

#[test]
fn infinity() {
    assert!(angle(Double::infinity(), Double::infinity()).is_nan());
    assert!(same(Double::frac_pi_2(), angle(Double::infinity(), Double::one())));
    assert!(same(Double::frac_pi_2().neg(), angle(Double::neg_infinity(), Double::one())));
    assert!(same(Double::zero(), angle(Double::one(), Double::infinity())));
}

#[test]
fn nan() {
    assert!(angle(Double::nan(), Double::one()).is_nan());
    assert!(angle(Double::one(), Double::nan()).is_nan());
    assert!(angle(Double::nan(), Double::nan()).is_nan());
}

#[test]
fn atan2_general_position_is_left_to_refinement() {
    let two = Double::from_f64_bits(2.0f64.to_bits());
    let neg_two = Double::from_f64_bits((-2.0f64).to_bits());
    assert!(Double::one().atan2(two).is_none());
    assert!(Double::one().atan2(neg_two).is_none());
    assert!(Double::neg_one().atan2(two).is_none());
    assert!(Double::neg_one().atan2(neg_two).is_none());
}

#[test]
fn atan2_infinite_abscissa_gives_zero_for_either_sign() {
    assert!(same(Double::zero(), angle(Double::one(), Double::neg_infinity())));
    assert!(same(Double::zero(), angle(Double::neg_one(), Double::infinity())));
}

#[test]
fn atan2_nan_beside_zero_or_infinity() {
    assert!(angle(Double::nan(), Double::zero()).is_nan());
    assert!(angle(Double::zero(), Double::nan()).is_nan());
    assert!(angle(Double::infinity(), Double::nan()).is_nan());
    assert!(angle(Double::nan(), Double::infinity()).is_nan());
}

#[test]
fn atan2_negative_zero_ordinate() {
    assert!(same(Double::zero(), angle(Double::neg_zero(), Double::one())));
    assert!(same(Double::pi(), angle(Double::neg_zero(), Double::neg_one())));
    assert!(same(Double::frac_pi_2().neg(), angle(Double::neg_one(), Double::neg_zero())));
}

#[test]
fn atan2_diagonal_with_other_magnitudes() {
    let three = Double::from_f64_bits(3.0f64.to_bits());
    assert!(same(Double::frac_pi_4().neg(), angle(three.neg(), three)));
    assert!(same(Double::frac_3_pi_4(), angle(three, three.neg())));
}

#[test]
fn constants_match_binary64() {
    assert_eq!(f64::from_bits(Double::pi().0), std::f64::consts::PI);
    assert_eq!(f64::from_bits(Double::pi().1), 1.2246467991473532e-16);
    assert_eq!(f64::from_bits(Double::frac_pi_2().0), std::f64::consts::FRAC_PI_2);
    assert_eq!(f64::from_bits(Double::frac_pi_4().0), std::f64::consts::FRAC_PI_4);
    assert_eq!(f64::from_bits(Double::frac_3_pi_4().0), 2.356194490192345);
    assert_eq!(f64::from_bits(Double::frac_3_pi_4().1), 9.184850993605148e-17);
    assert!(f64::from_bits(Double::nan().0).is_nan());
    assert_eq!(f64::from_bits(Double::infinity().0), f64::INFINITY);
    assert_eq!(f64::from_bits(Double::neg_one().0), -1.0);
}
