use qd::double::Double;
use std::cmp::Ordering;

fn d(x: f64) -> Double {
    Double::from_f64_bits(x.to_bits())
}

fn dd(hi: f64, lo: f64) -> Double {
    Double(hi.to_bits(), lo.to_bits())
}

fn same(a: Double, b: Double) -> bool {
    a.0 == b.0 && a.1 == b.1
}

#[test]
fn from_f64_round_trip() {
    for x in [0.0, -0.0, 1.5, -2.25e-300, f64::MAX, f64::MIN_POSITIVE, 5e-324, f64::INFINITY] {
        assert_eq!(d(x).to_f64_bits(), x.to_bits());
        assert_eq!(d(x).1, 0);
    }
    let nan = f64::from_bits(0x7ff8_0000_0000_0123);
    assert_eq!(d(nan).to_f64_bits(), 0x7ff8_0000_0000_0123);
}

#[test]
fn predicates() {
    assert!(Double::nan().is_nan());
    assert!(dd(1.0, f64::NAN).is_nan());
    assert!(!Double::infinity().is_nan());
    assert!(Double::infinity().is_infinite());
    assert!(Double::neg_infinity().is_infinite());
    assert!(!Double::infinity().is_finite());
    assert!(!Double::nan().is_finite());
    assert!(Double::pi().is_finite());
    assert!(Double::zero().is_zero());
    assert!(Double::neg_zero().is_zero());
    assert!(!Double::one().is_zero());
    assert!(Double::neg_zero().is_sign_negative());
    assert!(Double::one().is_sign_positive());
    assert!(Double::nan().neg().is_sign_negative());
}

#[test]
fn negation_is_an_involution() {
    for v in [Double::pi(), Double::neg_zero(), Double::nan(), dd(1.0, -1e-17), Double::infinity()] {
        let n = v.neg();
        assert!(same(n.neg(), v));
        assert_ne!(n.0, v.0);
        assert_eq!(f64::from_bits(n.0).to_bits(), (-f64::from_bits(v.0)).to_bits());
        assert_eq!(f64::from_bits(n.1).to_bits(), (-f64::from_bits(v.1)).to_bits());
    }
}

#[test]
fn abs_is_idempotent() {
    for v in [Double::pi().neg(), Double::pi(), Double::neg_zero(), dd(-1.0, 1e-17), Double::nan().neg()] {
        let a = v.abs();
        assert!(same(a.abs(), a));
        assert!(a.is_sign_positive());
    }
    let a = dd(-1.0, 1e-17).abs();
    assert!(same(a, dd(1.0, -1e-17)));
}

#[test]
fn equality_is_componentwise_ieee() {
    assert!(Double::zero() == Double::neg_zero());
    assert!(Double::pi() == Double::pi());
    assert!(Double::nan() != Double::nan());
    assert!(dd(1.0, 1e-17) != dd(1.0, -1e-17));
    assert!(dd(1.0, 0.0) == dd(1.0, -0.0));
}

#[test]
fn ordering_is_lexicographic() {
    assert_eq!(Double::one().partial_cmp(&Double::pi()), Some(Ordering::Less));
    assert_eq!(dd(1.0, 1e-17).partial_cmp(&dd(1.0, -1e-17)), Some(Ordering::Greater));
    assert_eq!(Double::zero().partial_cmp(&Double::neg_zero()), Some(Ordering::Equal));
    assert_eq!(Double::neg_infinity().partial_cmp(&Double::neg_one()), Some(Ordering::Less));
    assert_eq!(dd(2.0, f64::NAN).partial_cmp(&Double::one()), None);
    assert_eq!(Double::one().partial_cmp(&Double::nan()), None);
    assert!(Double::one() < Double::pi());
    assert!(Double::pi().neg() < Double::neg_one());
}

#[test]
fn min_and_max() {
    assert!(same(Double::one().min(Double::pi()), Double::one()));
    assert!(same(Double::pi().min(Double::one()), Double::one()));
    assert!(same(Double::one().max(Double::pi()), Double::pi()));
    assert!(same(Double::pi().max(Double::one()), Double::pi()));
    // equal values: min keeps self, max takes other
    assert!(same(Double::zero().min(Double::neg_zero()), Double::zero()));
    assert!(same(Double::zero().max(Double::neg_zero()), Double::neg_zero()));
    // unordered: the second operand
    assert!(same(Double::nan().min(Double::one()), Double::one()));
    assert!(Double::one().min(Double::nan()).is_nan());
    assert!(same(Double::nan().max(Double::one()), Double::one()));
    assert!(Double::one().max(Double::nan()).is_nan());
}
