use qd::double::Double;

fn same(a: Double, b: Double) -> bool {
    a.0 == b.0 && a.1 == b.1
}

fn samples() -> Vec<Double> {
    vec![
        Double::pi(),
        Double::neg_zero(),
        Double::nan(),
        Double(0x7ff4_0000_dead_beef, 0xfff8_0000_0000_0001),
        Double((-1.0f64).to_bits(), 1e-20f64.to_bits()),
        Double::infinity(),
    ]
}

#[test]
fn bytes_round_trip() {
    for v in samples() {
        assert!(same(Double::from_be_bytes(v.to_be_bytes()), v));
        assert!(same(Double::from_le_bytes(v.to_le_bytes()), v));
        assert!(same(Double::from_ne_bytes(v.to_ne_bytes()), v));
        assert!(same(Double::from_bits(v.to_bits()), v));
    }
}

#[test]
fn byte_layout() {
    let one = Double::one();
    assert_eq!(one.to_bits(), 0x3ff0_0000_0000_0000u128);
    let mut be = [0u8; 16];
    be[8] = 0x3f;
    be[9] = 0xf0;
    assert_eq!(one.to_be_bytes(), be);
    let mut le = [0u8; 16];
    le[6] = 0xf0;
    le[7] = 0x3f;
    assert_eq!(one.to_le_bytes(), le);
    let ne = one.to_ne_bytes();
    assert!(ne == le || ne == be);
    let pi = Double::pi();
    assert_eq!(pi.to_bits(), ((pi.1 as u128) << 64) | pi.0 as u128);
    assert_eq!(pi.to_le_bytes(), pi.to_bits().to_le_bytes());
    assert_eq!(pi.to_be_bytes(), pi.to_bits().to_be_bytes());
    assert_eq!(pi.to_ne_bytes(), pi.to_bits().to_ne_bytes());
}

#[test]
fn bytes_read_back() {
    let mut b = [0u8; 16];
    for (i, x) in b.iter_mut().enumerate() {
        *x = (i as u8).wrapping_mul(37).wrapping_add(5);
    }
    assert_eq!(Double::from_le_bytes(b).to_le_bytes(), b);
    assert_eq!(Double::from_be_bytes(b).to_be_bytes(), b);
    assert_eq!(Double::from_ne_bytes(b).to_ne_bytes(), b);
    assert_eq!(Double::from_le_bytes(b).to_bits(), u128::from_le_bytes(b));
    assert_eq!(Double::from_be_bytes(b).to_bits(), u128::from_be_bytes(b));
}
