use qd::format::{render, Align, FormatSpec, Notation, MAX_ACCURACY};
use qd::quad::Quad;

const PI_DIGITS: &str = "314159265358979323846264338327950288419716939937510582097494459";
const LN2_DIGITS: &str = "693147180559945309417232121458176568075500134360255254120680009";

fn plain() -> FormatSpec {
    FormatSpec { sign_plus: false, zero_pad: false, fill: ' ', align: None, width: None, precision: None }
}

fn digits_of(text: &str) -> Vec<u8> {
    let mut d: Vec<u8> = text.bytes().map(|b| b - b'0').collect();
    d.resize(MAX_ACCURACY + 1, 0);
    d
}

fn q(x: f64) -> Quad {
    Quad(x.to_bits(), 0, 0, 0)
}

fn pi() -> Quad {
    Quad(
        std::f64::consts::PI.to_bits(),
        1.2246467991473532e-16f64.to_bits(),
        (-2.9947698097183397e-33f64).to_bits(),
        1.1124542208633655e-49f64.to_bits(),
    )
}

fn show(value: Quad, spec: FormatSpec, notation: Notation, digits: &str, exp: i32) -> String {
    render(&value, &spec, notation, digits_of(digits), exp).into_iter().collect()
}

fn fixed(value: Quad, spec: FormatSpec, digits: &str, exp: i32) -> String {
    show(value, spec, Notation::Fixed, digits, exp)
}

#[test]
fn format_pi_default() {
    assert_eq!(
        fixed(pi(), plain(), PI_DIGITS, 0),
        "3.1415926535897932384626433832795028841971693993751058209749446"
    );
    assert_eq!(
        fixed(pi().neg(), plain(), PI_DIGITS, 0),
        "-3.1415926535897932384626433832795028841971693993751058209749446"
    );
    let plus = FormatSpec { sign_plus: true, ..plain() };
    assert_eq!(
        fixed(pi(), plus, PI_DIGITS, 0),
        "+3.1415926535897932384626433832795028841971693993751058209749446"
    );
}

#[test]
fn format_pi_width_and_precision() {
    let spec = FormatSpec { width: Some(10), precision: Some(5), ..plain() };
    assert_eq!(fixed(pi(), spec, PI_DIGITS, 0), "   3.14159");
    let left = FormatSpec { align: Some(Align::Left), ..spec };
    assert_eq!(fixed(pi(), left, PI_DIGITS, 0), "3.14159   ");
    let center = FormatSpec { align: Some(Align::Center), ..spec };
    assert_eq!(fixed(pi(), center, PI_DIGITS, 0), " 3.14159  ");
    let fill = FormatSpec { align: Some(Align::Right), fill: '_', ..spec };
    assert_eq!(fixed(pi(), fill, PI_DIGITS, 0), "___3.14159");
    let zero = FormatSpec { zero_pad: true, ..spec };
    assert_eq!(fixed(pi(), zero, PI_DIGITS, 0), "0003.14159");
    let narrow = FormatSpec { width: Some(10), ..plain() };
    assert_eq!(
        fixed(pi(), narrow, PI_DIGITS, 0),
        "3.1415926535897932384626433832795028841971693993751058209749446"
    );
}

#[test]
fn format_pi_precisions() {
    let p = |n: usize| FormatSpec { precision: Some(n), ..plain() };
    assert_eq!(fixed(pi(), p(10), PI_DIGITS, 0), "3.1415926536");
    assert_eq!(fixed(pi(), p(14), PI_DIGITS, 0), "3.14159265358979");
    assert_eq!(fixed(pi(), p(40), PI_DIGITS, 0), "3.1415926535897932384626433832795028841972");
    assert_eq!(
        fixed(pi(), p(70), PI_DIGITS, 0),
        "3.1415926535897932384626433832795028841971693993751058209749446000000000"
    );
    assert_eq!(fixed(pi(), p(0), PI_DIGITS, 0), "3");
    assert_eq!(fixed(pi().neg(), p(0), PI_DIGITS, 0), "-3");
}

#[test]
fn format_exponential_zero_padded() {
    let spec = FormatSpec { sign_plus: true, zero_pad: true, width: Some(12), ..plain() };
    assert_eq!(show(q(123456.0), spec, Notation::LowerExp, "123456", 5), "+001.23456e5");
    assert_eq!(show(q(123456.0), plain(), Notation::UpperExp, "123456", 5), "1.23456E5");
}

#[test]
fn format_exponential_precision() {
    let v = q(0.016777216);
    let p = |n: usize| FormatSpec { precision: Some(n), ..plain() };
    assert_eq!(show(v, p(3), Notation::LowerExp, "16777216", -2), "1.678e-2");
    assert_eq!(show(v, p(4), Notation::UpperExp, "16777216", -2), "1.6777E-2");
    assert_eq!(show(v, p(10), Notation::UpperExp, "16777216", -2), "1.6777216000E-2");
    assert_eq!(fixed(v, p(0), "16777216", -2), "0");
    assert_eq!(fixed(v, p(5), "16777216", -2), "0.01678");
    assert_eq!(fixed(v, p(12), "16777216", -2), "0.016777216000");
}

#[test]
fn format_small_fraction() {
    let v = q(0.0069314718055994530941723212145817656807550013436025525412068001);
    assert_eq!(
        fixed(v, plain(), LN2_DIGITS, -3),
        "0.0069314718055994530941723212145817656807550013436025525412068001"
    );
    let p = |n: usize| FormatSpec { precision: Some(n), ..plain() };
    assert_eq!(fixed(v, p(10), LN2_DIGITS, -3), "0.0069314718");
    assert_eq!(fixed(v, p(14), LN2_DIGITS, -3), "0.00693147180560");
    assert_eq!(fixed(v, p(40), LN2_DIGITS, -3), "0.0069314718055994530941723212145817656808");
    assert_eq!(fixed(v, p(0), LN2_DIGITS, -3), "0");
    assert_eq!(fixed(v.neg(), p(0), LN2_DIGITS, -3), "-0");
    let ln2 = q(std::f64::consts::LN_2);
    assert_eq!(fixed(ln2, p(0), LN2_DIGITS, -1), "1");
    assert_eq!(fixed(ln2, p(10), LN2_DIGITS, -1), "0.6931471806");
}

#[test]
fn format_extreme_exponents() {
    let large = q(1.23456789012345678901234567890123456789e308);
    let digits = "123456789012345678901234567890123456789";
    let expected = format!("123456789012345678901234567890123456789{}", "0".repeat(270));
    assert_eq!(fixed(large, plain(), digits, 308), expected);
    let p8 = FormatSpec { precision: Some(8), ..plain() };
    assert_eq!(fixed(large, p8, digits, 308), format!("{}.00000000", expected));
    let small = q(1.234567890123456789e-308);
    let digits = "1234567890123456789";
    assert_eq!(
        fixed(small, plain(), digits, -308),
        format!("0.{}1234567890123457", "0".repeat(307))
    );
    assert_eq!(fixed(small, p8, digits, -308), "0.00000000");
    let p316 = FormatSpec { precision: Some(316), ..plain() };
    assert_eq!(fixed(small, p316, digits, -308), format!("0.{}123456789", "0".repeat(307)));
}

#[test]
fn format_special_values() {
    let plus = FormatSpec { sign_plus: true, ..plain() };
    let nan = Quad(0x7ff8_0000_0000_0000, 0x7ff8_0000_0000_0000, 0x7ff8_0000_0000_0000, 0x7ff8_0000_0000_0000);
    assert_eq!(fixed(nan, plain(), "", 0), "NaN");
    assert_eq!(fixed(nan.neg(), plain(), "", 0), "-NaN");
    assert_eq!(fixed(nan, plus, "", 0), "+NaN");
    assert_eq!(fixed(nan.neg(), plus, "", 0), "-NaN");
    let inf = q(f64::INFINITY);
    assert_eq!(fixed(inf, plain(), "", 0), "inf");
    assert_eq!(fixed(inf.neg(), plain(), "", 0), "-inf");
    assert_eq!(fixed(inf, plus, "", 0), "+inf");
    assert_eq!(show(inf, plain(), Notation::LowerExp, "", 0), "inf");
    assert_eq!(show(nan.neg(), plus, Notation::UpperExp, "", 0), "-NaN");
}

#[test]
fn format_zeros() {
    let plus = FormatSpec { sign_plus: true, ..plain() };
    let zero = q(0.0);
    let neg_zero = q(-0.0);
    assert_eq!(fixed(zero, plain(), "", 0), "0");
    assert_eq!(fixed(neg_zero, plain(), "", 0), "-0");
    assert_eq!(fixed(zero, plus, "", 0), "+0");
    assert_eq!(fixed(neg_zero, plus, "", 0), "-0");
    assert_eq!(fixed(zero, FormatSpec { precision: Some(4), ..plain() }, "", 0), "0.0000");
    assert_eq!(fixed(neg_zero, FormatSpec { precision: Some(1), ..plain() }, "", 0), "-0.0");
    assert_eq!(show(zero, plain(), Notation::LowerExp, "", 0), "0e0");
    assert_eq!(show(neg_zero, plus, Notation::UpperExp, "", 0), "-0E0");
    assert_eq!(
        show(zero, FormatSpec { precision: Some(3), ..plain() }, Notation::LowerExp, "", 0),
        "0.000e0"
    );
}

#[test]
fn format_alignment_and_fill() {
    let w = |align: Option<Align>, fill: char| FormatSpec { width: Some(10), align, fill, ..plain() };
    let one = q(1.0);
    assert_eq!(fixed(one, w(None, ' '), "1", 0), "         1");
    assert_eq!(fixed(one, w(Some(Align::Left), ' '), "1", 0), "1         ");
    assert_eq!(fixed(one, w(Some(Align::Center), ' '), "1", 0), "    1     ");
    assert_eq!(fixed(one, w(Some(Align::Center), '_'), "1", 0), "____1_____");
    assert_eq!(fixed(one.neg(), w(Some(Align::Right), '_'), "1", 0), "________-1");
    let inf = q(f64::INFINITY);
    assert_eq!(fixed(inf, w(Some(Align::Center), ' '), "", 0), "   inf    ");
    assert_eq!(fixed(inf.neg(), w(Some(Align::Center), ' '), "", 0), "   -inf   ");
    let zero_pad = FormatSpec { zero_pad: true, width: Some(10), ..plain() };
    assert_eq!(fixed(one.neg(), zero_pad, "1", 0), "-000000001");
    assert_eq!(fixed(q(-0.0), zero_pad, "", 0), "-000000000");
    assert_eq!(fixed(inf, zero_pad, "", 0), "0000000inf");
    let right_zero = FormatSpec { align: Some(Align::Right), fill: '0', width: Some(10), ..plain() };
    assert_eq!(fixed(q(-123456.0), right_zero, "123456", 5), "000-123456");
}

#[test]
fn format_rounding_carries() {
    let p = |n: usize| FormatSpec { precision: Some(n), ..plain() };
    // 9.96 to one decimal: the carry adds an integer digit
    assert_eq!(fixed(q(9.96), p(1), "996", 0), "10.0");
    assert_eq!(show(q(9.96), p(1), Notation::LowerExp, "996", 0), "1.0e1");
    // ties go to the even digit
    assert_eq!(fixed(q(2.5), p(0), "25", 0), "2");
    assert_eq!(fixed(q(3.5), p(0), "35", 0), "4");
    assert_eq!(fixed(q(2.51), p(0), "251", 0), "3");
    // sixty-three nines round up to the next power of ten
    let nines = "9".repeat(63);
    assert_eq!(fixed(q(99.99), plain(), &nines, 1), "100");
    assert_eq!(show(q(99.99), plain(), Notation::LowerExp, &nines, 1), "1e2");
}
