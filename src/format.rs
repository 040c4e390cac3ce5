//! Decimal rendering of a quad-double from its extracted digits.
//!
//! The digits of a finite non-zero value, and the decimal exponent of its
//! leading component, are found with binary64 arithmetic by the caller. What
//! follows is the decimal side: rounding, placing the point, the exponent
//! suffix, the sign, and padding to a width.
use crate::digits::{is_digits, rounded, round_and_trunc, zeros};
use crate::quad::Quad;
use vstd::prelude::*;

verus! {

/// The most significant digits that a quad-double carries.
pub const MAX_ACCURACY: usize = 62;

/// Where padding goes when the text is narrower than the width.
#[derive(Clone, Copy, Debug)]
pub enum Align {
    Left,
    Center,
    Right,
}

/// Fixed-point or scientific notation (with a lower or upper case `e`).
#[derive(Clone, Copy, Debug)]
pub enum Notation {
    Fixed,
    LowerExp,
    UpperExp,
}

/// The formatting options that the rendering honours.
#[derive(Clone, Copy, Debug)]
pub struct FormatSpec {
    /// Write `+` before non-negative values.
    pub sign_plus: bool,
    /// Pad with `0` between the sign and the digits where no alignment is
    /// given.
    pub zero_pad: bool,
    /// The padding character.
    pub fill: char,
    pub align: Option<Align>,
    pub width: Option<usize>,
    /// The number of fractional digits; without it trailing zeros are dropped.
    pub precision: Option<usize>,
}

/// The character of a decimal digit.
pub open spec fn digit_char(d: u8) -> char {
    ((d + 48) as u8) as char
}

/// The characters of a digit sequence.
pub open spec fn digit_chars(s: Seq<u8>) -> Seq<char> {
    s.map_values(|d: u8| digit_char(d))
}

/// The sign that is written: `-` for a set sign bit, `+` where asked for,
/// else nothing.
pub open spec fn sign_text(negative: bool, plus: bool) -> Seq<char> {
    if negative {
        seq!['-']
    } else if plus {
        seq!['+']
    } else {
        seq![]
    }
}

/// `n` copies of `c`.
pub open spec fn repeat(c: char, n: nat) -> Seq<char> {
    Seq::new(n, |i: int| c)
}

/// Zero, with as many fractional zeros as the precision asks for.
pub open spec fn zero_text(precision: Option<usize>) -> Seq<char> {
    match precision {
        Some(p) if p > 0 => seq!['0', '.'] + repeat('0', p as nat),
        _ => seq!['0'],
    }
}

/// The digits padded with zeros so that the integer part is complete for a
/// leading digit at decimal exponent `exp`: zeros in front for a negative
/// exponent, behind where the digits end before the point.
pub open spec fn zero_adjusted(s: Seq<u8>, exp: int) -> Seq<u8> {
    if exp < 0 {
        zeros((-exp) as nat) + s
    } else if exp >= s.len() {
        s + zeros((exp - s.len() + 1) as nat)
    } else {
        s
    }
}

/// The digits with their trailing zeros dropped, keeping at least `keep`.
pub open spec fn trimmed(s: Seq<u8>, keep: nat) -> Seq<u8>
    decreases s.len(),
{
    if s.len() > keep && s.last() == 0 {
        trimmed(s.drop_last(), keep)
    } else {
        s
    }
}

/// The digits cut or padded to `int_len` integer digits and `p` fractional
/// ones, rounding half to even where digits are cut; without a precision,
/// trailing fractional zeros are dropped instead.
pub open spec fn prec_adjusted(s: Seq<u8>, int_len: nat, precision: Option<usize>) -> Seq<u8> {
    match precision {
        Some(p) => if s.len() > int_len + p {
            rounded(s, (int_len + p) as nat)
        } else {
            s + zeros((int_len + p - s.len()) as nat)
        },
        None => if s.len() < int_len {
            s + zeros((int_len - s.len()) as nat)
        } else {
            trimmed(s, int_len)
        },
    }
}

/// The digits as text, with a point after the first `int_len` of them where
/// any follow.
pub open spec fn decimal_text(s: Seq<u8>, int_len: nat) -> Seq<char> {
    if int_len < s.len() {
        digit_chars(s.subrange(0, int_len as int)) + seq!['.'] + digit_chars(
            s.subrange(int_len as int, s.len() as int),
        )
    } else {
        digit_chars(s)
    }
}

/// Pushes the sign of `value` as `sign_text` gives it, and says whether one
/// was pushed.
pub fn push_sign(chars: &mut Vec<char>, value: &Quad, spec: &FormatSpec) -> (signed: bool)
    ensures
        final(chars)@ == old(chars)@ + sign_text(value.is_sign_negative(), spec.sign_plus),
        signed == (sign_text(value.is_sign_negative(), spec.sign_plus).len() > 0),
{
    if value.is_sign_negative() {
        chars.push('-');
        true
    } else if spec.sign_plus {
        chars.push('+');
        true
    } else {
        assert(chars@ =~= old(chars)@ + sign_text(value.is_sign_negative(), spec.sign_plus));
        false
    }
}

/// Pushes `n` copies of `c`.
fn push_repeat(chars: &mut Vec<char>, c: char, n: usize)
    ensures
        final(chars)@ == old(chars)@ + repeat(c, n as nat),
{
    let mut i: usize = 0;
    while i < n
        invariant
            i <= n,
            chars@ == old(chars)@ + repeat(c, i as nat),
        decreases n - i,
    {
        chars.push(c);
        i = i + 1;
        assert(chars@ =~= old(chars)@ + repeat(c, i as nat));
    }
}

/// Pushes the text of zero at the given precision.
pub fn push_zero(chars: &mut Vec<char>, precision: Option<usize>)
    ensures
        final(chars)@ == old(chars)@ + zero_text(precision),
{
    chars.push('0');
    match precision {
        Some(p) => {
            if p > 0 {
                chars.push('.');
                push_repeat(chars, '0', p);
                assert(chars@ =~= old(chars)@ + zero_text(precision));
            }
        },
        None => {},
    }
}

fn digit_to_char(d: u8) -> (c: char)
    requires
        d < 10,
    ensures
        c == digit_char(d),
{
    (d + 48) as char
}

/// Pads the digits with zeros as `zero_adjusted` says.
pub fn adjust_zeros(digits: &mut Vec<u8>, exp: i32)
    requires
        old(digits)@.len() + (if exp < 0 { -(exp as int) } else { exp as int }) + 1 < usize::MAX,
    ensures
        final(digits)@ == zero_adjusted(old(digits)@, exp as int),
{
    if exp < 0 {
        let n = (-(exp as i64)) as usize;
        let mut padded: Vec<u8> = Vec::new();
        let mut i: usize = 0;
        while i < n
            invariant
                i <= n,
                padded@ == zeros(i as nat),
            decreases n - i,
        {
            padded.push(0);
            i = i + 1;
            assert(padded@ =~= zeros(i as nat));
        }
        padded.append(digits);
        *digits = padded;
        assert(digits@ =~= zero_adjusted(old(digits)@, exp as int));
    } else if exp as usize >= digits.len() {
        let n = exp as usize - digits.len() + 1;
        let mut i: usize = 0;
        while i < n
            invariant
                i <= n,
                digits@ == old(digits)@ + zeros(i as nat),
            decreases n - i,
        {
            digits.push(0);
            i = i + 1;
            assert(digits@ =~= old(digits)@ + zeros(i as nat));
        }
    }
}

/// The digits as text with the point after `int_len` of them.
pub fn place_decimal(digits: &Vec<u8>, int_len: usize) -> (r: Vec<char>)
    requires
        is_digits(digits@),
    ensures
        r@ == decimal_text(digits@, int_len as nat),
{
    let mut r: Vec<char> = Vec::new();
    let mut i: usize = 0;
    while i < digits.len()
        invariant
            i <= digits@.len(),
            is_digits(digits@),
            r@ == if int_len < i {
                digit_chars(digits@.subrange(0, int_len as int)) + seq!['.'] + digit_chars(
                    digits@.subrange(int_len as int, i as int),
                )
            } else {
                digit_chars(digits@.subrange(0, i as int))
            },
        decreases digits@.len() - i,
    {
        if i == int_len {
            r.push('.');
        }
        r.push(digit_to_char(digits[i]));
        i = i + 1;
        proof {
            if int_len < i {
                assert(r@ =~= digit_chars(digits@.subrange(0, int_len as int)) + seq!['.']
                    + digit_chars(digits@.subrange(int_len as int, i as int)));
            } else {
                assert(r@ =~= digit_chars(digits@.subrange(0, i as int)));
            }
        }
    }
    assert(digits@.subrange(0, digits@.len() as int) =~= digits@);
    r
}

/// Whether the rounding of `prec_adjusted` carried into a new leading digit.
pub open spec fn prec_carries(s: Seq<u8>, int_len: nat, precision: Option<usize>) -> bool {
    match precision {
        Some(p) => s.len() > int_len + p && rounded(s, (int_len + p) as nat).len() > int_len + p,
        None => false,
    }
}

/// The decimal text of a natural number.
pub open spec fn nat_text(n: nat) -> Seq<char>
    decreases n,
{
    if n < 10 {
        seq![digit_char(n as u8)]
    } else {
        nat_text(n / 10).push(digit_char((n % 10) as u8))
    }
}

/// The decimal text of an integer, with `-` before a negative one.
pub open spec fn int_text(i: int) -> Seq<char> {
    if i < 0 {
        seq!['-'] + nat_text((-i) as nat)
    } else {
        nat_text(i as nat)
    }
}

/// The text padded to the width: by the alignment where one is given, else
/// with zeros after the sign where zero padding is asked for, else on the
/// left.
pub open spec fn padded(s: Seq<char>, signed: bool, spec: FormatSpec) -> Seq<char> {
    match spec.width {
        Some(w) if s.len() < w => {
            let d = (w - s.len()) as nat;
            match spec.align {
                Some(Align::Left) => s + repeat(spec.fill, d),
                Some(Align::Right) => repeat(spec.fill, d) + s,
                Some(Align::Center) => repeat(spec.fill, d / 2) + s + repeat(spec.fill, (d - d / 2) as nat),
                None => if spec.zero_pad {
                    let k = if signed { 1int } else { 0int };
                    s.subrange(0, k) + repeat('0', d) + s.subrange(k, s.len() as int)
                } else {
                    repeat(spec.fill, d) + s
                },
            }
        },
        _ => s,
    }
}

/// Trailing zeros dropped and digits rounded or padded to the precision, as
/// `prec_adjusted` says; returns whether the rounding carried.
pub fn adjust_prec(digits: &mut Vec<u8>, int_len: usize, precision: Option<usize>) -> (carried: bool)
    requires
        is_digits(old(digits)@),
        precision matches Some(p) ==> int_len + p < usize::MAX,
    ensures
        final(digits)@ == prec_adjusted(old(digits)@, int_len as nat, precision),
        carried == prec_carries(old(digits)@, int_len as nat, precision),
        is_digits(final(digits)@),
{
    match precision {
        Some(p) => {
            let want = int_len + p;
            if digits.len() > want {
                round_and_trunc(digits, want)
            } else {
                let n = want - digits.len();
                let mut i: usize = 0;
                while i < n
                    invariant
                        i <= n,
                        digits@ == old(digits)@ + zeros(i as nat),
                        is_digits(old(digits)@),
                    decreases n - i,
                {
                    digits.push(0);
                    i = i + 1;
                    assert(digits@ =~= old(digits)@ + zeros(i as nat));
                }
                false
            }
        },
        None => {
            if digits.len() < int_len {
                let n = int_len - digits.len();
                let mut i: usize = 0;
                while i < n
                    invariant
                        i <= n,
                        digits@ == old(digits)@ + zeros(i as nat),
                        is_digits(old(digits)@),
                    decreases n - i,
                {
                    digits.push(0);
                    i = i + 1;
                    assert(digits@ =~= old(digits)@ + zeros(i as nat));
                }
            } else {
                while digits.len() > int_len && digits[digits.len() - 1] == 0
                    invariant
                        trimmed(digits@, int_len as nat) == trimmed(old(digits)@, int_len as nat),
                        is_digits(digits@),
                    decreases digits@.len(),
                {
                    digits.pop();
                }
            }
            false
        },
    }
}

/// Pushes the exponent marker and the decimal text of `exp`.
pub fn push_exp(chars: &mut Vec<char>, marker: char, exp: i32)
    requires
        -1000 < exp < 1000,
    ensures
        final(chars)@ == old(chars)@ + seq![marker] + int_text(exp as int),
{
    chars.push(marker);
    let ghost before = chars@;
    if exp < 0 {
        chars.push('-');
    }
    let n: u32 = if exp < 0 { (-exp) as u32 } else { exp as u32 };
    let ghost mid = chars@;
    proof {
        reveal_with_fuel(nat_text, 3);
    }
    if n >= 100 {
        chars.push(digit_to_char((n / 100) as u8));
        chars.push(digit_to_char((n / 10 % 10) as u8));
        chars.push(digit_to_char((n % 10) as u8));
        assert(n / 10 / 10 == n / 100);
    } else if n >= 10 {
        chars.push(digit_to_char((n / 10) as u8));
        chars.push(digit_to_char((n % 10) as u8));
    } else {
        chars.push(digit_to_char(n as u8));
    }
    assert(chars@ =~= mid + nat_text(n as nat));
    assert(chars@ =~= old(chars)@ + seq![marker] + int_text(exp as int));
}

/// Pushes `src[from..to]`.
fn push_range(dst: &mut Vec<char>, src: &Vec<char>, from: usize, to: usize)
    requires
        from <= to <= src@.len(),
    ensures
        final(dst)@ == old(dst)@ + src@.subrange(from as int, to as int),
{
    let mut i = from;
    while i < to
        invariant
            from <= i <= to,
            to <= src@.len(),
            dst@ == old(dst)@ + src@.subrange(from as int, i as int),
        decreases to - i,
    {
        dst.push(src[i]);
        i = i + 1;
        assert(dst@ =~= old(dst)@ + src@.subrange(from as int, i as int));
    }
}

/// Pads the text to the width as `padded` says.
pub fn align_and_fill(chars: &mut Vec<char>, signed: bool, spec: &FormatSpec)
    requires
        signed ==> old(chars)@.len() >= 1,
    ensures
        final(chars)@ == padded(old(chars)@, signed, *spec),
{
    let len = chars.len();
    match spec.width {
        Some(w) => {
            if len < w {
                let d = w - len;
                let mut r: Vec<char> = Vec::new();
                match spec.align {
                    Some(Align::Left) => {
                        push_range(&mut r, chars, 0, len);
                        push_repeat(&mut r, spec.fill, d);
                    },
                    Some(Align::Right) => {
                        push_repeat(&mut r, spec.fill, d);
                        push_range(&mut r, chars, 0, len);
                    },
                    Some(Align::Center) => {
                        push_repeat(&mut r, spec.fill, d / 2);
                        push_range(&mut r, chars, 0, len);
                        push_repeat(&mut r, spec.fill, d - d / 2);
                    },
                    None => {
                        if spec.zero_pad {
                            let k: usize = if signed { 1 } else { 0 };
                            push_range(&mut r, chars, 0, k);
                            push_repeat(&mut r, '0', d);
                            push_range(&mut r, chars, k, len);
                        } else {
                            push_repeat(&mut r, spec.fill, d);
                            push_range(&mut r, chars, 0, len);
                        }
                    },
                }
                assert(chars@.subrange(0, len as int) =~= chars@);
                *chars = r;
                assert(chars@ =~= padded(old(chars)@, signed, *spec));
            }
        },
        None => {},
    }
}

/// How many significant digits are kept for a leading digit at decimal
/// exponent `exp`: `MAX_ACCURACY`, fewer where that would reach past the
/// 324th decimal place, below which no binary64 has digits.
pub open spec fn kept_digits(exp: int) -> nat {
    if exp + 324 <= 0 {
        0
    } else if exp + 324 < MAX_ACCURACY {
        (exp + 324) as nat
    } else {
        MAX_ACCURACY as nat
    }
}

/// The extracted digits rounded to `kept_digits(exp)`, with the exponent of
/// their leading digit: one more where the rounding carried, the extra
/// trailing zero then dropped.
pub open spec fn significand(digits: Seq<u8>, exp: int) -> (Seq<u8>, int) {
    let pos = kept_digits(exp);
    let r = rounded(digits, pos);
    if r.len() > pos {
        (if pos > 0 { r.drop_last() } else { r }, exp + 1)
    } else {
        (r, exp)
    }
}

/// Fixed-point text of the significant digits `sig` led at exponent `e`.
pub open spec fn fixed_text(sig: Seq<u8>, e: int, precision: Option<usize>) -> Seq<char> {
    let z = zero_adjusted(sig, e);
    let il: nat = if e < 0 { 1 } else { (e + 1) as nat };
    let a = prec_adjusted(z, il, precision);
    decimal_text(a, if prec_carries(z, il, precision) { il + 1 } else { il })
}

/// Scientific text of the significant digits `sig` led at exponent `e`.
pub open spec fn exp_text(sig: Seq<u8>, e: int, precision: Option<usize>, marker: char) -> Seq<
    char,
> {
    let a = prec_adjusted(sig, 1, precision);
    if prec_carries(sig, 1, precision) {
        decimal_text(a.drop_last(), 1) + seq![marker] + int_text(e + 1)
    } else {
        decimal_text(a, 1) + seq![marker] + int_text(e)
    }
}

pub open spec fn marker_of(notation: Notation) -> Option<char> {
    match notation {
        Notation::Fixed => None,
        Notation::LowerExp => Some('e'),
        Notation::UpperExp => Some('E'),
    }
}

/// The text after the sign.
pub open spec fn body_text(
    value: Quad,
    spec: FormatSpec,
    notation: Notation,
    digits: Seq<u8>,
    exp: int,
) -> Seq<char> {
    if value.is_nan() {
        seq!['N', 'a', 'N']
    } else if value.is_infinite() {
        seq!['i', 'n', 'f']
    } else if value.is_zero() {
        zero_text(spec.precision) + match marker_of(notation) {
            Some(m) => seq![m, '0'],
            None => seq![],
        }
    } else {
        let (sig, e) = significand(digits, exp);
        match marker_of(notation) {
            Some(m) => exp_text(sig, e, spec.precision, m),
            None => fixed_text(sig, e, spec.precision),
        }
    }
}

/// The whole text: sign, body, padding.
pub open spec fn rendered(
    value: Quad,
    spec: FormatSpec,
    notation: Notation,
    digits: Seq<u8>,
    exp: int,
) -> Seq<char> {
    let sign = sign_text(value.is_sign_negative(), spec.sign_plus);
    padded(sign + body_text(value, spec, notation, digits, exp), sign.len() > 0, spec)
}

/// Rounds the extracted digits of a value to the digits that it carries, as
/// `significand` says.
pub fn significant_digits(digits: Vec<u8>, exp: i32) -> (r: (Vec<u8>, i32))
    requires
        is_digits(digits@),
        digits@.len() == MAX_ACCURACY + 1,
        -324 <= exp <= 308,
    ensures
        (r.0@, r.1 as int) == significand(digits@, exp as int),
        is_digits(r.0@),
        -324 <= r.1 <= 309,
        r.0@.len() <= MAX_ACCURACY,
{
    let pos: usize = if exp <= -324 {
        0
    } else if exp + 324 < MAX_ACCURACY as i32 {
        (exp + 324) as usize
    } else {
        MAX_ACCURACY
    };
    let mut digits = digits;
    let carried = round_and_trunc(&mut digits, pos);
    if carried {
        if pos > 0 {
            digits.pop();
        }
        (digits, exp + 1)
    } else {
        (digits, exp)
    }
}

/// Pushes the fixed-point text of significant digits led at exponent `e`.
pub fn push_digits_fixed(chars: &mut Vec<char>, sig: Vec<u8>, e: i32, precision: Option<usize>)
    requires
        is_digits(sig@),
        sig@.len() <= MAX_ACCURACY,
        -324 <= e <= 309,
        precision matches Some(p) ==> p < usize::MAX - 1000,
    ensures
        final(chars)@ == old(chars)@ + fixed_text(sig@, e as int, precision),
{
    let mut digits = sig;
    adjust_zeros(&mut digits, e);
    proof {
        crate::digits::lemma_zeros_value(if e < 0 { (-e) as nat } else { (e - sig@.len() + 1) as nat });
        assert(is_digits(digits@));
    }
    let il: usize = if e < 0 { 1 } else { (e + 1) as usize };
    let carried = adjust_prec(&mut digits, il, precision);
    let text = place_decimal(&digits, if carried { il + 1 } else { il });
    let mut text = text;
    chars.append(&mut text);
}

/// Pushes the scientific text of significant digits led at exponent `e`.
pub fn push_digits_exp(
    chars: &mut Vec<char>,
    sig: Vec<u8>,
    e: i32,
    precision: Option<usize>,
    marker: char,
)
    requires
        is_digits(sig@),
        -324 <= e <= 309,
        precision matches Some(p) ==> p < usize::MAX - 1000,
    ensures
        final(chars)@ == old(chars)@ + exp_text(sig@, e as int, precision, marker),
{
    let mut digits = sig;
    let carried = adjust_prec(&mut digits, 1, precision);
    let e = if carried {
        digits.pop();
        e + 1
    } else {
        e
    };
    proof {
        assert(is_digits(digits@));
    }
    let mut text = place_decimal(&digits, 1);
    chars.append(&mut text);
    push_exp(chars, marker, e);
}

/// Renders a quad-double as `rendered` says. For a finite non-zero value,
/// `digits` are its first `MAX_ACCURACY + 1` decimal digits and `exp` the
/// decimal exponent of the leading one.
pub fn render(value: &Quad, spec: &FormatSpec, notation: Notation, digits: Vec<u8>, exp: i32) -> (r: Vec<char>)
    requires
        !value.is_nan() && !value.is_infinite() && !value.is_zero() ==> {
            &&& digits@.len() == MAX_ACCURACY + 1
            &&& is_digits(digits@)
            &&& -324 <= exp <= 308
        },
        spec.precision matches Some(p) ==> p < usize::MAX - 1000,
    ensures
        r@ == rendered(*value, *spec, notation, digits@, exp as int),
{
    let mut result: Vec<char> = Vec::new();
    let signed = push_sign(&mut result, value, spec);
    let ghost sign = result@;
    if value.is_nan() {
        result.push('N');
        result.push('a');
        result.push('N');
    } else if value.is_infinite() {
        result.push('i');
        result.push('n');
        result.push('f');
    } else if value.is_zero() {
        push_zero(&mut result, spec.precision);
        match notation {
            Notation::Fixed => {},
            Notation::LowerExp => {
                result.push('e');
                result.push('0');
            },
            Notation::UpperExp => {
                result.push('E');
                result.push('0');
            },
        }
    } else {
        let (sig, e) = significant_digits(digits, exp);
        match notation {
            Notation::Fixed => push_digits_fixed(&mut result, sig, e, spec.precision),
            Notation::LowerExp => push_digits_exp(&mut result, sig, e, spec.precision, 'e'),
            Notation::UpperExp => push_digits_exp(&mut result, sig, e, spec.precision, 'E'),
        }
    }
    assert(result@ =~= sign + body_text(*value, *spec, notation, digits@, exp as int));
    align_and_fill(&mut result, signed, spec);
    result
}

} // verus!
