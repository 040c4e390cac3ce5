//! Buffers of decimal digits, most significant first, and rounding on them.
use vstd::prelude::*;

verus! {

pub open spec fn pow10(k: nat) -> nat
    decreases k,
{
    if k == 0 {
        1
    } else {
        10 * pow10((k - 1) as nat)
    }
}

/// Every entry is a decimal digit.
pub open spec fn is_digits(s: Seq<u8>) -> bool {
    forall|i: int| 0 <= i < s.len() ==> #[trigger] s[i] < 10
}

/// The natural number that the digits denote, most significant first.
pub open spec fn digits_value(s: Seq<u8>) -> nat
    decreases s.len(),
{
    if s.len() == 0 {
        0
    } else {
        digits_value(s.drop_last()) * 10 + (s.last() as nat)
    }
}

/// The last `k` decimal digits of `n`, most significant first.
pub open spec fn digits_of(n: nat, k: nat) -> Seq<u8>
    decreases k,
{
    if k == 0 {
        seq![]
    } else {
        digits_of(n / 10, (k - 1) as nat).push((n % 10) as u8)
    }
}

/// `v / m` rounded to the nearest integer, ties to the even one.
pub open spec fn round_half_even(v: nat, m: nat) -> nat
    recommends
        m > 0,
{
    let q = v / m;
    let r = v % m;
    if 2 * r > m || (2 * r == m && q % 2 == 1) {
        q + 1
    } else {
        q
    }
}

/// The first `pos` digits of `s`, rounded half to even on the digits that
/// follow. Where the rounding carries out of the first digit, the result has
/// one digit more, a leading one.
pub open spec fn rounded(s: Seq<u8>, pos: nat) -> Seq<u8> {
    let q = round_half_even(digits_value(s), pow10((s.len() - pos) as nat));
    digits_of(q, if q >= pow10(pos) { pos + 1 } else { pos })
}

/// A run of `k` zeros.
pub open spec fn zeros(k: nat) -> Seq<u8> {
    Seq::new(k, |i: int| 0u8)
}

pub proof fn lemma_pow10_positive(k: nat)
    ensures
        pow10(k) >= 1,
    decreases k,
{
    if k > 0 {
        lemma_pow10_positive((k - 1) as nat);
    }
}

pub proof fn lemma_value_bound(s: Seq<u8>)
    requires
        is_digits(s),
    ensures
        digits_value(s) < pow10(s.len()),
    decreases s.len(),
{
    if s.len() > 0 {
        let t = s.drop_last();
        assert(is_digits(t));
        lemma_value_bound(t);
        assert(s.last() < 10);
        let v = digits_value(t);
        let p = pow10(t.len());
        assert(v * 10 + (s.last() as nat) < 10 * p) by (nonlinear_arith)
            requires
                v < p,
                s.last() < 10,
        ;
    }
}

pub proof fn lemma_value_append(a: Seq<u8>, b: Seq<u8>)
    ensures
        digits_value(a + b) == digits_value(a) * pow10(b.len()) + digits_value(b),
    decreases b.len(),
{
    if b.len() == 0 {
        assert(a + b =~= a);
        let x = digits_value(a);
        assert(x * 1 == x) by (nonlinear_arith);
    } else {
        let b1 = b.drop_last();
        assert((a + b).drop_last() =~= a + b1);
        assert((a + b).last() == b.last());
        lemma_value_append(a, b1);
        let va = digits_value(a);
        let p = pow10(b1.len());
        let vb = digits_value(b1);
        let l = b.last() as nat;
        assert(digits_value(a + b) == digits_value(a + b1) * 10 + l);
        assert(digits_value(b) == vb * 10 + l);
        assert(pow10(b.len()) == 10 * p);
        assert(digits_value(a + b) == va * pow10(b.len()) + digits_value(b)) by (nonlinear_arith)
            requires
                digits_value(a + b) == digits_value(a + b1) * 10 + l,
                digits_value(a + b1) == va * p + vb,
                digits_value(b) == vb * 10 + l,
                pow10(b.len()) == 10 * p,
        ;
    }
}

/// The value of a single digit.
pub proof fn lemma_value_single(d: u8)
    ensures
        digits_value(seq![d]) == d as nat,
{
    assert(seq![d].drop_last() =~= Seq::<u8>::empty());
    assert(digits_value(Seq::<u8>::empty()) == 0);
}

pub proof fn lemma_digits_of_value(s: Seq<u8>)
    requires
        is_digits(s),
    ensures
        digits_of(digits_value(s), s.len()) == s,
    decreases s.len(),
{
    if s.len() > 0 {
        let t = s.drop_last();
        assert(is_digits(t));
        lemma_digits_of_value(t);
        let v = digits_value(s);
        assert(s.last() < 10);
        assert(v / 10 == digits_value(t) && v % 10 == (s.last() as nat)) by (nonlinear_arith)
            requires
                v == digits_value(t) * 10 + (s.last() as nat),
                s.last() < 10,
        ;
        assert(digits_of(v, s.len()) =~= s);
    }
}

pub proof fn lemma_zeros_value(k: nat)
    ensures
        digits_value(zeros(k)) == 0,
        is_digits(zeros(k)),
    decreases k,
{
    if k > 0 {
        assert(zeros(k).drop_last() =~= zeros((k - 1) as nat));
        lemma_zeros_value((k - 1) as nat);
    }
}

/// A digit sequence of value zero holds only zeros.
pub proof fn lemma_value_zero(s: Seq<u8>)
    requires
        digits_value(s) == 0,
    ensures
        forall|i: int| 0 <= i < s.len() ==> s[i] == 0,
    decreases s.len(),
{
    if s.len() > 0 {
        lemma_value_zero(s.drop_last());
        assert forall|i: int| 0 <= i < s.len() implies s[i] == 0 by {
            if i < s.len() - 1 {
                assert(s[i] == s.drop_last()[i]);
            }
        }
    }
}

/// A run of nines is one less than the next power of ten.
pub proof fn lemma_nines_value(s: Seq<u8>)
    requires
        forall|i: int| 0 <= i < s.len() ==> s[i] == 9,
    ensures
        digits_value(s) + 1 == pow10(s.len()),
    decreases s.len(),
{
    if s.len() > 0 {
        lemma_nines_value(s.drop_last());
    }
}

/// Whether rounding half to even at `pos` goes up: the first dropped digit is
/// above five, or it is five and a later dropped digit is non-zero, or it is
/// an exact half and the last kept digit is odd.
pub open spec fn rounds_up(s: Seq<u8>, pos: int) -> bool {
    s[pos] > 5 || (s[pos] == 5 && ((exists|t: int| pos < t < s.len() && s[t] != 0) || (pos > 0
        && s[pos - 1] % 2 == 1)))
}

proof fn lemma_round_decision(s: Seq<u8>, pos: int)
    requires
        is_digits(s),
        0 <= pos < s.len(),
    ensures
        round_half_even(digits_value(s), pow10((s.len() - pos) as nat)) == digits_value(
            s.subrange(0, pos),
        ) + if rounds_up(s, pos) {
            1nat
        } else {
            0nat
        },
{
    let hi = s.subrange(0, pos);
    let lo = s.subrange(pos, s.len() as int);
    let k = (s.len() - pos) as nat;
    assert(s =~= hi + lo);
    lemma_value_append(hi, lo);
    assert(is_digits(lo));
    lemma_value_bound(lo);
    lemma_pow10_positive(k);
    vstd::arithmetic::div_mod::lemma_fundamental_div_mod_converse(
        digits_value(s) as int,
        pow10(k) as int,
        digits_value(hi) as int,
        digits_value(lo) as int,
    );
    let d = s[pos];
    let t = lo.subrange(1, lo.len() as int);
    assert(lo =~= seq![d] + t);
    lemma_value_append(seq![d], t);
    lemma_value_single(d);
    assert(is_digits(t));
    lemma_value_bound(t);
    let vt = digits_value(t);
    let p = pow10((k - 1) as nat);
    let vl = digits_value(lo);
    assert(pow10(k) == 10 * p);
    assert(vl == d as nat * p + vt);
    lemma_pow10_positive((k - 1) as nat);
    if d > 5 {
        assert(2 * vl > 10 * p) by (nonlinear_arith)
            requires
                vl == d as nat * p + vt,
                d > 5,
                p >= 1,
        ;
    } else if d < 5 {
        assert(2 * vl < 10 * p) by (nonlinear_arith)
            requires
                vl == d as nat * p + vt,
                d < 5,
                vt < p,
        ;
    } else {
        assert(2 * vl == 10 * p + 2 * vt) by (nonlinear_arith)
            requires
                vl == d as nat * p + vt,
                d == 5,
        ;
        if vt == 0 {
            lemma_value_zero(t);
            assert(!(exists|u: int| pos < u < s.len() && s[u] != 0)) by {
                assert forall|u: int| pos < u < s.len() implies s[u] == 0 by {
                    assert(s[u] == t[u - pos - 1]);
                }
            }
        } else {
            assert(exists|u: int| pos < u < s.len() && s[u] != 0) by {
                if !(exists|u: int| pos < u < s.len() && s[u] != 0) {
                    assert(t =~= zeros(t.len())) by {
                        assert forall|u: int| 0 <= u < t.len() implies t[u] == 0u8 by {
                            assert(t[u] == s[u + pos + 1]);
                        }
                    }
                    lemma_zeros_value(t.len());
                }
            }
        }
        if pos > 0 {
            assert(hi.drop_last().len() == pos - 1);
            let vh = digits_value(hi);
            let l = hi.last() as nat;
            assert(vh == digits_value(hi.drop_last()) * 10 + l);
            assert(hi.last() == s[pos - 1]);
            assert(vh % 2 == l % 2) by (nonlinear_arith)
                requires
                    vh == digits_value(hi.drop_last()) * 10 + l,
            ;
        } else {
            assert(hi =~= Seq::<u8>::empty());
        }
    }
}

/// Adding one to a digit sequence whose last `pos - i` digits are nines.
proof fn lemma_carry(hi: Seq<u8>, new: Seq<u8>, i: int)
    requires
        is_digits(hi),
        0 < i <= hi.len(),
        hi[i - 1] < 9,
        new.len() == hi.len(),
        forall|t: int| 0 <= t < i - 1 ==> new[t] == hi[t],
        new[i - 1] == hi[i - 1] + 1,
        forall|t: int| i <= t < hi.len() ==> new[t] == 0 && hi[t] == 9,
    ensures
        is_digits(new),
        digits_value(new) == digits_value(hi) + 1,
{
    let n = (hi.len() - i) as nat;
    let head = hi.subrange(0, i);
    let new_head = new.subrange(0, i);
    let nines = hi.subrange(i, hi.len() as int);
    assert(hi =~= head + nines);
    assert(new =~= new_head + zeros(n));
    lemma_value_append(head, nines);
    lemma_value_append(new_head, zeros(n));
    lemma_nines_value(nines);
    lemma_zeros_value(n);
    assert(new_head.drop_last() =~= head.drop_last());
    assert(digits_value(new_head) == digits_value(head) + 1);
    let p = pow10(n);
    let vh = digits_value(head);
    assert((vh + 1) * p == vh * p + p) by (nonlinear_arith);
}

/// Adding one to a run of nines.
proof fn lemma_carry_out(hi: Seq<u8>, new: Seq<u8>)
    requires
        new == seq![1u8] + zeros(hi.len()),
        forall|t: int| 0 <= t < hi.len() ==> hi[t] == 9,
    ensures
        is_digits(new),
        digits_value(new) == digits_value(hi) + 1,
        digits_value(new) == pow10(hi.len()),
{
    lemma_value_append(seq![1u8], zeros(hi.len()));
    lemma_value_single(1u8);
    lemma_zeros_value(hi.len());
    lemma_nines_value(hi);
    let p = pow10(hi.len());
    assert(1 * p == p) by (nonlinear_arith);
}

/// Rounds the digits half to even at `pos` and cuts them there: `digits`
/// becomes `rounded(digits, pos)`. Returns whether the rounding carried out of
/// the first digit (the buffer then has `pos + 1` digits).
pub fn round_and_trunc(digits: &mut Vec<u8>, pos: usize) -> (carried: bool)
    requires
        is_digits(old(digits)@),
        pos <= old(digits)@.len(),
    ensures
        final(digits)@ == rounded(old(digits)@, pos as nat),
        is_digits(final(digits)@),
        final(digits)@.len() == if carried {
            pos + 1
        } else {
            pos as int
        },
{
    let ghost s = digits@;
    let ghost hi = s.subrange(0, pos as int);
    let len = digits.len();
    if pos == len {
        proof {
            lemma_value_bound(s);
            assert(pow10(0) == 1);
            let v = digits_value(s);
            assert(v / 1 == v && v % 1 == 0) by (nonlinear_arith);
            lemma_digits_of_value(s);
        }
        return false;
    }
    let d = digits[pos];
    let mut up = d > 5;
    if d == 5 {
        let mut j = pos + 1;
        let mut rest_zero = true;
        while j < len
            invariant
                digits@ == s,
                len == s.len(),
                pos + 1 <= j <= len,
                rest_zero <==> forall|t: int| pos + 1 <= t < j ==> s[t] == 0,
            decreases len - j,
        {
            if digits[j] != 0 {
                rest_zero = false;
            }
            j = j + 1;
        }
        up = !rest_zero || (pos > 0 && digits[pos - 1] % 2 == 1);
    }
    proof {
        lemma_round_decision(s, pos as int);
        assert(is_digits(hi));
        lemma_value_bound(hi);
    }
    assert(up == rounds_up(s, pos as int));
    digits.truncate(pos);
    assert(digits@ =~= hi);
    if !up {
        proof {
            lemma_digits_of_value(hi);
        }
        return false;
    }
    let mut i = pos;
    while i > 0 && digits[i - 1] == 9
        invariant
            0 <= i <= pos,
            digits@.len() == pos,
            hi.len() == pos,
            is_digits(hi),
            forall|t: int| 0 <= t < i ==> digits@[t] == hi[t],
            forall|t: int| i <= t < pos ==> digits@[t] == 0,
            forall|t: int| i <= t < pos ==> hi[t] == 9,
        decreases i,
    {
        digits.set(i - 1, 0);
        i = i - 1;
    }
    if i == 0 {
        digits.insert(0, 1);
        proof {
            assert(digits@ =~= seq![1u8] + zeros(pos as nat));
            lemma_carry_out(hi, digits@);
            lemma_digits_of_value(digits@);
        }
        true
    } else {
        let top = digits[i - 1];
        assert(top == hi[i - 1]);
        assert(top < 9);
        digits.set(i - 1, top + 1);
        proof {
            lemma_carry(hi, digits@, i as int);
            lemma_value_bound(digits@);
            lemma_digits_of_value(digits@);
        }
        false
    }
}

} // verus!
