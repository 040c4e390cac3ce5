//! Raw bit and byte images of a double-double.
//!
//! The 128-bit image holds the leading component in its low half and the
//! trailing one in its high half, which is the memory layout of the pair on a
//! little-endian target.
use crate::double::Double;
use vstd::prelude::*;

verus! {

/// The eight bytes of `x`, least significant first.
pub open spec fn u64_le_bytes(x: u64) -> Seq<u8> {
    seq![
        x as u8,
        (x >> 8u64) as u8,
        (x >> 16u64) as u8,
        (x >> 24u64) as u8,
        (x >> 32u64) as u8,
        (x >> 40u64) as u8,
        (x >> 48u64) as u8,
        (x >> 56u64) as u8,
    ]
}

/// The eight bytes of `x`, most significant first.
pub open spec fn u64_be_bytes(x: u64) -> Seq<u8> {
    seq![
        (x >> 56u64) as u8,
        (x >> 48u64) as u8,
        (x >> 40u64) as u8,
        (x >> 32u64) as u8,
        (x >> 24u64) as u8,
        (x >> 16u64) as u8,
        (x >> 8u64) as u8,
        x as u8,
    ]
}

/// The integer whose bytes, least significant first, are `s[0..8]`.
pub open spec fn u64_from_le(s: Seq<u8>) -> u64 {
    join8(s[0], s[1], s[2], s[3], s[4], s[5], s[6], s[7])
}

/// The integer whose bytes, most significant first, are `s[0..8]`.
pub open spec fn u64_from_be(s: Seq<u8>) -> u64 {
    join8(s[7], s[6], s[5], s[4], s[3], s[2], s[1], s[0])
}

/// The integer with bytes `b0` (least significant) to `b7`.
pub open spec fn join8(b0: u8, b1: u8, b2: u8, b3: u8, b4: u8, b5: u8, b6: u8, b7: u8) -> u64 {
    (b0 as u64) | ((b1 as u64) << 8u64) | ((b2 as u64) << 16u64) | ((b3 as u64) << 24u64) | ((
    b4 as u64) << 32u64) | ((b5 as u64) << 40u64) | ((b6 as u64) << 48u64) | ((b7 as u64)
        << 56u64)
}

/// The sixteen bytes of `x`, least significant first.
pub open spec fn u128_le_bytes(x: u128) -> Seq<u8> {
    u64_le_bytes(x as u64) + u64_le_bytes((x >> 64u128) as u64)
}

/// The sixteen bytes of `x`, most significant first.
pub open spec fn u128_be_bytes(x: u128) -> Seq<u8> {
    u64_be_bytes((x >> 64u128) as u64) + u64_be_bytes(x as u64)
}

/// The integer whose sixteen bytes, least significant first, are `s`.
pub open spec fn u128_from_le(s: Seq<u8>) -> u128 {
    ((u64_from_le(s.subrange(8, 16)) as u128) << 64u128) | (u64_from_le(s.subrange(0, 8)) as u128)
}

/// The integer whose sixteen bytes, most significant first, are `s`.
pub open spec fn u128_from_be(s: Seq<u8>) -> u128 {
    ((u64_from_be(s.subrange(0, 8)) as u128) << 64u128) | (u64_from_be(s.subrange(8, 16)) as u128)
}

/// The 128-bit image of a value.
pub open spec fn bits_of(d: Double) -> u128 {
    ((d.1 as u128) << 64u128) | (d.0 as u128)
}

/// The value whose 128-bit image is `b`.
pub open spec fn from_image(b: u128) -> Double {
    Double(b as u64, (b >> 64u128) as u64)
}

proof fn lemma_split_join(lo: u64, hi: u64)
    ensures
        (((hi as u128) << 64u128) | (lo as u128)) as u64 == lo,
        ((((hi as u128) << 64u128) | (lo as u128)) >> 64u128) as u64 == hi,
{
    assert((((hi as u128) << 64u128) | (lo as u128)) as u64 == lo) by (bit_vector);
    assert(((((hi as u128) << 64u128) | (lo as u128)) >> 64u128) as u64 == hi) by (bit_vector);
}

proof fn lemma_u64_le_round_trip(x: u64)
    ensures
        u64_from_le(u64_le_bytes(x)) == x,
        u64_from_be(u64_be_bytes(x)) == x,
{
    let s = u64_le_bytes(x);
    assert(u64_from_le(s) == join8(
        x as u8,
        (x >> 8u64) as u8,
        (x >> 16u64) as u8,
        (x >> 24u64) as u8,
        (x >> 32u64) as u8,
        (x >> 40u64) as u8,
        (x >> 48u64) as u8,
        (x >> 56u64) as u8,
    ));
    let t = u64_be_bytes(x);
    assert(u64_from_be(t) == u64_from_le(s));
    assert(join8(
        x as u8,
        (x >> 8u64) as u8,
        (x >> 16u64) as u8,
        (x >> 24u64) as u8,
        (x >> 32u64) as u8,
        (x >> 40u64) as u8,
        (x >> 48u64) as u8,
        (x >> 56u64) as u8,
    ) == x) by (bit_vector);
}

proof fn lemma_u64_bytes_round_trip(s: Seq<u8>)
    requires
        s.len() == 8,
    ensures
        u64_le_bytes(u64_from_le(s)) == s,
        u64_be_bytes(u64_from_be(s)) == s,
{
    let (b0, b1, b2, b3, b4, b5, b6, b7) = (s[0], s[1], s[2], s[3], s[4], s[5], s[6], s[7]);
    let x = join8(b0, b1, b2, b3, b4, b5, b6, b7);
    assert(x as u8 == b0 && (x >> 8u64) as u8 == b1 && (x >> 16u64) as u8 == b2 && (x
        >> 24u64) as u8 == b3 && (x >> 32u64) as u8 == b4 && (x >> 40u64) as u8 == b5 && (x
        >> 48u64) as u8 == b6 && (x >> 56u64) as u8 == b7) by (bit_vector)
        requires
            x == join8(b0, b1, b2, b3, b4, b5, b6, b7),
    ;
    assert(u64_le_bytes(u64_from_le(s)) =~= s);
    let y = join8(b7, b6, b5, b4, b3, b2, b1, b0);
    assert(y as u8 == b7 && (y >> 8u64) as u8 == b6 && (y >> 16u64) as u8 == b5 && (y
        >> 24u64) as u8 == b4 && (y >> 32u64) as u8 == b3 && (y >> 40u64) as u8 == b2 && (y
        >> 48u64) as u8 == b1 && (y >> 56u64) as u8 == b0) by (bit_vector)
        requires
            y == join8(b7, b6, b5, b4, b3, b2, b1, b0),
    ;
    assert(u64_be_bytes(u64_from_be(s)) =~= s);
}

/// Relies on `u128::to_ne_bytes`: the integer's bytes in the target's native
/// order, which is either little or big endian.
#[verifier::external_body]
fn u128_to_ne_bytes(x: u128) -> (r: [u8; 16])
    ensures
        r@ == u128_le_bytes(x) || r@ == u128_be_bytes(x),
{
    x.to_ne_bytes()
}

/// Relies on `u128::from_ne_bytes`: the integer read from bytes in the
/// target's native order, which is either little or big endian.
#[verifier::external_body]
fn u128_from_ne_bytes(b: [u8; 16]) -> (r: u128)
    ensures
        r == u128_from_le(b@) || r == u128_from_be(b@),
{
    u128::from_ne_bytes(b)
}

fn u64_to_le(x: u64) -> (r: [u8; 8])
    ensures
        r@ == u64_le_bytes(x),
{
    let r = [
        x as u8,
        (x >> 8u64) as u8,
        (x >> 16u64) as u8,
        (x >> 24u64) as u8,
        (x >> 32u64) as u8,
        (x >> 40u64) as u8,
        (x >> 48u64) as u8,
        (x >> 56u64) as u8,
    ];
    assert(r@ =~= u64_le_bytes(x));
    r
}

fn u64_to_be(x: u64) -> (r: [u8; 8])
    ensures
        r@ == u64_be_bytes(x),
{
    let r = [
        (x >> 56u64) as u8,
        (x >> 48u64) as u8,
        (x >> 40u64) as u8,
        (x >> 32u64) as u8,
        (x >> 24u64) as u8,
        (x >> 16u64) as u8,
        (x >> 8u64) as u8,
        x as u8,
    ];
    assert(r@ =~= u64_be_bytes(x));
    r
}

fn concat(a: [u8; 8], b: [u8; 8]) -> (r: [u8; 16])
    ensures
        r@ == a@ + b@,
{
    let r = [a[0], a[1], a[2], a[3], a[4], a[5], a[6], a[7], b[0], b[1], b[2], b[3], b[4], b[5], b[6], b[7]];
    assert(r@ =~= a@ + b@);
    r
}

fn join8_exec(b0: u8, b1: u8, b2: u8, b3: u8, b4: u8, b5: u8, b6: u8, b7: u8) -> (r: u64)
    ensures
        r == join8(b0, b1, b2, b3, b4, b5, b6, b7),
{
    (b0 as u64) | ((b1 as u64) << 8u64) | ((b2 as u64) << 16u64) | ((b3 as u64) << 24u64) | ((
    b4 as u64) << 32u64) | ((b5 as u64) << 40u64) | ((b6 as u64) << 48u64) | ((b7 as u64)
        << 56u64)
}

/// The integer whose bytes, least significant first, are `b[at..at + 8]`.
fn read_le(b: &[u8; 16], at: usize) -> (r: u64)
    requires
        at <= 8,
    ensures
        r == u64_from_le(b@.subrange(at as int, at + 8)),
{
    join8_exec(b[at], b[at + 1], b[at + 2], b[at + 3], b[at + 4], b[at + 5], b[at + 6], b[at + 7])
}

/// The integer whose bytes, most significant first, are `b[at..at + 8]`.
fn read_be(b: &[u8; 16], at: usize) -> (r: u64)
    requires
        at <= 8,
    ensures
        r == u64_from_be(b@.subrange(at as int, at + 8)),
{
    join8_exec(b[at + 7], b[at + 6], b[at + 5], b[at + 4], b[at + 3], b[at + 2], b[at + 1], b[at])
}

impl Double {
    /// The value whose 128-bit image is `b`: the leading component from the
    /// low half, the trailing one from the high half. The bits are taken as
    /// they are, whether or not they form a canonical value.
    pub fn from_bits(b: u128) -> (r: Double)
        ensures
            r == from_image(b),
    {
        Double(b as u64, (b >> 64u128) as u64)
    }

    /// The 128-bit image of the value.
    pub fn to_bits(self) -> (r: u128)
        ensures
            r == bits_of(self),
    {
        ((self.1 as u128) << 64u128) | (self.0 as u128)
    }

    /// The value whose 128-bit image has the big-endian bytes `bytes`.
    pub fn from_be_bytes(bytes: [u8; 16]) -> (r: Double)
        ensures
            r == from_image(u128_from_be(bytes@)),
    {
        let hi = read_be(&bytes, 0);
        let lo = read_be(&bytes, 8);
        proof {
            lemma_split_join(lo, hi);
        }
        Double(lo, hi)
    }

    /// The value whose 128-bit image has the little-endian bytes `bytes`.
    pub fn from_le_bytes(bytes: [u8; 16]) -> (r: Double)
        ensures
            r == from_image(u128_from_le(bytes@)),
    {
        let lo = read_le(&bytes, 0);
        let hi = read_le(&bytes, 8);
        proof {
            lemma_split_join(lo, hi);
        }
        Double(lo, hi)
    }

    /// The value whose 128-bit image has the bytes `bytes` in the target's
    /// native order.
    pub fn from_ne_bytes(bytes: [u8; 16]) -> (r: Double)
        ensures
            r == from_image(u128_from_le(bytes@)) || r == from_image(u128_from_be(bytes@)),
    {
        Double::from_bits(u128_from_ne_bytes(bytes))
    }

    /// The bytes of the 128-bit image, most significant first.
    pub fn to_be_bytes(self) -> (r: [u8; 16])
        ensures
            r@ == u128_be_bytes(bits_of(self)),
    {
        proof {
            lemma_split_join(self.0, self.1);
        }
        concat(u64_to_be(self.1), u64_to_be(self.0))
    }

    /// The bytes of the 128-bit image, least significant first.
    pub fn to_le_bytes(self) -> (r: [u8; 16])
        ensures
            r@ == u128_le_bytes(bits_of(self)),
    {
        proof {
            lemma_split_join(self.0, self.1);
        }
        concat(u64_to_le(self.0), u64_to_le(self.1))
    }

    /// The bytes of the 128-bit image in the target's native order.
    pub fn to_ne_bytes(self) -> (r: [u8; 16])
        ensures
            r@ == u128_le_bytes(bits_of(self)) || r@ == u128_be_bytes(bits_of(self)),
    {
        u128_to_ne_bytes(self.to_bits())
    }
}

/// Writing a value's bytes and reading them back in the same order gives
/// back every bit of it, NaN payloads included.
pub proof fn lemma_bytes_round_trip(v: Double)
    ensures
        from_image(u128_from_le(u128_le_bytes(bits_of(v)))) == v,
        from_image(u128_from_be(u128_be_bytes(bits_of(v)))) == v,
{
    lemma_split_join(v.0, v.1);
    let le = u128_le_bytes(bits_of(v));
    lemma_u64_le_round_trip(v.0);
    lemma_u64_le_round_trip(v.1);
    assert(le.subrange(0, 8) =~= u64_le_bytes(v.0));
    assert(le.subrange(8, 16) =~= u64_le_bytes(v.1));
    let be = u128_be_bytes(bits_of(v));
    assert(be.subrange(0, 8) =~= u64_be_bytes(v.1));
    assert(be.subrange(8, 16) =~= u64_be_bytes(v.0));
    lemma_split_join(v.0, v.1);
}

/// Reading a value from sixteen bytes and writing it back in the same order
/// gives back the same bytes.
pub proof fn lemma_value_round_trip(b: Seq<u8>)
    requires
        b.len() == 16,
    ensures
        u128_le_bytes(bits_of(from_image(u128_from_le(b)))) == b,
        u128_be_bytes(bits_of(from_image(u128_from_be(b)))) == b,
{
    let lo = u64_from_le(b.subrange(0, 8));
    let hi = u64_from_le(b.subrange(8, 16));
    lemma_split_join(lo, hi);
    lemma_u64_bytes_round_trip(b.subrange(0, 8));
    lemma_u64_bytes_round_trip(b.subrange(8, 16));
    let v = from_image(u128_from_le(b));
    lemma_split_join(v.0, v.1);
    assert(u128_le_bytes(bits_of(v)) =~= b);
    let bhi = u64_from_be(b.subrange(0, 8));
    let blo = u64_from_be(b.subrange(8, 16));
    lemma_split_join(blo, bhi);
    let w = from_image(u128_from_be(b));
    lemma_split_join(w.0, w.1);
    assert(u128_be_bytes(bits_of(w)) =~= b);
}

} // verus!
