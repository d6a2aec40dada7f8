//! The hex codec: conversion between textual hexadecimal and bit sequences.
//!
//! A hex string is read case-insensitively, ignoring surrounding ASCII
//! whitespace and one leading `0x` (or `0X`) prefix. Each hex digit maps
//! to four bits, most significant bit first, so a decoded buffer's length
//! is always four times the digit count; in particular an odd digit count
//! is accepted and simply yields a bit length that is not a multiple of
//! eight. Encoding produces uppercase digits, left-padding the buffer
//! with zero bits when its length is not a multiple of four.

use vstd::prelude::*;
use vstd::string::StringSliceAdditionalSpecFns;

use crate::error::Error;

verus! {

/// The 4-bit value of an ASCII hexadecimal digit, or 16 for any other byte.
pub open spec fn nibble_val(b: u8) -> u8 {
    if 48 <= b && b <= 57 {
        // '0'..='9'
        (b - 48) as u8
    } else if 97 <= b && b <= 102 {
        // 'a'..='f'
        (b - 97 + 10) as u8
    } else if 65 <= b && b <= 70 {
        // 'A'..='F'
        (b - 65 + 10) as u8
    } else {
        16
    }
}

/// True when `b` is an ASCII hexadecimal digit.
pub open spec fn is_hex_digit(b: u8) -> bool {
    nibble_val(b) < 16
}

/// True when every byte of `s` is an ASCII hexadecimal digit.
pub open spec fn hex_only(s: Seq<u8>) -> bool {
    forall|i: int| 0 <= i < s.len() ==> is_hex_digit(s[i])
}

/// The four bits of a nibble value, most significant first.
pub open spec fn nibble_bits(v: u8) -> Seq<bool> {
    seq![v & 8 != 0, v & 4 != 0, v & 2 != 0, v & 1 != 0]
}

/// The bit sequence denoted by a sequence of hex digits: four bits per
/// digit, in digit order, most significant bit of each nibble first.
pub open spec fn hex_bits(s: Seq<u8>) -> Seq<bool>
    decreases s.len(),
{
    if s.len() == 0 {
        Seq::empty()
    } else {
        hex_bits(s.drop_last()) + nibble_bits(nibble_val(s.last()))
    }
}

/// The value of four bits read most significant first.
pub open spec fn nibble_of_bits(b: Seq<bool>) -> u8 {
    ((if b[0] {
        8int
    } else {
        0int
    }) + (if b[1] {
        4int
    } else {
        0int
    }) + (if b[2] {
        2int
    } else {
        0int
    }) + (if b[3] {
        1int
    } else {
        0int
    })) as u8
}

/// The uppercase ASCII hex digit for a nibble value below 16.
pub open spec fn hex_digit_of(v: u8) -> u8 {
    if v < 10 {
        (48 + v) as u8
    } else {
        (55 + v) as u8
    }
}

/// The hex digits of a bit sequence whose length is a multiple of four,
/// one digit per group of four bits.
pub open spec fn hex_of_bits(b: Seq<bool>) -> Seq<u8>
    decreases b.len(),
{
    if b.len() < 4 {
        Seq::empty()
    } else {
        hex_of_bits(b.take(b.len() - 4)) + seq![
            hex_digit_of(nibble_of_bits(b.skip(b.len() - 4))),
        ]
    }
}

/// How many zero bits are prepended before encoding a buffer of length `n`.
pub open spec fn pad_len(n: nat) -> nat {
    ((4 - (n % 4)) % 4) as nat
}

/// The buffer with its encoding padding prepended.
pub open spec fn pad_front(b: Seq<bool>) -> Seq<bool> {
    Seq::new(pad_len(b.len()), |i: int| false) + b
}

/// What `encode` produces, as ASCII bytes.
pub open spec fn encode_bytes(b: Seq<bool>) -> Seq<u8> {
    hex_of_bits(pad_front(b))
}

/// True for the ASCII whitespace bytes trimmed from hex text.
pub open spec fn is_space(b: u8) -> bool {
    b == 32 || b == 9 || b == 10 || b == 13
}

/// `s` with leading whitespace removed.
pub open spec fn trim_front(s: Seq<u8>) -> Seq<u8>
    decreases s.len(),
{
    if s.len() > 0 && is_space(s[0]) {
        trim_front(s.drop_first())
    } else {
        s
    }
}

/// `s` with trailing whitespace removed.
pub open spec fn trim_back(s: Seq<u8>) -> Seq<u8>
    decreases s.len(),
{
    if s.len() > 0 && is_space(s.last()) {
        trim_back(s.drop_last())
    } else {
        s
    }
}

/// `s` with one leading `0x` or `0X` removed.
pub open spec fn strip_radix_prefix(s: Seq<u8>) -> Seq<u8> {
    if s.len() >= 2 && s[0] == 48 && (s[1] == 120 || s[1] == 88) {
        s.skip(2)
    } else {
        s
    }
}

/// The digits that decoding actually reads: `s` trimmed of surrounding
/// whitespace and of one `0x` prefix.
pub open spec fn normalize(s: Seq<u8>) -> Seq<u8> {
    strip_radix_prefix(trim_back(trim_front(s)))
}

/// The byte with a lowercase ASCII letter raised to uppercase.
pub open spec fn to_upper(b: u8) -> u8 {
    if 97 <= b && b <= 122 {
        (b - 32) as u8
    } else {
        b
    }
}

/// `s` with every lowercase ASCII letter raised to uppercase.
pub open spec fn to_upper_seq(s: Seq<u8>) -> Seq<u8> {
    s.map_values(|b: u8| to_upper(b))
}

/// True when `b` is an ASCII whitespace byte trimmed from hex text.
fn is_space_exec(b: u8) -> (r: bool)
    ensures
        r == is_space(b),
{
    b == 32 || b == 9 || b == 10 || b == 13
}

proof fn lemma_trim_front_step(s: Seq<u8>, lo: int)
    requires
        0 <= lo < s.len(),
        is_space(s[lo]),
    ensures
        trim_front(s.skip(lo)) == trim_front(s.skip(lo + 1)),
{
    assert(s.skip(lo).drop_first() =~= s.skip(lo + 1));
}

proof fn lemma_trim_back_step(s: Seq<u8>, n: int)
    requires
        0 < n <= s.len(),
        is_space(s[n - 1]),
    ensures
        trim_back(s.take(n)) == trim_back(s.take(n - 1)),
{
    assert(s.take(n).drop_last() =~= s.take(n - 1));
}

/// Returns the digits of `s` that decoding reads: `s` trimmed of
/// surrounding ASCII whitespace and of one leading `0x` or `0X`.
pub fn normalize_hex(s: &str) -> (r: Vec<u8>)
    ensures
        r@ == normalize(s.spec_bytes()),
{
    let b: &[u8] = s.as_bytes();
    let ghost sq: Seq<u8> = s.spec_bytes();
    let mut lo: usize = 0;
    let mut hi: usize = b.len();
    proof {
        assert(sq.skip(0) =~= sq);
    }
    while lo < hi && is_space_exec(b[lo])
        invariant
            0 <= lo <= hi <= sq.len(),
            b@ == sq,
            hi == sq.len(),
            trim_front(sq) == trim_front(sq.skip(lo as int)),
        decreases hi - lo,
    {
        proof {
            lemma_trim_front_step(sq, lo as int);
        }
        lo += 1;
    }
    assert(trim_front(sq) == sq.skip(lo as int)) by {
        if lo < hi {
            assert(sq.skip(lo as int)[0] == sq[lo as int]);
        } else {
            assert(sq.skip(lo as int).len() == 0);
        }
    }
    let ghost t: Seq<u8> = sq.skip(lo as int);
    proof {
        assert(t.take(hi - lo) =~= t);
    }
    while hi > lo && is_space_exec(b[hi - 1])
        invariant
            0 <= lo <= hi <= sq.len(),
            b@ == sq,
            t == sq.skip(lo as int),
            trim_back(t) == trim_back(t.take(hi - lo)),
        decreases hi - lo,
    {
        proof {
            assert(t[hi - lo - 1] == sq[hi as int - 1]);
            lemma_trim_back_step(t, hi - lo);
        }
        hi -= 1;
    }
    assert(trim_back(t) == t.take(hi - lo)) by {
        if hi > lo {
            assert(t.take(hi - lo).last() == sq[hi as int - 1]);
        } else {
            assert(t.take(hi - lo).len() == 0);
        }
    }
    let ghost w: Seq<u8> = t.take(hi - lo);
    if hi - lo >= 2 && b[lo] == 48 && (b[lo + 1] == 120 || b[lo + 1] == 88) {
        proof {
            assert(w[0] == sq[lo as int]);
            assert(w[1] == sq[lo as int + 1]);
            assert(strip_radix_prefix(w) == w.skip(2));
        }
        lo += 2;
        proof {
            assert(normalize(sq) =~= sq.subrange(lo as int, hi as int));
        }
    } else {
        proof {
            if w.len() >= 2 {
                assert(w[0] == sq[lo as int]);
                assert(w[1] == sq[lo as int + 1]);
            }
            assert(strip_radix_prefix(w) == w);
            assert(normalize(sq) =~= sq.subrange(lo as int, hi as int));
        }
    }
    let mut out: Vec<u8> = Vec::new();
    let mut i: usize = lo;
    while i < hi
        invariant
            lo <= i <= hi <= b@.len(),
            b@ == sq,
            out@ == sq.subrange(lo as int, i as int),
        decreases hi - i,
    {
        out.push(b[i]);
        proof {
            assert(out@ =~= sq.subrange(lo as int, i as int + 1));
        }
        i += 1;
    }
    out
}

/// The 4-bit value of an ASCII hexadecimal digit, or 16 for any other byte.
fn hex_val(b: u8) -> (v: u8)
    ensures
        v == nibble_val(b),
{
    if 48 <= b && b <= 57 {
        b - 48
    } else if 97 <= b && b <= 102 {
        b - 97 + 10
    } else if 65 <= b && b <= 70 {
        b - 65 + 10
    } else {
        16
    }
}

/// The bit length of a digit sequence's decoding is four bits per digit.
pub proof fn lemma_hex_bits_len(s: Seq<u8>)
    ensures
        hex_bits(s).len() == 4 * s.len(),
    decreases s.len(),
{
    if s.len() > 0 {
        lemma_hex_bits_len(s.drop_last());
    }
}

/// Decodes a sequence of bytes that must all be hex digits; rejects the
/// first byte that is not one.
fn decode_digits(n: &Vec<u8>) -> (r: Result<Vec<bool>, Error>)
    ensures
        r is Ok <==> hex_only(n@),
        r matches Ok(bits) ==> bits@ == hex_bits(n@),
        r matches Err(e) ==> e == Error::InvalidCharacter,
{
    let mut out: Vec<bool> = Vec::new();
    let mut i: usize = 0;
    proof {
        assert(n@.take(0) =~= Seq::<u8>::empty());
    }
    while i < n.len()
        invariant
            0 <= i <= n@.len(),
            forall|k: int| 0 <= k < i ==> is_hex_digit(n@[k]),
            out@ == hex_bits(n@.take(i as int)),
        decreases n@.len() - i,
    {
        let v = hex_val(n[i]);
        if v >= 16 {
            return Err(Error::InvalidCharacter);
        }
        out.push(v & 8 != 0);
        out.push(v & 4 != 0);
        out.push(v & 2 != 0);
        out.push(v & 1 != 0);
        proof {
            let t = n@.take(i as int + 1);
            assert(t.drop_last() =~= n@.take(i as int));
            assert(t.last() == n@[i as int]);
            assert(out@ =~= hex_bits(n@.take(i as int)) + nibble_bits(v));
        }
        i += 1;
    }
    proof {
        assert(n@.take(n@.len() as int) =~= n@);
    }
    Ok(out)
}

/// Decodes a hex string into a bit buffer of exactly `width_bits` bits.
///
/// The text is read after trimming surrounding whitespace and one `0x`
/// prefix; its digit count must supply exactly `width_bits` bits (four per
/// digit), or the call fails with `InvalidLength`; a non-hex digit among
/// the remaining characters fails with `InvalidCharacter`.
pub fn decode_fixed(text: &str, width_bits: usize) -> (r: Result<Vec<bool>, Error>)
    ensures
        ({
            let n = normalize(text.spec_bytes());
            &&& (r is Ok <==> n.len() * 4 == width_bits && hex_only(n))
            &&& (r matches Ok(bits) ==> bits@ == hex_bits(n) && bits@.len() == width_bits)
            &&& (r matches Err(e) ==> {
                &&& (e == Error::InvalidLength <==> n.len() * 4 != width_bits)
                &&& (e == Error::InvalidCharacter <==> n.len() * 4 == width_bits && !hex_only(n))
            })
        }),
{
    let n = normalize_hex(text);
    if !(width_bits % 4 == 0 && n.len() == width_bits / 4) {
        return Err(Error::InvalidLength);
    }
    proof {
        lemma_hex_bits_len(n@);
    }
    match decode_digits(&n) {
        Ok(bits) => Ok(bits),
        Err(e) => Err(e),
    }
}

/// Decodes a hex string of any length into a bit buffer, four bits per
/// digit; fails with `InvalidCharacter` when a non-hex digit remains after
/// trimming whitespace and one `0x` prefix. Any digit count is accepted,
/// including zero and odd counts.
pub fn decode_variable(text: &str) -> (r: Result<Vec<bool>, Error>)
    ensures
        ({
            let n = normalize(text.spec_bytes());
            &&& (r is Ok <==> hex_only(n))
            &&& (r matches Ok(bits) ==> bits@ == hex_bits(n) && bits@.len() == 4 * n.len())
            &&& (r matches Err(e) ==> e == Error::InvalidCharacter)
        }),
{
    let n = normalize_hex(text);
    proof {
        lemma_hex_bits_len(n@);
    }
    decode_digits(&n)
}

/// Relies on `String::from_utf8`: a sequence of bytes below 128 is valid
/// UTF-8 and yields the string with exactly those bytes as its characters.
#[verifier::external_body]
fn string_from_ascii(v: Vec<u8>) -> (r: String)
    requires
        forall|i: int| 0 <= i < v@.len() ==> v@[i] < 128,
    ensures
        r@ == v@.map_values(|b: u8| b as char),
{
    String::from_utf8(v).unwrap()
}

/// Encodes a bit buffer as uppercase hexadecimal text, one digit per four
/// bits, left-padding the buffer with zero bits when its length is not a
/// multiple of four.
pub fn encode(bits: &Vec<bool>) -> (r: String)
    ensures
        r@ == encode_bytes(bits@).map_values(|b: u8| b as char),
{
    let pad: usize = (4 - bits.len() % 4) % 4;
    let mut p: Vec<bool> = Vec::new();
    let mut j: usize = 0;
    while j < pad
        invariant
            0 <= j <= pad,
            pad == pad_len(bits@.len()),
            p@ == Seq::new(j as nat, |i: int| false),
        decreases pad - j,
    {
        p.push(false);
        proof {
            assert(p@ =~= Seq::new(j as nat + 1, |i: int| false));
        }
        j += 1;
    }
    let mut i: usize = 0;
    while i < bits.len()
        invariant
            0 <= i <= bits@.len(),
            pad == pad_len(bits@.len()),
            p@ == Seq::new(pad as nat, |k: int| false) + bits@.take(i as int),
        decreases bits@.len() - i,
    {
        p.push(bits[i]);
        proof {
            assert(p@ =~= Seq::new(pad as nat, |k: int| false) + bits@.take(i as int + 1));
        }
        i += 1;
    }
    proof {
        assert(p@ =~= pad_front(bits@));
        assert(p@.len() % 4 == 0);
    }
    let mut out: Vec<u8> = Vec::new();
    let mut k: usize = 0;
    proof {
        assert(p@.take(0) =~= Seq::<bool>::empty());
    }
    while k < p.len()
        invariant
            0 <= k <= p@.len(),
            k % 4 == 0,
            p@.len() % 4 == 0,
            out@ == hex_of_bits(p@.take(k as int)),
            forall|m: int| 0 <= m < out@.len() ==> out@[m] < 128,
        decreases p@.len() - k,
    {
        let v: u8 = (if p[k] {
            8
        } else {
            0
        }) + (if p[k + 1] {
            4
        } else {
            0
        }) + (if p[k + 2] {
            2
        } else {
            0
        }) + (if p[k + 3] {
            1
        } else {
            0
        });
        let d: u8 = if v < 10 {
            48 + v
        } else {
            55 + v
        };
        proof {
            let q = p@.subrange(k as int, k as int + 4);
            assert(q[0] == p@[k as int] && q[1] == p@[k as int + 1] && q[2] == p@[k as int + 2]
                && q[3] == p@[k as int + 3]);
            assert(v == nibble_of_bits(q));
            assert(d == hex_digit_of(v));
            let t = p@.take(k as int + 4);
            assert(t.take(t.len() - 4) =~= p@.take(k as int));
            assert(t.skip(t.len() - 4) =~= q);
        }
        out.push(d);
        k += 4;
    }
    proof {
        assert(p@.take(p@.len() as int) =~= p@);
    }
    string_from_ascii(out)
}

/// A nibble value below 16 survives the trip through its four bits.
proof fn lemma_nibble_roundtrip(v: u8)
    requires
        v < 16,
    ensures
        nibble_of_bits(nibble_bits(v)) == v,
{
    assert((((if v & 8 != 0 {
        8int
    } else {
        0int
    }) + (if v & 4 != 0 {
        4int
    } else {
        0int
    }) + (if v & 2 != 0 {
        2int
    } else {
        0int
    }) + (if v & 1 != 0 {
        1int
    } else {
        0int
    })) as u8) == v) by (bit_vector)
        requires
            v < 16,
    ;
}

/// Four bits survive the trip through their nibble value.
proof fn lemma_bits_roundtrip(q: Seq<bool>)
    requires
        q.len() == 4,
    ensures
        nibble_bits(nibble_of_bits(q)) == q,
{
    let v = nibble_of_bits(q);
    let q0 = q[0];
    let q1 = q[1];
    let q2 = q[2];
    let q3 = q[3];
    assert(v & 8 != 0 == q0 && v & 4 != 0 == q1 && v & 2 != 0 == q2 && v & 1 != 0 == q3)
        by (bit_vector)
        requires
            v == (((if q0 {
                8int
            } else {
                0int
            }) + (if q1 {
                4int
            } else {
                0int
            }) + (if q2 {
                2int
            } else {
                0int
            }) + (if q3 {
                1int
            } else {
                0int
            })) as u8),
    ;
    assert(nibble_bits(v) =~= q);
}

/// Encoding the decoding of a hex digit returns the digit, uppercased.
proof fn lemma_hex_digit_upper(b: u8)
    requires
        is_hex_digit(b),
    ensures
        hex_digit_of(nibble_val(b)) == to_upper(b),
{
}

/// Law: decoding a sequence of hex digits and encoding the resulting bits
/// returns the same digits, with lowercase letters raised to uppercase.
pub proof fn lemma_decode_then_encode(s: Seq<u8>)
    requires
        hex_only(s),
    ensures
        encode_bytes(hex_bits(s)) == to_upper_seq(s),
    decreases s.len(),
{
    lemma_hex_bits_len(s);
    let b = hex_bits(s);
    assert(pad_len(b.len()) == 0);
    assert(pad_front(b) =~= b);
    if s.len() == 0 {
        assert(to_upper_seq(s) =~= Seq::<u8>::empty());
    } else {
        let s0 = s.drop_last();
        assert(hex_only(s0));
        lemma_decode_then_encode(s0);
        lemma_hex_bits_len(s0);
        let b0 = hex_bits(s0);
        assert(pad_front(b0) =~= b0);
        assert(b.take(b.len() - 4) =~= b0);
        assert(b.skip(b.len() - 4) =~= nibble_bits(nibble_val(s.last())));
        lemma_nibble_roundtrip(nibble_val(s.last()));
        lemma_hex_digit_upper(s.last());
        assert(hex_of_bits(b) == hex_of_bits(b0) + seq![to_upper(s.last())]);
        assert(to_upper_seq(s) =~= to_upper_seq(s0) + seq![to_upper(s.last())]);
    }
}

/// Law: decoding is case-insensitive — raising hex digits to uppercase
/// leaves them hex digits and decodes to the same bits.
pub proof fn lemma_upper_preserves_decoding(s: Seq<u8>)
    requires
        hex_only(s),
    ensures
        hex_only(to_upper_seq(s)),
        hex_bits(to_upper_seq(s)) == hex_bits(s),
    decreases s.len(),
{
    assert forall|i: int| 0 <= i < s.len() implies is_hex_digit(to_upper_seq(s)[i]) by {
        assert(to_upper_seq(s)[i] == to_upper(s[i]));
    }
    if s.len() > 0 {
        let s0 = s.drop_last();
        assert(hex_only(s0));
        lemma_upper_preserves_decoding(s0);
        assert(to_upper_seq(s).drop_last() =~= to_upper_seq(s0));
        assert(to_upper_seq(s).last() == to_upper(s.last()));
        assert(nibble_val(to_upper(s.last())) == nibble_val(s.last()));
    } else {
        assert(to_upper_seq(s) =~= s);
    }
}

/// Law: a sequence made of hex digits alone is already normalized — it
/// holds no whitespace to trim and no `0x` prefix to strip.
pub proof fn lemma_normalize_hex_digits(s: Seq<u8>)
    requires
        hex_only(s),
    ensures
        normalize(s) == s,
{
    if s.len() > 0 {
        assert(!is_space(s[0]));
        assert(!is_space(s.last()));
    }
    assert(trim_front(s) == s);
    assert(trim_back(s) == s);
    if s.len() >= 2 {
        assert(!is_hex_digit(120) && !is_hex_digit(88));
    }
    assert(strip_radix_prefix(s) == s);
}

/// Law: the codec round-trip — re-decoding what `encode` produced from a
/// decoding returns the decoding itself, so
/// `decode_fixed(encode(decode_fixed(s, w)), w)` returns exactly what
/// `decode_fixed(s, w)` returned.
pub proof fn lemma_codec_round_trip(s: Seq<u8>)
    requires
        hex_only(s),
    ensures
        hex_bits(normalize(encode_bytes(hex_bits(s)))) == hex_bits(s),
{
    lemma_decode_then_encode(s);
    lemma_upper_preserves_decoding(s);
    lemma_normalize_hex_digits(to_upper_seq(s));
}

/// Law: encoding a bit buffer whose length is a multiple of four and
/// decoding the resulting digits returns the same buffer. Together with
/// `lemma_decode_then_encode` this is the codec round-trip: in particular
/// `decode_fixed(encode(decode_fixed(s, w)), w)` returns what
/// `decode_fixed(s, w)` returned.
pub proof fn lemma_encode_then_decode(b: Seq<bool>)
    requires
        b.len() % 4 == 0,
    ensures
        hex_bits(encode_bytes(b)) == b,
    decreases b.len(),
{
    assert(pad_len(b.len()) == 0);
    assert(pad_front(b) =~= b);
    if b.len() == 0 {
        assert(hex_bits(encode_bytes(b)) =~= b);
    } else {
        let b0 = b.take(b.len() - 4);
        assert(b0.len() % 4 == 0);
        lemma_encode_then_decode(b0);
        assert(pad_front(b0) =~= b0);
        let q = b.skip(b.len() - 4);
        let h = hex_of_bits(b);
        assert(h == hex_of_bits(b0) + seq![hex_digit_of(nibble_of_bits(q))]);
        let v = nibble_of_bits(q);
        assert(v < 16);
        assert(h.drop_last() =~= hex_of_bits(b0));
        assert(nibble_val(hex_digit_of(v)) == v);
        lemma_bits_roundtrip(q);
        assert(hex_bits(h) == hex_bits(hex_of_bits(b0)) + nibble_bits(v));
        assert(hex_bits(h) =~= b);
    }
}

} // verus!
