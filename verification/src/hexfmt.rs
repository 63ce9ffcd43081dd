//! Hexadecimal text for key material.
//!
//! Keys live in the store as lowercase hex strings.  The exact meaning of
//! encoding and decoding is fixed by the spec functions here; the executable
//! conversions call the hex crate, whose contracts are stated against those
//! spec functions.

use vstd::prelude::*;

verus! {

/// Whether `c` is a hexadecimal digit, in either case.
pub open spec fn is_hex_digit(c: char) -> bool {
    (48 <= c as u32 && c as u32 <= 57)  // '0'..='9'
    || (97 <= c as u32 && c as u32 <= 102)  // 'a'..='f'
    || (65 <= c as u32 && c as u32 <= 70)  // 'A'..='F'
}

/// The numeric value of a hexadecimal digit.
pub open spec fn hex_val(c: char) -> int {
    if 48 <= c as u32 && c as u32 <= 57 {
        c as u32 - 48
    } else if 97 <= c as u32 && c as u32 <= 102 {
        c as u32 - 97 + 10
    } else {
        c as u32 - 65 + 10
    }
}

/// The lowercase digit character for a value below sixteen.
pub open spec fn hex_digit_lower(n: int) -> char {
    if n == 0 { '0' } else if n == 1 { '1' } else if n == 2 { '2' }
    else if n == 3 { '3' } else if n == 4 { '4' } else if n == 5 { '5' }
    else if n == 6 { '6' } else if n == 7 { '7' } else if n == 8 { '8' }
    else if n == 9 { '9' } else if n == 10 { 'a' } else if n == 11 { 'b' }
    else if n == 12 { 'c' } else if n == 13 { 'd' } else if n == 14 { 'e' }
    else { 'f' }
}

/// Lowercase hex text of a byte sequence: two digits per byte, high nibble
/// first.
pub open spec fn hex_encode_spec(b: Seq<u8>) -> Seq<char>
    decreases b.len(),
{
    if b.len() == 0 {
        Seq::empty()
    } else {
        seq![
            hex_digit_lower((b[0] >> 4) as int),
            hex_digit_lower((b[0] & 15) as int),
        ] + hex_encode_spec(b.drop_first())
    }
}

/// Whether `s` decodes as hex text: even length, every character a digit.
pub open spec fn hex_decode_ok(s: Seq<char>) -> bool {
    s.len() % 2 == 0 && forall|i: int| 0 <= i < s.len() ==> is_hex_digit(#[trigger] s[i])
}

/// The bytes encoded by hex text, two characters per byte.
pub open spec fn hex_decode_spec(s: Seq<char>) -> Seq<u8>
    decreases s.len(),
{
    if s.len() < 2 {
        Seq::empty()
    } else {
        seq![(16 * hex_val(s[0]) + hex_val(s[1])) as u8] + hex_decode_spec(s.skip(2))
    }
}

/// Relies on hex::encode: one pair of lowercase digits per byte, high nibble
/// first.
#[verifier::external_body]
pub(crate) fn hex_encode(b: &Vec<u8>) -> (r: String)
    ensures
        r@ == hex_encode_spec(b@),
{
    hex::encode(b)
}

/// Relies on hex::decode: succeeds on exactly the even-length strings of hex
/// digits (either case), and then yields one byte per digit pair.
#[verifier::external_body]
pub(crate) fn hex_decode(s: &str) -> (r: Option<Vec<u8>>)
    ensures
        r is Some <==> hex_decode_ok(s@),
        r is Some ==> r->0@ == hex_decode_spec(s@),
{
    hex::decode(s).ok()
}

/// Hex text is twice as long as the bytes it encodes.
pub proof fn lemma_hex_encode_len(b: Seq<u8>)
    ensures
        hex_encode_spec(b).len() == 2 * b.len(),
    decreases b.len(),
{
    if b.len() > 0 {
        lemma_hex_encode_len(b.drop_first());
    }
}

/// Encoding then decoding gives the bytes back: hex text is a faithful
/// carrier for key material.
pub proof fn lemma_hex_roundtrip(b: Seq<u8>)
    ensures
        hex_decode_ok(hex_encode_spec(b)),
        hex_decode_spec(hex_encode_spec(b)) == b,
    decreases b.len(),
{
    lemma_hex_encode_len(b);
    if b.len() == 0 {
        assert(hex_decode_spec(hex_encode_spec(b)) =~= b);
    } else {
        let x = b[0];
        let hi = (x >> 4) as int;
        let lo = (x & 15) as int;
        assert(0 <= (x >> 4) < 16 && 0 <= (x & 15) < 16) by (bit_vector);
        assert(is_hex_digit(hex_digit_lower(hi)));
        assert(is_hex_digit(hex_digit_lower(lo)));
        assert(hex_val(hex_digit_lower(hi)) == hi);
        assert(hex_val(hex_digit_lower(lo)) == lo);
        lemma_hex_roundtrip(b.drop_first());
        let e = hex_encode_spec(b);
        lemma_hex_encode_len(b.drop_first());
        assert(e.skip(2) =~= hex_encode_spec(b.drop_first()));
        assert(16 * ((x >> 4) as int) + ((x & 15) as int) == x) by (bit_vector);
        assert(hex_decode_spec(e) =~= b);
        assert forall|i: int| 0 <= i < e.len() implies is_hex_digit(#[trigger] e[i]) by {
            lemma_hex_all_digits(b, i);
        }
    }
}

/// Every character of encoded hex text is a digit.
proof fn lemma_hex_all_digits(b: Seq<u8>, i: int)
    requires
        0 <= i < hex_encode_spec(b).len(),
    ensures
        is_hex_digit(hex_encode_spec(b)[i]),
    decreases b.len(),
{
    lemma_hex_encode_len(b);
    if b.len() > 0 {
        let x = b[0];
        assert(0 <= (x >> 4) < 16 && 0 <= (x & 15) < 16) by (bit_vector);
        if i >= 2 {
            lemma_hex_all_digits(b.drop_first(), i - 2);
        }
    }
}

} // verus!
