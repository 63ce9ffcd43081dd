//! The canonical JSON-shaped text the library emits and accepts.
//!
//! One fixed encoding is part of the library's contract: strings are written
//! between double quotes with `"`, `\` and control characters escaped as
//! `\u00XX` (lowercase digits), and unsigned numbers in plain decimal with
//! no leading zeros.  The spec functions here define that text exactly; the
//! parser functions accept exactly what the renderer emits.

use vstd::prelude::*;

use crate::hexfmt::{hex_digit_lower, hex_val, is_hex_digit};
use crate::strutil::{char_from_u32, push_char, str_chars};

verus! {

/// Characters that cannot stand bare inside a quoted string.
pub open spec fn must_escape(c: char) -> bool {
    c == '"' || c == '\\' || (c as u32) < 32
}

/// The escape text for one character: itself, or `\u00XX`.
pub open spec fn esc_char(c: char) -> Seq<char> {
    if must_escape(c) {
        seq![
            '\\',
            'u',
            '0',
            '0',
            hex_digit_lower((c as u32 / 16) as int),
            hex_digit_lower((c as u32 % 16) as int),
        ]
    } else {
        seq![c]
    }
}

/// The body of a quoted string: each character escaped as needed.
pub open spec fn json_escape(s: Seq<char>) -> Seq<char>
    decreases s.len(),
{
    if s.len() == 0 {
        Seq::empty()
    } else {
        esc_char(s[0]) + json_escape(s.drop_first())
    }
}

/// Escaping one character is that character's escape text.
pub proof fn lemma_json_escape_single(c: char)
    ensures
        json_escape(seq![c]) == esc_char(c),
{
    assert(seq![c].drop_first() =~= Seq::<char>::empty());
    assert(json_escape(Seq::<char>::empty()) == Seq::<char>::empty());
    assert(json_escape(seq![c]) =~= esc_char(c));
}

/// Escaping distributes over concatenation.
pub proof fn lemma_json_escape_app(a: Seq<char>, b: Seq<char>)
    ensures
        json_escape(a + b) == json_escape(a) + json_escape(b),
    decreases a.len(),
{
    if a.len() == 0 {
        assert(a + b =~= b);
        assert(json_escape(a) + json_escape(b) =~= json_escape(b));
    } else {
        assert((a + b).drop_first() =~= a.drop_first() + b);
        lemma_json_escape_app(a.drop_first(), b);
        assert(json_escape(a + b) =~= json_escape(a) + json_escape(b));
    }
}

/// The decimal text of a number, most significant digit first, no leading
/// zeros.
pub open spec fn dec_spec(n: nat) -> Seq<char>
    decreases n,
{
    if n < 10 {
        seq![hex_digit_lower(n as int)]
    } else {
        dec_spec(n / 10) + seq![hex_digit_lower((n % 10) as int)]
    }
}

/// The character a single-letter escape stands for, if the letter is one
/// of the eight JSON short escapes.
pub open spec fn short_escape(e: char) -> Option<char> {
    if e == '"' { Some('"') } else if e == '\\' { Some('\\') } else if e == '/' { Some('/') }
    else if e == 'b' { Some('\u{0008}') } else if e == 'f' { Some('\u{000C}') }
    else if e == 'n' { Some('\n') } else if e == 'r' { Some('\r') }
    else if e == 't' { Some('\t') } else { None }
}

/// Whether the four characters at `i` are hex digits.
pub open spec fn hex4_ok(s: Seq<char>, i: int) -> bool {
    is_hex_digit(s[i]) && is_hex_digit(s[i + 1]) && is_hex_digit(s[i + 2]) && is_hex_digit(
        s[i + 3],
    )
}

/// The value of the four hex digits at `i`, most significant first.
pub open spec fn hex4_val(s: Seq<char>, i: int) -> int {
    4096 * hex_val(s[i]) + 256 * hex_val(s[i + 1]) + 16 * hex_val(s[i + 2]) + hex_val(s[i + 3])
}

/// What parsing the body of a quoted string yields: the decoded text and
/// what follows the closing quote.  All standard JSON escapes are read:
/// the eight short ones, `\uXXXX` for a scalar value, and a surrogate pair
/// of two `\uXXXX` for a character beyond the basic plane.  `None` on a
/// bare control character, a malformed escape, a lone surrogate, or a
/// missing closing quote.
pub open spec fn parse_string_spec(s: Seq<char>) -> Option<(Seq<char>, Seq<char>)>
    decreases s.len(),
{
    if s.len() == 0 {
        None
    } else if s[0] == '"' {
        Some((Seq::empty(), s.drop_first()))
    } else if s[0] == '\\' {
        if s.len() >= 2 && short_escape(s[1]) is Some {
            match parse_string_spec(s.skip(2)) {
                Some(p) => Some((seq![short_escape(s[1])->0] + p.0, p.1)),
                None => None,
            }
        } else if s.len() >= 6 && s[1] == 'u' && hex4_ok(s, 2) {
            let h = hex4_val(s, 2);
            if h < 0xD800 || h > 0xDFFF {
                match parse_string_spec(s.skip(6)) {
                    Some(p) => Some((seq![(h as u32) as char] + p.0, p.1)),
                    None => None,
                }
            } else if h < 0xDC00 {
                if s.len() >= 12 && s[6] == '\\' && s[7] == 'u' && hex4_ok(s, 8) && 0xDC00
                    <= hex4_val(s, 8) <= 0xDFFF {
                    let code = 0x10000 + (h - 0xD800) * 0x400 + (hex4_val(s, 8) - 0xDC00);
                    match parse_string_spec(s.skip(12)) {
                        Some(p) => Some((seq![(code as u32) as char] + p.0, p.1)),
                        None => None,
                    }
                } else {
                    None
                }
            } else {
                None
            }
        } else {
            None
        }
    } else if (s[0] as u32) < 32 {
        None
    } else {
        match parse_string_spec(s.drop_first()) {
            Some(p) => Some((seq![s[0]] + p.0, p.1)),
            None => None,
        }
    }
}


/// Parsing reads escaped text back exactly: for any text `v` and any
/// continuation, the parser consumes `json_escape(v)` and the closing
/// quote and yields `v`.
pub proof fn lemma_parse_escaped(v: Seq<char>, rest: Seq<char>)
    ensures
        parse_string_spec(json_escape(v) + seq!['"'] + rest) == Some((v, rest)),
    decreases v.len(),
{
    let s = json_escape(v) + seq!['"'] + rest;
    if v.len() == 0 {
        assert(s =~= seq!['"'] + rest);
        assert(s[0] == '"');
        assert(s.drop_first() =~= rest);
        assert((parse_string_spec(s)->0).0 =~= v);
    } else {
        let c = v[0];
        let code = c as u32;
        let tail = json_escape(v.drop_first()) + seq!['"'] + rest;
        lemma_parse_escaped(v.drop_first(), rest);
        assert(json_escape(v) == esc_char(c) + json_escape(v.drop_first()));
        if must_escape(c) {
            let hi = (code / 16) as int;
            let lo = (code % 16) as int;
            assert(code < 256);
            assert(s =~= seq!['\\', 'u', '0', '0', hex_digit_lower(hi), hex_digit_lower(lo)]
                + tail);
            assert(is_hex_digit(hex_digit_lower(hi)) && hex_val(hex_digit_lower(hi)) == hi);
            assert(is_hex_digit(hex_digit_lower(lo)) && hex_val(hex_digit_lower(lo)) == lo);
            assert(s[0] == '\\' && s[1] == 'u' && s[2] == '0' && s[3] == '0');
            assert(s[4] == hex_digit_lower(hi) && s[5] == hex_digit_lower(lo));
            assert(short_escape('u') is None);
            assert(hex_val('0') == 0);
            assert(hex4_ok(s, 2));
            assert(hex4_val(s, 2) == 16 * hi + lo);
            assert(hex4_val(s, 2) == code);
            assert(code < 0xD800);
            let d = (hex4_val(s, 2) as u32) as char;
            assert(hex4_val(s, 2) as u32 == code);
            assert(c as u32 == code);
            vstd::utf8::char_u32_cast(c, code);
            assert(d == c);
            assert(s.skip(6) =~= tail);
            assert(seq![c] + v.drop_first() =~= v);
        } else {
            assert(s[0] == c);
            assert(c != '"' && c != '\\' && code >= 32);
            assert(s.drop_first() =~= tail);
            assert(seq![c] + v.drop_first() =~= v);
        }
    }
}

/// Whether `c` is a hexadecimal digit (executable form).
pub fn is_hex_digit_exec(c: char) -> (r: bool)
    ensures
        r == is_hex_digit(c),
{
    let u = c as u32;
    (48 <= u && u <= 57) || (97 <= u && u <= 102) || (65 <= u && u <= 70)
}

/// The numeric value of a hexadecimal digit (executable form).
pub fn hex_val_exec(c: char) -> (r: u8)
    requires
        is_hex_digit(c),
    ensures
        r == hex_val(c),
        r < 16,
{
    let u = c as u32;
    if 48 <= u && u <= 57 {
        (u - 48) as u8
    } else if 97 <= u && u <= 102 {
        (u - 97 + 10) as u8
    } else {
        (u - 65 + 10) as u8
    }
}

/// The lowercase digit character for a value below sixteen (executable
/// form).
pub fn hex_digit_char(n: u8) -> (c: char)
    requires
        n < 16,
    ensures
        c == hex_digit_lower(n as int),
{
    if n == 0 { '0' } else if n == 1 { '1' } else if n == 2 { '2' }
    else if n == 3 { '3' } else if n == 4 { '4' } else if n == 5 { '5' }
    else if n == 6 { '6' } else if n == 7 { '7' } else if n == 8 { '8' }
    else if n == 9 { '9' } else if n == 10 { 'a' } else if n == 11 { 'b' }
    else if n == 12 { 'c' } else if n == 13 { 'd' } else if n == 14 { 'e' }
    else { 'f' }
}

/// The character a single-letter escape stands for (executable form).
pub fn short_escape_exec(e: char) -> (r: Option<char>)
    ensures
        r == short_escape(e),
{
    if e == '"' { Some('"') } else if e == '\\' { Some('\\') } else if e == '/' { Some('/') }
    else if e == 'b' { Some('\u{0008}') } else if e == 'f' { Some('\u{000C}') }
    else if e == 'n' { Some('\n') } else if e == 'r' { Some('\r') }
    else if e == 't' { Some('\t') } else { None }
}

/// Appends the escaped body of `s` to `out`.
pub fn append_escaped(out: &mut String, s: &str)
    ensures
        final(out)@ == old(out)@ + json_escape(s@),
{
    let chars = str_chars(s);
    let n = chars.len();
    let mut i: usize = 0;
    while i < n
        invariant
            n == chars@.len(),
            chars@ == s@,
            i <= n,
            out@ == old(out)@ + json_escape(s@.take(i as int)),
        decreases n - i,
    {
        let c = chars[i];
        let code = c as u32;
        if c == '"' || c == '\\' || code < 32 {
            push_char(out, '\\');
            push_char(out, 'u');
            push_char(out, '0');
            push_char(out, '0');
            push_char(out, hex_digit_char((code / 16) as u8));
            push_char(out, hex_digit_char((code % 16) as u8));
        } else {
            push_char(out, c);
        }
        proof {
            assert(s@.take(i + 1) =~= s@.take(i as int) + seq![s@[i as int]]);
            lemma_json_escape_app(s@.take(i as int), seq![s@[i as int]]);
            lemma_json_escape_single(s@[i as int]);
            assert(out@ =~= old(out)@ + json_escape(s@.take(i + 1)));
        }
        i += 1;
    }
    proof {
        assert(s@.take(n as int) =~= s@);
    }
}

/// Appends the decimal text of `n` to `out`.
pub fn append_u64(out: &mut String, n: u64)
    ensures
        final(out)@ == old(out)@ + dec_spec(n as nat),
    decreases n,
{
    if n < 10 {
        push_char(out, hex_digit_char(n as u8));
    } else {
        append_u64(out, n / 10);
        push_char(out, hex_digit_char((n % 10) as u8));
        proof {
            assert(out@ =~= old(out)@ + dec_spec(n as nat));
        }
    }
}

/// A partial parse continued: text already decoded, prefixed onto what a
/// later parse yields.
pub open spec fn prepend_parsed(acc: Seq<char>, o: Option<(Seq<char>, Seq<char>)>) -> Option<
    (Seq<char>, Seq<char>),
> {
    match o {
        Some(p) => Some((acc + p.0, p.1)),
        None => None,
    }
}

/// Parses the body of a quoted string out of `v`, starting at `start`
/// (just past the opening quote).  Yields the decoded text and the
/// position just past the closing quote, consuming exactly what
/// `parse_string_spec` describes.
pub fn parse_string_from(v: &Vec<char>, start: usize) -> (r: Option<(String, usize)>)
    requires
        start <= v@.len(),
    ensures
        r is None ==> parse_string_spec(v@.skip(start as int)) is None,
        r is Some ==> {
            &&& start <= (r->0).1 <= v@.len()
            &&& parse_string_spec(v@.skip(start as int)) == Some(
                ((r->0).0@, v@.skip((r->0).1 as int)),
            )
        },
{
    let mut acc = String::new();
    let mut j = start;
    proof {
        if parse_string_spec(v@.skip(start as int)) is Some {
            let p = parse_string_spec(v@.skip(start as int))->0;
            assert(acc@ + p.0 =~= p.0);
        }
    }
    loop
        invariant
            start <= j <= v@.len(),
            parse_string_spec(v@.skip(start as int)) == prepend_parsed(
                acc@,
                parse_string_spec(v@.skip(j as int)),
            ),
        decreases v@.len() - j,
    {
        if j >= v.len() {
            return None;
        }
        let c = v[j];
        let ghost su = v@.skip(j as int);
        proof {
            assert(su.len() > 0 && su[0] == c);
        }
        if c == '"' {
            proof {
                assert(su.drop_first() =~= v@.skip(j + 1));
                assert(parse_string_spec(su) == Some(
                    (Seq::<char>::empty(), v@.skip(j + 1)),
                ));
                assert(acc@ + Seq::<char>::empty() =~= acc@);
            }
            return Some((acc, j + 1));
        } else if c == '\\' {
            if v.len() - j < 2 {
                proof {
                    assert(su.len() < 2);
                }
                return None;
            }
            let c1 = v[j + 1];
            proof {
                assert(su.len() >= 2 && su[1] == c1);
            }
            if let Some(decoded) = short_escape_exec(c1) {
                let ghost acc_pre = acc@;
                push_char(&mut acc, decoded);
                proof {
                    assert(su.skip(2) =~= v@.skip(j + 2));
                    if parse_string_spec(v@.skip(j + 2)) is Some {
                        let p = parse_string_spec(v@.skip(j + 2))->0;
                        assert(parse_string_spec(su) == Some((seq![decoded] + p.0, p.1)));
                        assert(acc_pre + (seq![decoded] + p.0) =~= acc@ + p.0);
                    } else {
                        assert(parse_string_spec(su) is None);
                    }
                }
                j += 2;
            } else if c1 == 'u' {
                if v.len() - j < 6 {
                    proof {
                        assert(su.len() < 6);
                    }
                    return None;
                }
                let c2 = v[j + 2];
                let c3 = v[j + 3];
                let c4 = v[j + 4];
                let c5 = v[j + 5];
                proof {
                    assert(su.len() >= 6);
                    assert(su[2] == c2 && su[3] == c3 && su[4] == c4 && su[5] == c5);
                }
                if !(is_hex_digit_exec(c2) && is_hex_digit_exec(c3) && is_hex_digit_exec(c4)
                    && is_hex_digit_exec(c5)) {
                    proof {
                        assert(!hex4_ok(su, 2));
                    }
                    return None;
                }
                let h: u32 = 4096 * (hex_val_exec(c2) as u32) + 256 * (hex_val_exec(c3) as u32)
                    + 16 * (hex_val_exec(c4) as u32) + (hex_val_exec(c5) as u32);
                proof {
                    assert(h == hex4_val(su, 2));
                }
                if h < 0xD800 || h > 0xDFFF {
                    let decoded = match char_from_u32(h) {
                        Some(d) => d,
                        None => {
                            proof {
                                assert(false);
                            }
                            return None;
                        },
                    };
                    let ghost acc_pre = acc@;
                    push_char(&mut acc, decoded);
                    proof {
                        vstd::utf8::char_u32_cast(decoded, h);
                        assert((hex4_val(su, 2) as u32) as char == decoded);
                        assert(su.skip(6) =~= v@.skip(j + 6));
                        if parse_string_spec(v@.skip(j + 6)) is Some {
                            let p = parse_string_spec(v@.skip(j + 6))->0;
                            assert(parse_string_spec(su) == Some((seq![decoded] + p.0, p.1)));
                            assert(acc_pre + (seq![decoded] + p.0) =~= acc@ + p.0);
                        } else {
                            assert(parse_string_spec(su) is None);
                        }
                    }
                    j += 6;
                } else if h < 0xDC00 {
                    // a high surrogate: the low half must follow
                    if v.len() - j < 12 {
                        proof {
                            assert(su.len() < 12);
                        }
                        return None;
                    }
                    let c6 = v[j + 6];
                    let c7 = v[j + 7];
                    let c8 = v[j + 8];
                    let c9 = v[j + 9];
                    let c10 = v[j + 10];
                    let c11 = v[j + 11];
                    proof {
                        assert(su.len() >= 12);
                        assert(su[6] == c6 && su[7] == c7 && su[8] == c8 && su[9] == c9
                            && su[10] == c10 && su[11] == c11);
                    }
                    if !(c6 == '\\' && c7 == 'u') {
                        return None;
                    }
                    if !(is_hex_digit_exec(c8) && is_hex_digit_exec(c9) && is_hex_digit_exec(
                        c10,
                    ) && is_hex_digit_exec(c11)) {
                        proof {
                            assert(!hex4_ok(su, 8));
                        }
                        return None;
                    }
                    let l: u32 = 4096 * (hex_val_exec(c8) as u32) + 256 * (hex_val_exec(
                        c9,
                    ) as u32) + 16 * (hex_val_exec(c10) as u32) + (hex_val_exec(c11) as u32);
                    proof {
                        assert(l == hex4_val(su, 8));
                    }
                    if !(0xDC00 <= l && l <= 0xDFFF) {
                        return None;
                    }
                    let code: u32 = 0x10000 + (h - 0xD800) * 0x400 + (l - 0xDC00);
                    let decoded = match char_from_u32(code) {
                        Some(d) => d,
                        None => {
                            proof {
                                assert(false);
                            }
                            return None;
                        },
                    };
                    let ghost acc_pre = acc@;
                    push_char(&mut acc, decoded);
                    proof {
                        vstd::utf8::char_u32_cast(decoded, code);
                        assert(code == 0x10000 + (hex4_val(su, 2) - 0xD800) * 0x400 + (
                        hex4_val(su, 8) - 0xDC00));
                        assert(((0x10000 + (hex4_val(su, 2) - 0xD800) * 0x400 + (hex4_val(
                            su,
                            8,
                        ) - 0xDC00)) as u32) as char == decoded);
                        assert(su.skip(12) =~= v@.skip(j + 12));
                        if parse_string_spec(v@.skip(j + 12)) is Some {
                            let p = parse_string_spec(v@.skip(j + 12))->0;
                            assert(parse_string_spec(su) == Some((seq![decoded] + p.0, p.1)));
                            assert(acc_pre + (seq![decoded] + p.0) =~= acc@ + p.0);
                        } else {
                            assert(parse_string_spec(su) is None);
                        }
                    }
                    j += 12;
                } else {
                    // a lone low surrogate
                    return None;
                }
            } else {
                proof {
                    assert(short_escape(c1) is None && c1 != 'u');
                }
                return None;
            }
        } else if (c as u32) < 32 {
            return None;
        } else {
            let ghost acc_pre = acc@;
            push_char(&mut acc, c);
            proof {
                assert(su.drop_first() =~= v@.skip(j + 1));
                if parse_string_spec(v@.skip(j + 1)) is Some {
                    let p = parse_string_spec(v@.skip(j + 1))->0;
                    assert(parse_string_spec(su) == Some((seq![c] + p.0, p.1)));
                    assert(acc_pre + (seq![c] + p.0) =~= acc@ + p.0);
                } else {
                    assert(parse_string_spec(su) is None);
                }
            }
            j += 1;
        }
    }
}

} // verus!
