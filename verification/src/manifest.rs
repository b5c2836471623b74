//! The manifest codec: encodes and decodes the JSON record
//! `{"name": <string>, "iteration": <integer>}` that identifies a stored
//! snapshot. The encoder produces one canonical form; the decoder accepts
//! the JSON object with its two members in either order, with arbitrary
//! whitespace between tokens, and with the usual string escapes.

use vstd::prelude::*;

use crate::hash::{hex_digit, hex_digit_to_char};
use crate::strutil::{dec_str, digit_char, str_eq, string_push, u64_to_dec};

verus! {

// ---------------------------------------------------------------------
// Whitespace
// ---------------------------------------------------------------------

/// JSON inter-token whitespace.
pub open spec fn is_ws(c: char) -> bool {
    c == ' ' || c == '\t' || c == '\n' || c == '\r'
}

/// The first index at or after `i` holding a non-whitespace character
/// (or the end of the input).
pub open spec fn skip_ws(s: Seq<char>, i: int) -> int
    decreases s.len() - i,
    when 0 <= i
{
    if i < s.len() && is_ws(s[i]) {
        skip_ws(s, i + 1)
    } else {
        i
    }
}

pub proof fn skip_ws_bounds(s: Seq<char>, i: int)
    requires
        0 <= i <= s.len(),
    ensures
        i <= skip_ws(s, i) <= s.len(),
    decreases s.len() - i,
{
    if i < s.len() && is_ws(s[i]) {
        skip_ws_bounds(s, i + 1);
    }
}

/// Advances past whitespace.
fn skip_ws_exec(s: &str, i: usize) -> (r: usize)
    requires
        i <= s@.len(),
    ensures
        r as int == skip_ws(s@, i as int),
        i <= r <= s@.len(),
{
    let len = s.unicode_len();
    let mut k = i;
    while k < len && (s.get_char(k) == ' ' || s.get_char(k) == '\t'
            || s.get_char(k) == '\n' || s.get_char(k) == '\r')
        invariant
            i <= k <= len,
            len == s@.len(),
            skip_ws(s@, i as int) == skip_ws(s@, k as int),
        decreases len - k,
    {
        k = k + 1;
    }
    proof {
        skip_ws_bounds(s@, k as int);
    }
    k
}

// ---------------------------------------------------------------------
// Hex and decimal digits
// ---------------------------------------------------------------------

/// The value of a hex digit character, or -1 when it is none.
pub open spec fn hex_val(c: char) -> int {
    let u = c as u32;
    if 48 <= u <= 57 {
        u - 48
    } else if 97 <= u <= 102 {
        u - 87
    } else if 65 <= u <= 70 {
        u - 55
    } else {
        -1
    }
}

/// Computes `hex_val`; -1 is reported as `None`.
fn hex_val_exec(c: char) -> (r: Option<u8>)
    ensures
        match r {
            Some(v) => hex_val(c) == v as int && v < 16,
            None => hex_val(c) == -1,
        },
{
    let u = c as u32;
    if 48 <= u && u <= 57 {
        Some((u - 48) as u8)
    } else if 97 <= u && u <= 102 {
        Some((u - 87) as u8)
    } else if 65 <= u && u <= 70 {
        Some((u - 55) as u8)
    } else {
        None
    }
}

/// The value of a decimal digit character, or -1 when it is none.
pub open spec fn digit_val(c: char) -> int {
    let u = c as u32;
    if 48 <= u <= 57 {
        u - 48
    } else {
        -1
    }
}

// ---------------------------------------------------------------------
// JSON string bodies
// ---------------------------------------------------------------------

/// The character denoted by a single-character escape, if it is one.
pub open spec fn unescape_char(e: char) -> Option<char> {
    if e == '"' { Some('"') }
    else if e == '\\' { Some('\\') }
    else if e == '/' { Some('/') }
    else if e == 'b' { Some('\u{0008}') }
    else if e == 'f' { Some('\u{000c}') }
    else if e == 'n' { Some('\n') }
    else if e == 'r' { Some('\r') }
    else if e == 't' { Some('\t') }
    else { None }
}

/// Computes `unescape_char`.
fn unescape_char_exec(e: char) -> (r: Option<char>)
    ensures
        r == unescape_char(e),
{
    if e == '"' { Some('"') }
    else if e == '\\' { Some('\\') }
    else if e == '/' { Some('/') }
    else if e == 'b' { Some('\u{0008}') }
    else if e == 'f' { Some('\u{000c}') }
    else if e == 'n' { Some('\n') }
    else if e == 'r' { Some('\r') }
    else if e == 't' { Some('\t') }
    else { None }
}

/// The scalar value of a four-hex-digit escape starting at `i`
/// (the position just after "\u"), or -1 when malformed.
pub open spec fn hex4_val(s: Seq<char>, i: int) -> int {
    if i + 4 <= s.len() && hex_val(s[i]) >= 0 && hex_val(s[i + 1]) >= 0
        && hex_val(s[i + 2]) >= 0 && hex_val(s[i + 3]) >= 0 {
        hex_val(s[i]) * 4096 + hex_val(s[i + 1]) * 256 + hex_val(s[i + 2]) * 16
            + hex_val(s[i + 3])
    } else {
        -1
    }
}

/// A code unit from a "\u" escape that this decoder accepts: within the
/// basic plane and not a surrogate half.
pub open spec fn acceptable_escape_scalar(v: int) -> bool {
    0 <= v <= 0xffff && !(0xd800 <= v <= 0xdfff)
}

/// Parses the body of a JSON string starting at `i` (just after the
/// opening quote), up to and including the closing quote. Yields the
/// denoted character sequence and the index just after the closing
/// quote. Unescaped control characters, truncated input, unknown
/// escapes, and "\u" escapes denoting surrogate halves are rejected.
pub open spec fn parse_string_body(s: Seq<char>, i: int) -> Option<(Seq<char>, int)>
    decreases s.len() - i,
    when 0 <= i
{
    if i >= s.len() {
        None
    } else if s[i] == '"' {
        Some((Seq::empty(), i + 1))
    } else if s[i] == '\\' {
        if i + 2 > s.len() {
            None
        } else if s[i + 1] == 'u' {
            let v = hex4_val(s, i + 2);
            if acceptable_escape_scalar(v) {
                match parse_string_body(s, i + 6) {
                    Some((rest, j)) => Some((seq![(v as u32) as char] + rest, j)),
                    None => None,
                }
            } else {
                None
            }
        } else {
            match unescape_char(s[i + 1]) {
                Some(c) => match parse_string_body(s, i + 2) {
                    Some((rest, j)) => Some((seq![c] + rest, j)),
                    None => None,
                },
                None => None,
            }
        }
    } else if (s[i] as u32) < 0x20 {
        None
    } else {
        match parse_string_body(s, i + 1) {
            Some((rest, j)) => Some((seq![s[i]] + rest, j)),
            None => None,
        }
    }
}

pub proof fn parse_string_body_bounds(s: Seq<char>, i: int)
    requires
        0 <= i <= s.len(),
    ensures
        match parse_string_body(s, i) {
            Some((_, j)) => i < j <= s.len(),
            None => true,
        },
    decreases s.len() - i,
{
    if i < s.len() {
        if s[i] == '\\' {
            if i + 2 <= s.len() {
                if s[i + 1] == 'u' {
                    if i + 6 <= s.len() {
                        parse_string_body_bounds(s, i + 6);
                    }
                } else {
                    parse_string_body_bounds(s, i + 2);
                }
            }
        } else if s[i] != '"' {
            parse_string_body_bounds(s, i + 1);
        }
    }
}

/// Computes `parse_string_body`.
fn parse_string_body_exec(s: &str, i: usize) -> (r: Option<(String, usize)>)
    requires
        i <= s@.len(),
    ensures
        match r {
            Some((t, j)) => {
                &&& parse_string_body(s@, i as int) == Some((t@, j as int))
                &&& i < j <= s@.len()
            },
            None => parse_string_body(s@, i as int) is None,
        },
    decreases s@.len() - i,
{
    let len = s.unicode_len();
    proof {
        parse_string_body_bounds(s@, i as int);
    }
    if i >= len {
        return None;
    }
    let c = s.get_char(i);
    if c == '"' {
        return Some((String::new(), i + 1));
    }
    if c == '\\' {
        if len - i < 2 {
            return None;
        }
        let e = s.get_char(i + 1);
        if e == 'u' {
            if len - i < 6 {
                proof {
                    assert(hex4_val(s@, i + 2) == -1);
                }
                return None;
            }
            let h0 = hex_val_exec(s.get_char(i + 2));
            let h1 = hex_val_exec(s.get_char(i + 3));
            let h2 = hex_val_exec(s.get_char(i + 4));
            let h3 = hex_val_exec(s.get_char(i + 5));
            match (h0, h1, h2, h3) {
                (Some(d0), Some(d1), Some(d2), Some(d3)) => {
                    let v: u32 = (d0 as u32) * 4096 + (d1 as u32) * 256 + (d2 as u32) * 16
                        + (d3 as u32);
                    proof {
                        assert(hex4_val(s@, i + 2) == v as int);
                    }
                    if 0xd800 <= v && v <= 0xdfff {
                        return None;
                    }
                    let ch = match char::from_u32(v) {
                        Some(ch) => ch,
                        None => {
                            // excluded above: v is below 0x10000 and no
                            // surrogate half, so it is a scalar value
                            proof {
                                assert(false);
                            }
                            return None;
                        },
                    };
                    proof {
                        vstd::utf8::char_u32_cast(ch, v);
                    }
                    match parse_string_body_exec(s, i + 6) {
                        Some((rest, j)) => {
                            let mut out = String::new();
                            string_push(&mut out, ch);
                            out.append(rest.as_str());
                            proof {
                                assert(out@ =~= seq![(v as u32) as char] + rest@);
                            }
                            Some((out, j))
                        },
                        None => None,
                    }
                },
                _ => {
                    proof {
                        assert(hex4_val(s@, i + 2) == -1);
                    }
                    None
                },
            }
        } else {
            match unescape_char_exec(e) {
                Some(ch) => {
                    match parse_string_body_exec(s, i + 2) {
                        Some((rest, j)) => {
                            let mut out = String::new();
                            string_push(&mut out, ch);
                            out.append(rest.as_str());
                            proof {
                                assert(out@ =~= seq![ch] + rest@);
                            }
                            Some((out, j))
                        },
                        None => None,
                    }
                },
                None => None,
            }
        }
    } else if (c as u32) < 0x20 {
        None
    } else {
        match parse_string_body_exec(s, i + 1) {
            Some((rest, j)) => {
                let mut out = String::new();
                string_push(&mut out, c);
                out.append(rest.as_str());
                proof {
                    assert(out@ =~= seq![c] + rest@);
                }
                Some((out, j))
            },
            None => None,
        }
    }
}

// ---------------------------------------------------------------------
// Numbers
// ---------------------------------------------------------------------

/// The first index at or after `i` holding a non-digit (or the end).
pub open spec fn digit_run_end(s: Seq<char>, i: int) -> int
    decreases s.len() - i,
    when 0 <= i
{
    if i < s.len() && digit_val(s[i]) >= 0 {
        digit_run_end(s, i + 1)
    } else {
        i
    }
}

pub proof fn digit_run_end_bounds(s: Seq<char>, i: int)
    requires
        0 <= i <= s.len(),
    ensures
        i <= digit_run_end(s, i) <= s.len(),
        forall|k: int| i <= k < digit_run_end(s, i) ==> digit_val(s[k]) >= 0,
    decreases s.len() - i,
{
    if i < s.len() && digit_val(s[i]) >= 0 {
        digit_run_end_bounds(s, i + 1);
    }
}

/// The numeric value of a sequence of decimal digit characters.
pub open spec fn dec_val(digits: Seq<char>) -> int
    decreases digits.len(),
{
    if digits.len() == 0 {
        0
    } else {
        dec_val(digits.drop_last()) * 10 + digit_val(digits.last())
    }
}

pub proof fn dec_val_nonneg(digits: Seq<char>)
    requires
        forall|k: int| 0 <= k < digits.len() ==> digit_val(digits[k]) >= 0,
    ensures
        dec_val(digits) >= 0,
    decreases digits.len(),
{
    if digits.len() > 0 {
        dec_val_nonneg(digits.drop_last());
    }
}

/// Dropping trailing digits never increases the value.
pub proof fn dec_val_take_le(digits: Seq<char>, m: int)
    requires
        forall|k: int| 0 <= k < digits.len() ==> digit_val(digits[k]) >= 0,
        0 <= m <= digits.len(),
    ensures
        dec_val(digits.take(m)) <= dec_val(digits),
    decreases digits.len() - m,
{
    if m < digits.len() {
        dec_val_take_le(digits, m + 1);
        let t = digits.take(m + 1);
        assert(t.drop_last() =~= digits.take(m));
        assert(t.last() == digits[m]);
        dec_val_nonneg(digits.take(m));
        assert(dec_val(t) == dec_val(digits.take(m)) * 10 + digit_val(digits[m]));
        assert(dec_val(digits.take(m)) <= dec_val(digits.take(m)) * 10) by (nonlinear_arith)
            requires dec_val(digits.take(m)) >= 0;
    } else {
        assert(digits.take(m) =~= digits);
    }
}

/// Parses a non-negative JSON integer at `i`: a non-empty digit run with
/// no superfluous leading zero, whose value fits in a u64.
pub open spec fn parse_number(s: Seq<char>, i: int) -> Option<(u64, int)>
    recommends
        0 <= i,
{
    let j = digit_run_end(s, i);
    if j == i {
        None
    } else if s[i] == '0' && j > i + 1 {
        None
    } else if dec_val(s.subrange(i, j)) > u64::MAX {
        None
    } else {
        Some((dec_val(s.subrange(i, j)) as u64, j))
    }
}

/// Decides whether `c` is a decimal digit.
fn is_digit_char(c: char) -> (r: bool)
    ensures
        r == (digit_val(c) >= 0),
{
    let u = c as u32;
    48 <= u && u <= 57
}

/// Computes `parse_number`.
fn parse_number_exec(s: &str, i: usize) -> (r: Option<(u64, usize)>)
    requires
        i <= s@.len(),
    ensures
        match r {
            Some((v, j)) => {
                &&& parse_number(s@, i as int) == Some((v, j as int))
                &&& i < j <= s@.len()
            },
            None => parse_number(s@, i as int) is None,
        },
{
    let len = s.unicode_len();
    proof {
        digit_run_end_bounds(s@, i as int);
    }
    // find the end of the digit run
    let mut j = i;
    while j < len && is_digit_char(s.get_char(j))
        invariant
            i <= j <= len,
            len == s@.len(),
            digit_run_end(s@, i as int) == digit_run_end(s@, j as int),
        decreases len - j,
    {
        j = j + 1;
    }
    proof {
        assert(digit_run_end(s@, j as int) == j);
    }
    if j == i {
        return None;
    }
    if s.get_char(i) == '0' && j > i + 1 {
        return None;
    }
    // accumulate the value, watching for overflow
    let ghost digits = s@.subrange(i as int, j as int);
    proof {
        assert(forall|m: int| 0 <= m < digits.len() ==> digits[m] == s@[i + m]);
        assert(forall|m: int| 0 <= m < digits.len() ==> digit_val(digits[m]) >= 0);
    }
    let mut val: u64 = 0;
    let mut k = i;
    while k < j
        invariant
            i < j <= len,
            i <= k <= j,
            len == s@.len(),
            digits == s@.subrange(i as int, j as int),
            digit_run_end(s@, i as int) == j,
            !(s@[i as int] == '0' && j > i + 1),
            forall|m: int| 0 <= m < digits.len() ==> digit_val(digits[m]) >= 0,
            val as int == dec_val(digits.take(k - i)),
        decreases j - k,
    {
        let u = s.get_char(k) as u32;
        proof {
            assert(digits[k - i] == s@[k as int]);
            assert(digit_val(digits[k - i]) >= 0);
            assert(48 <= u <= 57);
        }
        let d: u64 = (u - 48) as u64;
        if val > (u64::MAX - d) / 10 {
            proof {
                let t = digits.take(k - i + 1);
                assert(t.drop_last() =~= digits.take(k - i));
                assert(t.last() == digits[k - i]);
                assert(digits[k - i] == s@[k as int]);
                assert(dec_val(t) == val as int * 10 + d);
                assert(val as int * 10 + d > u64::MAX) by (nonlinear_arith)
                    requires
                        val as int > (u64::MAX as int - d) / 10,
                        0 <= d <= 9,
                        0 <= val as int;
                dec_val_take_le(digits, k - i + 1);
                assert(dec_val(digits) > u64::MAX);
                assert(digits.take(digits.len() as int) =~= digits);
            }
            return None;
        }
        proof {
            assert(val as int * 10 + d <= u64::MAX) by (nonlinear_arith)
                requires
                    val as int <= (u64::MAX as int - d) / 10,
                    0 <= d <= 9,
                    0 <= val as int;
            let t = digits.take(k - i + 1);
            assert(t.drop_last() =~= digits.take(k - i));
            assert(t.last() == digits[k - i]);
            assert(digits[k - i] == s@[k as int]);
        }
        val = val * 10 + d;
        k = k + 1;
    }
    proof {
        assert(digits.take(j - i) =~= digits);
    }
    Some((val, j))
}

// ---------------------------------------------------------------------
// The manifest object
// ---------------------------------------------------------------------

/// Parses a quoted JSON string starting at `i`.
pub open spec fn parse_json_string(s: Seq<char>, i: int) -> Option<(Seq<char>, int)>
    recommends
        0 <= i,
{
    if i < s.len() && s[i] == '"' {
        parse_string_body(s, i + 1)
    } else {
        None
    }
}

/// Computes `parse_json_string`.
fn parse_json_string_exec(s: &str, i: usize) -> (r: Option<(String, usize)>)
    requires
        i <= s@.len(),
    ensures
        match r {
            Some((t, j)) => {
                &&& parse_json_string(s@, i as int) == Some((t@, j as int))
                &&& i < j <= s@.len()
            },
            None => parse_json_string(s@, i as int) is None,
        },
{
    let len = s.unicode_len();
    if i < len && s.get_char(i) == '"' {
        parse_string_body_exec(s, i + 1)
    } else {
        None
    }
}

/// Parses a member key and its ':' separator: a quoted string, optional
/// whitespace, ':', optional whitespace. Yields the key and the index of
/// the member's value.
pub open spec fn parse_key_colon(s: Seq<char>, i: int) -> Option<(Seq<char>, int)>
    recommends
        0 <= i,
{
    match parse_json_string(s, i) {
        None => None,
        Some((k, j)) => {
            let j2 = skip_ws(s, j);
            if j2 < s.len() && s[j2] == ':' {
                Some((k, skip_ws(s, j2 + 1)))
            } else {
                None
            }
        },
    }
}

/// Computes `parse_key_colon`.
fn parse_key_colon_exec(s: &str, i: usize) -> (r: Option<(String, usize)>)
    requires
        i <= s@.len(),
    ensures
        match r {
            Some((k, j)) => {
                &&& parse_key_colon(s@, i as int) == Some((k@, j as int))
                &&& i < j <= s@.len()
            },
            None => parse_key_colon(s@, i as int) is None,
        },
{
    let len = s.unicode_len();
    match parse_json_string_exec(s, i) {
        None => None,
        Some((k, j)) => {
            let j2 = skip_ws_exec(s, j);
            if j2 < len && s.get_char(j2) == ':' {
                let j3 = skip_ws_exec(s, j2 + 1);
                Some((k, j3))
            } else {
                None
            }
        },
    }
}

/// Parses a ',' member separator surrounded by optional whitespace.
pub open spec fn parse_comma(s: Seq<char>, i: int) -> Option<int>
    recommends
        0 <= i,
{
    let j = skip_ws(s, i);
    if j < s.len() && s[j] == ',' {
        Some(skip_ws(s, j + 1))
    } else {
        None
    }
}

/// Computes `parse_comma`.
fn parse_comma_exec(s: &str, i: usize) -> (r: Option<usize>)
    requires
        i <= s@.len(),
    ensures
        match r {
            Some(j) => parse_comma(s@, i as int) == Some(j as int) && i <= j <= s@.len(),
            None => parse_comma(s@, i as int) is None,
        },
{
    let len = s.unicode_len();
    let j = skip_ws_exec(s, i);
    if j < len && s.get_char(j) == ',' {
        Some(skip_ws_exec(s, j + 1))
    } else {
        None
    }
}

/// The input from `i` on is exactly a closing '}' surrounded by optional
/// whitespace, and nothing more.
pub open spec fn closes_object(s: Seq<char>, i: int) -> bool
    recommends
        0 <= i,
{
    let j = skip_ws(s, i);
    j < s.len() && s[j] == '}' && skip_ws(s, j + 1) == s.len()
}

/// Decides `closes_object`.
fn closes_object_exec(s: &str, i: usize) -> (r: bool)
    requires
        i <= s@.len(),
    ensures
        r == closes_object(s@, i as int),
{
    let len = s.unicode_len();
    let j = skip_ws_exec(s, i);
    if j < len && s.get_char(j) == '}' {
        let j2 = skip_ws_exec(s, j + 1);
        j2 == len
    } else {
        false
    }
}

/// Parses a complete manifest document: a JSON object holding exactly
/// the members "name" (a string) and "iteration" (an integer that fits
/// in a u64), in either order, and nothing else.
pub open spec fn parse_manifest_chars(s: Seq<char>) -> Option<(Seq<char>, u64)> {
    let i0 = skip_ws(s, 0);
    if i0 < s.len() && s[i0] == '{' {
        let i1 = skip_ws(s, i0 + 1);
        match parse_key_colon(s, i1) {
            None => None,
            Some((k1, i2)) => {
                if k1 == "name"@ {
                    match parse_json_string(s, i2) {
                        None => None,
                        Some((nm, i3)) => match parse_comma(s, i3) {
                            None => None,
                            Some(i4) => match parse_key_colon(s, i4) {
                                None => None,
                                Some((k2, i5)) => {
                                    if k2 == "iteration"@ {
                                        match parse_number(s, i5) {
                                            None => None,
                                            Some((it, i6)) => {
                                                if closes_object(s, i6) {
                                                    Some((nm, it))
                                                } else {
                                                    None
                                                }
                                            },
                                        }
                                    } else {
                                        None
                                    }
                                },
                            },
                        },
                    }
                } else if k1 == "iteration"@ {
                    match parse_number(s, i2) {
                        None => None,
                        Some((it, i3)) => match parse_comma(s, i3) {
                            None => None,
                            Some(i4) => match parse_key_colon(s, i4) {
                                None => None,
                                Some((k2, i5)) => {
                                    if k2 == "name"@ {
                                        match parse_json_string(s, i5) {
                                            None => None,
                                            Some((nm, i6)) => {
                                                if closes_object(s, i6) {
                                                    Some((nm, it))
                                                } else {
                                                    None
                                                }
                                            },
                                        }
                                    } else {
                                        None
                                    }
                                },
                            },
                        },
                    }
                } else {
                    None
                }
            },
        }
    } else {
        None
    }
}

/// Computes `parse_manifest_chars`.
pub fn parse_manifest_str(s: &str) -> (r: Option<(String, u64)>)
    ensures
        match r {
            Some((nm, it)) => parse_manifest_chars(s@) == Some((nm@, it)),
            None => parse_manifest_chars(s@) is None,
        },
{
    let len = s.unicode_len();
    let i0 = skip_ws_exec(s, 0);
    if !(i0 < len && s.get_char(i0) == '{') {
        return None;
    }
    let i1 = skip_ws_exec(s, i0 + 1);
    match parse_key_colon_exec(s, i1) {
        None => None,
        Some((k1, i2)) => {
            if str_eq(k1.as_str(), "name") {
                match parse_json_string_exec(s, i2) {
                    None => None,
                    Some((nm, i3)) => match parse_comma_exec(s, i3) {
                        None => None,
                        Some(i4) => match parse_key_colon_exec(s, i4) {
                            None => None,
                            Some((k2, i5)) => {
                                if str_eq(k2.as_str(), "iteration") {
                                    match parse_number_exec(s, i5) {
                                        None => None,
                                        Some((it, i6)) => {
                                            if closes_object_exec(s, i6) {
                                                Some((nm, it))
                                            } else {
                                                None
                                            }
                                        },
                                    }
                                } else {
                                    None
                                }
                            },
                        },
                    },
                }
            } else if str_eq(k1.as_str(), "iteration") {
                match parse_number_exec(s, i2) {
                    None => None,
                    Some((it, i3)) => match parse_comma_exec(s, i3) {
                        None => None,
                        Some(i4) => match parse_key_colon_exec(s, i4) {
                            None => None,
                            Some((k2, i5)) => {
                                if str_eq(k2.as_str(), "name") {
                                    match parse_json_string_exec(s, i5) {
                                        None => None,
                                        Some((nm, i6)) => {
                                            if closes_object_exec(s, i6) {
                                                Some((nm, it))
                                            } else {
                                                None
                                            }
                                        },
                                    }
                                } else {
                                    None
                                }
                            },
                        },
                    },
                }
            } else {
                None
            }
        },
    }
}

// ---------------------------------------------------------------------
// Encoding
// ---------------------------------------------------------------------

/// How one character is written inside the encoded JSON string: quotes
/// and backslashes get a backslash escape, control characters a "\u00"
/// escape, and everything else stands as itself.
pub open spec fn escape_char(c: char) -> Seq<char> {
    if c == '"' {
        seq!['\\', '"']
    } else if c == '\\' {
        seq!['\\', '\\']
    } else if (c as u32) < 0x20 {
        seq![
            '\\', 'u', '0', '0',
            hex_digit(((c as u32) / 16) as nat),
            hex_digit(((c as u32) % 16) as nat),
        ]
    } else {
        seq![c]
    }
}

/// The escaped form of a character sequence.
pub open spec fn json_escape(s: Seq<char>) -> Seq<char>
    decreases s.len(),
{
    if s.len() == 0 {
        Seq::empty()
    } else {
        escape_char(s[0]) + json_escape(s.drop_first())
    }
}

pub proof fn json_escape_snoc(s: Seq<char>, c: char)
    ensures
        json_escape(s.push(c)) == json_escape(s) + escape_char(c),
    decreases s.len(),
{
    if s.len() == 0 {
        assert(s.push(c)[0] == c);
        assert(s.push(c).drop_first() =~= Seq::<char>::empty());
        assert(json_escape(s.push(c))
            == escape_char(c) + json_escape(s.push(c).drop_first()));
        assert(json_escape(Seq::<char>::empty()) == Seq::<char>::empty());
        assert(escape_char(c) + Seq::<char>::empty() =~= Seq::<char>::empty()
            + escape_char(c));
        assert(json_escape(s) =~= Seq::<char>::empty());
        assert(json_escape(s.push(c)) =~= json_escape(s) + escape_char(c));
    } else {
        assert(s.push(c)[0] == s[0]);
        assert(s.push(c).drop_first() =~= s.drop_first().push(c));
        json_escape_snoc(s.drop_first(), c);
        assert(escape_char(s[0]) + (json_escape(s.drop_first()) + escape_char(c))
            =~= (escape_char(s[0]) + json_escape(s.drop_first())) + escape_char(c));
    }
}

/// The opening of the encoded document, up to the first character of the
/// escaped name.
pub open spec fn manifest_open() -> Seq<char> {
    seq!['{', '"', 'n', 'a', 'm', 'e', '"', ':', '"']
}

/// The middle of the encoded document, between the escaped name and the
/// decimal iteration.
pub open spec fn manifest_mid() -> Seq<char> {
    seq!['"', ',', '"', 'i', 't', 'e', 'r', 'a', 't', 'i', 'o', 'n', '"', ':']
}

/// The canonical encoded form of a manifest record.
pub open spec fn manifest_json(name: Seq<char>, iteration: u64) -> Seq<char> {
    manifest_open() + json_escape(name) + manifest_mid() + dec_str(iteration as nat)
        + seq!['}']
}

/// Encodes a manifest record as `manifest_json`.
pub fn encode_manifest_str(name: &str, iteration: u64) -> (r: String)
    ensures
        r@ == manifest_json(name@, iteration),
{
    let mut out = String::new();
    string_push(&mut out, '{');
    string_push(&mut out, '"');
    string_push(&mut out, 'n');
    string_push(&mut out, 'a');
    string_push(&mut out, 'm');
    string_push(&mut out, 'e');
    string_push(&mut out, '"');
    string_push(&mut out, ':');
    string_push(&mut out, '"');
    proof {
        assert(out@ =~= manifest_open());
        assert(name@.take(0) =~= Seq::<char>::empty());
        assert(out@ + Seq::<char>::empty() =~= out@);
    }
    let nlen = name.unicode_len();
    let mut i: usize = 0;
    while i < nlen
        invariant
            0 <= i <= nlen,
            nlen == name@.len(),
            out@ == manifest_open() + json_escape(name@.take(i as int)),
        decreases nlen - i,
    {
        let c = name.get_char(i);
        let ghost before = out@;
        if c == '"' {
            string_push(&mut out, '\\');
            string_push(&mut out, '"');
        } else if c == '\\' {
            string_push(&mut out, '\\');
            string_push(&mut out, '\\');
        } else if (c as u32) < 0x20 {
            let u = c as u32;
            string_push(&mut out, '\\');
            string_push(&mut out, 'u');
            string_push(&mut out, '0');
            string_push(&mut out, '0');
            string_push(&mut out, hex_digit_to_char((u / 16) as u8));
            string_push(&mut out, hex_digit_to_char((u % 16) as u8));
        } else {
            string_push(&mut out, c);
        }
        proof {
            assert(out@ =~= before + escape_char(c));
            json_escape_snoc(name@.take(i as int), c);
            assert(name@.take(i as int).push(c) =~= name@.take(i + 1));
            assert(manifest_open() + (json_escape(name@.take(i as int)) + escape_char(c))
                =~= (manifest_open() + json_escape(name@.take(i as int))) + escape_char(c));
        }
        i = i + 1;
    }
    proof {
        assert(name@.take(nlen as int) =~= name@);
    }
    string_push(&mut out, '"');
    string_push(&mut out, ',');
    string_push(&mut out, '"');
    string_push(&mut out, 'i');
    string_push(&mut out, 't');
    string_push(&mut out, 'e');
    string_push(&mut out, 'r');
    string_push(&mut out, 'a');
    string_push(&mut out, 't');
    string_push(&mut out, 'i');
    string_push(&mut out, 'o');
    string_push(&mut out, 'n');
    string_push(&mut out, '"');
    string_push(&mut out, ':');
    proof {
        assert(out@ =~= manifest_open() + json_escape(name@) + manifest_mid());
    }
    let num = u64_to_dec(iteration);
    out.append(num.as_str());
    string_push(&mut out, '}');
    proof {
        assert(out@ =~= manifest_json(name@, iteration));
    }
    out
}

// ---------------------------------------------------------------------
// The decoder inverts the encoder
// ---------------------------------------------------------------------

proof fn digit_val_of_digit(d: nat)
    requires
        d < 10,
    ensures
        digit_val(digit_char(d)) == d,
{
}

proof fn hex_val_of_hex_digit(d: nat)
    requires
        d < 16,
    ensures
        hex_val(hex_digit(d)) == d,
{
}

proof fn dec_str_digits(n: nat)
    ensures
        dec_str(n).len() >= 1,
        forall|k: int| 0 <= k < dec_str(n).len() ==> digit_val(dec_str(n)[k]) >= 0,
    decreases n,
{
    digit_val_of_digit(n % 10);
    if n >= 10 {
        dec_str_digits(n / 10);
        assert(forall|k: int| 0 <= k < dec_str(n / 10).len()
            ==> dec_str(n)[k] == dec_str(n / 10)[k]);
    }
}

proof fn dec_str_no_leading_zero(n: nat)
    ensures
        dec_str(n).len() > 1 ==> digit_val(dec_str(n)[0]) >= 1,
    decreases n,
{
    if n < 10 {
        digit_val_of_digit(n);
    } else {
        dec_str_no_leading_zero(n / 10);
        dec_str_digits(n / 10);
        assert(dec_str(n)[0] == dec_str(n / 10)[0]);
        if dec_str(n / 10).len() == 1 {
            let m = n / 10;
            if m < 10 {
                digit_val_of_digit(m);
                assert(m >= 1);
            } else {
                assert(dec_str(m).len() >= 2) by {
                    dec_str_digits(m / 10);
                }
            }
        }
    }
}

/// Decimal rendering round-trips through `dec_val`.
pub proof fn dec_val_of_dec_str(n: nat)
    ensures
        dec_val(dec_str(n)) == n,
    decreases n,
{
    digit_val_of_digit(n % 10);
    if n < 10 {
        let d = dec_str(n);
        assert(d.drop_last() =~= Seq::<char>::empty());
        assert(dec_val(d.drop_last()) == 0);
        assert(d.last() == digit_char(n));
        assert(dec_val(d) == dec_val(d.drop_last()) * 10 + digit_val(d.last()));
    } else {
        dec_val_of_dec_str(n / 10);
        let d = dec_str(n);
        assert(d.drop_last() =~= dec_str(n / 10));
        assert(dec_val(d.drop_last()) == n / 10);
        assert(d.last() == digit_char(n % 10));
        assert(dec_val(d) == dec_val(d.drop_last()) * 10 + digit_val(d.last()));
    }
}

proof fn digit_run_end_determined(s: Seq<char>, i: int, j: int)
    requires
        0 <= i <= j <= s.len(),
        forall|k: int| i <= k < j ==> digit_val(s[k]) >= 0,
        j == s.len() || digit_val(s[j]) < 0,
    ensures
        digit_run_end(s, i) == j,
    decreases j - i,
{
    if i < j {
        digit_run_end_determined(s, i + 1, j);
    }
}

/// A sequence with no quote, no backslash and no control character is
/// written as itself.
proof fn json_escape_raw(s: Seq<char>)
    requires
        forall|k: int| 0 <= k < s.len()
            ==> s[k] != '"' && s[k] != '\\' && (s[k] as u32) >= 0x20,
    ensures
        json_escape(s) == s,
    decreases s.len(),
{
    if s.len() > 0 {
        json_escape_raw(s.drop_first());
        assert(escape_char(s[0]) =~= seq![s[0]]);
        assert(seq![s[0]] + s.drop_first() =~= s);
    }
}

/// Parsing a string body over the escaped form of `name` followed by a
/// closing quote yields `name` back, leaving the position just past the
/// quote.
proof fn lemma_parse_escaped(name: Seq<char>, s: Seq<char>, i: int)
    requires
        0 <= i,
        i + json_escape(name).len() + 1 <= s.len(),
        s.subrange(i, i + json_escape(name).len() + 1) == json_escape(name) + seq!['"'],
    ensures
        parse_string_body(s, i) == Some((name, i + json_escape(name).len() + 1)),
    decreases name.len(),
{
    let el = json_escape(name).len() as int;
    let whole = json_escape(name) + seq!['"'];
    assert(forall|k: int| 0 <= k < el + 1 ==> s[i + k] == whole[k]);
    if name.len() == 0 {
        assert(s[i + 0] == whole[0]);
        assert(s[i] == '"');
    } else {
        let c = name[0];
        let rest = name.drop_first();
        let esc = escape_char(c);
        let restesc = json_escape(rest);
        assert(json_escape(name) == esc + restesc);
        let i2 = i + esc.len() as int;
        assert(forall|k: int| 0 <= k < esc.len() ==> whole[k] == esc[k]);
        assert(s.subrange(i2, i + el + 1) =~= restesc + seq!['"']) by {
            assert(forall|k: int| 0 <= k < restesc.len() + 1
                ==> #[trigger] s.subrange(i2, i + el + 1)[k] == whole[esc.len() + k]);
            assert(forall|k: int| 0 <= k < restesc.len()
                ==> whole[esc.len() + k] == restesc[k]);
            assert(whole[esc.len() + restesc.len() as int] == '"');
        }
        lemma_parse_escaped(rest, s, i2);
        assert(seq![c] + rest =~= name);
        assert(s[i + 0] == whole[0]);
        assert(whole[0] == esc[0]);
        if c == '"' {
            assert(s[i] == '\\');
            assert(s[i + 1] == '"');
            assert(unescape_char(s[i + 1]) == Some('"'));
        } else if c == '\\' {
            assert(s[i] == '\\');
            assert(s[i + 1] == '\\');
            assert(unescape_char(s[i + 1]) == Some('\\'));
        } else if (c as u32) < 0x20 {
            let u = c as u32;
            assert(s[i] == '\\');
            assert(s[i + 1] == 'u');
            assert(s[i + 2] == '0');
            assert(s[i + 3] == '0');
            assert(s[i + 4] == hex_digit((u / 16) as nat));
            assert(s[i + 5] == hex_digit((u % 16) as nat));
            hex_val_of_hex_digit((u / 16) as nat);
            hex_val_of_hex_digit((u % 16) as nat);
            assert(hex_val(s[i + 2]) == 0);
            assert(hex_val(s[i + 3]) == 0);
            assert(hex4_val(s, i + 2) == (u / 16) * 16 + (u % 16));
            assert(hex4_val(s, i + 2) == u);
            assert(acceptable_escape_scalar(u as int));
            vstd::utf8::char_u32_cast(c, u);
            assert(((u as int) as u32) as char == c);
        } else {
            assert(s[i] == c);
        }
    }
}

proof fn sj_index_open(name: Seq<char>, iteration: u64, k: int)
    requires
        0 <= k < 9,
    ensures
        manifest_json(name, iteration)[k] == manifest_open()[k],
{
    let open = manifest_open();
    let jn = json_escape(name);
    let mid = manifest_mid();
    let num = dec_str(iteration as nat);
    assert((open + jn)[k] == open[k]);
    assert((open + jn + mid)[k] == (open + jn)[k]);
    assert((open + jn + mid + num)[k] == (open + jn + mid)[k]);
    assert((open + jn + mid + num + seq!['}'])[k] == (open + jn + mid + num)[k]);
}

proof fn sj_index_esc(name: Seq<char>, iteration: u64, k: int)
    requires
        0 <= k < json_escape(name).len(),
    ensures
        manifest_json(name, iteration)[9 + k] == json_escape(name)[k],
{
    let open = manifest_open();
    let jn = json_escape(name);
    let mid = manifest_mid();
    let num = dec_str(iteration as nat);
    assert((open + jn)[9 + k] == jn[k]);
    assert((open + jn + mid)[9 + k] == (open + jn)[9 + k]);
    assert((open + jn + mid + num)[9 + k] == (open + jn + mid)[9 + k]);
    assert((open + jn + mid + num + seq!['}'])[9 + k] == (open + jn + mid + num)[9 + k]);
}

proof fn sj_index_mid(name: Seq<char>, iteration: u64, k: int)
    requires
        0 <= k < 14,
    ensures
        manifest_json(name, iteration)[9 + json_escape(name).len() + k]
            == manifest_mid()[k],
{
    let open = manifest_open();
    let jn = json_escape(name);
    let mid = manifest_mid();
    let num = dec_str(iteration as nat);
    let p = 9 + jn.len() + k;
    assert((open + jn + mid)[p as int] == mid[k]);
    assert((open + jn + mid + num)[p as int] == (open + jn + mid)[p as int]);
    assert((open + jn + mid + num + seq!['}'])[p as int] == (open + jn + mid + num)[p as int]);
}

proof fn sj_index_num(name: Seq<char>, iteration: u64, k: int)
    requires
        0 <= k < dec_str(iteration as nat).len(),
    ensures
        manifest_json(name, iteration)[9 + json_escape(name).len() + 14 + k]
            == dec_str(iteration as nat)[k],
{
    let open = manifest_open();
    let jn = json_escape(name);
    let mid = manifest_mid();
    let num = dec_str(iteration as nat);
    let p = 9 + jn.len() + 14 + k;
    assert((open + jn + mid + num)[p as int] == num[k]);
    assert((open + jn + mid + num + seq!['}'])[p as int] == (open + jn + mid + num)[p as int]);
}

proof fn sj_index_close(name: Seq<char>, iteration: u64)
    ensures
        manifest_json(name, iteration)[
            9 + json_escape(name).len() + 14 + dec_str(iteration as nat).len() as int
        ] == '}',
{
    let open = manifest_open();
    let jn = json_escape(name);
    let mid = manifest_mid();
    let num = dec_str(iteration as nat);
    let p = 9 + jn.len() + 14 + num.len();
    assert((open + jn + mid + num + seq!['}'])[p as int] == seq!['}'][0]);
}

/// Decoding inverts encoding: the canonical document written for a
/// manifest record parses back to exactly that record.
pub proof fn lemma_manifest_roundtrip(name: Seq<char>, iteration: u64)
    ensures
        parse_manifest_chars(manifest_json(name, iteration)) == Some((name, iteration)),
{
    let s = manifest_json(name, iteration);
    let jn = json_escape(name);
    let el = jn.len() as int;
    let num = dec_str(iteration as nat);
    let dl = num.len() as int;
    assert(s.len() == 9 + el + 14 + dl + 1);

    let kname = seq!['n', 'a', 'm', 'e'];
    let kiter = seq!['i', 't', 'e', 'r', 'a', 't', 'i', 'o', 'n'];
    json_escape_raw(kname);
    json_escape_raw(kiter);
    reveal_strlit("name");
    reveal_strlit("iteration");
    assert(kname =~= "name"@);
    assert(kiter =~= "iteration"@);

    // the opening brace
    sj_index_open(name, iteration, 0);
    assert(s[0] == '{');
    assert(skip_ws(s, 0) == 0);

    // the "name" key
    sj_index_open(name, iteration, 1);
    assert(s[1] == '"');
    assert(skip_ws(s, 1) == 1);
    assert(s.subrange(2, 7) =~= json_escape(kname) + seq!['"']) by {
        assert(forall|k: int| 2 <= k < 7 ==> #[trigger] s[k] == manifest_open()[k]) by {
            assert forall|k: int| 2 <= k < 7 implies #[trigger] s[k] == manifest_open()[k] by {
                sj_index_open(name, iteration, k);
            }
        }
    }
    lemma_parse_escaped(kname, s, 2);
    assert(parse_string_body(s, 2) == Some((kname, 7int)));
    assert(parse_json_string(s, 1) == Some((kname, 7int)));
    sj_index_open(name, iteration, 7);
    assert(s[7] == ':');
    assert(skip_ws(s, 7) == 7);
    sj_index_open(name, iteration, 8);
    assert(s[8] == '"');
    assert(skip_ws(s, 8) == 8);
    assert(parse_key_colon(s, 1) == Some((kname, 8int)));

    // the name value
    assert(s.subrange(9, 9 + el + 1) =~= jn + seq!['"']) by {
        assert forall|k: int| 0 <= k < el implies #[trigger] s[9 + k] == jn[k] by {
            sj_index_esc(name, iteration, k);
        }
        sj_index_mid(name, iteration, 0);
        assert(s[9 + el] == '"');
        assert(forall|k: int| 0 <= k < el + 1
            ==> #[trigger] s.subrange(9, 9 + el + 1)[k] == s[9 + k]);
    }
    lemma_parse_escaped(name, s, 9);
    assert(parse_string_body(s, 9) == Some((name, 9 + el + 1)));
    assert(parse_json_string(s, 8) == Some((name, 9 + el + 1)));

    // the comma
    sj_index_mid(name, iteration, 1);
    assert(s[9 + el + 1] == ',');
    assert(skip_ws(s, 9 + el + 1) == 9 + el + 1);
    sj_index_mid(name, iteration, 2);
    assert(s[9 + el + 2] == '"');
    assert(skip_ws(s, 9 + el + 2) == 9 + el + 2);
    assert(parse_comma(s, 9 + el + 1) == Some(9 + el + 2));

    // the "iteration" key
    assert(s.subrange(9 + el + 3, 9 + el + 13) =~= json_escape(kiter) + seq!['"']) by {
        assert forall|k: int| 0 <= k < 10 implies
            #[trigger] s.subrange(9 + el + 3, 9 + el + 13)[k]
                == (json_escape(kiter) + seq!['"'])[k] by {
            sj_index_mid(name, iteration, 3 + k);
            assert(s.subrange(9 + el + 3, 9 + el + 13)[k] == s[9 + el + 3 + k]);
            assert(s[9 + el + (3 + k)] == manifest_mid()[3 + k]);
        }
    }
    lemma_parse_escaped(kiter, s, 9 + el + 3);
    assert(parse_string_body(s, 9 + el + 3) == Some((kiter, 9 + el + 13)));
    assert(parse_json_string(s, 9 + el + 2) == Some((kiter, 9 + el + 13)));
    sj_index_mid(name, iteration, 13);
    assert(s[9 + el + 13] == ':');
    assert(skip_ws(s, 9 + el + 13) == 9 + el + 13);

    // the iteration value
    dec_str_digits(iteration as nat);
    sj_index_num(name, iteration, 0);
    assert(s[9 + el + 14] == num[0]);
    assert(digit_val(s[9 + el + 14]) >= 0);
    assert(!is_ws(s[9 + el + 14]));
    assert(skip_ws(s, 9 + el + 14) == 9 + el + 14);
    assert(parse_key_colon(s, 9 + el + 2) == Some((kiter, 9 + el + 14)));

    let p = 9 + el + 14;
    assert forall|k: int| p <= k < p + dl implies digit_val(s[k]) >= 0 by {
        sj_index_num(name, iteration, k - p);
    }
    sj_index_close(name, iteration);
    assert(s[p + dl] == '}');
    assert(digit_val('}') < 0);
    digit_run_end_determined(s, p, p + dl);
    assert(s.subrange(p, p + dl) =~= num) by {
        assert forall|k: int| 0 <= k < dl implies #[trigger] s.subrange(p, p + dl)[k] == num[k] by {
            sj_index_num(name, iteration, k);
        }
    }
    dec_val_of_dec_str(iteration as nat);
    assert(dec_val(s.subrange(p, p + dl)) == iteration);
    dec_str_no_leading_zero(iteration as nat);
    assert(!(s[p] == '0' && p + dl > p + 1)) by {
        if dl > 1 {
            assert(digit_val(num[0]) >= 1);
            assert(s[p] == num[0]);
        }
    }
    assert(parse_number(s, p) == Some((iteration, p + dl)));

    // the closing brace, and nothing after it
    assert(!is_ws(s[p + dl]));
    assert(skip_ws(s, p + dl) == p + dl);
    assert(skip_ws(s, p + dl + 1) == s.len());
    assert(closes_object(s, p + dl));

    assert(parse_manifest_chars(s) == Some((name, iteration)));
}

} // verus!
