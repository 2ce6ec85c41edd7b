//! The wire protocol: encode and decode rules for the flat JSON text
//! frames the relay speaks.
//!
//! One inbound frame is a JSON object carrying the two string fields
//! `handle` and `message` exactly once each, in any position and order,
//! with arbitrary JSON whitespace between tokens and the full JSON
//! string escape rules (short escapes, `\uXXXX`, surrogate pairs)
//! inside field values. Members under any other key are skipped without
//! being read, as long as their values are well-formed JSON nested no
//! deeper than [`MAX_VALUE_NESTING`]. Anything else — malformed JSON, a
//! missing or duplicated field, a non-string `handle` or `message`,
//! trailing input — fails to decode. One outbound frame is the same
//! object with no extra members, written without extra whitespace,
//! `handle` first, with `"`, `\` and control characters escaped.
//!
//! The grammar is stated by the `parse_*` spec functions below; the
//! executable decoder returns exactly what the grammar says, and the
//! executable encoder is total, so an encode failure cannot occur.

use crate::protocol::{BridgeError, ChatHandle, ChatMessage, ChatMessageText, OutMessage};
use vstd::prelude::*;
use vstd::string::StrSliceExecFns;

verus! {

// ---------------------------------------------------------------------
// The grammar, as spec functions over character sequences.
// ---------------------------------------------------------------------

/// JSON insignificant whitespace.
pub open spec fn is_json_ws(c: char) -> bool {
    c == ' ' || c == '\n' || c == '\r' || c == '\t'
}

/// The first position at or after `i` holding no whitespace.
pub open spec fn skip_ws(s: Seq<char>, i: int) -> int
    decreases s.len() - i,
{
    if 0 <= i < s.len() && is_json_ws(s[i]) {
        skip_ws(s, i + 1)
    } else {
        i
    }
}

/// The value of one hexadecimal digit, upper or lower case.
pub open spec fn hex_char_value(c: char) -> Option<u32> {
    let u = c as u32;
    if 0x30 <= u <= 0x39 {
        Some((u - 0x30) as u32)
    } else if 0x61 <= u <= 0x66 {
        Some((u - 0x61 + 10) as u32)
    } else if 0x41 <= u <= 0x46 {
        Some((u - 0x41 + 10) as u32)
    } else {
        None
    }
}

/// The value of the four hexadecimal digits at `i`.
pub open spec fn hex4(s: Seq<char>, i: int) -> Option<u32> {
    if 0 <= i && i + 4 <= s.len() {
        match (hex_char_value(s[i]), hex_char_value(s[i + 1])) {
            (Some(a), Some(b)) => match (hex_char_value(s[i + 2]), hex_char_value(s[i + 3])) {
                (Some(c), Some(d)) => Some((a * 0x1000 + b * 0x100 + c * 0x10 + d) as u32),
                _ => None,
            },
            _ => None,
        }
    } else {
        None
    }
}

/// Whether `u` is a Unicode scalar value, i.e. a valid `char`.
pub open spec fn is_scalar_value(u: u32) -> bool {
    u < 0xD800 || (0xE000 <= u <= 0x10FFFF)
}

/// A `\uXXXX` escape starting at its first hex digit `i`: either one
/// scalar value outside the surrogate range, or a high surrogate
/// followed by `\u` and a low surrogate, combined into one character.
pub open spec fn parse_unicode_escape(s: Seq<char>, i: int) -> Option<(int, char)> {
    match hex4(s, i) {
        None => None,
        Some(hi) => if 0xD800 <= hi <= 0xDBFF {
            if i + 6 <= s.len() && s[i + 4] == '\\' && s[i + 5] == 'u' {
                match hex4(s, i + 6) {
                    None => None,
                    Some(lo) => if 0xDC00 <= lo <= 0xDFFF {
                        Some(
                            (
                                i + 10,
                                ((0x10000 + (hi - 0xD800) * 0x400 + (lo - 0xDC00)) as u32) as char,
                            ),
                        )
                    } else {
                        None
                    },
                }
            } else {
                None
            }
        } else if 0xDC00 <= hi <= 0xDFFF {
            None
        } else {
            Some((i + 4, hi as char))
        },
    }
}

/// One string escape, `i` pointing just past the backslash.
pub open spec fn parse_escape(s: Seq<char>, i: int) -> Option<(int, char)> {
    if !(0 <= i < s.len()) {
        None
    } else {
        let c = s[i];
        if c == '"' {
            Some((i + 1, '"'))
        } else if c == '\\' {
            Some((i + 1, '\\'))
        } else if c == '/' {
            Some((i + 1, '/'))
        } else if c == 'b' {
            Some((i + 1, '\u{0008}'))
        } else if c == 'f' {
            Some((i + 1, '\u{000C}'))
        } else if c == 'n' {
            Some((i + 1, '\n'))
        } else if c == 'r' {
            Some((i + 1, '\r'))
        } else if c == 't' {
            Some((i + 1, '\t'))
        } else if c == 'u' {
            parse_unicode_escape(s, i + 1)
        } else {
            None
        }
    }
}

/// After a successful escape the position advanced and stayed in range.
pub proof fn lemma_parse_escape_bounds(s: Seq<char>, i: int)
    ensures
        parse_escape(s, i) matches Some(p) ==> i < p.0 <= s.len(),
{
}

/// The body of a JSON string, `i` pointing just past the opening quote:
/// the decoded characters and the position just past the closing quote.
pub open spec fn parse_string_body(s: Seq<char>, i: int) -> Option<(int, Seq<char>)>
    decreases s.len() - i,
    via parse_string_body_decreases
{
    if !(0 <= i < s.len()) {
        None
    } else if s[i] == '"' {
        Some((i + 1, Seq::empty()))
    } else if s[i] == '\\' {
        match parse_escape(s, i + 1) {
            None => None,
            Some(kc) => match parse_string_body(s, kc.0) {
                None => None,
                Some(jr) => Some((jr.0, seq![kc.1] + jr.1)),
            },
        }
    } else if (s[i] as u32) < 0x20 {
        None
    } else {
        match parse_string_body(s, i + 1) {
            None => None,
            Some(jr) => Some((jr.0, seq![s[i]] + jr.1)),
        }
    }
}

#[via_fn]
proof fn parse_string_body_decreases(s: Seq<char>, i: int) {
    lemma_parse_escape_bounds(s, i + 1);
}

/// A JSON string starting at its opening quote.
pub open spec fn parse_string(s: Seq<char>, i: int) -> Option<(int, Seq<char>)> {
    if 0 <= i < s.len() && s[i] == '"' {
        parse_string_body(s, i + 1)
    } else {
        None
    }
}

/// The characters of the `handle` field name.
pub open spec fn handle_key() -> Seq<char> {
    seq!['h', 'a', 'n', 'd', 'l', 'e']
}

/// The characters of the `message` field name.
pub open spec fn message_key() -> Seq<char> {
    seq!['m', 'e', 's', 's', 'a', 'g', 'e']
}

/// How deeply the values of unknown members may nest. A frame nested
/// beyond this bound fails to decode rather than exhaust the stack.
pub const MAX_VALUE_NESTING: usize = 128;

/// A decimal digit.
pub open spec fn is_dec_digit(c: char) -> bool {
    0x30 <= c as u32 <= 0x39
}

/// The first position at or after `i` holding no decimal digit.
pub open spec fn skip_digits(s: Seq<char>, i: int) -> int
    decreases s.len() - i,
{
    if 0 <= i < s.len() && is_dec_digit(s[i]) {
        skip_digits(s, i + 1)
    } else {
        i
    }
}

/// One JSON number starting at `i`: an optional minus, an integer part
/// without leading zeroes, an optional fraction, an optional exponent.
/// The result is the position just past it.
pub open spec fn skip_number(s: Seq<char>, i: int) -> Option<int> {
    let a = if 0 <= i < s.len() && s[i] == '-' {
        i + 1
    } else {
        i
    };
    if 0 <= a < s.len() && is_dec_digit(s[a]) {
        let b = if s[a] == '0' {
            a + 1
        } else {
            skip_digits(s, a)
        };
        let c = if b < s.len() && s[b] == '.' {
            if b + 1 < s.len() && is_dec_digit(s[b + 1]) {
                skip_digits(s, b + 1)
            } else {
                -1
            }
        } else {
            b
        };
        if c < 0 {
            None
        } else if c < s.len() && (s[c] == 'e' || s[c] == 'E') {
            let d = if c + 1 < s.len() && (s[c + 1] == '+' || s[c + 1] == '-') {
                c + 2
            } else {
                c + 1
            };
            if d < s.len() && is_dec_digit(s[d]) {
                Some(skip_digits(s, d))
            } else {
                None
            }
        } else {
            Some(c)
        }
    } else {
        None
    }
}

/// One of the keyword values `true`, `false` or `null` starting at `i`.
pub open spec fn skip_keyword(s: Seq<char>, i: int) -> Option<int> {
    if 0 <= i && i + 4 <= s.len() && s[i] == 't' && s[i + 1] == 'r' && s[i + 2] == 'u' && s[i + 3]
        == 'e' {
        Some(i + 4)
    } else if 0 <= i && i + 5 <= s.len() && s[i] == 'f' && s[i + 1] == 'a' && s[i + 2] == 'l' && s[i
        + 3] == 's' && s[i + 4] == 'e' {
        Some(i + 5)
    } else if 0 <= i && i + 4 <= s.len() && s[i] == 'n' && s[i + 1] == 'u' && s[i + 2] == 'l' && s[i
        + 3] == 'l' {
        Some(i + 4)
    } else {
        None
    }
}

/// One whole JSON value starting at `i`, of any kind, nested at most
/// `depth` levels deep: the position just past it. This is what an
/// unknown member's value is held to — and no more; its content is
/// never read.
///
/// The explicit position bounds before each recursive step keep the
/// recursion measure evident; positions only ever move forward and stay
/// in range (the executable mirror below proves as much on every path
/// it takes), so they reject nothing by themselves.
pub open spec fn skip_value(s: Seq<char>, i: int, depth: nat) -> Option<int>
    decreases depth, s.len() - i, 0int,
{
    if !(0 <= i < s.len()) {
        None
    } else {
        let c = s[i];
        if c == '"' {
            match parse_string(s, i) {
                None => None,
                Some(jr) => Some(jr.0),
            }
        } else if c == '{' {
            if depth == 0 {
                None
            } else {
                let j = skip_ws(s, i + 1);
                if 0 <= j < s.len() && s[j] == '}' {
                    Some(j + 1)
                } else {
                    skip_object_members(s, i + 1, (depth - 1) as nat)
                }
            }
        } else if c == '[' {
            if depth == 0 {
                None
            } else {
                let j = skip_ws(s, i + 1);
                if 0 <= j < s.len() && s[j] == ']' {
                    Some(j + 1)
                } else {
                    skip_array_elements(s, i + 1, (depth - 1) as nat)
                }
            }
        } else if c == '-' || is_dec_digit(c) {
            skip_number(s, i)
        } else {
            skip_keyword(s, i)
        }
    }
}

/// The members of a skipped object, from `i` just past `{` or a comma:
/// one `"key": value` pair, then a comma and more members or the
/// closing brace.
pub open spec fn skip_object_members(s: Seq<char>, i: int, depth: nat) -> Option<int>
    decreases depth, s.len() - i, 1int,
{
    match parse_string(s, skip_ws(s, i)) {
        None => None,
        Some(jk) => {
            let colon = skip_ws(s, jk.0);
            if !(0 <= colon < s.len() && s[colon] == ':') {
                None
            } else {
                let v = skip_ws(s, colon + 1);
                if !(i <= v <= s.len()) {
                    None
                } else {
                    match skip_value(s, v, depth) {
                        None => None,
                        Some(j) => {
                            let nxt = skip_ws(s, j);
                            if 0 <= nxt < s.len() && s[nxt] == ',' && i < nxt + 1 {
                                skip_object_members(s, nxt + 1, depth)
                            } else if 0 <= nxt < s.len() && s[nxt] == '}' {
                                Some(nxt + 1)
                            } else {
                                None
                            }
                        },
                    }
                }
            }
        },
    }
}

/// The elements of a skipped array, from `i` just past `[` or a comma.
pub open spec fn skip_array_elements(s: Seq<char>, i: int, depth: nat) -> Option<int>
    decreases depth, s.len() - i, 1int,
{
    let v = skip_ws(s, i);
    if !(i <= v <= s.len()) {
        None
    } else {
        match skip_value(s, v, depth) {
            None => None,
            Some(j) => {
                let nxt = skip_ws(s, j);
                if 0 <= nxt < s.len() && s[nxt] == ',' && i < nxt + 1 {
                    skip_array_elements(s, nxt + 1, depth)
                } else if 0 <= nxt < s.len() && s[nxt] == ']' {
                    Some(nxt + 1)
                } else {
                    None
                }
            },
        }
    }
}

/// The members of the frame object, from `i` just past `{` or a comma:
/// collects the `handle` and `message` string values wherever they
/// stand, skips members under any other key without reading them,
/// and rejects a second `handle` or `message` member. The result is
/// the position just past the closing brace and what was collected.
pub open spec fn parse_frame_members(
    s: Seq<char>,
    i: int,
    h: Option<Seq<char>>,
    m: Option<Seq<char>>,
) -> Option<(int, Option<Seq<char>>, Option<Seq<char>>)>
    decreases s.len() - i,
{
    match parse_string(s, skip_ws(s, i)) {
        None => None,
        Some(jk) => {
            let colon = skip_ws(s, jk.0);
            if !(0 <= colon < s.len() && s[colon] == ':') {
                None
            } else {
                let v = skip_ws(s, colon + 1);
                let step: Option<(int, Option<Seq<char>>, Option<Seq<char>>)> = if jk.1
                    == handle_key() {
                    if h is Some {
                        None
                    } else {
                        match parse_string(s, v) {
                            None => None,
                            Some(jv) => Some((jv.0, Some(jv.1), m)),
                        }
                    }
                } else if jk.1 == message_key() {
                    if m is Some {
                        None
                    } else {
                        match parse_string(s, v) {
                            None => None,
                            Some(jv) => Some((jv.0, h, Some(jv.1))),
                        }
                    }
                } else {
                    match skip_value(s, v, MAX_VALUE_NESTING as nat) {
                        None => None,
                        Some(j) => Some((j, h, m)),
                    }
                };
                match step {
                    None => None,
                    Some(st) => {
                        let nxt = skip_ws(s, st.0);
                        if 0 <= nxt < s.len() && s[nxt] == ',' && i < nxt + 1 {
                            parse_frame_members(s, nxt + 1, st.1, st.2)
                        } else if 0 <= nxt < s.len() && s[nxt] == '}' {
                            Some((nxt + 1, st.1, st.2))
                        } else {
                            None
                        }
                    },
                }
            }
        },
    }
}

/// A whole inbound frame: a JSON object carrying a `handle` and a
/// `message` string field exactly once each, in any position among any
/// other members (whose values are skipped, as the reference decoder
/// skips unknown fields), and nothing after the object. The result is
/// the decoded `(handle, message)` pair.
pub open spec fn parse_frame(s: Seq<char>) -> Option<(Seq<char>, Seq<char>)> {
    let open = skip_ws(s, 0);
    if !(0 <= open < s.len() && s[open] == '{') {
        None
    } else {
        match parse_frame_members(s, open + 1, None, None) {
            None => None,
            Some(st) => {
                if skip_ws(s, st.0) != s.len() {
                    None
                } else {
                    match (st.1, st.2) {
                        (Some(h), Some(m)) => Some((h, m)),
                        _ => None,
                    }
                }
            },
        }
    }
}

// ---------------------------------------------------------------------
// The encoder's output, as spec functions.
// ---------------------------------------------------------------------

/// The lower-case hexadecimal digit for `n < 16`.
pub open spec fn hex_digit_char(n: u32) -> char {
    if n < 10 {
        ((0x30 + n) as u32) as char
    } else {
        ((0x57 + n) as u32) as char
    }
}

/// How one character is written inside an encoded JSON string.
pub open spec fn escape_char(c: char) -> Seq<char> {
    if c == '"' {
        seq!['\\', '"']
    } else if c == '\\' {
        seq!['\\', '\\']
    } else if c == '\u{0008}' {
        seq!['\\', 'b']
    } else if c == '\u{000C}' {
        seq!['\\', 'f']
    } else if c == '\n' {
        seq!['\\', 'n']
    } else if c == '\r' {
        seq!['\\', 'r']
    } else if c == '\t' {
        seq!['\\', 't']
    } else if (c as u32) < 0x20 {
        seq!['\\', 'u', '0', '0', hex_digit_char((c as u32) / 16), hex_digit_char((c as u32) % 16)]
    } else {
        seq![c]
    }
}

/// A whole string escaped.
pub open spec fn escape_string(s: Seq<char>) -> Seq<char>
    decreases s.len(),
{
    if s.len() == 0 {
        Seq::empty()
    } else {
        escape_char(s[0]) + escape_string(s.drop_first())
    }
}

/// A string escaped and quoted.
pub open spec fn quoted(s: Seq<char>) -> Seq<char> {
    seq!['"'] + escape_string(s) + seq!['"']
}

/// The one outbound frame written for `(handle, message)`.
pub open spec fn encode_frame(handle: Seq<char>, message: Seq<char>) -> Seq<char> {
    seq!['{'] + quoted(handle_key()) + seq![':'] + quoted(handle) + seq![','] + quoted(
        message_key(),
    ) + seq![':'] + quoted(message) + seq!['}']
}

// ---------------------------------------------------------------------
// Small trusted steps into std, and character plumbing.
// ---------------------------------------------------------------------

/// Relies on String::push: appends exactly one character.
#[verifier::external_body]
fn push_char(s: &mut String, c: char)
    ensures
        final(s)@ == old(s)@.push(c),
{
    s.push(c);
}

/// Relies on char::from_u32: conversion succeeds exactly on Unicode
/// scalar values and yields the character with that value.
#[verifier::external_body]
fn char_from_u32(u: u32) -> (r: Option<char>)
    ensures
        r is Some <==> is_scalar_value(u),
        r matches Some(c) ==> c as u32 == u,
{
    char::from_u32(u)
}

/// The characters of `s` as a vector, for position-based parsing.
fn chars_of(s: &str) -> (r: Vec<char>)
    ensures
        r@ == s@,
{
    let n = s.unicode_len();
    let mut v: Vec<char> = Vec::new();
    let mut i: usize = 0;
    while i < n
        invariant
            n == s@.len(),
            i <= n,
            v@ == s@.take(i as int),
        decreases n - i,
    {
        let c = s.get_char(i);
        v.push(c);
        proof {
            assert(s@.take(i + 1) =~= s@.take(i as int).push(s@[i as int]));
        }
        i += 1;
    }
    proof {
        assert(s@.take(n as int) =~= s@);
    }
    v
}

/// A vector of characters collected back into a string.
fn string_from_chars(v: &Vec<char>) -> (r: String)
    ensures
        r@ == v@,
{
    let mut s = String::new();
    let mut i: usize = 0;
    while i < v.len()
        invariant
            i <= v@.len(),
            s@ == v@.take(i as int),
        decreases v@.len() - i,
    {
        push_char(&mut s, v[i]);
        proof {
            assert(v@.take(i + 1) =~= v@.take(i as int).push(v@[i as int]));
        }
        i += 1;
    }
    proof {
        assert(v@.take(v@.len() as int) =~= v@);
    }
    s
}

// ---------------------------------------------------------------------
// The executable encoder.
// ---------------------------------------------------------------------

/// Appending one character escapes it onto the end.
proof fn lemma_escape_string_push(a: Seq<char>, c: char)
    ensures
        escape_string(a.push(c)) == escape_string(a) + escape_char(c),
    decreases a.len(),
{
    if a.len() == 0 {
        assert(a.push(c) =~= seq![c]);
        assert((seq![c]).drop_first() =~= Seq::<char>::empty());
        assert(escape_string(a) + escape_char(c) =~= escape_char(c) + escape_string(
            Seq::<char>::empty(),
        ));
    } else {
        lemma_escape_string_push(a.drop_first(), c);
        assert(a.push(c).drop_first() =~= a.drop_first().push(c));
        assert(a.push(c)[0] == a[0]);
        assert(escape_char(a[0]) + (escape_string(a.drop_first()) + escape_char(c)) =~= (
        escape_char(a[0]) + escape_string(a.drop_first())) + escape_char(c));
    }
}

fn push_hex_digit(out: &mut Vec<char>, n: u32)
    requires
        n < 16,
    ensures
        final(out)@ == old(out)@.push(hex_digit_char(n)),
{
    let u: u32 = if n < 10 {
        0x30 + n
    } else {
        0x57 + n
    };
    match char_from_u32(u) {
        Some(c) => {
            proof {
                vstd::utf8::char_u32_cast(c, u);
            }
            out.push(c);
        },
        None => {
            proof {
                assert(false);
            }
        },
    }
}

/// Writes one character in its escaped form.
fn escape_into(out: &mut Vec<char>, c: char)
    ensures
        final(out)@ == old(out)@ + escape_char(c),
{
    if c == '"' {
        out.push('\\');
        out.push('"');
    } else if c == '\\' {
        out.push('\\');
        out.push('\\');
    } else if c == '\u{0008}' {
        out.push('\\');
        out.push('b');
    } else if c == '\u{000C}' {
        out.push('\\');
        out.push('f');
    } else if c == '\n' {
        out.push('\\');
        out.push('n');
    } else if c == '\r' {
        out.push('\\');
        out.push('r');
    } else if c == '\t' {
        out.push('\\');
        out.push('t');
    } else {
        let u = c as u32;
        if u < 0x20 {
            out.push('\\');
            out.push('u');
            out.push('0');
            out.push('0');
            push_hex_digit(out, u / 16);
            push_hex_digit(out, u % 16);
        } else {
            out.push(c);
        }
    }
    proof {
        assert(out@ =~= old(out)@ + escape_char(c));
    }
}

/// Writes a whole string escaped and quoted.
fn push_quoted(out: &mut Vec<char>, s: &Vec<char>)
    ensures
        final(out)@ == old(out)@ + quoted(s@),
{
    out.push('"');
    let mut i: usize = 0;
    while i < s.len()
        invariant
            i <= s@.len(),
            out@ == old(out)@ + seq!['"'] + escape_string(s@.take(i as int)),
        decreases s@.len() - i,
    {
        escape_into(out, s[i]);
        proof {
            assert(s@.take(i + 1) =~= s@.take(i as int).push(s@[i as int]));
            lemma_escape_string_push(s@.take(i as int), s@[i as int]);
            assert(out@ =~= old(out)@ + seq!['"'] + escape_string(s@.take(i + 1)));
        }
        i += 1;
    }
    out.push('"');
    proof {
        assert(s@.take(s@.len() as int) =~= s@);
        assert(out@ =~= old(out)@ + quoted(s@));
    }
}

/// Encodes one outbound message as a single text frame: a JSON object
/// with the fields `handle` and `message` and nothing else. Encoding is
/// total — there is no failing input.
pub fn encode_out_message(m: &OutMessage) -> (r: String)
    ensures
        r@ == encode_frame(m.handle@, m.message@),
{
    let hv = chars_of(m.handle.0.as_str());
    let mv = chars_of(m.message.as_str());
    let hk: Vec<char> = vec!['h', 'a', 'n', 'd', 'l', 'e'];
    let mk: Vec<char> = vec!['m', 'e', 's', 's', 'a', 'g', 'e'];
    proof {
        assert(hk@ =~= handle_key());
        assert(mk@ =~= message_key());
    }
    let mut out: Vec<char> = Vec::new();
    out.push('{');
    push_quoted(&mut out, &hk);
    out.push(':');
    push_quoted(&mut out, &hv);
    out.push(',');
    push_quoted(&mut out, &mk);
    out.push(':');
    push_quoted(&mut out, &mv);
    out.push('}');
    proof {
        assert(out@ =~= encode_frame(m.handle@, m.message@));
    }
    string_from_chars(&out)
}

// ---------------------------------------------------------------------
// The executable decoder.
// ---------------------------------------------------------------------

fn skip_ws_exec(s: &Vec<char>, i: usize) -> (r: usize)
    requires
        i <= s@.len(),
    ensures
        r == skip_ws(s@, i as int),
        i <= r <= s@.len(),
    decreases s@.len() - i,
{
    if i < s.len() {
        let c = s[i];
        if c == ' ' || c == '\n' || c == '\r' || c == '\t' {
            skip_ws_exec(s, i + 1)
        } else {
            i
        }
    } else {
        i
    }
}

fn hex_char_value_exec(c: char) -> (r: Option<u32>)
    ensures
        r == hex_char_value(c),
{
    let u = c as u32;
    if 0x30 <= u && u <= 0x39 {
        Some(u - 0x30)
    } else if 0x61 <= u && u <= 0x66 {
        Some(u - 0x61 + 10)
    } else if 0x41 <= u && u <= 0x46 {
        Some(u - 0x41 + 10)
    } else {
        None
    }
}

fn hex4_exec(s: &Vec<char>, i: usize) -> (r: Option<u32>)
    requires
        i <= s@.len(),
    ensures
        r == hex4(s@, i as int),
        r is Some ==> i + 4 <= s@.len(),
{
    if s.len() - i >= 4 {
        match (hex_char_value_exec(s[i]), hex_char_value_exec(s[i + 1])) {
            (Some(a), Some(b)) => match (hex_char_value_exec(s[i + 2]), hex_char_value_exec(
                s[i + 3],
            )) {
                (Some(c), Some(d)) => Some(a * 0x1000 + b * 0x100 + c * 0x10 + d),
                _ => None,
            },
            _ => None,
        }
    } else {
        None
    }
}

fn parse_unicode_escape_exec(s: &Vec<char>, i: usize) -> (r: Option<(usize, char)>)
    requires
        i <= s@.len(),
    ensures
        r matches Some(p) ==> parse_unicode_escape(s@, i as int) == Some((p.0 as int, p.1))
            && p.0 <= s@.len(),
        r is None ==> parse_unicode_escape(s@, i as int) is None,
{
    match hex4_exec(s, i) {
        None => None,
        Some(hi) => {
            if 0xD800 <= hi && hi <= 0xDBFF {
                if s.len() - i >= 6 && s[i + 4] == '\\' && s[i + 5] == 'u' {
                    match hex4_exec(s, i + 6) {
                        None => None,
                        Some(lo) => {
                            if 0xDC00 <= lo && lo <= 0xDFFF {
                                let code: u32 = 0x10000 + (hi - 0xD800) * 0x400 + (lo - 0xDC00);
                                match char_from_u32(code) {
                                    Some(c) => {
                                        proof {
                                            vstd::utf8::char_u32_cast(c, code);
                                        }
                                        Some((i + 10, c))
                                    },
                                    None => {
                                        proof {
                                            assert(false);
                                        }
                                        None
                                    },
                                }
                            } else {
                                None
                            }
                        },
                    }
                } else {
                    None
                }
            } else if 0xDC00 <= hi && hi <= 0xDFFF {
                None
            } else {
                let n = s.len();
                match char_from_u32(hi) {
                    Some(c) => {
                        proof {
                            vstd::utf8::char_u32_cast(c, hi);
                            assert(i + 4 <= n);
                        }
                        Some((i + 4, c))
                    },
                    None => {
                        proof {
                            assert(false);
                        }
                        None
                    },
                }
            }
        },
    }
}

fn parse_escape_exec(s: &Vec<char>, i: usize) -> (r: Option<(usize, char)>)
    requires
        i <= s@.len(),
    ensures
        r matches Some(p) ==> parse_escape(s@, i as int) == Some((p.0 as int, p.1)) && i < p.0
            <= s@.len(),
        r is None ==> parse_escape(s@, i as int) is None,
{
    if i >= s.len() {
        None
    } else {
        let c = s[i];
        if c == '"' {
            Some((i + 1, '"'))
        } else if c == '\\' {
            Some((i + 1, '\\'))
        } else if c == '/' {
            Some((i + 1, '/'))
        } else if c == 'b' {
            Some((i + 1, '\u{0008}'))
        } else if c == 'f' {
            Some((i + 1, '\u{000C}'))
        } else if c == 'n' {
            Some((i + 1, '\n'))
        } else if c == 'r' {
            Some((i + 1, '\r'))
        } else if c == 't' {
            Some((i + 1, '\t'))
        } else if c == 'u' {
            let r = parse_unicode_escape_exec(s, i + 1);
            proof {
                lemma_parse_escape_bounds(s@, i as int);
            }
            r
        } else {
            None
        }
    }
}

fn parse_string_body_exec(s: &Vec<char>, i: usize) -> (r: Option<(usize, Vec<char>)>)
    requires
        i <= s@.len(),
    ensures
        r matches Some(p) ==> parse_string_body(s@, i as int) == Some((p.0 as int, p.1@)) && i
            < p.0 <= s@.len(),
        r is None ==> parse_string_body(s@, i as int) is None,
    decreases s@.len() - i,
{
    if i >= s.len() {
        None
    } else {
        let c = s[i];
        if c == '"' {
            Some((i + 1, Vec::new()))
        } else if c == '\\' {
            match parse_escape_exec(s, i + 1) {
                None => None,
                Some((k, ec)) => {
                    match parse_string_body_exec(s, k) {
                        None => None,
                        Some((j, mut rest)) => {
                            let ghost prev = rest@;
                            rest.insert(0, ec);
                            proof {
                                assert(rest@ =~= seq![ec] + prev);
                            }
                            Some((j, rest))
                        },
                    }
                },
            }
        } else if (c as u32) < 0x20 {
            None
        } else {
            match parse_string_body_exec(s, i + 1) {
                None => None,
                Some((j, mut rest)) => {
                    let ghost prev = rest@;
                    rest.insert(0, c);
                    proof {
                        assert(rest@ =~= seq![c] + prev);
                    }
                    Some((j, rest))
                },
            }
        }
    }
}

fn parse_string_exec(s: &Vec<char>, i: usize) -> (r: Option<(usize, Vec<char>)>)
    requires
        i <= s@.len(),
    ensures
        r matches Some(p) ==> parse_string(s@, i as int) == Some((p.0 as int, p.1@)) && i < p.0
            <= s@.len(),
        r is None ==> parse_string(s@, i as int) is None,
{
    if i < s.len() && s[i] == '"' {
        parse_string_body_exec(s, i + 1)
    } else {
        None
    }
}

fn is_dec_digit_exec(c: char) -> (r: bool)
    ensures
        r == is_dec_digit(c),
{
    let u = c as u32;
    0x30 <= u && u <= 0x39
}

fn skip_digits_exec(s: &Vec<char>, i: usize) -> (r: usize)
    requires
        i <= s@.len(),
    ensures
        r == skip_digits(s@, i as int),
        i <= r <= s@.len(),
        i < s@.len() && is_dec_digit(s@[i as int]) ==> i < r,
    decreases s@.len() - i,
{
    if i < s.len() && is_dec_digit_exec(s[i]) {
        skip_digits_exec(s, i + 1)
    } else {
        i
    }
}

fn skip_number_exec(s: &Vec<char>, i: usize) -> (r: Option<usize>)
    requires
        i <= s@.len(),
    ensures
        r matches Some(j) ==> skip_number(s@, i as int) == Some(j as int) && i < j <= s@.len(),
        r is None ==> skip_number(s@, i as int) is None,
{
    let a = if i < s.len() && s[i] == '-' {
        i + 1
    } else {
        i
    };
    if a < s.len() && is_dec_digit_exec(s[a]) {
        let b = if s[a] == '0' {
            a + 1
        } else {
            skip_digits_exec(s, a)
        };
        let after_frac: Option<usize> = if b < s.len() && s[b] == '.' {
            if b + 1 < s.len() && is_dec_digit_exec(s[b + 1]) {
                Some(skip_digits_exec(s, b + 1))
            } else {
                None
            }
        } else {
            Some(b)
        };
        match after_frac {
            None => None,
            Some(c) => {
                if c < s.len() && (s[c] == 'e' || s[c] == 'E') {
                    let d = if c + 1 < s.len() && (s[c + 1] == '+' || s[c + 1] == '-') {
                        c + 2
                    } else {
                        c + 1
                    };
                    if d < s.len() && is_dec_digit_exec(s[d]) {
                        Some(skip_digits_exec(s, d))
                    } else {
                        None
                    }
                } else {
                    Some(c)
                }
            },
        }
    } else {
        None
    }
}

fn skip_keyword_exec(s: &Vec<char>, i: usize) -> (r: Option<usize>)
    requires
        i <= s@.len(),
    ensures
        r matches Some(j) ==> skip_keyword(s@, i as int) == Some(j as int) && i < j <= s@.len(),
        r is None ==> skip_keyword(s@, i as int) is None,
{
    if s.len() - i >= 4 && s[i] == 't' && s[i + 1] == 'r' && s[i + 2] == 'u' && s[i + 3] == 'e' {
        Some(i + 4)
    } else if s.len() - i >= 5 && s[i] == 'f' && s[i + 1] == 'a' && s[i + 2] == 'l' && s[i + 3]
        == 's' && s[i + 4] == 'e' {
        Some(i + 5)
    } else if s.len() - i >= 4 && s[i] == 'n' && s[i + 1] == 'u' && s[i + 2] == 'l' && s[i + 3]
        == 'l' {
        Some(i + 4)
    } else {
        None
    }
}

fn skip_value_exec(s: &Vec<char>, i: usize, depth: usize) -> (r: Option<usize>)
    requires
        i <= s@.len(),
    ensures
        r matches Some(j) ==> skip_value(s@, i as int, depth as nat) == Some(j as int) && i < j
            <= s@.len(),
        r is None ==> skip_value(s@, i as int, depth as nat) is None,
    decreases depth, s@.len() - i, 0int,
{
    if i >= s.len() {
        None
    } else {
        let c = s[i];
        if c == '"' {
            match parse_string_exec(s, i) {
                None => None,
                Some((j, _val)) => Some(j),
            }
        } else if c == '{' {
            if depth == 0 {
                None
            } else {
                let j = skip_ws_exec(s, i + 1);
                if j < s.len() && s[j] == '}' {
                    Some(j + 1)
                } else {
                    skip_object_members_exec(s, i + 1, depth - 1)
                }
            }
        } else if c == '[' {
            if depth == 0 {
                None
            } else {
                let j = skip_ws_exec(s, i + 1);
                if j < s.len() && s[j] == ']' {
                    Some(j + 1)
                } else {
                    skip_array_elements_exec(s, i + 1, depth - 1)
                }
            }
        } else if c == '-' || is_dec_digit_exec(c) {
            skip_number_exec(s, i)
        } else {
            skip_keyword_exec(s, i)
        }
    }
}

fn skip_object_members_exec(s: &Vec<char>, i: usize, depth: usize) -> (r: Option<usize>)
    requires
        i <= s@.len(),
    ensures
        r matches Some(j) ==> skip_object_members(s@, i as int, depth as nat) == Some(j as int)
            && i < j <= s@.len(),
        r is None ==> skip_object_members(s@, i as int, depth as nat) is None,
    decreases depth, s@.len() - i, 1int,
{
    let k = skip_ws_exec(s, i);
    match parse_string_exec(s, k) {
        None => None,
        Some((after_key, _key)) => {
            let colon = skip_ws_exec(s, after_key);
            if !(colon < s.len() && s[colon] == ':') {
                None
            } else {
                let v = skip_ws_exec(s, colon + 1);
                match skip_value_exec(s, v, depth) {
                    None => None,
                    Some(j) => {
                        let nxt = skip_ws_exec(s, j);
                        if nxt < s.len() && s[nxt] == ',' {
                            skip_object_members_exec(s, nxt + 1, depth)
                        } else if nxt < s.len() && s[nxt] == '}' {
                            Some(nxt + 1)
                        } else {
                            None
                        }
                    },
                }
            }
        },
    }
}

fn skip_array_elements_exec(s: &Vec<char>, i: usize, depth: usize) -> (r: Option<usize>)
    requires
        i <= s@.len(),
    ensures
        r matches Some(j) ==> skip_array_elements(s@, i as int, depth as nat) == Some(j as int)
            && i < j <= s@.len(),
        r is None ==> skip_array_elements(s@, i as int, depth as nat) is None,
    decreases depth, s@.len() - i, 1int,
{
    let v = skip_ws_exec(s, i);
    match skip_value_exec(s, v, depth) {
        None => None,
        Some(j) => {
            let nxt = skip_ws_exec(s, j);
            if nxt < s.len() && s[nxt] == ',' {
                skip_array_elements_exec(s, nxt + 1, depth)
            } else if nxt < s.len() && s[nxt] == ']' {
                Some(nxt + 1)
            } else {
                None
            }
        },
    }
}

fn is_handle_key(v: &Vec<char>) -> (r: bool)
    ensures
        r == (v@ == handle_key()),
{
    let r = v.len() == 6 && v[0] == 'h' && v[1] == 'a' && v[2] == 'n' && v[3] == 'd' && v[4] == 'l'
        && v[5] == 'e';
    proof {
        if r {
            assert(v@ =~= handle_key());
        }
    }
    r
}

fn is_message_key(v: &Vec<char>) -> (r: bool)
    ensures
        r == (v@ == message_key()),
{
    let r = v.len() == 7 && v[0] == 'm' && v[1] == 'e' && v[2] == 's' && v[3] == 's' && v[4] == 'a'
        && v[5] == 'g' && v[6] == 'e';
    proof {
        if r {
            assert(v@ =~= message_key());
        }
    }
    r
}

/// The characters of a collected field value, where one was collected.
pub open spec fn opt_chars_view(o: Option<Vec<char>>) -> Option<Seq<char>> {
    match o {
        Some(v) => Some(v@),
        None => None,
    }
}

fn parse_frame_members_exec(
    s: &Vec<char>,
    i: usize,
    h: Option<Vec<char>>,
    m: Option<Vec<char>>,
) -> (r: Option<(usize, Option<Vec<char>>, Option<Vec<char>>)>)
    requires
        i <= s@.len(),
    ensures
        r matches Some(p) ==> parse_frame_members(s@, i as int, opt_chars_view(h), opt_chars_view(m))
            == Some((p.0 as int, opt_chars_view(p.1), opt_chars_view(p.2))) && p.0 <= s@.len(),
        r is None ==> parse_frame_members(s@, i as int, opt_chars_view(h), opt_chars_view(m))
            is None,
    decreases s@.len() - i,
{
    let k = skip_ws_exec(s, i);
    match parse_string_exec(s, k) {
        None => None,
        Some((after_key, key)) => {
            let colon = skip_ws_exec(s, after_key);
            if !(colon < s.len() && s[colon] == ':') {
                None
            } else {
                let v = skip_ws_exec(s, colon + 1);
                let step: Option<(usize, Option<Vec<char>>, Option<Vec<char>>)> = if is_handle_key(
                    &key,
                ) {
                    if h.is_some() {
                        None
                    } else {
                        match parse_string_exec(s, v) {
                            None => None,
                            Some((after_val, val)) => Some((after_val, Some(val), m)),
                        }
                    }
                } else if is_message_key(&key) {
                    if m.is_some() {
                        None
                    } else {
                        match parse_string_exec(s, v) {
                            None => None,
                            Some((after_val, val)) => Some((after_val, h, Some(val))),
                        }
                    }
                } else {
                    match skip_value_exec(s, v, MAX_VALUE_NESTING) {
                        None => None,
                        Some(j) => Some((j, h, m)),
                    }
                };
                match step {
                    None => None,
                    Some((pos, h2, m2)) => {
                        let nxt = skip_ws_exec(s, pos);
                        if nxt < s.len() && s[nxt] == ',' {
                            parse_frame_members_exec(s, nxt + 1, h2, m2)
                        } else if nxt < s.len() && s[nxt] == '}' {
                            Some((nxt + 1, h2, m2))
                        } else {
                            None
                        }
                    },
                }
            }
        },
    }
}

fn parse_frame_exec(s: &Vec<char>) -> (r: Option<(Vec<char>, Vec<char>)>)
    ensures
        r matches Some(p) ==> parse_frame(s@) == Some((p.0@, p.1@)),
        r is None ==> parse_frame(s@) is None,
{
    let open = skip_ws_exec(s, 0);
    if !(open < s.len() && s[open] == '{') {
        None
    } else {
        match parse_frame_members_exec(s, open + 1, None, None) {
            None => None,
            Some((end, h, m)) => {
                if skip_ws_exec(s, end) != s.len() {
                    None
                } else {
                    match (h, m) {
                        (Some(hv), Some(mv)) => Some((hv, mv)),
                        _ => None,
                    }
                }
            },
        }
    }
}

/// Decodes one inbound text frame. Succeeds exactly on a JSON object
/// carrying the string fields `handle` and `message` once each, among
/// any other well-formed members; every other input yields
/// `DecodeError` — a fatal bridge error — and none panics.
pub fn decode_chat_message(text: &str) -> (r: Result<ChatMessage, BridgeError>)
    ensures
        r matches Ok(m) ==> parse_frame(text@) == Some((m.handle@, m.message@)),
        parse_frame(text@) matches Some(p) ==> r matches Ok(m) && m.handle@ == p.0 && m.message@
            == p.1,
        r matches Err(e) ==> e == BridgeError::DecodeError && parse_frame(text@) is None,
{
    let cs = chars_of(text);
    match parse_frame_exec(&cs) {
        Some((hv, mv)) => Ok(
            ChatMessage {
                message: ChatMessageText(string_from_chars(&mv)),
                handle: ChatHandle(string_from_chars(&hv)),
            },
        ),
        None => Err(BridgeError::DecodeError),
    }
}

// ---------------------------------------------------------------------
// The round trip: what the encoder writes, the grammar reads back.
// ---------------------------------------------------------------------

/// The hexadecimal digit written for `n` reads back as `n`.
proof fn lemma_hex_digit_value(n: u32)
    requires
        n < 16,
    ensures
        hex_char_value(hex_digit_char(n)) == Some(n),
{
    if n < 10 {
        vstd::utf8::char_u32_cast(hex_digit_char(n), (0x30 + n) as u32);
    } else {
        vstd::utf8::char_u32_cast(hex_digit_char(n), (0x57 + n) as u32);
    }
}

/// A piece equal to a subrange of `full` is readable there index by index.
proof fn lemma_subrange_index(full: Seq<char>, i: int, p: Seq<char>)
    requires
        0 <= i,
        i + p.len() <= full.len(),
        full.subrange(i, i + p.len()) == p,
    ensures
        forall|k: int| i <= k < i + p.len() ==> #[trigger] full[k] == p[k - i],
{
    assert forall|k: int| i <= k < i + p.len() implies #[trigger] full[k] == p[k - i] by {
        assert(full.subrange(i, i + p.len())[k - i] == p[k - i]);
    }
}

/// The body parser consumes an escaped string up to its closing quote
/// and decodes it back to the original characters.
#[verifier::rlimit(60)]
proof fn lemma_parse_escaped(full: Seq<char>, i: int, s: Seq<char>)
    requires
        0 <= i,
        i + escape_string(s).len() + 1 <= full.len(),
        full.subrange(i, i + escape_string(s).len()) == escape_string(s),
        full[i + escape_string(s).len()] == '"',
    ensures
        parse_string_body(full, i) == Some((i + escape_string(s).len() + 1, s)),
    decreases s.len(),
{
    let esc = escape_string(s);
    if s.len() == 0 {
        assert(full[i] == '"');
        assert(s =~= Seq::<char>::empty());
    } else {
        let c = s[0];
        let e = escape_char(c);
        let rest = s.drop_first();
        let erest = escape_string(rest);
        assert(esc == e + erest);
        lemma_subrange_index(full, i, esc);
        let j = i + e.len();
        assert(full.subrange(j, j + erest.len()) =~= erest);
        lemma_parse_escaped(full, j, rest);
        assert(parse_string_body(full, j) == Some((i + esc.len() + 1, rest)));
        let u = c as u32;
        if c == '"' || c == '\\' {
            assert(full[i] == '\\');
            assert(parse_escape(full, i + 1) == Some((i + 2, c)));
            assert(seq![c] + rest =~= s);
        } else if c == '\u{0008}' || c == '\u{000C}' || c == '\n' || c == '\r' || c == '\t' {
            assert(full[i] == '\\');
            assert(parse_escape(full, i + 1) == Some((i + 2, c)));
            assert(seq![c] + rest =~= s);
        } else if u < 0x20 {
            assert(full[i] == '\\' && full[i + 1] == 'u' && full[i + 2] == '0' && full[i + 3]
                == '0' && full[i + 4] == hex_digit_char(u / 16) && full[i + 5] == hex_digit_char(
                u % 16,
            ));
            lemma_hex_digit_value(u / 16);
            lemma_hex_digit_value(u % 16);
            assert(hex_char_value('0') == Some(0u32));
            assert(hex4(full, i + 2) == Some((((u / 16) * 0x10 + u % 16)) as u32));
            assert((u / 16) * 0x10 + u % 16 == u) by {
                vstd::arithmetic::div_mod::lemma_fundamental_div_mod(u as int, 16);
            }
            vstd::utf8::char_is_scalar(c);
            vstd::utf8::char_u32_cast(c, u);
            assert(parse_unicode_escape(full, i + 2) == Some((i + 6, c)));
            assert(parse_escape(full, i + 1) == Some((i + 6, c)));
            assert(seq![c] + rest =~= s);
        } else {
            assert(full[i] == c);
            assert(seq![c] + rest =~= s);
        }
    }
}

/// The string parser reads a quoted, escaped string back exactly.
proof fn lemma_parse_quoted(full: Seq<char>, i: int, v: Seq<char>)
    requires
        0 <= i,
        i + quoted(v).len() <= full.len(),
        full.subrange(i, i + quoted(v).len()) == quoted(v),
    ensures
        parse_string(full, i) == Some((i + quoted(v).len(), v)),
{
    let q = quoted(v);
    let esc = escape_string(v);
    lemma_subrange_index(full, i, q);
    assert(full[i] == '"');
    assert(full.subrange(i + 1, i + 1 + esc.len()) =~= esc);
    assert(full[i + 1 + esc.len()] == '"');
    lemma_parse_escaped(full, i + 1, v);
}

/// Law: every encoded frame decodes back to exactly the handle and
/// message it was built from.
#[verifier::rlimit(60)]
pub proof fn lemma_encode_decode(h: Seq<char>, m: Seq<char>)
    ensures
        parse_frame(encode_frame(h, m)) == Some((h, m)),
{
    let s = encode_frame(h, m);
    let qh = quoted(handle_key());
    let qv = quoted(h);
    let qm = quoted(message_key());
    let qw = quoted(m);
    let a = qh.len() as int;
    let b = qv.len() as int;
    let c = qm.len() as int;
    let d = qw.len() as int;
    assert(s.len() == 5 + a + b + c + d);
    assert(s[0] == '{');
    assert(s.subrange(1, 1 + a) =~= qh);
    assert(s[1 + a] == ':');
    assert(s.subrange(2 + a, 2 + a + b) =~= qv);
    assert(s[2 + a + b] == ',');
    assert(s.subrange(3 + a + b, 3 + a + b + c) =~= qm);
    assert(s[3 + a + b + c] == ':');
    assert(s.subrange(4 + a + b + c, 4 + a + b + c + d) =~= qw);
    assert(s[4 + a + b + c + d] == '}');
    assert(s[1] == '"');
    assert(s[2 + a] == '"');
    assert(s[3 + a + b] == '"');
    assert(s[4 + a + b + c] == '"');
    lemma_parse_quoted(s, 1, handle_key());
    lemma_parse_quoted(s, 2 + a, h);
    lemma_parse_quoted(s, 3 + a + b, message_key());
    lemma_parse_quoted(s, 4 + a + b + c, m);
    assert(skip_ws(s, 0) == 0);
    assert(skip_ws(s, 1) == 1);
    assert(skip_ws(s, 1 + a) == 1 + a);
    assert(skip_ws(s, 2 + a) == 2 + a);
    assert(skip_ws(s, 2 + a + b) == 2 + a + b);
    assert(skip_ws(s, 3 + a + b) == 3 + a + b);
    assert(skip_ws(s, 3 + a + b + c) == 3 + a + b + c);
    assert(skip_ws(s, 4 + a + b + c) == 4 + a + b + c);
    assert(skip_ws(s, 4 + a + b + c + d) == 4 + a + b + c + d);
    assert(skip_ws(s, 5 + a + b + c + d) == 5 + a + b + c + d);
    assert(handle_key() != message_key());
    assert(parse_frame_members(s, 3 + a + b, Some(h), None) == Some(
        (5 + a + b + c + d, Some(h), Some(m)),
    ));
    assert(parse_frame_members(s, 1, None, None) == Some(
        (5 + a + b + c + d, Some(h), Some(m)),
    ));
}

/// Law: decoding a frame and then re-encoding the decoded fields
/// preserves the handle and the message values exactly — the frame
/// written for them decodes to the same pair.
pub proof fn lemma_decode_then_encode(s: Seq<char>)
    requires
        parse_frame(s) is Some,
    ensures
        parse_frame(encode_frame(parse_frame(s).unwrap().0, parse_frame(s).unwrap().1)) == parse_frame(s),
{
    lemma_encode_decode(parse_frame(s).unwrap().0, parse_frame(s).unwrap().1);
}

} // verus!
