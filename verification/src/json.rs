//! A small JSON reader for the two places the system meets JSON text it
//! must take apart itself: command batches found in a model's reply, and
//! the per-line match records a search subprocess prints.
//!
//! The grammar the reader accepts — objects, arrays, strings with the
//! common escapes and `\uXXXX` (surrogate pairs included), numbers,
//! booleans and null — is written out as the specification functions
//! [`sp_value`] and friends, and [`parse_json_text`] returns exactly what
//! that reading says, in both directions.  A number is kept as a `u64`
//! when it is a plain unsigned integer that fits, and as its bare lexeme
//! otherwise; nothing in the command grammar reads the latter.  A text
//! that does not read as JSON is never an error to the callers: they
//! treat it as "not a command batch" or "not a match record".

use vstd::prelude::*;
use vstd::string::StrSliceExecFns;
use vstd::string::StringExecFns;

use crate::text::all_dec_digits;
use crate::text::dec_value;
use crate::text::is_dec_digit;
use crate::text::match_at;
use crate::text::matches_at;
use crate::text::push_char;

verus! {

/// One JSON value, as the reader returns it.
#[derive(Debug)]
pub enum JsonValue {
    JString(String),
    JNumber(u64),
    /// A number lexeme that is not a plain unsigned integer fitting
    /// `u64`: kept as text, never read by the command grammar.
    JOtherNumber(String),
    JBool(bool),
    JNull,
    JArray(Vec<JsonValue>),
    JObject(Vec<(String, JsonValue)>),
}

/// The mathematical view of a JSON value: strings as character
/// sequences, structure as sequences.
pub enum JsonV {
    VString(Seq<char>),
    VNumber(u64),
    VOtherNumber(Seq<char>),
    VBool(bool),
    VNull,
    VArray(Seq<JsonV>),
    VObject(Seq<(Seq<char>, JsonV)>),
}

/// The view of one parsed value.
pub open spec fn jv(v: JsonValue) -> JsonV
    decreases v
    via jv_dec
{
    match v {
        JsonValue::JString(s) => JsonV::VString(s@),
        JsonValue::JNumber(n) => JsonV::VNumber(n),
        JsonValue::JOtherNumber(t) => JsonV::VOtherNumber(t@),
        JsonValue::JBool(b) => JsonV::VBool(b),
        JsonValue::JNull => JsonV::VNull,
        JsonValue::JArray(items) => JsonV::VArray(jv_list(items@)),
        JsonValue::JObject(fields) => JsonV::VObject(jv_fields(fields@)),
    }
}

/// The views of a sequence of parsed values.
pub open spec fn jv_list(items: Seq<JsonValue>) -> Seq<JsonV>
    decreases items
    via jv_list_dec
{
    Seq::new(
        items.len(),
        |i: int|
            if 0 <= i < items.len() {
                jv(items[i])
            } else {
                JsonV::VNull
            },
    )
}

/// The views of a sequence of parsed fields.
pub open spec fn jv_fields(fields: Seq<(String, JsonValue)>) -> Seq<(Seq<char>, JsonV)>
    decreases fields
    via jv_fields_dec
{
    Seq::new(
        fields.len(),
        |i: int|
            if 0 <= i < fields.len() {
                (fields[i].0@, jv(fields[i].1))
            } else {
                (Seq::empty(), JsonV::VNull)
            },
    )
}

#[via_fn]
proof fn jv_dec(v: JsonValue) {
    broadcast use vstd::std_specs::vec::axiom_vec_decreases_to_view;

}

#[via_fn]
proof fn jv_list_dec(items: Seq<JsonValue>) {
    broadcast use vstd::seq::axiom_seq_index_decreases;

}

#[via_fn]
proof fn jv_fields_dec(fields: Seq<(String, JsonValue)>) {
    broadcast use vstd::seq::axiom_seq_index_decreases;

}

/// Which view constructor a parsed value's view carries.
pub proof fn lemma_jv_shape(v: JsonValue)
    ensures
        (jv(v) is VString) == (v is JString),
        (jv(v) is VArray) == (v is JArray),
        (jv(v) is VObject) == (v is JObject),
        (jv(v) is VNumber) == (v is JNumber),
        (jv(v) is VNull) == (v is JNull),
{
    match v {
        JsonValue::JString(_) => {},
        JsonValue::JNumber(_) => {},
        JsonValue::JOtherNumber(_) => {},
        JsonValue::JBool(_) => {},
        JsonValue::JNull => {},
        JsonValue::JArray(_) => {},
        JsonValue::JObject(_) => {},
    }
}

/// The whitespace JSON allows between tokens.
pub open spec fn is_json_ws(c: char) -> bool {
    c == ' ' || c == '\t' || c == '\n' || c == '\r'
}

/// The first position at or after `i` holding something other than JSON
/// whitespace, clamped to the text.
pub open spec fn sp_ws(s: Seq<char>, i: int) -> int
    decreases s.len() - i,
{
    if i < 0 {
        0
    } else if i >= s.len() {
        s.len() as int
    } else if is_json_ws(s[i]) {
        sp_ws(s, i + 1)
    } else {
        i
    }
}


/// What the one-character escapes decode to; `\u` is handled apart.
pub open spec fn esc_char(e: char) -> Option<char> {
    if e == '"' {
        Some('"')
    } else if e == '\\' {
        Some('\\')
    } else if e == '/' {
        Some('/')
    } else if e == 'n' {
        Some('\n')
    } else if e == 't' {
        Some('\t')
    } else if e == 'r' {
        Some('\r')
    } else if e == 'b' {
        Some('\u{0008}')
    } else if e == 'f' {
        Some('\u{000C}')
    } else {
        None
    }
}

pub open spec fn is_hex_digit(c: char) -> bool {
    is_dec_digit(c) || ('a' <= c && c <= 'f') || ('A' <= c && c <= 'F')
}

pub open spec fn hex_val(c: char) -> nat {
    if is_dec_digit(c) {
        (c as int - '0' as int) as nat
    } else if 'a' <= c && c <= 'f' {
        (c as int - 'a' as int + 10) as nat
    } else {
        (c as int - 'A' as int + 10) as nat
    }
}

/// The value of the four hex digits at `p`, if they are there.
pub open spec fn hex4(s: Seq<char>, p: int) -> Option<nat> {
    if 0 <= p && p + 4 <= s.len() && is_hex_digit(s[p]) && is_hex_digit(s[p + 1]) && is_hex_digit(
        s[p + 2],
    ) && is_hex_digit(s[p + 3]) {
        Some(
            hex_val(s[p]) * 0x1000 + hex_val(s[p + 1]) * 0x100 + hex_val(s[p + 2]) * 0x10
                + hex_val(s[p + 3]),
        )
    } else {
        None
    }
}

pub open spec fn is_high_surrogate(h: nat) -> bool {
    0xD800 <= h <= 0xDBFF
}

pub open spec fn is_low_surrogate(h: nat) -> bool {
    0xDC00 <= h <= 0xDFFF
}

/// The characters of a string literal read from position `p` (just past
/// the opening quote) up to its closing quote, escapes decoded.
pub open spec fn sp_string_body(s: Seq<char>, p: int) -> Option<(Seq<char>, int)>
    decreases s.len() - p,
{
    if !(0 <= p < s.len()) {
        None
    } else if s[p] == '"' {
        Some((Seq::empty(), p + 1))
    } else if s[p] == '\\' {
        if p + 1 >= s.len() {
            None
        } else if s[p + 1] == 'u' {
            match hex4(s, p + 2) {
                Some(h) => if is_high_surrogate(h) {
                    if p + 8 <= s.len() && s[p + 6] == '\\' && s[p + 7] == 'u' {
                        match hex4(s, p + 8) {
                            Some(l) => if is_low_surrogate(l) && p + 12 <= s.len() {
                                let scalar = 0x10000 + (h - 0xD800) * 0x400 + (l - 0xDC00);
                                match sp_string_body(s, p + 12) {
                                    Some((t, j)) => Some((seq![scalar as char] + t, j)),
                                    None => None,
                                }
                            } else {
                                None
                            },
                            None => None,
                        }
                    } else {
                        None
                    }
                } else if is_low_surrogate(h) || p + 6 > s.len() {
                    None
                } else {
                    match sp_string_body(s, p + 6) {
                        Some((t, j)) => Some((seq![h as char] + t, j)),
                        None => None,
                    }
                },
                None => None,
            }
        } else {
            match esc_char(s[p + 1]) {
                Some(c) => match sp_string_body(s, p + 2) {
                    Some((t, j)) => Some((seq![c] + t, j)),
                    None => None,
                },
                None => None,
            }
        }
    } else {
        match sp_string_body(s, p + 1) {
            Some((t, j)) => Some((seq![s[p]] + t, j)),
            None => None,
        }
    }
}


/// The characters a number lexeme may use; the shape beyond the first
/// character is not constrained, the classification below decides what
/// the lexeme denotes.
pub open spec fn is_num_char(c: char) -> bool {
    is_dec_digit(c) || c == '-' || c == '+' || c == '.' || c == 'e' || c == 'E'
}

/// Where the number lexeme starting at `p` ends: the first position at
/// or after `p` holding no number character.
pub open spec fn num_end(s: Seq<char>, p: int) -> int
    decreases s.len() - p,
{
    if !(0 <= p < s.len()) {
        if p < 0 {
            0
        } else {
            s.len() as int
        }
    } else if is_num_char(s[p]) {
        num_end(s, p + 1)
    } else {
        p
    }
}


/// The number value at `k`: the maximal number-character lexeme, kept as
/// a `u64` when it is a plain unsigned integer that fits, and as its
/// bare text otherwise.
pub open spec fn sp_number(s: Seq<char>, k: int) -> Option<(JsonV, int)> {
    let j = num_end(s, k);
    let lex = s.subrange(k, j);
    if lex.len() == 0 {
        None
    } else if all_dec_digits(lex) && dec_value(lex) <= u64::MAX {
        Some((JsonV::VNumber(dec_value(lex) as u64), j))
    } else {
        Some((JsonV::VOtherNumber(lex), j))
    }
}

/// One JSON value read from position `i` on: leading whitespace, then
/// the value named by its first character.  The fuel only bounds the
/// reading's depth; [`spec_json`] supplies more than any text can use.
pub open spec fn sp_value(s: Seq<char>, i: int, fuel: nat) -> Option<(JsonV, int)>
    decreases fuel,
{
    if fuel == 0 {
        None
    } else {
        let j = sp_ws(s, i);
        if j >= s.len() {
            None
        } else if s[j] == '"' {
            match sp_string_body(s, j + 1) {
                Some((t, e)) => Some((JsonV::VString(t), e)),
                None => None,
            }
        } else if s[j] == '{' {
            match sp_object_items(s, j + 1, true, (fuel - 1) as nat) {
                Some((fs, e)) => Some((JsonV::VObject(fs), e)),
                None => None,
            }
        } else if s[j] == '[' {
            match sp_array_items(s, j + 1, true, (fuel - 1) as nat) {
                Some((es, e)) => Some((JsonV::VArray(es), e)),
                None => None,
            }
        } else if match_at(s, "true"@, j) {
            Some((JsonV::VBool(true), j + "true"@.len()))
        } else if match_at(s, "false"@, j) {
            Some((JsonV::VBool(false), j + "false"@.len()))
        } else if match_at(s, "null"@, j) {
            Some((JsonV::VNull, j + "null"@.len()))
        } else if is_dec_digit(s[j]) || s[j] == '-' {
            sp_number(s, j)
        } else {
            None
        }
    }
}

/// The elements of an array from position `p` (just past `[` or a
/// comma): on the first round a `]` closes an empty array, otherwise a
/// value must follow, continued by `,` or closed by `]`.
pub open spec fn sp_array_items(s: Seq<char>, p: int, first: bool, fuel: nat) -> Option<
    (Seq<JsonV>, int),
>
    decreases fuel,
{
    if fuel == 0 {
        None
    } else {
        let q = sp_ws(s, p);
        if q >= s.len() {
            None
        } else if first && s[q] == ']' {
            Some((Seq::empty(), q + 1))
        } else {
            match sp_value(s, p, (fuel - 1) as nat) {
                Some((v, e)) => {
                    let a = sp_ws(s, e);
                    if a >= s.len() {
                        None
                    } else if s[a] == ']' {
                        Some((seq![v], a + 1))
                    } else if s[a] == ',' {
                        match sp_array_items(s, a + 1, false, (fuel - 1) as nat) {
                            Some((rest, j)) => Some((seq![v] + rest, j)),
                            None => None,
                        }
                    } else {
                        None
                    }
                },
                None => None,
            }
        }
    }
}

/// The fields of an object from position `p` (just past `{` or a
/// comma): on the first round a `}` closes an empty object, otherwise a
/// `"key": value` pair must follow, continued by `,` or closed by `}`.
pub open spec fn sp_object_items(s: Seq<char>, p: int, first: bool, fuel: nat) -> Option<
    (Seq<(Seq<char>, JsonV)>, int),
>
    decreases fuel,
{
    if fuel == 0 {
        None
    } else {
        let q = sp_ws(s, p);
        if q >= s.len() {
            None
        } else if first && s[q] == '}' {
            Some((Seq::empty(), q + 1))
        } else if s[q] != '"' {
            None
        } else {
            match sp_string_body(s, q + 1) {
                Some((key, e1)) => {
                    let c = sp_ws(s, e1);
                    if c >= s.len() || s[c] != ':' {
                        None
                    } else {
                        match sp_value(s, c + 1, (fuel - 1) as nat) {
                            Some((v, e2)) => {
                                let a = sp_ws(s, e2);
                                if a >= s.len() {
                                    None
                                } else if s[a] == '}' {
                                    Some((seq![(key, v)], a + 1))
                                } else if s[a] == ',' {
                                    match sp_object_items(s, a + 1, false, (fuel - 1) as nat) {
                                        Some((rest, j)) => Some((seq![(key, v)] + rest, j)),
                                        None => None,
                                    }
                                } else {
                                    None
                                }
                            },
                            None => None,
                        }
                    }
                },
                None => None,
            }
        }
    }
}

/// How a whole text reads as one JSON value: one value, then nothing but
/// whitespace.  The fuel handed in exceeds what any nesting of the text
/// can consume, so it never cuts a reading short.
pub open spec fn spec_json(s: Seq<char>) -> Option<JsonV> {
    match sp_value(s, 0, (4 * s.len() + 4) as nat) {
        Some((v, j)) => if sp_ws(s, j) == s.len() {
            Some(v)
        } else {
            None
        },
        None => None,
    }
}

/// The view of a reader step's result.
pub open spec fn jstep(r: Option<(JsonValue, usize)>) -> Option<(JsonV, int)> {
    match r {
        Some((v, j)) => Some((jv(v), j as int)),
        None => None,
    }
}

fn is_json_ws_char(c: char) -> (r: bool)
    ensures
        r == is_json_ws(c),
{
    c == ' ' || c == '\t' || c == '\n' || c == '\r'
}

/// The first position at or after `i` holding something other than JSON
/// whitespace.
fn skip_ws(s: &str, i: usize) -> (r: usize)
    requires
        i <= s@.len(),
    ensures
        r as int == sp_ws(s@, i as int),
        i <= r <= s@.len(),
{
    let n = s.unicode_len();
    let mut j = i;
    while j < n
        invariant
            i <= j <= n,
            n == s@.len(),
            sp_ws(s@, i as int) == sp_ws(s@, j as int),
        decreases n - j,
    {
        if !is_json_ws_char(s.get_char(j)) {
            return j;
        }
        j = j + 1;
    }
    j
}

fn esc_char_of(e: char) -> (r: Option<char>)
    ensures
        r == esc_char(e),
{
    if e == '"' {
        Some('"')
    } else if e == '\\' {
        Some('\\')
    } else if e == '/' {
        Some('/')
    } else if e == 'n' {
        Some('\n')
    } else if e == 't' {
        Some('\t')
    } else if e == 'r' {
        Some('\r')
    } else if e == 'b' {
        Some('\u{0008}')
    } else if e == 'f' {
        Some('\u{000C}')
    } else {
        None
    }
}

fn hex_digit_val(c: char) -> (r: Option<u32>)
    ensures
        match r {
            Some(v) => is_hex_digit(c) && v as nat == hex_val(c) && v < 16,
            None => !is_hex_digit(c),
        },
{
    if c >= '0' && c <= '9' {
        Some((c as u32) - ('0' as u32))
    } else if c >= 'a' && c <= 'f' {
        Some((c as u32) - ('a' as u32) + 10)
    } else if c >= 'A' && c <= 'F' {
        Some((c as u32) - ('A' as u32) + 10)
    } else {
        None
    }
}

/// The value of the four hex digits at `p`, if they are there.
fn hex4_at(s: &str, p: usize) -> (r: Option<u32>)
    requires
        p <= s@.len(),
    ensures
        match r {
            Some(v) => hex4(s@, p as int) == Some(v as nat) && p + 4 <= s@.len(),
            None => hex4(s@, p as int) is None,
        },
{
    let n = s.unicode_len();
    if n - p < 4 {
        return None;
    }
    let d0 = hex_digit_val(s.get_char(p));
    let d1 = hex_digit_val(s.get_char(p + 1));
    let d2 = hex_digit_val(s.get_char(p + 2));
    let d3 = hex_digit_val(s.get_char(p + 3));
    match (d0, d1, d2, d3) {
        (Some(h0), Some(h1), Some(h2), Some(h3)) => Some(
            h0 * 0x1000 + h1 * 0x100 + h2 * 0x10 + h3,
        ),
        _ => None,
    }
}

/// Relies on `char::from_u32`: `Some` exactly on Unicode scalar values
/// (not a surrogate, at most 0x10FFFF), carrying that code point.
#[verifier::external_body]
fn char_from_u32(v: u32) -> (r: Option<char>)
    ensures
        r matches Some(c) ==> c as u32 == v,
        (r is Some) == (v < 0xD800 || (0xDFFF < v && v <= 0x10FFFF)),
{
    char::from_u32(v)
}

/// Reads a string literal's characters from `p` (just past the opening
/// quote) to its closing quote, exactly as [`sp_string_body`] reads them.
fn parse_string_body(s: &str, p: usize) -> (r: Option<(String, usize)>)
    requires
        p <= s@.len(),
    ensures
        match r {
            Some((t, j)) => sp_string_body(s@, p as int) == Some((t@, j as int)) && p < j
                <= s@.len(),
            None => sp_string_body(s@, p as int) is None,
        },
    decreases s@.len() - p,
{
    let n = s.unicode_len();
    if p >= n {
        return None;
    }
    let c = s.get_char(p);
    if c == '"' {
        return Some((String::new(), p + 1));
    }
    if c == '\\' {
        if p + 1 >= n {
            return None;
        }
        let e = s.get_char(p + 1);
        if e == 'u' {
            match hex4_at(s, p + 2) {
                Some(h) => {
                    if h >= 0xD800 && h <= 0xDBFF {
                        if n - p >= 8 && s.get_char(p + 6) == '\\' && s.get_char(p + 7) == 'u' {
                            match hex4_at(s, p + 8) {
                                Some(l) => {
                                    if l >= 0xDC00 && l <= 0xDFFF {
                                        let scalar: u32 = 0x10000 + (h - 0xD800) * 0x400 + (l
                                            - 0xDC00);
                                        proof {
                                            assert(0x10000 <= scalar <= 0x10FFFF);
                                        }
                                        match char_from_u32(scalar) {
                                            Some(ch) => {
                                                proof {
                                                    vstd::utf8::char_u32_cast(ch, scalar);
                                                    assert(ch == (0x10000 + (h as nat - 0xD800)
                                                        * 0x400 + (l as nat - 0xDC00)) as char);
                                                }
                                                match parse_string_body(s, p + 12) {
                                                    Some((t, j)) => {
                                                        let mut out = String::new();
                                                        push_char(&mut out, ch);
                                                        out.append(t.as_str());
                                                        Some((out, j))
                                                    },
                                                    None => None,
                                                }
                                            },
                                            None => {
                                                proof {
                                                    assert(false);
                                                }
                                                None
                                            },
                                        }
                                    } else {
                                        None
                                    }
                                },
                                None => None,
                            }
                        } else {
                            None
                        }
                    } else if h >= 0xDC00 && h <= 0xDFFF {
                        None
                    } else {
                        proof {
                            assert(h < 0xD800 || (0xDFFF < h && h < 0x10000));
                        }
                        match char_from_u32(h) {
                            Some(ch) => {
                                proof {
                                    vstd::utf8::char_u32_cast(ch, h);
                                    assert(ch == (h as nat) as char);
                                }
                                match parse_string_body(s, p + 6) {
                                    Some((t, j)) => {
                                        let mut out = String::new();
                                        push_char(&mut out, ch);
                                        out.append(t.as_str());
                                        Some((out, j))
                                    },
                                    None => None,
                                }
                            },
                            None => {
                                proof {
                                    assert(false);
                                }
                                None
                            },
                        }
                    }
                },
                None => None,
            }
        } else {
            match esc_char_of(e) {
                Some(ch) => match parse_string_body(s, p + 2) {
                    Some((t, j)) => {
                        let mut out = String::new();
                        push_char(&mut out, ch);
                        out.append(t.as_str());
                        Some((out, j))
                    },
                    None => None,
                },
                None => None,
            }
        }
    } else {
        match parse_string_body(s, p + 1) {
            Some((t, j)) => {
                let mut out = String::new();
                push_char(&mut out, c);
                out.append(t.as_str());
                Some((out, j))
            },
            None => None,
        }
    }
}

/// The digit string's value when it fits a `u64`.
fn dec_u64(s: &str) -> (r: Option<u64>)
    ensures
        match r {
            Some(v) => s@.len() > 0 && all_dec_digits(s@) && dec_value(s@) <= u64::MAX
                && v as nat == dec_value(s@),
            None => s@.len() == 0 || !all_dec_digits(s@) || dec_value(s@) > u64::MAX,
        },
{
    let n = s.unicode_len();
    if n == 0 {
        return None;
    }
    let mut acc: u64 = 0;
    let mut over: bool = false;
    let mut i: usize = 0;
    while i < n
        invariant
            0 < n == s@.len(),
            0 <= i <= n,
            all_dec_digits(s@.take(i as int)),
            !over ==> dec_value(s@.take(i as int)) <= u64::MAX && acc as nat == dec_value(
                s@.take(i as int),
            ),
            over ==> dec_value(s@.take(i as int)) > u64::MAX,
        decreases n - i,
    {
        let c = s.get_char(i);
        if c < '0' || c > '9' {
            assert(!is_dec_digit(s@[i as int]));
            return None;
        }
        let d: u64 = (c as u32 as u64) - ('0' as u32 as u64);
        assert(s@.take(i + 1).drop_last() =~= s@.take(i as int));
        assert(s@.take(i + 1).last() == s@[i as int]);
        if !over {
            if acc > (u64::MAX - d) / 10 {
                proof {
                    let m = u64::MAX as int;
                    assert(10 * ((m - d) / 10) >= m - d - 9);
                    assert(10 * (acc as int) + d > m);
                }
                over = true;
            } else {
                proof {
                    let m = u64::MAX as int;
                    assert(10 * ((m - d) / 10) <= m - d);
                    assert(10 * (acc as int) + d <= m);
                }
                acc = acc * 10 + d;
            }
        }
        i = i + 1;
    }
    assert(s@.take(n as int) =~= s@);
    if over {
        None
    } else {
        Some(acc)
    }
}

fn is_num_char_at(c: char) -> (r: bool)
    ensures
        r == is_num_char(c),
{
    (c >= '0' && c <= '9') || c == '-' || c == '+' || c == '.' || c == 'e' || c == 'E'
}

/// The view of an array reader step's result.
pub open spec fn astep(r: Option<(Vec<JsonValue>, usize)>) -> Option<(Seq<JsonV>, int)> {
    match r {
        Some((items, j)) => Some((jv_list(items@), j as int)),
        None => None,
    }
}

/// The view of an object reader step's result.
pub open spec fn ostep(r: Option<(Vec<(String, JsonValue)>, usize)>) -> Option<
    (Seq<(Seq<char>, JsonV)>, int),
> {
    match r {
        Some((fields, j)) => Some((jv_fields(fields@), j as int)),
        None => None,
    }
}

/// Where the number lexeme starting at `k` ends.
fn num_end_at(s: &str, k: usize) -> (r: usize)
    requires
        k <= s@.len(),
    ensures
        r as int == num_end(s@, k as int),
        k <= r <= s@.len(),
    decreases s@.len() - k,
{
    let n = s.unicode_len();
    if k >= n {
        n
    } else if is_num_char_at(s.get_char(k)) {
        num_end_at(s, k + 1)
    } else {
        k
    }
}

/// Reads the number lexeme at `k`, exactly as [`sp_number`] reads it.
fn parse_number_at(s: &str, k: usize) -> (r: Option<(JsonValue, usize)>)
    requires
        k <= s@.len(),
    ensures
        match r {
            Some((v, j)) => sp_number(s@, k as int) == Some((jv(v), j as int)) && k < j
                <= s@.len(),
            None => sp_number(s@, k as int) is None,
        },
{
    let j = num_end_at(s, k);
    if j == k {
        assert(s@.subrange(k as int, j as int) =~= Seq::<char>::empty());
        return None;
    }
    let lex = s.substring_char(k, j);
    assert(lex@ =~= s@.subrange(k as int, j as int));
    match dec_u64(lex) {
        Some(v) => Some((JsonValue::JNumber(v), j)),
        None => Some((JsonValue::JOtherNumber(lex.to_owned()), j)),
    }
}

/// Reads one JSON value from position `i` on, exactly as [`sp_value`]
/// reads it once given enough fuel.
fn parse_value(s: &str, i: usize) -> (r: Option<(JsonValue, usize)>)
    requires
        i <= s@.len(),
    ensures
        forall|f: nat| f >= 4 * (s@.len() - i) + 4 ==> sp_value(s@, i as int, f) == jstep(r),
        r matches Some((_, j)) ==> i < j <= s@.len(),
    decreases s@.len() - i, 0nat,
{
    let n = s.unicode_len();
    let j = skip_ws(s, i);
    proof {
        reveal_strlit("true");
        reveal_strlit("false");
        reveal_strlit("null");
    }
    if j >= n {
        assert forall|f: nat|
            f >= 4 * (s@.len() - i) + 4 implies sp_value(s@, i as int, f) == jstep(
            None::<(JsonValue, usize)>,
        ) by {}
        return None;
    }
    let c = s.get_char(j);
    if c == '"' {
        let sb = parse_string_body(s, j + 1);
        let ghost sbv: Option<(Seq<char>, int)> = match sb {
            Some((ref t, e)) => Some((t@, e as int)),
            None => None,
        };
        let r: Option<(JsonValue, usize)> = match sb {
            Some((t, e)) => Some((JsonValue::JString(t), e)),
            None => None,
        };
        proof {
            assert forall|f: nat|
                f >= 4 * (s@.len() - i) + 4 implies sp_value(s@, i as int, f) == jstep(r) by {
                assert(sp_string_body(s@, j + 1) == sbv);
            }
        }
        r
    } else if c == '{' {
        let ob = parse_object_items(s, j + 1, true);
        let ghost obv = ostep(ob);
        let r: Option<(JsonValue, usize)> = match ob {
            Some((fields, e)) => Some((JsonValue::JObject(fields), e)),
            None => None,
        };
        proof {
            assert forall|f: nat|
                f >= 4 * (s@.len() - i) + 4 implies sp_value(s@, i as int, f) == jstep(r) by {
                assert((f - 1) as nat >= 4 * (s@.len() - (j + 1)) + 6);
                assert(sp_object_items(s@, j + 1, true, (f - 1) as nat) == obv);
            }
        }
        r
    } else if c == '[' {
        let ab = parse_array_items(s, j + 1, true);
        let ghost abv = astep(ab);
        let r: Option<(JsonValue, usize)> = match ab {
            Some((items, e)) => Some((JsonValue::JArray(items), e)),
            None => None,
        };
        proof {
            assert forall|f: nat|
                f >= 4 * (s@.len() - i) + 4 implies sp_value(s@, i as int, f) == jstep(r) by {
                assert((f - 1) as nat >= 4 * (s@.len() - (j + 1)) + 6);
                assert(sp_array_items(s@, j + 1, true, (f - 1) as nat) == abv);
            }
        }
        r
    } else if matches_at(s, "true", j) {
        let r: Option<(JsonValue, usize)> = Some((JsonValue::JBool(true), j + 4));
        assert forall|f: nat|
            f >= 4 * (s@.len() - i) + 4 implies sp_value(s@, i as int, f) == jstep(r) by {}
        r
    } else if matches_at(s, "false", j) {
        let r: Option<(JsonValue, usize)> = Some((JsonValue::JBool(false), j + 5));
        assert forall|f: nat|
            f >= 4 * (s@.len() - i) + 4 implies sp_value(s@, i as int, f) == jstep(r) by {}
        r
    } else if matches_at(s, "null", j) {
        let r: Option<(JsonValue, usize)> = Some((JsonValue::JNull, j + 4));
        assert forall|f: nat|
            f >= 4 * (s@.len() - i) + 4 implies sp_value(s@, i as int, f) == jstep(r) by {}
        r
    } else if (c >= '0' && c <= '9') || c == '-' {
        let r = parse_number_at(s, j);
        proof {
            assert forall|f: nat|
                f >= 4 * (s@.len() - i) + 4 implies sp_value(s@, i as int, f) == jstep(r) by {}
        }
        r
    } else {
        assert forall|f: nat|
            f >= 4 * (s@.len() - i) + 4 implies sp_value(s@, i as int, f) == jstep(
            None::<(JsonValue, usize)>,
        ) by {}
        None
    }
}

/// Reads array elements from `p` on, exactly as [`sp_array_items`] reads
/// them once given enough fuel.
fn parse_array_items(s: &str, p: usize, first: bool) -> (r: Option<(Vec<JsonValue>, usize)>)
    requires
        p <= s@.len(),
    ensures
        forall|f: nat|
            f >= 4 * (s@.len() - p) + 6 ==> sp_array_items(s@, p as int, first, f) == astep(r),
        r matches Some((_, j)) ==> p < j <= s@.len(),
    decreases s@.len() - p, 1nat,
{
    let n = s.unicode_len();
    let q = skip_ws(s, p);
    if q >= n {
        assert forall|f: nat|
            f >= 4 * (s@.len() - p) + 6 implies sp_array_items(s@, p as int, first, f) == astep(
            None::<(Vec<JsonValue>, usize)>,
        ) by {}
        return None;
    }
    if first && s.get_char(q) == ']' {
        let items: Vec<JsonValue> = Vec::new();
        let ghost iv = jv_list(items@);
        proof {
            assert(iv =~= Seq::<JsonV>::empty());
        }
        let r = Some((items, q + 1));
        assert forall|f: nat|
            f >= 4 * (s@.len() - p) + 6 implies sp_array_items(s@, p as int, first, f) == astep(
            r,
        ) by {}
        return r;
    }
    let val = parse_value(s, p);
    let ghost valv = jstep(val);
    match val {
        Some((v, e)) => {
            let ghost vv = jv(v);
            let a = skip_ws(s, e);
            if a >= n {
                assert forall|f: nat|
                    f >= 4 * (s@.len() - p) + 6 implies sp_array_items(s@, p as int, first, f)
                    == astep(None::<(Vec<JsonValue>, usize)>) by {
                    assert(sp_value(s@, p as int, (f - 1) as nat) == valv);
                }
                return None;
            }
            let c2 = s.get_char(a);
            if c2 == ']' {
                let mut items: Vec<JsonValue> = Vec::new();
                items.push(v);
                proof {
                    assert(jv_list(items@) =~= seq![vv]);
                }
                let r = Some((items, a + 1));
                proof {
                    assert forall|f: nat|
                        f >= 4 * (s@.len() - p) + 6 implies sp_array_items(s@, p as int, first, f)
                        == astep(r) by {
                        assert(sp_value(s@, p as int, (f - 1) as nat) == valv);
                    }
                }
                r
            } else if c2 == ',' {
                let rest_r = parse_array_items(s, a + 1, false);
                let ghost restv = astep(rest_r);
                match rest_r {
                    Some((mut rest, jj)) => {
                        let ghost old_rest = rest@;
                        rest.insert(0, v);
                        proof {
                            assert(jv_list(rest@) =~= seq![vv] + jv_list(old_rest));
                        }
                        let r = Some((rest, jj));
                        proof {
                            assert forall|f: nat|
                                f >= 4 * (s@.len() - p) + 6 implies sp_array_items(
                                s@,
                                p as int,
                                first,
                                f,
                            ) == astep(r) by {
                                assert(sp_value(s@, p as int, (f - 1) as nat) == valv);
                                assert((f - 1) as nat >= 4 * (s@.len() - (a + 1)) + 6);
                                assert(sp_array_items(s@, a + 1, false, (f - 1) as nat) == restv);
                            }
                        }
                        r
                    },
                    None => {
                        assert forall|f: nat|
                            f >= 4 * (s@.len() - p) + 6 implies sp_array_items(
                            s@,
                            p as int,
                            first,
                            f,
                        ) == astep(None::<(Vec<JsonValue>, usize)>) by {
                            assert(sp_value(s@, p as int, (f - 1) as nat) == valv);
                            assert((f - 1) as nat >= 4 * (s@.len() - (a + 1)) + 6);
                            assert(sp_array_items(s@, a + 1, false, (f - 1) as nat) == restv);
                        }
                        None
                    },
                }
            } else {
                assert forall|f: nat|
                    f >= 4 * (s@.len() - p) + 6 implies sp_array_items(s@, p as int, first, f)
                    == astep(None::<(Vec<JsonValue>, usize)>) by {
                    assert(sp_value(s@, p as int, (f - 1) as nat) == valv);
                }
                None
            }
        },
        None => {
            assert forall|f: nat|
                f >= 4 * (s@.len() - p) + 6 implies sp_array_items(s@, p as int, first, f)
                == astep(None::<(Vec<JsonValue>, usize)>) by {
                assert(sp_value(s@, p as int, (f - 1) as nat) == valv);
            }
            None
        },
    }
}

/// Reads object fields from `p` on, exactly as [`sp_object_items`] reads
/// them once given enough fuel.
fn parse_object_items(s: &str, p: usize, first: bool) -> (r: Option<
    (Vec<(String, JsonValue)>, usize),
>)
    requires
        p <= s@.len(),
    ensures
        forall|f: nat|
            f >= 4 * (s@.len() - p) + 6 ==> sp_object_items(s@, p as int, first, f) == ostep(r),
        r matches Some((_, j)) ==> p < j <= s@.len(),
    decreases s@.len() - p, 1nat,
{
    let n = s.unicode_len();
    let q = skip_ws(s, p);
    if q >= n {
        assert forall|f: nat|
            f >= 4 * (s@.len() - p) + 6 implies sp_object_items(s@, p as int, first, f) == ostep(
            None::<(Vec<(String, JsonValue)>, usize)>,
        ) by {}
        return None;
    }
    if first && s.get_char(q) == '}' {
        let fields: Vec<(String, JsonValue)> = Vec::new();
        proof {
            assert(jv_fields(fields@) =~= Seq::<(Seq<char>, JsonV)>::empty());
        }
        let r = Some((fields, q + 1));
        assert forall|f: nat|
            f >= 4 * (s@.len() - p) + 6 implies sp_object_items(s@, p as int, first, f) == ostep(
            r,
        ) by {}
        return r;
    }
    if s.get_char(q) != '"' {
        assert forall|f: nat|
            f >= 4 * (s@.len() - p) + 6 implies sp_object_items(s@, p as int, first, f) == ostep(
            None::<(Vec<(String, JsonValue)>, usize)>,
        ) by {}
        return None;
    }
    let kb = parse_string_body(s, q + 1);
    let ghost kbv: Option<(Seq<char>, int)> = match kb {
        Some((ref t, e)) => Some((t@, e as int)),
        None => None,
    };
    match kb {
        Some((key, e1)) => {
            let ghost keyv = key@;
            let c = skip_ws(s, e1);
            if c >= n || s.get_char(c) != ':' {
                assert forall|f: nat|
                    f >= 4 * (s@.len() - p) + 6 implies sp_object_items(s@, p as int, first, f)
                    == ostep(None::<(Vec<(String, JsonValue)>, usize)>) by {
                    assert(sp_string_body(s@, q + 1) == kbv);
                }
                return None;
            }
            let val = parse_value(s, c + 1);
            let ghost valv = jstep(val);
            match val {
                Some((v, e2)) => {
                    let ghost vv = jv(v);
                    let a = skip_ws(s, e2);
                    if a >= n {
                        assert forall|f: nat|
                            f >= 4 * (s@.len() - p) + 6 implies sp_object_items(
                            s@,
                            p as int,
                            first,
                            f,
                        ) == ostep(None::<(Vec<(String, JsonValue)>, usize)>) by {
                            assert(sp_string_body(s@, q + 1) == kbv);
                            assert((f - 1) as nat >= 4 * (s@.len() - (c + 1)) + 4);
                            assert(sp_value(s@, c + 1, (f - 1) as nat) == valv);
                        }
                        return None;
                    }
                    let c2 = s.get_char(a);
                    if c2 == '}' {
                        let mut fields: Vec<(String, JsonValue)> = Vec::new();
                        fields.push((key, v));
                        proof {
                            assert(jv_fields(fields@) =~= seq![(keyv, vv)]);
                        }
                        let r = Some((fields, a + 1));
                        proof {
                            assert forall|f: nat|
                                f >= 4 * (s@.len() - p) + 6 implies sp_object_items(
                                s@,
                                p as int,
                                first,
                                f,
                            ) == ostep(r) by {
                                assert(sp_string_body(s@, q + 1) == kbv);
                                assert((f - 1) as nat >= 4 * (s@.len() - (c + 1)) + 4);
                                assert(sp_value(s@, c + 1, (f - 1) as nat) == valv);
                            }
                        }
                        r
                    } else if c2 == ',' {
                        let rest_r = parse_object_items(s, a + 1, false);
                        let ghost restv = ostep(rest_r);
                        match rest_r {
                            Some((mut rest, jj)) => {
                                let ghost old_rest = rest@;
                                rest.insert(0, (key, v));
                                proof {
                                    assert(jv_fields(rest@) =~= seq![(keyv, vv)] + jv_fields(
                                        old_rest,
                                    ));
                                }
                                let r = Some((rest, jj));
                                proof {
                                    assert forall|f: nat|
                                        f >= 4 * (s@.len() - p) + 6 implies sp_object_items(
                                        s@,
                                        p as int,
                                        first,
                                        f,
                                    ) == ostep(r) by {
                                        assert(sp_string_body(s@, q + 1) == kbv);
                                        assert((f - 1) as nat >= 4 * (s@.len() - (c + 1)) + 4);
                                        assert(sp_value(s@, c + 1, (f - 1) as nat) == valv);
                                        assert((f - 1) as nat >= 4 * (s@.len() - (a + 1)) + 6);
                                        assert(sp_object_items(s@, a + 1, false, (f - 1) as nat)
                                            == restv);
                                    }
                                }
                                r
                            },
                            None => {
                                assert forall|f: nat|
                                    f >= 4 * (s@.len() - p) + 6 implies sp_object_items(
                                    s@,
                                    p as int,
                                    first,
                                    f,
                                ) == ostep(None::<(Vec<(String, JsonValue)>, usize)>) by {
                                    assert(sp_string_body(s@, q + 1) == kbv);
                                    assert((f - 1) as nat >= 4 * (s@.len() - (c + 1)) + 4);
                                    assert(sp_value(s@, c + 1, (f - 1) as nat) == valv);
                                    assert((f - 1) as nat >= 4 * (s@.len() - (a + 1)) + 6);
                                    assert(sp_object_items(s@, a + 1, false, (f - 1) as nat)
                                        == restv);
                                }
                                None
                            },
                        }
                    } else {
                        assert forall|f: nat|
                            f >= 4 * (s@.len() - p) + 6 implies sp_object_items(
                            s@,
                            p as int,
                            first,
                            f,
                        ) == ostep(None::<(Vec<(String, JsonValue)>, usize)>) by {
                            assert(sp_string_body(s@, q + 1) == kbv);
                            assert((f - 1) as nat >= 4 * (s@.len() - (c + 1)) + 4);
                            assert(sp_value(s@, c + 1, (f - 1) as nat) == valv);
                        }
                        None
                    }
                },
                None => {
                    assert forall|f: nat|
                        f >= 4 * (s@.len() - p) + 6 implies sp_object_items(
                        s@,
                        p as int,
                        first,
                        f,
                    ) == ostep(None::<(Vec<(String, JsonValue)>, usize)>) by {
                        assert(sp_string_body(s@, q + 1) == kbv);
                        assert((f - 1) as nat >= 4 * (s@.len() - (c + 1)) + 4);
                        assert(sp_value(s@, c + 1, (f - 1) as nat) == valv);
                    }
                    None
                },
            }
        },
        None => {
            assert forall|f: nat|
                f >= 4 * (s@.len() - p) + 6 implies sp_object_items(s@, p as int, first, f)
                == ostep(None::<(Vec<(String, JsonValue)>, usize)>) by {
                assert(sp_string_body(s@, q + 1) == kbv);
            }
            None
        },
    }
}

/// Reads a whole input as one JSON value, exactly as [`spec_json`] reads
/// it: trailing content other than whitespace makes the read fail.
pub fn parse_json_text(s: &str) -> (r: Option<JsonValue>)
    ensures
        match r {
            Some(v) => spec_json(s@) == Some(jv(v)),
            None => spec_json(s@) is None,
        },
{
    let n = s.unicode_len();
    let inner = parse_value(s, 0);
    proof {
        let f0 = (4 * s@.len() + 4) as nat;
        assert(sp_value(s@, 0, f0) == jstep(inner));
    }
    match inner {
        Some((v, j)) => {
            let k = skip_ws(s, j);
            if k == n {
                Some(v)
            } else {
                None
            }
        },
        None => None,
    }
}

} // verus!
