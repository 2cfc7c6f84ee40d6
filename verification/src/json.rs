//! JSON text framing and field probing.
//!
//! Outgoing request bodies are framed as JSON text by verified code (string
//! escaping included); incoming documents are held as opaque
//! `serde_json::Value`s and read field by field through trusted accessors,
//! with every decision on the extracted plain values made in verified code.

use vstd::prelude::*;
use crate::text::push_char;
use crate::text::chars_of;
use crate::text::spec_digit;

verus! {

/// The character for a single hexadecimal digit.
pub open spec fn spec_hex_digit(d: int) -> char {
    if d < 10 {
        spec_digit(d)
    } else if d == 10 {
        'a'
    } else if d == 11 {
        'b'
    } else if d == 12 {
        'c'
    } else if d == 13 {
        'd'
    } else if d == 14 {
        'e'
    } else {
        'f'
    }
}

/// The JSON escaping of one character: quote, backslash and the common control
/// characters get their short escapes, other control characters a `\u00XX`
/// escape, and everything else stands as itself.
pub open spec fn spec_escape_char(c: char) -> Seq<char> {
    if c == '"' {
        seq!['\\', '"']
    } else if c == '\\' {
        seq!['\\', '\\']
    } else if c == '\n' {
        seq!['\\', 'n']
    } else if c == '\r' {
        seq!['\\', 'r']
    } else if c == '\t' {
        seq!['\\', 't']
    } else if (c as u32) < 32 {
        seq!['\\', 'u', '0', '0', spec_hex_digit(c as u32 as int / 16), spec_hex_digit(
            c as u32 as int % 16,
        )]
    } else {
        seq![c]
    }
}

/// The JSON escaping of a whole character sequence.
pub open spec fn spec_escape(s: Seq<char>) -> Seq<char>
    decreases s.len(),
{
    if s.len() == 0 {
        Seq::empty()
    } else {
        spec_escape_char(s[0]) + spec_escape(s.skip(1))
    }
}

/// Escaping distributes over appending one character at the end.
proof fn lemma_escape_snoc(s: Seq<char>, c: char)
    ensures
        spec_escape(s.push(c)) == spec_escape(s) + spec_escape_char(c),
    decreases s.len(),
{
    if s.len() == 0 {
        assert(s.push(c).skip(1) =~= Seq::<char>::empty());
        assert(s.push(c)[0] == c);
        assert(spec_escape(s.push(c)) == spec_escape_char(c) + spec_escape(Seq::<char>::empty()));
        assert(spec_escape(Seq::<char>::empty()) == Seq::<char>::empty());
        assert(spec_escape(s) == Seq::<char>::empty());
        assert(spec_escape(s.push(c)) =~= spec_escape(s) + spec_escape_char(c));
    } else {
        assert(s.push(c).skip(1) =~= s.skip(1).push(c));
        lemma_escape_snoc(s.skip(1), c);
        assert(spec_escape(s.push(c)) =~= spec_escape(s) + spec_escape_char(c));
    }
}

fn hex_digit_char(d: u32) -> (r: char)
    requires
        d < 16,
    ensures
        r == spec_hex_digit(d as int),
{
    match d {
        0 => '0',
        1 => '1',
        2 => '2',
        3 => '3',
        4 => '4',
        5 => '5',
        6 => '6',
        7 => '7',
        8 => '8',
        9 => '9',
        10 => 'a',
        11 => 'b',
        12 => 'c',
        13 => 'd',
        14 => 'e',
        _ => 'f',
    }
}

fn push_escaped_char(out: &mut String, c: char)
    ensures
        final(out)@ == old(out)@ + spec_escape_char(c),
{
    let ghost prev = out@;
    if c == '"' {
        push_char(out, '\\');
        push_char(out, '"');
        assert(out@ =~= prev + spec_escape_char(c));
    } else if c == '\\' {
        push_char(out, '\\');
        push_char(out, '\\');
        assert(out@ =~= prev + spec_escape_char(c));
    } else if c == '\n' {
        push_char(out, '\\');
        push_char(out, 'n');
        assert(out@ =~= prev + spec_escape_char(c));
    } else if c == '\r' {
        push_char(out, '\\');
        push_char(out, 'r');
        assert(out@ =~= prev + spec_escape_char(c));
    } else if c == '\t' {
        push_char(out, '\\');
        push_char(out, 't');
        assert(out@ =~= prev + spec_escape_char(c));
    } else if (c as u32) < 32 {
        push_char(out, '\\');
        push_char(out, 'u');
        push_char(out, '0');
        push_char(out, '0');
        push_char(out, hex_digit_char((c as u32) / 16));
        push_char(out, hex_digit_char((c as u32) % 16));
        assert(out@ =~= prev + spec_escape_char(c));
    } else {
        push_char(out, c);
        assert(out@ =~= prev + spec_escape_char(c));
    }
}

/// Appends the JSON escaping of `s` to `out`.
pub fn append_escaped(out: &mut String, s: &str)
    ensures
        final(out)@ == old(out)@ + spec_escape(s@),
{
    let cs = chars_of(s);
    let mut i: usize = 0;
    assert(s@.subrange(0, 0) =~= Seq::<char>::empty());
    while i < cs.len()
        invariant
            0 <= i <= cs@.len(),
            cs@ == s@,
            out@ == old(out)@ + spec_escape(s@.subrange(0, i as int)),
        decreases cs@.len() - i,
    {
        let ghost pfx = s@.subrange(0, i as int);
        push_escaped_char(out, cs[i]);
        proof {
            lemma_escape_snoc(pfx, s@[i as int]);
            assert(s@.subrange(0, i + 1) =~= pfx.push(s@[i as int]));
        }
        i = i + 1;
    }
    assert(s@.subrange(0, s@.len() as int) =~= s@);
}

/// A JSON string literal: `s` escaped, between double quotes.
pub open spec fn spec_json_string(s: Seq<char>) -> Seq<char> {
    seq!['"'] + spec_escape(s) + seq!['"']
}

/// Appends the JSON string literal for `s` to `out`.
pub fn append_json_string(out: &mut String, s: &str)
    ensures
        final(out)@ == old(out)@ + spec_json_string(s@),
{
    push_char(out, '"');
    append_escaped(out, s);
    push_char(out, '"');
    assert(out@ =~= old(out)@ + spec_json_string(s@));
}

/// Declares serde_json's dynamic JSON value; the library carries such values
/// through opaquely and reads them only via the accessors below.
#[verifier::external_type_specification]
#[verifier::external_body]
pub struct ExValue(serde_json::Value);

/// Whether `s` parses as a JSON document; a function of the text alone.
pub uninterp spec fn is_json_doc(s: Seq<char>) -> bool;

/// Relies on serde_json::from_str::<Value>: parses a JSON document, or fails
/// on malformed input; whether it parses depends on the text alone.
#[verifier::external_body]
pub fn parse_json(s: &str) -> (r: Option<serde_json::Value>)
    ensures
        r is Some <==> is_json_doc(s@),
{
    serde_json::from_str(s).ok()
}


/// Whether the JSON document `s` has a top-level field `key`; a function of
/// the text alone, and false when `s` is no JSON document.
pub uninterp spec fn has_field_of(doc: Seq<char>, key: Seq<char>) -> bool;

/// Relies on serde_json::from_str::<Value> and Value::get: whether the text
/// parses and carries the top-level field.
#[verifier::external_body]
pub fn json_text_has_field(s: &str, key: &str) -> (r: bool)
    ensures
        r == has_field_of(s@, key@),
        r ==> is_json_doc(s@),
{
    match serde_json::from_str::<serde_json::Value>(s) {
        Ok(doc) => doc.get(key).is_some(),
        Err(_) => false,
    }
}

/// The string content of the top-level field `key` of the JSON document
/// `s`; `None` when the text does not parse, the field is absent, or it is
/// no string. A function of the text alone.
pub uninterp spec fn str_field_of(doc: Seq<char>, key: Seq<char>) -> Option<Seq<char>>;

/// Relies on serde_json::from_str::<Value>, Value::get and Value::as_str:
/// reads one top-level string field out of the text.
#[verifier::external_body]
pub fn json_text_str_field(s: &str, key: &str) -> (r: Option<String>)
    ensures
        match r {
            Some(v) => str_field_of(s@, key@) == Some(v@),
            None => str_field_of(s@, key@) is None,
        },
        r is Some ==> has_field_of(s@, key@),
{
    match serde_json::from_str::<serde_json::Value>(s) {
        Ok(doc) => match doc.get(key) {
            Some(v) => match v.as_str() {
                Some(text) => Some(text.to_string()),
                None => None,
            },
            None => None,
        },
        Err(_) => None,
    }
}

/// The non-negative integer content of the top-level field `key` of the
/// JSON document `s`; `None` when the text does not parse, the field is
/// absent, or it is no such integer. A function of the text alone.
pub uninterp spec fn u64_field_of(doc: Seq<char>, key: Seq<char>) -> Option<u64>;

/// Relies on serde_json::from_str::<Value>, Value::get and Value::as_u64:
/// reads one top-level integer field out of the text.
#[verifier::external_body]
pub fn json_text_u64_field(s: &str, key: &str) -> (r: Option<u64>)
    ensures
        r == u64_field_of(s@, key@),
        r is Some ==> has_field_of(s@, key@),
{
    match serde_json::from_str::<serde_json::Value>(s) {
        Ok(doc) => match doc.get(key) {
            Some(v) => v.as_u64(),
            None => None,
        },
        Err(_) => None,
    }
}

/// Relies on serde_json::Value::get: looks a key up in a JSON object, `None`
/// on non-objects and absent keys.
#[verifier::external_body]
pub fn json_get<'a>(v: &'a serde_json::Value, key: &str) -> Option<&'a serde_json::Value> {
    v.get(key)
}

/// Relies on serde_json::Value::as_str: the string content of a JSON string
/// value, `None` for any other kind of value.
#[verifier::external_body]
pub fn json_as_str(v: &serde_json::Value) -> Option<String> {
    v.as_str().map(|s| s.to_string())
}

/// Relies on serde_json::Value::as_i64: the integer content of a JSON number,
/// `None` when it is no integer or out of range.
#[verifier::external_body]
pub fn json_as_i64(v: &serde_json::Value) -> Option<i64> {
    v.as_i64()
}

/// Relies on serde_json::Value::as_u64: the non-negative integer content of a
/// JSON number, `None` when it is no such integer.
#[verifier::external_body]
pub fn json_as_u64(v: &serde_json::Value) -> Option<u64> {
    v.as_u64()
}

/// Relies on serde_json::Value::as_array: the elements of a JSON array,
/// `None` for any other kind of value.
#[verifier::external_body]
pub fn json_as_array(v: &serde_json::Value) -> Option<&Vec<serde_json::Value>> {
    v.as_array()
}

/// Probes `v` for the first of `keys` that is present with a string value.
pub fn first_string_field(v: &serde_json::Value, keys: &Vec<&str>) -> Option<String> {
    let mut i: usize = 0;
    while i < keys.len()
        decreases keys@.len() - i,
    {
        if let Some(field) = json_get(v, keys[i]) {
            if let Some(s) = json_as_str(field) {
                return Some(s);
            }
        }
        i = i + 1;
    }
    None
}

} // verus!
