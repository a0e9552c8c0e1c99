//! JSON text for event payloads: string literals (written by serde_json),
//! numbers, and the framing of objects and arrays around rendered values;
//! and reading a string member back out of a payload.
use vstd::prelude::*;
use crate::text::{append_chars, chars_of, i64_text, string_from_chars};

verus! {

/// Lower-case hexadecimal digit.
pub open spec fn hex_digit(d: nat) -> char {
    if d < 10 {
        crate::text::digit_char(d)
    } else if d == 10 {
        'a'
    } else if d == 11 {
        'b'
    } else if d == 12 {
        'c'
    } else if d == 13 {
        'd'
    } else if d == 14 {
        'e'
    } else {
        'f'
    }
}

/// How one character is written inside a JSON string literal.
pub open spec fn escape_char(c: char) -> Seq<char> {
    if c == '"' {
        seq!['\\', '"']
    } else if c == '\\' {
        seq!['\\', '\\']
    } else if c == '\n' {
        seq!['\\', 'n']
    } else if c == '\r' {
        seq!['\\', 'r']
    } else if c == '\t' {
        seq!['\\', 't']
    } else if c == '\u{8}' {
        seq!['\\', 'b']
    } else if c == '\u{c}' {
        seq!['\\', 'f']
    } else if (c as u32) < 0x20 {
        seq!['\\', 'u', '0', '0', hex_digit(((c as u32) / 16) as nat), hex_digit(((c as u32) % 16) as nat)]
    } else {
        seq![c]
    }
}

/// The escaped body of a JSON string literal.
pub open spec fn escape(s: Seq<char>) -> Seq<char>
    decreases s.len(),
{
    if s.len() == 0 {
        Seq::empty()
    } else {
        escape(s.drop_last()) + escape_char(s.last())
    }
}

/// A JSON string literal, as `serde_json` writes one.
pub open spec fn json_string(s: Seq<char>) -> Seq<char> {
    seq!['"'] + escape(s) + seq!['"']
}

/// Writes a string as a JSON string literal with `serde_json::to_string`.
/// Its escaping (serde_json's `ESCAPE` table and `write_char_escape`) is
/// stated in `json_string`: quote and backslash are escaped, backspace, form
/// feed, line feed, carriage return and tab as `\b \f \n \r \t`, other
/// control characters below U+0020 as `\u00` and two lower-case hex digits,
/// every other character kept. Serialising a `str` does not fail, so the
/// error arm is never taken.
#[verifier::external_body]
pub(crate) fn serde_json_str(s: &str) -> (r: String)
    ensures
        r@ == json_string(s@),
{
    match serde_json::to_string(s) {
        Ok(t) => t,
        Err(_) => String::new(),
    }
}

/// `"key":value` for one member.
pub open spec fn member_text(m: (Seq<char>, Seq<char>)) -> Seq<char> {
    json_string(m.0) + seq![':'] + m.1
}

/// Members separated by commas.
pub open spec fn members_text(ms: Seq<(Seq<char>, Seq<char>)>) -> Seq<char>
    decreases ms.len(),
{
    if ms.len() == 0 {
        Seq::empty()
    } else if ms.len() == 1 {
        member_text(ms[0])
    } else {
        members_text(ms.drop_last()) + seq![','] + member_text(ms.last())
    }
}

/// A JSON object with the given members (values already rendered), in order.
pub open spec fn object_text(ms: Seq<(Seq<char>, Seq<char>)>) -> Seq<char> {
    seq!['{'] + members_text(ms) + seq!['}']
}

/// Elements separated by commas, inside brackets.
pub open spec fn array_body(xs: Seq<Seq<char>>) -> Seq<char>
    decreases xs.len(),
{
    if xs.len() == 0 {
        Seq::empty()
    } else if xs.len() == 1 {
        json_string(xs[0])
    } else {
        array_body(xs.drop_last()) + seq![','] + json_string(xs.last())
    }
}

/// A JSON array of strings.
pub open spec fn string_array_text(xs: Seq<Seq<char>>) -> Seq<char> {
    seq!['['] + array_body(xs) + seq![']']
}

/// Appends the JSON string literal for `s`.
pub fn push_json_string(out: &mut Vec<char>, s: &str)
    ensures
        final(out)@ == old(out)@ + json_string(s@),
{
    let t = serde_json_str(s);
    let v = chars_of(t.as_str());
    append_chars(out, &v);
}

/// The JSON string literal for `s`.
pub fn json_str(s: &str) -> (r: String)
    ensures
        r@ == json_string(s@),
{
    serde_json_str(s)
}

/// The JSON string literal for `s`, or `null`.
pub fn json_opt_str(s: Option<&str>) -> (r: String)
    ensures
        r@ == match s {
            Some(t) => json_string(t@),
            None => "null"@,
        },
{
    match s {
        Some(t) => json_str(t),
        None => String::from_str("null"),
    }
}

/// A JSON number for an integer.
pub fn json_int(n: i64) -> (r: String)
    ensures
        r@ == crate::text::int_text(n as int),
{
    i64_text(n)
}

/// `true` or `false`.
pub fn json_bool(b: bool) -> (r: String)
    ensures
        r@ == (if b { "true"@ } else { "false"@ }),
{
    if b {
        String::from_str("true")
    } else {
        String::from_str("false")
    }
}

/// A JSON array of strings.
pub fn json_str_array(xs: &Vec<String>) -> (r: String)
    ensures
        r@ == string_array_text(xs@.map_values(|s: String| s@)),
{
    let ghost views = xs@.map_values(|s: String| s@);
    let mut out: Vec<char> = Vec::new();
    out.push('[');
    let mut i: usize = 0;
    while i < xs.len()
        invariant
            i <= xs.len(),
            views == xs@.map_values(|s: String| s@),
            out@ == seq!['['] + array_body(views.take(i as int)),
        decreases xs.len() - i,
    {
        let ghost prev = out@;
        assert(views.take(i + 1).drop_last() =~= views.take(i as int));
        assert(views.take(i + 1).last() == xs@[i as int]@);
        if i > 0 {
            out.push(',');
        }
        push_json_string(&mut out, xs[i].as_str());
        i = i + 1;
        assert(out@ =~= seq!['['] + array_body(views.take(i as int)));
    }
    assert(views.take(xs.len() as int) =~= views);
    out.push(']');
    assert(out@ =~= string_array_text(views));
    string_from_chars(out.as_slice())
}

/// Members of a JSON object under construction: each key with its rendered value.
pub open spec fn member_views(ms: Seq<(String, String)>) -> Seq<(Seq<char>, Seq<char>)> {
    ms.map_values(|m: (String, String)| (m.0@, m.1@))
}

/// A JSON object with the given members, in order (values already rendered).
pub fn json_object(ms: &Vec<(String, String)>) -> (r: String)
    ensures
        r@ == object_text(member_views(ms@)),
{
    let ghost views = member_views(ms@);
    let mut out: Vec<char> = Vec::new();
    out.push('{');
    let mut i: usize = 0;
    while i < ms.len()
        invariant
            i <= ms.len(),
            views == member_views(ms@),
            out@ == seq!['{'] + members_text(views.take(i as int)),
        decreases ms.len() - i,
    {
        assert(views.take(i + 1).drop_last() =~= views.take(i as int));
        assert(views.take(i + 1).last() == (ms@[i as int].0@, ms@[i as int].1@));
        if i > 0 {
            out.push(',');
        }
        push_json_string(&mut out, ms[i].0.as_str());
        out.push(':');
        let vc = chars_of(ms[i].1.as_str());
        append_chars(&mut out, &vc);
        i = i + 1;
        assert(out@ =~= seq!['{'] + members_text(views.take(i as int)));
    }
    assert(views.take(ms.len() as int) =~= views);
    out.push('}');
    assert(out@ =~= object_text(views));
    string_from_chars(out.as_slice())
}

/// The string a JSON text holds under `key` at its top level, when the text is
/// an object and that member is a string; what `serde_json` decides.
pub uninterp spec fn json_str_member(json: Seq<char>, key: Seq<char>) -> Option<Seq<char>>;

/// Parses `json` with `serde_json::from_str` into a `serde_json::Value` and
/// reads `value.get(key).and_then(Value::as_str)`; `None` when the text is not
/// JSON, is not an object, lacks the key, or holds a non-string there. The
/// parser's behaviour is left to the name `json_str_member`.
#[verifier::external_body]
pub(crate) fn json_get_str(json: &str, key: &str) -> (r: Option<String>)
    ensures
        match r {
            Some(s) => json_str_member(json@, key@) == Some(s@),
            None => json_str_member(json@, key@) is None,
        },
{
    let value: serde_json::Value = serde_json::from_str(json).ok()?;
    let member = value.get(key)?.as_str()?;
    Some(member.to_string())
}

/// Whether `serde_json` reads the text as JSON.
pub uninterp spec fn serde_json_parses(json: Seq<char>) -> bool;

/// The text `serde_json` writes back for the value a JSON text holds under
/// `key` at its top level, when the text is an object with that member.
pub uninterp spec fn json_member(json: Seq<char>, key: Seq<char>) -> Option<Seq<char>>;

/// Checks with `serde_json::from_str::<serde_json::Value>` whether the text
/// is JSON; the result is named `serde_json_parses`.
#[verifier::external_body]
pub(crate) fn json_parses(json: &str) -> (r: bool)
    ensures
        r == serde_json_parses(json@),
{
    serde_json::from_str::<serde_json::Value>(json).is_ok()
}

/// Parses `json` with `serde_json::from_str` into a `serde_json::Value`,
/// takes `value.get(key)` and writes it back with `to_string`; `None` when
/// the text is not JSON, not an object, or lacks the key. The result is named
/// `json_member`.
#[verifier::external_body]
pub(crate) fn json_get_member(json: &str, key: &str) -> (r: Option<String>)
    ensures
        match r {
            Some(s) => json_member(json@, key@) == Some(s@),
            None => json_member(json@, key@) is None,
        },
{
    let value: serde_json::Value = serde_json::from_str(json).ok()?;
    let member = value.get(key)?;
    Some(member.to_string())
}

} // verus!
