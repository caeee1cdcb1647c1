//! The two JSON operations that the engine's rules rest on, both done by
//! `serde_json`: reading one string member of an object, and writing an object of one
//! such member.

use vstd::prelude::*;

verus! {

/// The string member `key` of the JSON object `text`: `None` when `text` is no
/// valid JSON document, no object, has no such member, or the member is no string.
pub uninterp spec fn string_field(text: Seq<char>, key: Seq<char>) -> Option<Seq<char>>;

/// Reads one string member of a JSON object with `serde_json::from_str`,
/// `Value::get` and `Value::as_str`. The claim is that the outcome is a function
/// of the document and of the member's name.
#[verifier::external_body]
pub(crate) fn read_string_field(text: &str, key: &str) -> (r: Option<String>)
    ensures
        match r {
            Some(s) => string_field(text@, key@) == Some(s@),
            None => string_field(text@, key@) is None,
        },
{
    let value: serde_json::Value = serde_json::from_str(text).ok()?;
    value.get(key)?.as_str().map(str::to_owned)
}

/// Hexadecimal digit in lower case.
pub open spec fn hex_digit(d: int) -> char {
    if d < 10 {
        ((48 + d) as u8) as char
    } else {
        ((87 + d) as u8) as char
    }
}

/// How a character stands inside a JSON string.
pub open spec fn json_escaped(c: char) -> Seq<char> {
    let code = c as int;
    if c == '"' || c == '\\' {
        seq!['\\', c]
    } else if code == 8 {
        seq!['\\', 'b']
    } else if code == 9 {
        seq!['\\', 't']
    } else if code == 10 {
        seq!['\\', 'n']
    } else if code == 12 {
        seq!['\\', 'f']
    } else if code == 13 {
        seq!['\\', 'r']
    } else if code < 32 {
        seq!['\\', 'u', '0', '0', hex_digit(code / 16), hex_digit(code % 16)]
    } else {
        seq![c]
    }
}

/// The escaped characters of a JSON string, without its quotes.
pub open spec fn json_string_body(s: Seq<char>) -> Seq<char>
    decreases s.len(),
{
    if s.len() == 0 {
        seq![]
    } else {
        json_string_body(s.drop_last()) + json_escaped(s.last())
    }
}

/// The JSON object whose one member `key` is the string `value`.
pub open spec fn object_text(key: Seq<char>, value: Seq<char>) -> Seq<char> {
    seq!['{', '"'] + json_string_body(key) + seq!['"', ':', '"'] + json_string_body(value)
        + seq!['"', '}']
}

/// Writes the JSON object with one string member through `serde_json::to_string`. The
/// claim is that writing succeeds, that the text is the compact form with `serde_json`'s
/// escapes, and that reading the member back gives the value.
#[verifier::external_body]
pub(crate) fn write_string_object(key: &str, value: &str) -> (r: Result<String, String>)
    ensures
        r is Ok,
        r->Ok_0@ == object_text(key@, value@),
        string_field(r->Ok_0@, key@) == Some(value@),
{
    let mut object = serde_json::Map::new();
    object.insert(key.to_owned(), serde_json::Value::String(value.to_owned()));
    serde_json::to_string(&serde_json::Value::Object(object)).map_err(|e| e.to_string())
}

}
