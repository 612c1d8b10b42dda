//! A JSON value as the library reads it, and the calls into serde_json that
//! parse and quote text.
use vstd::prelude::*;
use crate::text::same_text;

verus! {

/// A JSON value. Numbers keep the text serde_json renders for them; an
/// object keeps its entries in document order (serde_json's `preserve_order`).
#[derive(Debug)]
pub enum Json {
    Null,
    Bool(bool),
    Number(String),
    Str(String),
    Array(Vec<Json>),
    Object(Vec<(String, Json)>),
}

/// serde_json's value tree, carried opaquely between the parse and the
/// conversion into `Json`.
#[verifier::external_type_specification]
#[verifier::external_body]
pub struct ExValue(serde_json::Value);

/// What `serde_json::from_slice` yields for the given bytes: `None` where they
/// are not a well-formed JSON document.
pub uninterp spec fn json_of(b: Seq<u8>) -> Option<Json>;

/// The lowercase hexadecimal digit of `n`, below 16.
pub open spec fn hex_digit(n: u32) -> char {
    seq!['0', '1', '2', '3', '4', '5', '6', '7', '8', '9', 'a', 'b', 'c', 'd', 'e', 'f'][n as int]
}

/// How one character stands inside a JSON string: `"` and `\` and the control
/// characters escaped (the short forms where JSON has one, else `\u00XX`).
pub open spec fn escaped_char(c: char) -> Seq<char> {
    if c == '"' {
        seq!['\\', '"']
    } else if c == '\\' {
        seq!['\\', '\\']
    } else if c == '\u{8}' {
        seq!['\\', 'b']
    } else if c == '\t' {
        seq!['\\', 't']
    } else if c == '\n' {
        seq!['\\', 'n']
    } else if c == '\u{c}' {
        seq!['\\', 'f']
    } else if c == '\r' {
        seq!['\\', 'r']
    } else if (c as u32) < 0x20 {
        seq!['\\', 'u', '0', '0', hex_digit((c as u32) / 16), hex_digit((c as u32) % 16)]
    } else {
        seq![c]
    }
}

/// The characters of `s`, each as it stands inside a JSON string.
pub open spec fn escaped(s: Seq<char>) -> Seq<char>
    decreases s.len(),
{
    if s.len() == 0 {
        Seq::empty()
    } else {
        escaped(s.drop_last()) + escaped_char(s.last())
    }
}

/// A string as a JSON string literal.
pub open spec fn json_quoted(s: Seq<char>) -> Seq<char> {
    seq!['"'] + escaped(s) + seq!['"']
}

/// True for an object or an array.
pub open spec fn is_nested(j: Json) -> bool {
    j is Object || j is Array
}

/// The value of the last entry named `key`, if any.
pub open spec fn lookup(entries: Seq<(String, Json)>, key: Seq<char>) -> Option<Json>
    decreases entries.len(),
{
    if entries.len() == 0 {
        None
    } else if entries.last().0@ == key {
        Some(entries.last().1)
    } else {
        lookup(entries.drop_last(), key)
    }
}

/// The member `key` of `j`, where `j` is an object that has one.
pub open spec fn member(j: Json, key: Seq<char>) -> Option<Json> {
    match j {
        Json::Object(es) => lookup(es@, key),
        _ => None,
    }
}

/// Relies on `serde_json::from_slice` into `serde_json::Value`: the parsed
/// document, or `None` on malformed input.
#[verifier::external_body]
pub fn parse_json(b: &[u8]) -> (r: Option<Json>)
    ensures
        r == json_of(b@),
{
    match serde_json::from_slice::<serde_json::Value>(b) {
        Ok(v) => Some(from_value(v)),
        Err(_) => None,
    }
}

/// Turns a `serde_json::Value` into a `Json`, variant for variant; used by
/// `parse_json` only.
#[verifier::external_body]
fn from_value(v: serde_json::Value) -> Json {
    match v {
        serde_json::Value::Null => Json::Null,
        serde_json::Value::Bool(b) => Json::Bool(b),
        serde_json::Value::Number(n) => Json::Number(n.to_string()),
        serde_json::Value::String(s) => Json::Str(s),
        serde_json::Value::Array(a) => Json::Array(a.into_iter().map(from_value).collect()),
        serde_json::Value::Object(o) => Json::Object(
            o.into_iter().map(|(k, v)| (k, from_value(v))).collect(),
        ),
    }
}

/// Relies on `serde_json::to_string` of a `str`: a double quote, the
/// characters with control characters, `"` and `\` escaped, a double quote.
#[verifier::external_body]
pub(crate) fn quote_json(s: &str) -> (r: String)
    ensures
        r@ == json_quoted(s@),
{
    match serde_json::to_string(s) {
        Ok(t) => t,
        Err(_) => String::new(),
    }
}

/// The text of a scalar value: `null`, `true`, `false`, a number's digits, or
/// a string's JSON form; with one leading and one trailing quote removed.
pub open spec fn scalar_text(j: Json) -> Seq<char> {
    match j {
        Json::Null => "null"@,
        Json::Bool(b) => if b { "true"@ } else { "false"@ },
        Json::Number(n) => crate::text::strip_quotes(n@),
        Json::Str(s) => crate::text::strip_quotes(json_quoted(s@)),
        _ => Seq::empty(),
    }
}

/// The text an environment variable gets from a scalar value; `None` for an
/// object or an array.
pub fn setting_text(j: &Json) -> (r: Option<String>)
    ensures
        is_nested(*j) ==> r is None,
        !is_nested(*j) ==> r is Some && r->Some_0@ == scalar_text(*j),
{
    match j {
        Json::Null => Some("null".to_owned()),
        Json::Bool(b) => if *b {
            Some("true".to_owned())
        } else {
            Some("false".to_owned())
        },
        Json::Number(n) => Some(crate::text::strip_one_quote_each_side(n.as_str())),
        Json::Str(s) => {
            let q = quote_json(s.as_str());
            Some(crate::text::strip_one_quote_each_side(q.as_str()))
        },
        _ => None,
    }
}

/// The member `key` of `j`, where `j` is an object that has one.
pub fn get_member<'a>(j: &'a Json, key: &str) -> (r: Option<&'a Json>)
    ensures
        r is Some ==> member(*j, key@) == Some(*r->Some_0),
        r is None ==> member(*j, key@) is None,
{
    match j {
        Json::Object(es) => {
            let mut i: usize = es.len();
            assert(es@.take(i as int) =~= es@);
            while i > 0
                invariant
                    i <= es.len(),
                    member(*j, key@) == lookup(es@.take(i as int), key@),
                decreases i,
            {
                assert(es@.take(i as int).drop_last() =~= es@.take(i - 1));
                if same_text(es[i - 1].0.as_str(), key) {
                    assert(es@.take(i as int).last() == es@[i - 1]);
                    assert(es@[i - 1].0@ == key@);
                    assert(lookup(es@.take(i as int), key@) == Some(es@[i - 1].1));
                    return Some(&es[i - 1].1);
                }
                i = i - 1;
            }
            None
        },
        _ => None,
    }
}

} // verus!
