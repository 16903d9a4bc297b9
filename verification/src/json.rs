use vstd::prelude::*;
use vstd::utf8::encode_utf8;
use crate::text::{chars_of, convert_str_to_bytes, hex_digit};

verus! {

/// Declares `serde_json::Number`, which JSON numbers are kept as.
#[verifier::external_type_specification]
#[verifier::external_body]
pub struct ExNumber(serde_json::Number);

/// Declares `serde_json::Value`, which the parsing and printing wrappers convert from and to.
#[verifier::external_type_specification]
#[verifier::external_body]
pub struct ExValue(serde_json::Value);

/// A JSON value, as the library reads it.
pub enum Json {
    Null,
    Bool(bool),
    Number(serde_json::Number),
    Str(String),
    Array(Vec<Json>),
    /// The members of an object, in the order in which they are stored.
    Object(Vec<(String, Json)>),
}

/// The value of the first member named `key`, in a list of members.
pub open spec fn first_member(members: Seq<(String, Json)>, key: Seq<char>) -> Option<Json>
    decreases members.len(),
{
    if members.len() == 0 {
        None
    } else if members[0].0@ == key {
        Some(members[0].1)
    } else {
        first_member(members.skip(1), key)
    }
}

/// `Value::get`: the member named `key` of an object; nothing for other values.
pub open spec fn json_get(v: Json, key: Seq<char>) -> Option<Json> {
    match v {
        Json::Object(members) => first_member(members@, key),
        _ => None,
    }
}

/// `Value::get` applied to an optional value.
pub open spec fn json_get_opt(v: Option<Json>, key: Seq<char>) -> Option<Json> {
    match v {
        Some(x) => json_get(x, key),
        None => None,
    }
}

/// `Value::as_str`: the text of a string value.
pub open spec fn json_as_str(v: Json) -> Option<Seq<char>> {
    match v {
        Json::Str(s) => Some(s@),
        _ => None,
    }
}

/// `Value::as_str` applied to an optional value.
pub open spec fn json_str_opt(v: Option<Json>) -> Option<Seq<char>> {
    match v {
        Some(x) => json_as_str(x),
        None => None,
    }
}

/// The value behind an optional reference.
pub open spec fn deref_opt(v: Option<&Json>) -> Option<Json> {
    match v {
        Some(x) => Some(*x),
        None => None,
    }
}

/// The value that `serde_json::from_str` parses from a text, if the text is JSON.
pub uninterp spec fn json_parse(text: Seq<char>) -> Option<Json>;

/// The compact JSON text that `serde_json` writes for a value.
pub uninterp spec fn json_text(v: Json) -> Seq<char>;

/// Converts a parsed `serde_json::Value` into the library's JSON value, member by member.
#[verifier::external_body]
fn json_from_serde(v: serde_json::Value) -> Json {
    match v {
        serde_json::Value::Null => Json::Null,
        serde_json::Value::Bool(b) => Json::Bool(b),
        serde_json::Value::Number(n) => Json::Number(n),
        serde_json::Value::String(s) => Json::Str(s),
        serde_json::Value::Array(a) => Json::Array(a.into_iter().map(json_from_serde).collect()),
        serde_json::Value::Object(m) => Json::Object(
            m.into_iter().map(|(k, x)| (k, json_from_serde(x))).collect(),
        ),
    }
}

/// Converts the library's JSON value into a `serde_json::Value`, member by member.
#[verifier::external_body]
fn json_to_serde(v: &Json) -> serde_json::Value {
    match v {
        Json::Null => serde_json::Value::Null,
        Json::Bool(b) => serde_json::Value::Bool(*b),
        Json::Number(n) => serde_json::Value::Number(n.clone()),
        Json::Str(s) => serde_json::Value::String(s.clone()),
        Json::Array(a) => serde_json::Value::Array(a.iter().map(json_to_serde).collect()),
        Json::Object(m) => serde_json::Value::Object(
            m.iter().map(|(k, x)| (k.clone(), json_to_serde(x))).collect(),
        ),
    }
}

/// `serde_json::from_str::<Value>`: the value that the text holds, or nothing when the
/// text is not JSON. The result is named, not described: it depends on the text alone.
#[verifier::external_body]
pub fn parse_json(text: &str) -> (r: Option<Json>)
    ensures
        r == json_parse(text@),
{
    match serde_json::from_str::<serde_json::Value>(text) {
        Ok(v) => Some(json_from_serde(v)),
        Err(_) => None,
    }
}

/// `Value::to_string` (compact JSON) of a value. The result is named, not described:
/// it depends on the value alone.
#[verifier::external_body]
pub fn json_to_text(v: &Json) -> (r: String)
    ensures
        r@ == json_text(*v),
{
    json_to_serde(v).to_string()
}

/// How `serde_json` writes one character inside a JSON string: `"` and `\\` and the
/// control characters U+0000 to U+001F are escaped (short forms for backspace, tab,
/// line feed, form feed and carriage return, `\u00xx` otherwise); others are kept.
pub open spec fn json_escape_char(c: char) -> Seq<char> {
    if c == '"' {
        seq!['\\', '"']
    } else if c == '\\' {
        seq!['\\', '\\']
    } else if c == '\x08' {
        seq!['\\', 'b']
    } else if c == '\t' {
        seq!['\\', 't']
    } else if c == '\n' {
        seq!['\\', 'n']
    } else if c == '\x0c' {
        seq!['\\', 'f']
    } else if c == '\r' {
        seq!['\\', 'r']
    } else if c <= '\x1f' {
        seq!['\\', 'u', '0', '0', hex_digit(c as nat / 16), hex_digit(c as nat % 16)]
    } else {
        seq![c]
    }
}

/// The escaped characters of a string.
pub open spec fn json_escape(s: Seq<char>) -> Seq<char>
    decreases s.len(),
{
    if s.len() == 0 {
        seq![]
    } else {
        json_escape(s.drop_last()) + json_escape_char(s.last())
    }
}

/// A string written as a JSON string literal.
pub open spec fn json_quote(s: Seq<char>) -> Seq<char> {
    seq!['"'] + json_escape(s) + seq!['"']
}

/// The compact JSON text of an object with one string member.
pub open spec fn json_single_member_text(key: Seq<char>, value: Seq<char>) -> Seq<char> {
    seq!['{'] + json_quote(key) + seq![':'] + json_quote(value) + seq!['}']
}

/// `serde_json::to_string` of a map with a single member whose value is a string: the
/// compact text `{"key":"value"}` with both strings escaped as `serde_json` escapes them.
#[verifier::external_body]
pub fn single_member_json(key: &str, value: &str) -> (r: String)
    ensures
        r@ == json_single_member_text(key@, value@),
{
    serde_json::to_string(&std::collections::HashMap::from([(key, value)])).unwrap_or_default()
}

/// Parses a JSON text that is known to be JSON.
pub fn convert_jsonstring_to_json(jsonstring: &str) -> (r: Json)
    requires
        json_parse(jsonstring@) is Some,
    ensures
        json_parse(jsonstring@) == Some(r),
{
    match parse_json(jsonstring) {
        Some(v) => v,
        None => Json::Null,
    }
}

/// Parses a JSON text like `convert_jsonstring_to_json`, or gives nothing when the
/// text is not JSON.
pub fn try_convert_jsonstring_to_json(jsonstring: &str) -> (r: Option<Json>)
    ensures
        r == json_parse(jsonstring@),
{
    match parse_json(jsonstring) {
        Some(_) => Some(convert_jsonstring_to_json(jsonstring)),
        None => None,
    }
}

/// The compact JSON text of a value.
pub fn convert_json_to_jsonstring(value: &Json) -> (r: String)
    ensures
        r@ == json_text(*value),
{
    json_to_text(value)
}

/// The reason a JSON text could not be turned into message bytes.
#[derive(Debug, PartialEq, Eq)]
pub enum JsonConversionError {
    /// The text is not JSON.
    NotJson,
}

/// The bytes that a JSON text is decoded from as a Protocol Buffers message: the text
/// is parsed and written again compactly, as UTF-8.
pub fn json_to_protobuf(json_str: &str) -> (r: Result<Vec<u8>, JsonConversionError>)
    ensures
        r matches Ok(b) ==> json_parse(json_str@) matches Some(v) && b@ == encode_utf8(
            json_text(v),
        ),
        r is Err <==> json_parse(json_str@) is None,
{
    match parse_json(json_str) {
        Some(v) => {
            let t = json_to_text(&v);
            Ok(convert_str_to_bytes(t.as_str()))
        },
        None => Err(JsonConversionError::NotJson),
    }
}

/// Whether two string slices hold the same characters.
pub fn same_text(a: &str, b: &str) -> (r: bool)
    ensures
        r == (a@ == b@),
{
    let x = chars_of(a);
    let y = chars_of(b);
    if x.len() != y.len() {
        return false;
    }
    let mut i: usize = 0;
    while i < x.len()
        invariant
            i <= x.len() == y.len(),
            x@ == a@,
            y@ == b@,
            forall|k: int| 0 <= k < i ==> x@[k] == y@[k],
        decreases x.len() - i,
    {
        if x[i] != y[i] {
            assert(x@[i as int] != y@[i as int]);
            return false;
        }
        i = i + 1;
    }
    assert(x@ =~= y@);
    true
}

/// `Value::get`: the member named `key` of an object value.
pub fn get<'a>(v: &'a Json, key: &str) -> (r: Option<&'a Json>)
    ensures
        r matches Some(x) ==> json_get(*v, key@) == Some(*x),
        r is None ==> json_get(*v, key@) is None,
{
    match v {
        Json::Object(members) => {
            let mut i: usize = 0;
            assert(members@.skip(0) =~= members@);
            while i < members.len()
                invariant
                    i <= members.len(),
                    json_get(*v, key@) == first_member(members@, key@),
                    first_member(members@, key@) == first_member(members@.skip(i as int), key@),
                decreases members.len() - i,
            {
                let ghost rest = members@.skip(i as int);
                assert(rest[0] == members@[i as int]);
                if same_text(members[i].0.as_str(), key) {
                    return Some(&members[i].1);
                }
                assert(rest.skip(1) =~= members@.skip(i + 1));
                i = i + 1;
            }
            None
        },
        _ => None,
    }
}

/// `Value::get` on an optional value.
pub fn get_opt<'a>(v: Option<&'a Json>, key: &str) -> (r: Option<&'a Json>)
    ensures
        r matches Some(x) ==> json_get_opt(deref_opt(v), key@) == Some(*x),
        r is None ==> json_get_opt(deref_opt(v), key@) is None,
{
    match v {
        Some(x) => get(x, key),
        None => None,
    }
}

/// `Value::as_str`: the text of a string value.
pub fn as_str(v: &Json) -> (r: Option<&str>)
    ensures
        r matches Some(s) ==> json_as_str(*v) == Some(s@),
        r is None ==> json_as_str(*v) is None,
{
    match v {
        Json::Str(s) => Some(s.as_str()),
        _ => None,
    }
}

/// `Value::as_str` on an optional value.
pub fn str_opt<'a>(v: Option<&'a Json>) -> (r: Option<&'a str>)
    ensures
        r matches Some(s) ==> json_str_opt(deref_opt(v)) == Some(s@),
        r is None ==> json_str_opt(deref_opt(v)) is None,
{
    match v {
        Some(x) => as_str(x),
        None => None,
    }
}

} // verus!
