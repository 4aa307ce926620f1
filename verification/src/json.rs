//! JSON documents, read through `serde_json`.
use vstd::prelude::*;

verus! {

/// A JSON number, as `serde_json` keeps it.
pub enum JsonNumber {
    /// An integer from zero to `u64::MAX`.
    PosInt(u64),
    /// An integer from `i64::MIN` to -1.
    NegInt(i64),
    /// Any other number, by its IEEE 754 bits.
    Float(u64),
}

/// A JSON document.
#[verifier::ext_equal]
pub enum Json {
    Null,
    Bool(bool),
    Number(JsonNumber),
    Text(Seq<char>),
    Array(Seq<Json>),
    Object(Map<Seq<char>, Json>),
}

/// The document that a `serde_json` value holds.
pub uninterp spec fn json_of(v: serde_json::Value) -> Json;

/// What `serde_json::from_str` makes of a text: a document, or the message of the
/// error.
pub uninterp spec fn json_parsed(text: Seq<char>) -> Result<Json, Seq<char>>;

/// The compact text that `serde_json` writes for a document.
pub uninterp spec fn json_text(j: Json) -> Seq<char>;

/// `serde_json::Value`, a parsed document.
#[verifier::external_type_specification]
#[verifier::external_body]
pub struct ExValue(serde_json::Value);

/// `serde_json::from_str::<serde_json::Value>`, with the error given by its message.
/// The contract says that the outcome depends on the text alone; the grammar is left
/// unsaid.
#[verifier::external_body]
pub(crate) fn parse_json(text: &str) -> (r: Result<serde_json::Value, String>)
    ensures
        match r {
            Ok(v) => json_parsed(text@) == Ok::<Json, Seq<char>>(json_of(v)),
            Err(e) => json_parsed(text@) == Err::<Json, Seq<char>>(e@),
        },
{
    serde_json::from_str::<serde_json::Value>(text).map_err(|e| e.to_string())
}

/// `serde_json::Value::get` with a text for the index: the member of that name of an
/// object, and nothing for any other document.
#[verifier::external_body]
pub(crate) fn json_get<'a>(v: &'a serde_json::Value, key: &str) -> (r: Option<&'a serde_json::Value>)
    ensures
        match r {
            Some(x) => member(json_of(*v), key@) == Some(json_of(*x)),
            None => member(json_of(*v), key@) is None,
        },
{
    v.get(key)
}

/// `serde_json::Value::to_string`, the compact form. The contract says that it
/// depends on the document alone.
#[verifier::external_body]
pub(crate) fn json_to_text(v: &serde_json::Value) -> (r: String)
    ensures
        r@ == json_text(json_of(*v)),
{
    v.to_string()
}

/// `serde_json::Value::as_array`: the elements of an array, and nothing for any
/// other document.
pub assume_specification[ serde_json::Value::as_array ](v: &serde_json::Value) -> (r: Option<
    &Vec<serde_json::Value>,
>)
    ensures
        match r {
            Some(a) => json_of(*v) == Json::Array(a@.map_values(|x: serde_json::Value| json_of(x))),
            None => !(json_of(*v) is Array),
        },
;

/// `serde_json::Value::as_str`: the text of a string, and nothing for any other
/// document.
pub assume_specification[ serde_json::Value::as_str ](v: &serde_json::Value) -> (r: Option<&str>)
    ensures
        match r {
            Some(s) => json_of(*v) == Json::Text(s@),
            None => !(json_of(*v) is Text),
        },
;

/// `serde_json::Value::as_u64`: an integer that fits `u64`, and nothing for any other
/// document.
pub assume_specification[ serde_json::Value::as_u64 ](v: &serde_json::Value) -> (r: Option<u64>)
    ensures
        r == as_unsigned(json_of(*v)),
;

/// `serde_json::Value::as_i64`: an integer that fits `i64`, and nothing for any other
/// document.
pub assume_specification[ serde_json::Value::as_i64 ](v: &serde_json::Value) -> (r: Option<i64>)
    ensures
        r == as_signed(json_of(*v)),
;

/// The member of an object.
pub open spec fn member(j: Json, key: Seq<char>) -> Option<Json> {
    match j {
        Json::Object(m) => if m.contains_key(key) {
            Some(m[key])
        } else {
            None
        },
        _ => None,
    }
}

pub open spec fn as_text(j: Json) -> Option<Seq<char>> {
    match j {
        Json::Text(s) => Some(s),
        _ => None,
    }
}

pub open spec fn as_unsigned(j: Json) -> Option<u64> {
    match j {
        Json::Number(JsonNumber::PosInt(n)) => Some(n),
        _ => None,
    }
}

pub open spec fn as_signed(j: Json) -> Option<i64> {
    match j {
        Json::Number(JsonNumber::PosInt(n)) => if n <= i64::MAX {
            Some(n as i64)
        } else {
            None
        },
        Json::Number(JsonNumber::NegInt(n)) => Some(n),
        _ => None,
    }
}

/// The text of a member, where the document is an object with such a member.
pub open spec fn text_member(j: Json, key: Seq<char>) -> Option<Seq<char>> {
    match member(j, key) {
        Some(x) => as_text(x),
        None => None,
    }
}

pub fn get_text<'a>(v: &'a serde_json::Value, key: &str) -> (r: Option<&'a str>)
    ensures
        match r {
            Some(s) => text_member(json_of(*v), key@) == Some(s@),
            None => text_member(json_of(*v), key@) is None,
        },
{
    match json_get(v, key) {
        Some(x) => x.as_str(),
        None => None,
    }
}

// ---------------------------------------------------------------------------
// Laws
// ---------------------------------------------------------------------------

/// A member of an object is what stands under its key; nothing else has members.
pub proof fn law_members(m: Map<Seq<char>, Json>, key: Seq<char>, value: Json, j: Json)
    ensures
        member(Json::Object(m.insert(key, value)), key) == Some(value),
        !m.contains_key(key) ==> member(Json::Object(m), key) is None,
        !(j is Object) ==> member(j, key) is None,
        value matches Json::Text(s) ==> text_member(Json::Object(m.insert(key, value)), key) == Some(s),
        !(value is Text) ==> text_member(Json::Object(m.insert(key, value)), key) is None,
        !m.contains_key(key) ==> text_member(Json::Object(m), key) is None,
{
}

/// A whole number is read as the number that it is, where it fits; any other value is no
/// whole number.
pub proof fn law_whole_numbers(j: Json)
    ensures
        match j {
            Json::Number(JsonNumber::PosInt(n)) => as_unsigned(j) == Some(n) && (match as_signed(j) {
                Some(k) => k == n,
                None => n > 0x7fff_ffff_ffff_ffff,
            }),
            Json::Number(JsonNumber::NegInt(n)) => as_unsigned(j) is None && as_signed(j) == Some(n),
            _ => as_unsigned(j) is None && as_signed(j) is None,
        },
        as_text(j) == (match j {
            Json::Text(s) => Some(s),
            _ => None,
        }),
{
}

} // verus!
