//! The JSON values of `serde_json`, seen through a mathematical model.
//!
//! Nothing in this file is proved: each function states what the function of
//! `serde_json` that it calls is documented to do. The rest of the crate is
//! verified against these statements.

use vstd::prelude::*;

verus! {

#[verifier::external_type_specification]
#[verifier::external_body]
pub struct ExJsonValue(serde_json::Value);

#[verifier::external_type_specification]
#[verifier::external_body]
pub struct ExJsonError(serde_json::Error);

/// What a JSON value is, as mathematics.
///
/// A number is an integer where `serde_json` holds it as one (from `i64::MIN`
/// to `u64::MAX`), and otherwise the bit pattern of its double.
pub ghost enum Json {
    Null,
    Bool(bool),
    Integer(int),
    Float(u64),
    Text(Seq<char>),
    Array(Seq<Json>),
    Object(Map<Seq<char>, Json>),
}

impl Json {
    /// The member under `key`, where `self` is an object that has one.
    pub open spec fn member(self, key: Seq<char>) -> Option<Json> {
        match self {
            Json::Object(members) => if members.contains_key(key) {
                Some(members[key])
            } else {
                None
            },
            _ => None,
        }
    }

    /// The members of an object; no members for any other value.
    pub open spec fn members(self) -> Map<Seq<char>, Json> {
        match self {
            Json::Object(members) => members,
            _ => Map::empty(),
        }
    }

    /// The text of a string value.
    pub open spec fn text(self) -> Option<Seq<char>> {
        match self {
            Json::Text(s) => Some(s),
            _ => None,
        }
    }

    /// The value as an unsigned 64-bit number, where it is a non-negative integer.
    pub open spec fn unsigned(self) -> Option<u64> {
        match self {
            Json::Integer(n) => if 0 <= n <= u64::MAX {
                Some(n as u64)
            } else {
                None
            },
            _ => None,
        }
    }
}

/// The model of a `serde_json::Value`: the value it stands for.
pub uninterp spec fn json_model(v: serde_json::Value) -> Json;

/// What `serde_json::from_str` makes of a text: the value it reads, or `None`
/// where it reports an error.
pub uninterp spec fn parsed_json(text: Seq<char>) -> Option<Json>;

/// The text that `serde_json::to_string_pretty` writes for a value.
pub uninterp spec fn pretty_text(value: Json) -> Seq<char>;

/// `serde_json::from_str` at type `Value`. The result is the value that the
/// parser reads from `text`, and `None` where the parser rejects the text.
#[verifier::external_body]
pub(crate) fn parse(text: &str) -> (r: Option<serde_json::Value>)
    ensures
        match r {
            Some(v) => parsed_json(text@) == Some(json_model(v)),
            None => parsed_json(text@) is None,
        },
{
    match serde_json::from_str::<serde_json::Value>(text) {
        Ok(v) => Some(v),
        Err(_) => None,
    }
}

/// `serde_json::to_string_pretty` on a `Value`. It succeeds, and the text is
/// the pretty form of the value. The function fails where a type refuses to
/// be written or a map has keys that are no strings; a `Value` never refuses,
/// the keys of its objects are strings, and the text goes into memory.
#[verifier::external_body]
pub(crate) fn render_pretty(v: &serde_json::Value) -> (r: Result<String, serde_json::Error>)
    ensures
        r is Ok,
        r matches Ok(s) ==> s@ == pretty_text(json_model(*v)),
{
    serde_json::to_string_pretty(v)
}

/// The `Display` text of a `serde_json::Error`. Nothing is claimed of it.
#[verifier::external_body]
pub(crate) fn error_text(e: &serde_json::Error) -> String {
    e.to_string()
}

/// `serde_json::Value::get` with a string index: the member of an object
/// under `key`; `None` where the value is no object or has no such member.
#[verifier::external_body]
pub(crate) fn member<'a>(v: &'a serde_json::Value, key: &str) -> (r: Option<&'a serde_json::Value>)
    ensures
        match r {
            Some(m) => json_model(*v).member(key@) == Some(json_model(*m)),
            None => json_model(*v).member(key@) is None,
        },
{
    v.get(key)
}

/// `serde_json::Value::as_u64`: the number, where the value is an integer
/// that is not negative; `None` for every other value.
#[verifier::external_body]
pub(crate) fn unsigned_of(v: &serde_json::Value) -> (r: Option<u64>)
    ensures
        match r {
            Some(n) => json_model(*v) == Json::Integer(n as int),
            None => !(json_model(*v) matches Json::Integer(n) && 0 <= n),
        },
{
    v.as_u64()
}

/// `serde_json::Value::as_str`: the text of a string value; `None` for every
/// other value.
#[verifier::external_body]
pub(crate) fn text_of(v: &serde_json::Value) -> (r: Option<String>)
    ensures
        match r {
            Some(s) => json_model(*v) == Json::Text(s@),
            None => !(json_model(*v) is Text),
        },
{
    match v.as_str() {
        Some(s) => Some(s.to_owned()),
        None => None,
    }
}

/// `serde_json::Value::is_object`.
#[verifier::external_body]
pub(crate) fn is_object(v: &serde_json::Value) -> (r: bool)
    ensures
        r == (json_model(*v) is Object),
{
    v.is_object()
}

/// `serde_json::Map::new` inside `Value::Object`: the object without members.
#[verifier::external_body]
pub(crate) fn empty_object() -> (r: serde_json::Value)
    ensures
        json_model(r) == Json::Object(Map::empty()),
{
    serde_json::Value::Object(serde_json::Map::new())
}

/// Assignment through `serde_json::Value`'s `IndexMut` with a string index, on
/// an object: the member under `key` becomes the string `text`, whether or
/// not there was one, and every other member stays. On a value that is
/// neither an object nor null the index panics, so objects only are admitted.
#[verifier::external_body]
pub(crate) fn set_text(v: &mut serde_json::Value, key: &str, text: &str)
    requires
        json_model(*old(v)) is Object,
    ensures
        json_model(*final(v)) == Json::Object(
            json_model(*old(v)).members().insert(key@, Json::Text(text@)),
        ),
{
    v[key] = serde_json::Value::String(text.to_string());
}

} // verus!
