//! JSON values and identifiers.
//!
//! Structured values (state entries, tool parameters, tool results, tool
//! schemas) are `serde_json::Value`, and identifiers are `uuid::Uuid`. Both
//! are opaque here: the library carries them through and asks the crates that
//! own them for everything it needs to know of them. Every item in this file
//! is believed, not proved.

use vstd::prelude::*;

verus! {

/// `serde_json::Value`, carried through as an opaque value.
#[verifier::external_type_specification]
#[verifier::external_body]
pub struct ExJsonValue(serde_json::Value);

/// `serde_json::Error`, carried from a failed parse or a failed
/// serialisation to the function that turns it into text.
#[verifier::external_type_specification]
#[verifier::external_body]
pub struct ExJsonError(serde_json::Error);

/// `uuid::Uuid`, carried through as an opaque value.
#[verifier::external_type_specification]
#[verifier::external_body]
pub struct ExUuid(uuid::Uuid);

/// What `serde_json::Value::as_bool` returns for a value.
pub uninterp spec fn json_as_bool(v: serde_json::Value) -> Option<bool>;

/// What `serde_json::Value::is_null` returns for a value.
pub uninterp spec fn json_is_null(v: serde_json::Value) -> bool;

/// The value that `serde_json::Value::Bool` makes of a boolean.
pub uninterp spec fn json_bool(b: bool) -> serde_json::Value;

/// The value that `serde_json::Value::String` makes of a text.
pub uninterp spec fn json_string(s: Seq<char>) -> serde_json::Value;

/// What `serde_json::from_str` reads from a text as a `Value`, or, where the
/// text is not JSON, what its error displays as.
pub uninterp spec fn json_parse(text: Seq<char>) -> Result<serde_json::Value, Seq<char>>;

/// What `serde_json::to_string` writes for a value, or, where it fails, what
/// its error displays as.
pub uninterp spec fn json_text(v: serde_json::Value) -> Result<Seq<char>, Seq<char>>;

/// What a `serde_json::Error` displays as.
pub uninterp spec fn json_error_text(e: serde_json::Error) -> Seq<char>;

/// The compact JSON text of the object with one member: under the key
/// `key`, the text `value` as a JSON string.
pub uninterp spec fn json_object_text(key: Seq<char>, value: Seq<char>) -> Seq<char>;

/// The hyphenated lower-case text that `uuid::Uuid` displays as.
pub uninterp spec fn uuid_text(u: uuid::Uuid) -> Seq<char>;

/// Calls `serde_json::Value::as_bool`: the boolean held by a JSON boolean,
/// `None` for every other kind of value. The result is named, not described.
#[verifier::external_body]
pub(crate) fn value_as_bool(v: &serde_json::Value) -> (r: Option<bool>)
    ensures
        r == json_as_bool(*v),
{
    v.as_bool()
}

/// Calls `Clone::clone` of `serde_json::Value`, which copies the value.
#[verifier::external_body]
pub(crate) fn value_clone(v: &serde_json::Value) -> (r: serde_json::Value)
    ensures
        r == *v,
{
    v.clone()
}

/// Builds `serde_json::Value::Bool`. `as_bool` matches on that variant and
/// hands the boolean back; `is_null` matches on `Null` alone.
#[verifier::external_body]
pub(crate) fn value_from_bool(b: bool) -> (r: serde_json::Value)
    ensures
        r == json_bool(b),
        json_as_bool(r) == Some(b),
        !json_is_null(r),
{
    serde_json::Value::Bool(b)
}

/// Builds `serde_json::Value::String`, which is neither a boolean to
/// `as_bool` nor the null value to `is_null`.
#[verifier::external_body]
pub(crate) fn value_from_text(s: String) -> (r: serde_json::Value)
    ensures
        r == json_string(s@),
        json_as_bool(r) is None,
        !json_is_null(r),
{
    serde_json::Value::String(s)
}

/// Builds `serde_json::Value::Null`, the one value of which `is_null` holds;
/// `as_bool` gives `None` for it.
#[verifier::external_body]
pub(crate) fn value_null() -> (r: serde_json::Value)
    ensures
        json_is_null(r),
        json_as_bool(r) is None,
{
    serde_json::Value::Null
}

/// Calls `serde_json::from_str` for a `Value`. Whether the text parses, to
/// what, and with which error where it does not, is a function of the text
/// alone; the contract names it.
#[verifier::external_body]
pub(crate) fn parse_value(text: &str) -> (r: Result<serde_json::Value, serde_json::Error>)
    ensures
        match r {
            Ok(v) => json_parse(text@) == Ok::<serde_json::Value, Seq<char>>(v),
            Err(e) => json_parse(text@) == Err::<serde_json::Value, Seq<char>>(json_error_text(e)),
        },
{
    serde_json::from_str::<serde_json::Value>(text)
}

/// Calls `serde_json::to_string` on a `Value`. The contract names the
/// outcome and promises no success.
#[verifier::external_body]
pub(crate) fn value_to_text(v: &serde_json::Value) -> (r: Result<String, serde_json::Error>)
    ensures
        match r {
            Ok(s) => json_text(*v) == Ok::<Seq<char>, Seq<char>>(s@),
            Err(e) => json_text(*v) == Err::<Seq<char>, Seq<char>>(json_error_text(e)),
        },
{
    serde_json::to_string(v)
}

/// Displays a `serde_json::Error` as text. The contract names the text.
#[verifier::external_body]
pub(crate) fn json_error_message(e: &serde_json::Error) -> (r: String)
    ensures
        r@ == json_error_text(*e),
{
    e.to_string()
}

/// Puts the value, as `serde_json::Value::String`, under the key of an
/// empty `serde_json::Map`, and displays the object, which for a `Value` is
/// its compact JSON text.
#[verifier::external_body]
pub(crate) fn object_text(key: &str, value: &str) -> (r: String)
    ensures
        r@ == json_object_text(key@, value@),
{
    let mut members = serde_json::Map::new();
    members.insert(String::from(key), serde_json::Value::String(String::from(value)));
    serde_json::Value::Object(members).to_string()
}

/// Calls `uuid::Uuid::new_v4`, which draws a random identifier: nothing is
/// claimed of it.
#[verifier::external_body]
pub(crate) fn fresh_uuid() -> (r: uuid::Uuid) {
    uuid::Uuid::new_v4()
}

/// Displays a `uuid::Uuid`, which writes its hyphenated lower-case form: 32
/// digits and 4 hyphens.
#[verifier::external_body]
pub(crate) fn uuid_to_text(u: &uuid::Uuid) -> (r: String)
    ensures
        r@ == uuid_text(*u),
        r@.len() == 36,
{
    u.to_string()
}

} // verus!
