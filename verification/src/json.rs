//! The JSON calls the library makes, through `serde_json`. Each result is
//! given a name; nothing here is proved, it is what the other modules rest on.
use vstd::prelude::*;

verus! {

/// `serde_json::Value`, a parsed JSON document, carried through opaquely.
#[verifier::external_type_specification]
#[verifier::external_body]
pub struct ExJsonValue(serde_json::Value);

/// What `serde_json::from_slice::<Value>` gives for these bytes (`None` for
/// an error).
pub uninterp spec fn json_parse_bytes(bytes: Seq<u8>) -> Option<serde_json::Value>;

/// What `serde_json::from_str::<Value>` gives for this text (`None` for an
/// error).
pub uninterp spec fn json_parse_text(text: Seq<char>) -> Option<serde_json::Value>;

/// What `Value::get` gives for a string key: the member of an object.
pub uninterp spec fn json_member(value: serde_json::Value, key: Seq<char>) -> Option<
    serde_json::Value,
>;

/// What `Value::as_str` gives: the text of a JSON string.
pub uninterp spec fn json_text(value: serde_json::Value) -> Option<Seq<char>>;

/// What `serde_json::to_string` gives for a string: its JSON literal.
pub uninterp spec fn json_quoted(text: Seq<char>) -> Seq<char>;

/// `serde_json::from_slice::<Value>`; the contract only names its result.
#[verifier::external_body]
pub(crate) fn parse_json_bytes(bytes: &[u8]) -> (r: Option<serde_json::Value>)
    ensures
        r == json_parse_bytes(bytes@),
{
    serde_json::from_slice::<serde_json::Value>(bytes).ok()
}

/// `serde_json::from_str::<Value>`; the contract only names its result.
#[verifier::external_body]
pub(crate) fn parse_json_text(text: &str) -> (r: Option<serde_json::Value>)
    ensures
        r == json_parse_text(text@),
{
    serde_json::from_str::<serde_json::Value>(text).ok()
}

/// `Value::get` with a string key; the contract only names its result.
#[verifier::external_body]
pub(crate) fn member<'a>(value: &'a serde_json::Value, key: &str) -> (r: Option<
    &'a serde_json::Value,
>)
    ensures
        match r {
            Some(m) => json_member(*value, key@) == Some(*m),
            None => json_member(*value, key@) is None,
        },
{
    value.get(key)
}

/// `Value::as_str`; the contract only names its result.
#[verifier::external_body]
pub(crate) fn text_of<'a>(value: &'a serde_json::Value) -> (r: Option<&'a str>)
    ensures
        match r {
            Some(t) => json_text(*value) == Some(t@),
            None => json_text(*value) is None,
        },
{
    value.as_str()
}

/// `serde_json::to_string` of a `str`, which never fails for a string (its
/// serializer writes into memory); the contract only names its result.
#[verifier::external_body]
pub(crate) fn quote(text: &str) -> (r: String)
    ensures
        r@ == json_quoted(text@),
{
    serde_json::to_string(text).unwrap_or_default()
}

} // verus!
