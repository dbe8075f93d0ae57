//! The boundary to `serde_json`: the parser and the two accessors that the
//! descriptor lookup uses. What they return is named here and believed, not
//! proved; the lookup built on them is verified in `locator`.

use vstd::prelude::*;

verus! {

/// A parsed JSON document of `serde_json`. Nothing inside it is visible to
/// the verifier; it is only handed from one accessor to the next.
#[verifier::external_type_specification]
#[verifier::external_body]
pub struct ExJsonValue(serde_json::Value);

/// The document that `serde_json::from_str` builds from a text, or `None`
/// where it rejects the text.
pub uninterp spec fn json_document(text: Seq<char>) -> Option<serde_json::Value>;

/// The member that `serde_json::Value::get` finds under a string key, or
/// `None` where the value is no object or has no such key.
pub uninterp spec fn json_member(value: serde_json::Value, key: Seq<char>) -> Option<
    serde_json::Value,
>;

/// The number that `serde_json::Value::as_u64` reads from a value, or `None`
/// where the value is no integer from zero to `u64::MAX`.
pub uninterp spec fn json_unsigned(value: serde_json::Value) -> Option<u64>;

/// Calls `serde_json::from_str` for a `serde_json::Value` and drops the
/// parser's error. Believed: the outcome depends on the text alone, so it is
/// the document named by [`json_document`].
#[verifier::external_body]
pub(crate) fn parse_document(text: &str) -> (document: Option<serde_json::Value>)
    ensures
        document == json_document(text@),
{
    serde_json::from_str(text).ok()
}

/// Calls `serde_json::Value::get` with a string key. Believed: the outcome
/// depends on the value and the key alone, so it is the member named by
/// [`json_member`].
#[verifier::external_body]
pub(crate) fn get_member<'a>(value: &'a serde_json::Value, key: &str) -> (member: Option<
    &'a serde_json::Value,
>)
    ensures
        match member {
            Some(found) => json_member(*value, key@) == Some(*found),
            None => json_member(*value, key@) is None,
        },
{
    value.get(key)
}

/// Calls `serde_json::Value::as_u64`. Believed: the outcome depends on the
/// value alone, so it is the number named by [`json_unsigned`].
#[verifier::external_body]
pub(crate) fn as_unsigned(value: &serde_json::Value) -> (number: Option<u64>)
    ensures
        number == json_unsigned(*value),
{
    value.as_u64()
}

} // verus!
