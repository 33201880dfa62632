//! Reading JSON text.

use vstd::prelude::*;

verus! {

#[verifier::external_type_specification]
#[verifier::external_body]
pub struct ExValue(serde_json::Value);

#[verifier::external_type_specification]
#[verifier::external_body]
pub struct ExError(serde_json::Error);

/// The names of the members of a JSON value, where it is an object.
pub uninterp spec fn members_of(value: serde_json::Value) -> Option<Set<Seq<char>>>;

/// What reading a text as JSON gives: `None` where it is not JSON, else the names of the members
/// of the value where that is an object.
pub uninterp spec fn json_members(text: Seq<char>) -> Option<Option<Set<Seq<char>>>>;

/// Calls `serde_json::from_slice` on the bytes of the text, for a `serde_json::Value`. Trusted:
/// whether it succeeds, and which members the value has, depend on the text alone.
#[verifier::external_body]
pub(crate) fn parse_json(text: &str) -> (r: Result<serde_json::Value, serde_json::Error>)
    ensures
        r is Ok <==> json_members(text@) is Some,
        r matches Ok(value) ==> json_members(text@) == Some(members_of(value)),
{
    serde_json::from_slice(text.as_bytes())
}

/// Calls `serde_json::Value::get` with a string. Trusted: there is a result exactly when the value
/// is an object with a member of that name.
#[verifier::external_body]
pub(crate) fn member<'a>(value: &'a serde_json::Value, name: &str) -> (r: Option<
    &'a serde_json::Value,
>)
    ensures
        r is Some <==> (members_of(*value) matches Some(names) && names.contains(name@)),
{
    value.get(name)
}

} // verus!
