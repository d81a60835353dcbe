//! Reading and writing the members of a JSON object.

use vstd::prelude::*;
use crate::state::opt_view;

verus! {

/// `serde_json::Value`, a JSON value. What is known of one is what the
/// functions below read from it.
#[verifier::external_type_specification]
#[verifier::external_body]
pub struct ExJsonValue(serde_json::Value);

/// Whether a JSON value is an object.
pub uninterp spec fn json_is_object(v: serde_json::Value) -> bool;

/// The members of a JSON object, by their keys.
pub uninterp spec fn json_members(v: serde_json::Value) -> Map<Seq<char>, serde_json::Value>;

/// The text of a JSON value that is a string.
pub uninterp spec fn json_text(v: serde_json::Value) -> Option<Seq<char>>;

/// The number of a JSON value that is an integer from 0 to `u64::MAX`.
pub uninterp spec fn json_u64(v: serde_json::Value) -> Option<u64>;

/// `serde_json::Value::is_object`.
#[verifier::external_body]
pub(crate) fn is_object(v: &serde_json::Value) -> (r: bool)
    ensures
        r == json_is_object(*v),
{
    v.is_object()
}

/// `serde_json::Value::get` with a string for its index: the member under
/// `key` where `v` is an object that has one, nothing otherwise.
#[verifier::external_body]
pub(crate) fn member<'a>(v: &'a serde_json::Value, key: &str) -> (r: Option<&'a serde_json::Value>)
    ensures
        match r {
            Some(m) => json_is_object(*v) && json_members(*v).contains_key(key@) && *m
                == json_members(*v)[key@],
            None => !(json_is_object(*v) && json_members(*v).contains_key(key@)),
        },
{
    v.get(key)
}

/// `serde_json::Value::as_str`, copied into a `String`.
#[verifier::external_body]
pub(crate) fn as_text(v: &serde_json::Value) -> (r: Option<String>)
    ensures
        opt_view(r) == json_text(*v),
{
    v.as_str().map(str::to_owned)
}

/// `serde_json::Value::as_u64`.
#[verifier::external_body]
pub(crate) fn as_u64(v: &serde_json::Value) -> (r: Option<u64>)
    ensures
        r == json_u64(*v),
{
    v.as_u64()
}

/// `serde_json::Value::String`: the JSON string with the text `s`.
#[verifier::external_body]
pub(crate) fn text_value(s: String) -> (r: serde_json::Value)
    ensures
        json_text(r) == Some(s@),
{
    serde_json::Value::String(s)
}

/// `serde_json::Value::Number` of `serde_json::Number::from`: the JSON
/// number `n`.
#[verifier::external_body]
pub(crate) fn u64_value(n: u64) -> (r: serde_json::Value)
    ensures
        json_u64(r) == Some(n),
{
    serde_json::Value::Number(serde_json::Number::from(n))
}

/// `serde_json::Map::insert` on the object `v`: `m` becomes the member
/// under `key`, in place of one that was there; the other members stay.
#[verifier::external_body]
pub(crate) fn set_member(v: &mut serde_json::Value, key: String, m: serde_json::Value)
    requires
        json_is_object(*old(v)),
    ensures
        json_is_object(*final(v)),
        json_members(*final(v)) == json_members(*old(v)).insert(key@, m),
{
    if let Some(object) = v.as_object_mut() {
        object.insert(key, m);
    }
}

/// The text of the member under `key`, where `v` is an object that has
/// such a member and the member is a string.
pub open spec fn text_member(v: serde_json::Value, key: Seq<char>) -> Option<Seq<char>> {
    if json_is_object(v) && json_members(v).contains_key(key) {
        json_text(json_members(v)[key])
    } else {
        None
    }
}

/// The number of the member under `key`, where `v` is an object that has
/// such a member and the member is an integer from 0 to `u64::MAX`.
pub open spec fn u64_member(v: serde_json::Value, key: Seq<char>) -> Option<u64> {
    if json_is_object(v) && json_members(v).contains_key(key) {
        json_u64(json_members(v)[key])
    } else {
        None
    }
}

/// The text of the member under `key`, if `v` has one that is a string.
pub fn text_of_member(v: &serde_json::Value, key: &str) -> (r: Option<String>)
    ensures
        opt_view(r) == text_member(*v, key@),
{
    match member(v, key) {
        Some(m) => as_text(m),
        None => None,
    }
}

/// The number of the member under `key`, if `v` has one that is such a number.
pub fn u64_of_member(v: &serde_json::Value, key: &str) -> (r: Option<u64>)
    ensures
        r == u64_member(*v, key@),
{
    match member(v, key) {
        Some(m) => as_u64(m),
        None => None,
    }
}

/// Puts the text `text` under `key` in the object `v`.
pub fn set_text_member(v: &mut serde_json::Value, key: &str, text: String)
    requires
        json_is_object(*old(v)),
    ensures
        json_is_object(*final(v)),
        json_members(*final(v)).dom() == json_members(*old(v)).dom().insert(key@),
        text_member(*final(v), key@) == Some(text@),
        forall|k: Seq<char>|
            k != key@ && json_members(*old(v)).contains_key(k) ==> #[trigger] json_members(
                *final(v),
            )[k] == json_members(*old(v))[k],
{
    set_member(v, key.to_string(), text_value(text));
}

/// Puts the number `n` under `key` in the object `v`.
pub fn set_u64_member(v: &mut serde_json::Value, key: &str, n: u64)
    requires
        json_is_object(*old(v)),
    ensures
        json_is_object(*final(v)),
        json_members(*final(v)).dom() == json_members(*old(v)).dom().insert(key@),
        u64_member(*final(v), key@) == Some(n),
        forall|k: Seq<char>|
            k != key@ && json_members(*old(v)).contains_key(k) ==> #[trigger] json_members(
                *final(v),
            )[k] == json_members(*old(v))[k],
{
    set_member(v, key.to_string(), u64_value(n));
}

} // verus!
