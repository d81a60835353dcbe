//! Fresh identifiers for sessions, users, files and transfers.

use vstd::prelude::*;
use crate::text::{chars_of, string_of_range};

verus! {

pub open spec fn is_lower_hex(c: char) -> bool {
    ('0' <= c <= '9') || ('a' <= c <= 'f')
}

/// Thirty-two lowercase hexadecimal digits.
pub open spec fn is_simple_uuid(s: Seq<char>) -> bool {
    &&& s.len() == 32
    &&& forall|i: int| 0 <= i < 32 ==> is_lower_hex(#[trigger] s[i])
}

/// Thirty-two lowercase hexadecimal digits in groups of 8, 4, 4, 4 and 12,
/// with a hyphen between two groups.
pub open spec fn is_hyphenated_uuid(s: Seq<char>) -> bool {
    &&& s.len() == 36
    &&& forall|i: int|
        0 <= i < 36 ==> if i == 8 || i == 13 || i == 18 || i == 23 {
            #[trigger] s[i] == '-'
        } else {
            is_lower_hex(s[i])
        }
}

/// `uuid::Uuid::new_v4`, written out by its `Display`: a random UUID in the
/// hyphenated lowercase form. Which one comes is left open.
#[verifier::external_body]
pub(crate) fn new_uuid() -> (r: String)
    ensures
        is_hyphenated_uuid(r@),
{
    uuid::Uuid::new_v4().to_string()
}

/// `uuid::Uuid::new_v4`, written out through `Uuid::simple`: a random UUID
/// as lowercase hexadecimal digits without hyphens. Which one comes is left open.
#[verifier::external_body]
pub(crate) fn new_simple_uuid() -> (r: String)
    ensures
        is_simple_uuid(r@),
{
    uuid::Uuid::new_v4().simple().to_string()
}

/// A display name for a new user: six hexadecimal digits.
pub open spec fn is_initial_name(s: Seq<char>) -> bool {
    &&& s.len() == 6
    &&& forall|i: int| 0 <= i < 6 ==> is_lower_hex(#[trigger] s[i])
}

/// The display name that a new user gets from the digits `simple`: the first six of them.
pub fn initial_name(simple: &str) -> (r: String)
    requires
        simple@.len() >= 6,
    ensures
        r@ == simple@.take(6),
{
    let v = chars_of(simple);
    string_of_range(&v, 0, 6)
}

/// An identifier that no one has yet.
pub fn fresh_id() -> (r: String)
    ensures
        is_hyphenated_uuid(r@),
{
    new_uuid()
}

/// A display name for a new user.
pub fn fresh_name() -> (r: String)
    ensures
        is_initial_name(r@),
{
    let simple = new_simple_uuid();
    let name = initial_name(simple.as_str());
    assert forall|i: int| 0 <= i < 6 implies is_lower_hex(#[trigger] name@[i]) by {
        assert(name@[i] == simple@[i]);
    }
    name
}

} // verus!
