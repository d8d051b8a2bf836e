//! The boundary to the JSON codec.
//!
//! Payloads travel through this library as JSON text. Where the library has to
//! look inside a text, it asks `serde_json`, through the functions of this
//! module. Their contracts are taken on trust: each one gives the codec's
//! answer a name, and the rest of the library reasons over those names.

use serde_json::value::RawValue;
use std::collections::BTreeMap;
use vstd::prelude::*;

verus! {

/// A member of a JSON object: its name, decoded, and the text of its value as
/// the peer wrote it.
#[derive(Debug)]
pub struct Member {
    pub name: String,
    pub value: String,
}

impl View for Member {
    type V = (Seq<char>, Seq<char>);

    open spec fn view(&self) -> (Seq<char>, Seq<char>) {
        (self.name@, self.value@)
    }
}

/// The views of a vector of members, in order.
pub open spec fn member_views(v: Seq<Member>) -> Seq<(Seq<char>, Seq<char>)> {
    Seq::new(v.len(), |i: int| v[i]@)
}

/// The members of the JSON object that a text holds, or `None` where the
/// text is not one JSON object with nothing but white space around it. The
/// members stand in ascending order of their names; of members with the same
/// name only the last is kept. Each value is the text that stood for it,
/// without the white space around it.
pub uninterp spec fn json_object(text: Seq<char>) -> Option<Seq<(Seq<char>, Seq<char>)>>;

/// The elements of the JSON array that a text holds, in their order, or
/// `None` where the text is not one JSON array with nothing but white space
/// around it. Each element is the text that stood for it, without the white
/// space around it.
pub uninterp spec fn json_array(text: Seq<char>) -> Option<Seq<Seq<char>>>;

/// The string that a text holds as a JSON string, or `None` where it holds
/// something else.
pub uninterp spec fn json_string(text: Seq<char>) -> Option<Seq<char>>;

/// The number that a text holds, where it holds one JSON number that is
/// whole, is written without fraction or exponent, and lies within `u64`;
/// else `None`.
pub uninterp spec fn json_u64(text: Seq<char>) -> Option<u64>;

/// The number that a text holds, where it holds one JSON number that is
/// whole, is written without fraction or exponent, and lies within `i32`;
/// else `None`.
pub uninterp spec fn json_i32(text: Seq<char>) -> Option<i32>;

/// Whether the codec reads a text as one JSON number: whole or with a
/// fraction or an exponent, of either sign. A number too large for the
/// codec's number types is none to it.
pub uninterp spec fn json_number(text: Seq<char>) -> bool;

/// The JSON string literal for a string: the string between double quotes,
/// with the characters escaped that JSON wants escaped. The codec gives one
/// for every string, which `quote` states.
pub uninterp spec fn json_quoted(s: Seq<char>) -> Option<Seq<char>>;

/// Calls `serde_json::from_str` for a `BTreeMap` from `String` to boxed
/// `RawValue`, and hands out its entries in the order of the map. Trusted:
/// the result is what `json_object` names.
#[verifier::external_body]
pub(crate) fn object_members(text: &str) -> (r: Option<Vec<Member>>)
    ensures
        match r {
            Some(v) => json_object(text@) == Some(member_views(v@)),
            None => json_object(text@) is None,
        },
{
    let parsed: Result<BTreeMap<String, Box<RawValue>>, serde_json::Error> =
        serde_json::from_str(text);
    match parsed {
        Ok(map) => Some(
            map.into_iter().map(|(name, value)| Member { name, value: value.get().to_string() })
                .collect(),
        ),
        Err(_) => None,
    }
}

/// Calls `serde_json::from_str` for a `Vec` of boxed `RawValue`. Trusted:
/// the result is what `json_array` names.
#[verifier::external_body]
pub(crate) fn array_elements(text: &str) -> (r: Option<Vec<String>>)
    ensures
        match r {
            Some(v) => json_array(text@) == Some(crate::text::texts(v@)),
            None => json_array(text@) is None,
        },
{
    let parsed: Result<Vec<Box<RawValue>>, serde_json::Error> = serde_json::from_str(text);
    match parsed {
        Ok(items) => Some(items.into_iter().map(|item| item.get().to_string()).collect()),
        Err(_) => None,
    }
}

/// Calls `serde_json::from_str` for a `String`. Trusted: the result is what
/// `json_string` names.
#[verifier::external_body]
pub(crate) fn string_value(text: &str) -> (r: Option<String>)
    ensures
        match r {
            Some(s) => json_string(text@) == Some(s@),
            None => json_string(text@) is None,
        },
{
    let parsed: Result<String, serde_json::Error> = serde_json::from_str(text);
    parsed.ok()
}

/// Calls `serde_json::from_str` for a `u64`. Trusted: the result is what
/// `json_u64` names.
#[verifier::external_body]
pub(crate) fn u64_value(text: &str) -> (r: Option<u64>)
    ensures
        r == json_u64(text@),
{
    let parsed: Result<u64, serde_json::Error> = serde_json::from_str(text);
    parsed.ok()
}

/// Calls `serde_json::from_str` for an `i32`. Trusted: the result is what
/// `json_i32` names.
#[verifier::external_body]
pub(crate) fn i32_value(text: &str) -> (r: Option<i32>)
    ensures
        r == json_i32(text@),
{
    let parsed: Result<i32, serde_json::Error> = serde_json::from_str(text);
    parsed.ok()
}

/// Calls `serde_json::from_str` for a `serde_json::Number`. Trusted: it
/// succeeds exactly where `json_number` holds.
#[verifier::external_body]
pub(crate) fn is_number(text: &str) -> (r: bool)
    ensures
        r == json_number(text@),
{
    let parsed: Result<serde_json::Number, serde_json::Error> = serde_json::from_str(text);
    parsed.is_ok()
}

/// Calls `serde_json::to_string` on a string slice. Trusted: the call
/// succeeds, for a string slice is written to memory and nothing in that can
/// refuse, and the result is what `json_quoted` names. The `Result` is the
/// codec's; its error would come as the codec's own words.
#[verifier::external_body]
pub(crate) fn quote(s: &str) -> (r: Result<String, String>)
    ensures
        r is Ok,
        match r {
            Ok(t) => json_quoted(s@) == Some(t@),
            Err(_) => json_quoted(s@) is None,
        },
{
    match serde_json::to_string(s) {
        Ok(t) => Ok(t),
        Err(e) => Err(e.to_string()),
    }
}

} // verus!
