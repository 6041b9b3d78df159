//! What the library asks of `serde_json`: whether a body is JSON, which
//! members a JSON object has, and errors that stand for a field that is
//! missing or not known.
//!
//! Nothing in this file is proved. Each function makes one call into
//! `serde_json` and hands the result on as plain values; what the call
//! returns is a function of the body alone and has a name here.

use vstd::prelude::*;

verus! {

/// `serde_json::Error`: held as the cause of a decoding or encoding error
/// and shown through its `Display`; nothing is known of what it holds.
#[verifier::external_type_specification]
#[verifier::external_body]
pub struct ExJsonError(serde_json::Error);

/// `serde_json` reads the body as one JSON value.
pub uninterp spec fn is_json_text(body: Seq<u8>) -> bool;

/// The members of the JSON object that `serde_json` reads the body as, each
/// a name and the JSON text that `serde_json` writes for the value; nothing
/// where the body is no JSON object.
pub uninterp spec fn json_members(body: Seq<u8>) -> Option<Seq<(Seq<char>, Seq<u8>)>>;

/// The members of the JSON object that `serde_json` reads the body as, each
/// a name and a text; nothing where the body is no JSON object or a member
/// of it is no text.
pub uninterp spec fn json_text_members(body: Seq<u8>) -> Option<Seq<(Seq<char>, Seq<char>)>>;

/// The names and texts that a list of members holds.
pub open spec fn members_view(members: Seq<(String, String)>) -> Seq<(Seq<char>, Seq<char>)> {
    Seq::new(members.len(), |i: int| (members[i].0@, members[i].1@))
}

/// The names and JSON texts that a list of members holds.
pub open spec fn raw_members_view(members: Seq<(String, Vec<u8>)>) -> Seq<(Seq<char>, Seq<u8>)> {
    Seq::new(members.len(), |i: int| (members[i].0@, members[i].1@))
}

/// Reads the body with `serde_json::from_slice` as a `serde_json::Value`
/// and tells whether that went well.
#[verifier::external_body]
pub(crate) fn read_json(body: &[u8]) -> (r: Result<(), serde_json::Error>)
    ensures
        r is Ok <==> is_json_text(body@),
{
    serde_json::from_slice::<serde_json::Value>(body).map(|_| ())
}

/// Reads the body with `serde_json::from_slice` as a `serde_json::Map` from
/// names to JSON values, which is what a JSON object is read as, and hands
/// out the members, each value as the JSON text that its `to_string`
/// writes.
#[verifier::external_body]
pub(crate) fn read_json_members(body: &[u8]) -> (r: Result<
    Vec<(String, Vec<u8>)>,
    serde_json::Error,
>)
    ensures
        match r {
            Ok(members) => json_members(body@) == Some(raw_members_view(members@)),
            Err(_) => json_members(body@) is None,
        },
{
    serde_json::from_slice::<serde_json::Map<String, serde_json::Value>>(body).map(
        |object|
            object.into_iter().map(
                |(name, value)| (name, value.to_string().into_bytes()),
            ).collect(),
    )
}

/// Reads the body with `serde_json::from_slice` as a map from names to
/// texts and hands out the members.
#[verifier::external_body]
pub(crate) fn read_json_text_members(body: &[u8]) -> (r: Result<
    Vec<(String, String)>,
    serde_json::Error,
>)
    ensures
        match r {
            Ok(members) => json_text_members(body@) == Some(members_view(members@)),
            Err(_) => json_text_members(body@) is None,
        },
{
    serde_json::from_slice::<std::collections::BTreeMap<String, String>>(body).map(
        |object| object.into_iter().collect(),
    )
}

/// The error that `serde_json` gives for a record that lacks the field
/// `name`: `serde::de::Error::missing_field`.
#[verifier::external_body]
pub(crate) fn missing_field_error(name: &'static str) -> serde_json::Error {
    <serde_json::Error as serde::de::Error>::missing_field(name)
}

/// The error that `serde_json` gives for a record with the field `name`
/// where only the fields `expected` are known:
/// `serde::de::Error::unknown_field`.
#[verifier::external_body]
pub(crate) fn unknown_field_error(
    name: &str,
    expected: &'static [&'static str],
) -> serde_json::Error {
    <serde_json::Error as serde::de::Error>::unknown_field(name, expected)
}

} // verus!
