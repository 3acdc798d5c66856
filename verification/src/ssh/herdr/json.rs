//! Reading single members of a JSON document.
//!
//! A member is named by a JSON pointer, such as `/server/version`.

use vstd::prelude::*;

verus! {

/// Whether `serde_json::from_slice` reads the bytes as a document.
pub uninterp spec fn json_valid(document: Seq<u8>) -> bool;

/// Whether the document has a member at the pointer.
pub uninterp spec fn json_member(document: Seq<u8>, pointer: Seq<char>) -> bool;

/// The string at the pointer, where there is one.
pub uninterp spec fn json_text(document: Seq<u8>, pointer: Seq<char>) -> Option<Seq<char>>;

/// The number at the pointer, where there is one that fits.
pub uninterp spec fn json_number(document: Seq<u8>, pointer: Seq<char>) -> Option<u64>;

/// The boolean at the pointer, where there is one.
pub uninterp spec fn json_flag(document: Seq<u8>, pointer: Seq<char>) -> Option<bool>;

/// `serde_json::from_slice` into a value, of which only the success is kept.
#[verifier::external_body]
pub(crate) fn is_json(document: &[u8]) -> (r: bool)
    ensures
        r == json_valid(document@),
{
    serde_json::from_slice::<serde_json::Value>(document).is_ok()
}

/// `serde_json::Value::pointer` on the parsed document: whether it finds a
/// member.  Bytes that are no document have none.
#[verifier::external_body]
pub(crate) fn has_member(document: &[u8], pointer: &str) -> (r: bool)
    ensures
        r == json_member(document@, pointer@),
        !json_valid(document@) ==> !r,
{
    match serde_json::from_slice::<serde_json::Value>(document) {
        Ok(value) => value.pointer(pointer).is_some(),
        Err(_) => false,
    }
}

/// `serde_json::Value::as_str` of the member at the pointer, copied.  What is
/// no member, or no string, gives nothing.
#[verifier::external_body]
pub(crate) fn read_text(document: &[u8], pointer: &str) -> (r: Option<String>)
    ensures
        match r {
            Some(text) => json_text(document@, pointer@) == Some(text@),
            None => json_text(document@, pointer@) is None,
        },
        r is Some ==> json_member(document@, pointer@),
{
    let value: serde_json::Value = serde_json::from_slice(document).ok()?;
    value.pointer(pointer)?.as_str().map(str::to_owned)
}

/// `serde_json::Value::as_u64` of the member at the pointer.  What is no
/// member, or no number in the range of `u64`, gives nothing.
#[verifier::external_body]
pub(crate) fn read_number(document: &[u8], pointer: &str) -> (r: Option<u64>)
    ensures
        r == json_number(document@, pointer@),
        r is Some ==> json_member(document@, pointer@),
{
    let value: serde_json::Value = serde_json::from_slice(document).ok()?;
    value.pointer(pointer)?.as_u64()
}

/// `serde_json::Value::as_bool` of the member at the pointer.  What is no
/// member, or no boolean, gives nothing.
#[verifier::external_body]
pub(crate) fn read_flag(document: &[u8], pointer: &str) -> (r: Option<bool>)
    ensures
        r == json_flag(document@, pointer@),
        r is Some ==> json_member(document@, pointer@),
{
    let value: serde_json::Value = serde_json::from_slice(document).ok()?;
    value.pointer(pointer)?.as_bool()
}

} // verus!
