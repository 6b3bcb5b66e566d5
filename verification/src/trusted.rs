//! The crate's trusted boundary: each function here makes one call into
//! an outside crate or into a part of the standard library that carries no
//! specification, and states what that call returns. Everything else in
//! the crate is verified against these contracts.

use vstd::prelude::*;

verus! {

/// What `serde_json::from_str::<Vec<String>>` decodes from the given
/// text: the decoded strings when the text is a JSON array of strings,
/// nothing otherwise. The result is a function of the text alone.
pub uninterp spec fn json_string_array(s: Seq<char>) -> Option<Seq<Seq<char>>>;

/// Whether `serde_json::from_str::<serde_json::Map<String, serde_json::Value>>`
/// accepts the given text, that is, whether the text is one JSON object.
/// The answer is a function of the text alone.
pub uninterp spec fn json_object_text(s: Seq<char>) -> bool;

/// What `str::to_lowercase` returns for the given characters; a function
/// of the characters alone.
pub uninterp spec fn lower_of(s: Seq<char>) -> Seq<char>;

/// Relies on `serde_json::from_str::<Vec<String>>`: decodes a JSON array
/// of strings, and fails exactly on text that is not one.
#[verifier::external_body]
pub fn decode_string_array(s: &str) -> (r: Option<Vec<String>>)
    ensures
        match r {
            Some(items) => json_string_array(s@) == Some(
                Seq::new(items@.len(), |i: int| items@[i]@),
            ),
            None => json_string_array(s@) is None,
        },
{
    match serde_json::from_str::<Vec<String>>(s) {
        Ok(items) => Some(items),
        Err(_) => None,
    }
}

/// Relies on `serde_json::from_str::<serde_json::Map<String, serde_json::Value>>`:
/// succeeds exactly when the text is one JSON object.
#[verifier::external_body]
pub fn is_json_object_text(s: &str) -> (r: bool)
    ensures
        r == json_object_text(s@),
{
    serde_json::from_str::<serde_json::Map<String, serde_json::Value>>(s).is_ok()
}

/// Relies on `str::to_lowercase`: the result depends on the characters
/// alone.
#[verifier::external_body]
pub fn lowercase(s: &str) -> (r: String)
    ensures
        r@ == lower_of(s@),
{
    s.to_lowercase()
}

} // verus!
