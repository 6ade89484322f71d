//! The text that stands for a list of canonical pairs in the cache file: the
//! JSON array of two-element arrays of strings that `serde_json` writes.

use vstd::prelude::*;
use crate::error::PlanError;
use crate::mapping::PairView;

verus! {

/// The error type of `serde_json`, carried through as it is.
#[verifier::external_type_specification]
#[verifier::external_body]
pub struct ExJsonError(serde_json::Error);

/// The text that `serde_json::to_string` returns for a list of pairs of
/// strings. It depends on the pairs alone.
pub uninterp spec fn json_text(pairs: Seq<PairView>) -> Seq<char>;

/// `serde_json::to_string` on a list of pairs of strings. Trusted: the call
/// succeeds, and its result is the text named [`json_text`] of these pairs.
/// The outside function fails only where an impl of `Serialize` fails, where
/// a map has keys that are not strings, or where its writer fails; strings,
/// tuples and lists do none of the first two, and the writer is a buffer in
/// memory.
#[verifier::external_body]
fn to_json(pairs: &Vec<(String, String)>) -> (r: Result<String, serde_json::Error>)
    ensures
        r is Ok,
        r matches Ok(text) ==> text@ == json_text(pairs.deep_view()),
{
    serde_json::to_string(pairs)
}

/// The message of a `serde_json::Error`, as its `Display` writes it. Trusted,
/// with nothing claimed of the text.
#[verifier::external_body]
fn json_error_message(err: &serde_json::Error) -> (message: String) {
    err.to_string()
}

/// Encodes pairs as the text of a cache file. Every list of pairs has its
/// text.
pub fn encode(pairs: &Vec<(String, String)>) -> (r: Result<String, PlanError>)
    ensures
        r is Ok,
        r matches Ok(text) ==> text@ == json_text(pairs.deep_view()),
{
    match to_json(pairs) {
        Ok(text) => Ok(text),
        Err(err) => Err(PlanError::Encoding(json_error_message(&err))),
    }
}

} // verus!
