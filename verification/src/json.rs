//! JSON arrays of strings, through `serde_json`.

use vstd::prelude::*;
use crate::musicbrainz::views;

verus! {

/// Errors of `serde_json`.
#[verifier::external_type_specification]
#[verifier::external_body]
pub struct ExJsonError(serde_json::Error);

/// What `serde_json::to_string` writes for a list of strings: a JSON array
/// of JSON strings, in order.
pub uninterp spec fn json_string_array(items: Seq<Seq<char>>) -> Seq<char>;

/// What `serde_json::from_str::<Vec<String>>` reads from a text: the
/// strings of a JSON array of strings, or none when the text is not one.
pub uninterp spec fn json_string_array_value(text: Seq<char>) -> Option<Seq<Seq<char>>>;

/// `serde_json::to_string` on a list of strings: it writes into a byte
/// vector, which cannot fail, and strings and sequences always serialize,
/// so it succeeds; what it writes depends on the strings alone.
#[verifier::external_body]
pub(crate) fn encode_string_list(items: &Vec<String>) -> (r: Result<String, serde_json::Error>)
    ensures
        r is Ok,
        r matches Ok(s) ==> s@ == json_string_array(views(items@)),
{
    serde_json::to_string(items)
}

/// `serde_json::from_str::<Vec<String>>`, with its error dropped; what it
/// reads depends on the text alone.
#[verifier::external_body]
pub(crate) fn decode_string_list(text: &str) -> (r: Option<Vec<String>>)
    ensures
        match r {
            Some(v) => json_string_array_value(text@) == Some(views(v@)),
            None => json_string_array_value(text@) is None,
        },
{
    serde_json::from_str::<Vec<String>>(text).ok()
}

} // verus!
