//! The JSON text in which lists of strings (principal variations, tactical
//! tags) are stored alongside a puzzle.

use vstd::prelude::*;
use crate::text::string_views;

verus! {

/// What `serde_json::to_string` gives for a list of strings: the JSON text,
/// or `None` where serialisation reports an error.
pub uninterp spec fn json_encoded(list: Seq<Seq<char>>) -> Option<Seq<char>>;

/// What `serde_json::from_str::<Vec<String>>` gives for a text: the list of
/// strings it holds, or `None` where the text is no JSON array of strings.
pub uninterp spec fn json_string_list(text: Seq<char>) -> Option<Seq<Seq<char>>>;

/// Calls `serde_json::to_string` on a list of strings.  Claims that the
/// outcome is `json_encoded` of the list's contents, with an error mapped to
/// `None`; what the text looks like is left to that name.
#[verifier::external_body]
fn to_json_text(list: &Vec<String>) -> (r: Option<String>)
    ensures
        match r {
            Some(s) => json_encoded(string_views(list@)) == Some(s@),
            None => json_encoded(string_views(list@)) is None,
        },
{
    serde_json::to_string(list).ok()
}

/// Calls `serde_json::from_str::<Vec<String>>`.  Claims that the outcome is
/// `json_string_list` of the text, with an error mapped to `None`.
#[verifier::external_body]
pub(crate) fn from_json_text(text: &str) -> (r: Option<Vec<String>>)
    ensures
        match r {
            Some(v) => json_string_list(text@) == Some(string_views(v@)),
            None => json_string_list(text@) is None,
        },
{
    serde_json::from_str::<Vec<String>>(text).ok()
}

/// The stored form of a list: its JSON text, or the empty list `[]` should
/// serialisation fail.
pub open spec fn spec_stored_list(list: Seq<Seq<char>>) -> Seq<char> {
    match json_encoded(list) {
        Some(s) => s,
        None => "[]"@,
    }
}

/// Encodes a list of strings for storage.
pub fn store_list(list: &Vec<String>) -> (r: String)
    ensures
        r@ == spec_stored_list(string_views(list@)),
{
    match to_json_text(list) {
        Some(s) => s,
        None => "[]".to_string(),
    }
}

} // verus!
