//! Pieces of JSON text.

use vstd::prelude::*;

verus! {

/// How `serde_json` writes a text as a JSON string.
pub uninterp spec fn json_string(text: Seq<char>) -> Seq<char>;

/// Calls `serde_json::Value::to_string` on a string value. The result is a
/// function of the text alone.
#[verifier::external_body]
pub(crate) fn write_json_string(text: &str) -> (json: String)
    ensures
        json@ == json_string(text@),
{
    serde_json::Value::from(text).to_string()
}

} // verus!
