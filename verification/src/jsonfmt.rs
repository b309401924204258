//! JSON reformatting: parse a text and render it back pretty-printed,
//! through serde_json.

use vstd::prelude::*;

verus! {

/// Whether a text is well-formed JSON, as serde_json's parser accepts it
/// (its grammar together with its nesting-depth limit).
pub uninterp spec fn json_text_well_formed(s: Seq<char>) -> bool;

/// The pretty-printed rendering of a well-formed JSON text.
pub uninterp spec fn json_pretty_of(s: Seq<char>) -> Seq<char>;

/// Error from reformatting a JSON text.
#[derive(Debug, PartialEq, Eq, Structural)]
pub enum JsonFormatError {
    /// The input is not well-formed JSON.
    Malformed,
}

/// Relies on serde_json::from_str and serde_json::to_string_pretty,
/// composed: parsing succeeds exactly on the texts the parser accepts and
/// depends on the text alone; serializing a parsed value back never fails;
/// and the pretty text of a parsed value is accepted by the parser again
/// (a parsed value stays within the parser's own nesting-depth limit). The
/// two calls stand in one body because only their composition is a
/// function from text to text that a name can state.
#[verifier::external_body]
fn parse_and_pretty(s: &str) -> (r: Option<String>)
    ensures
        r is Some <==> json_text_well_formed(s@),
        r matches Some(t) ==> t@ == json_pretty_of(s@) && json_text_well_formed(t@),
{
    match serde_json::from_str::<serde_json::Value>(s) {
        Ok(v) => serde_json::to_string_pretty(&v).ok(),
        Err(_) => None,
    }
}

/// Parses a JSON text and renders it back pretty-printed. Succeeds exactly
/// on well-formed input; the output is a fixed function of the input and
/// is itself well-formed JSON.
pub fn reformat_json(s: &str) -> (r: Result<String, JsonFormatError>)
    ensures
        r is Ok <==> json_text_well_formed(s@),
        r matches Ok(t) ==> t@ == json_pretty_of(s@) && json_text_well_formed(t@),
        r is Err ==> r == Err::<String, JsonFormatError>(JsonFormatError::Malformed),
{
    match parse_and_pretty(s) {
        Some(t) => Ok(t),
        None => Err(JsonFormatError::Malformed),
    }
}

} // verus!
