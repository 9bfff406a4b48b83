//! Loading a specification document: JSON text describing a map from base
//! type names to lists of raw variant specifications.

use vstd::prelude::*;

use crate::errors::GenError;

verus! {

#[verifier::external_type_specification]
#[verifier::external_body]
pub struct ExJsonError(serde_json::Error);

/// What the specification document `text` parses to: the entries of a JSON
/// object `{basename: [variant spec, ...], ...}`, ordered by base name, or
/// `None` when the text is not such a document.  A function of the text
/// alone.
pub uninterp spec fn spec_doc_of(text: Seq<char>) -> Option<Seq<(Seq<char>, Seq<Seq<char>>)>>;

/// Relies on `serde_json::from_str`: parses the text as a JSON object
/// mapping strings to arrays of strings, failing exactly when the text is
/// not such a document.  The entries come out sorted by key — the iteration
/// order of the `BTreeMap` they are collected into — so the result is a
/// function of the text alone.
#[verifier::external_body]
fn parse_doc(text: &str) -> (r: Result<Vec<(String, Vec<String>)>, serde_json::Error>)
    ensures
        (r matches Ok(entries) ==> spec_doc_of(text@) == Some(entries.deep_view())),
        r is Err ==> spec_doc_of(text@) is None,
{
    let map: std::collections::BTreeMap<String, Vec<String>> = serde_json::from_str(text)?;
    Ok(map.into_iter().collect())
}

/// Loads a specification document from its text, mapping a parse failure to
/// `SourceMalformed`.
pub fn load_spec(text: &str) -> (r: Result<Vec<(String, Vec<String>)>, GenError>)
    ensures
        (r matches Ok(entries) ==> spec_doc_of(text@) == Some(entries.deep_view())),
        r is Err ==> r == Err::<Vec<(String, Vec<String>)>, GenError>(GenError::SourceMalformed)
            && spec_doc_of(text@) is None,
{
    match parse_doc(text) {
        Ok(entries) => Ok(entries),
        Err(_) => Err(GenError::SourceMalformed),
    }
}

} // verus!
