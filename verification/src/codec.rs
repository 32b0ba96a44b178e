//! The serialized form of a definition list: a JSON array of
//! `[owner, key, value-or-null]` triples, in order.  Encoding and decoding
//! are done by `serde_json`; the contracts here relate the two through the
//! uninterpreted name [`decoded_defs`].

use vstd::prelude::*;
use crate::defs::{defs_view, DefTriple, PropagatedDefinition};

verus! {

/// What `serde_json::from_str` yields on a given text, read as a list of
/// `(owner, key, value)` triples: `Some` with the triples exactly when the
/// text decodes, `None` when it does not.
pub uninterp spec fn decoded_defs(s: Seq<char>) -> Option<Seq<DefTriple>>;

/// Relies on `serde_json::from_str`: the result is a function of the text
/// alone, `Ok` exactly when the text is a JSON array of
/// `[owner, key, value-or-null]` triples, and then carries those triples in
/// order.
#[verifier::external_body]
pub fn decode_defs(s: &str) -> (r: Result<Vec<PropagatedDefinition>, serde_json::Error>)
    ensures
        match r {
            Ok(v) => decoded_defs(s@) == Some(defs_view(v@)),
            Err(_) => decoded_defs(s@) is None,
        },
{
    let triples: Vec<(String, String, Option<String>)> = serde_json::from_str(s)?;
    Ok(
        triples.into_iter().map(
            |(owner, key, value)| PropagatedDefinition { owner, key, value },
        ).collect(),
    )
}

/// Relies on `serde_json::to_string`: serializing a list of string triples
/// cannot fail (the documented failure sources — a failing `Serialize`
/// implementation, a map with non-string keys — do not apply, and the
/// writer is an in-memory buffer), and the produced text decodes (via
/// `serde_json::from_str`) back to exactly the triples that were encoded.
#[verifier::external_body]
pub fn encode_defs(defs: &Vec<PropagatedDefinition>) -> (r: String)
    ensures
        decoded_defs(r@) == Some(defs_view(defs@)),
{
    let triples: Vec<(&String, &String, &Option<String>)> = defs.iter().map(
        |d| (&d.owner, &d.key, &d.value),
    ).collect();
    serde_json::to_string(&triples).unwrap()
}

/// The error type of `serde_json`, carried through decoding results.
#[verifier::external_type_specification]
#[verifier::external_body]
pub struct ExJsonError(serde_json::Error);

} // verus!
