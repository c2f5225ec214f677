//! Parsing one remote directory listing.
//!
//! The remote backend answers a listing request with a JSON body. A body
//! that is not valid JSON aborts the pipeline; a valid body that is not an
//! array counts as an empty listing; an array's elements contribute their
//! `path` and `type` string fields, either of which may be absent.
//!
//! The JSON reading itself is serde_json's: one trusted read turns the body
//! into plain records, named over the text so the contracts downstream stay
//! exact, and the verified tightening into tree entries follows.

use vstd::prelude::*;

use crate::errors::PipelineError;
use crate::tree::{
    entries_from_raw, entries_view, raw_view, spec_entries_of_records, RawEntry, TreeEntry,
};

verus! {

/// Whether a body is valid JSON: what serde_json's parser accepts, a
/// function of the text alone.
pub uninterp spec fn json_parses(s: Seq<char>) -> bool;

/// The records of a listing body: the `path` and `type` members of each
/// element of an array body, in array order, a member that is absent or
/// not a string read as missing; no records at all when the body is valid
/// JSON but not an array. A function of the text alone.
pub uninterp spec fn json_listing(s: Seq<char>) -> Seq<(Option<Seq<char>>, Option<Seq<char>>)>;

/// Relies on serde_json::from_str and serde_json::Value's accessors
/// as_array, get and as_str: whether the text parses, and which `path` and
/// `type` members an array body's elements carry, depend on the text
/// alone; none of the calls panics.
#[verifier::external_body]
fn read_listing(text: &str) -> (r: Option<Vec<RawEntry>>)
    ensures
        r is Some == json_parses(text@),
        (r matches Some(v) ==> raw_view(v@) == json_listing(text@)),
{
    let value: serde_json::Value = serde_json::from_str(text).ok()?;
    let rows = match value.as_array() {
        Some(rows) => rows,
        None => return Some(Vec::new()),
    };
    Some(
        rows.iter()
            .map(|row| RawEntry {
                path: row.get("path").and_then(|m| m.as_str()).map(str::to_owned),
                kind_name: row.get("type").and_then(|m| m.as_str()).map(str::to_owned),
            })
            .collect(),
    )
}

/// Read one listing body into raw records.
///
/// Fails, with the network-or-parse error, exactly when the body is not
/// valid JSON; otherwise the records are exactly the body's, in order — a
/// body that is valid JSON but not an array has none.
pub fn parse_listing(text: &str) -> (r: Result<Vec<RawEntry>, PipelineError>)
    ensures
        r is Err <==> !json_parses(text@),
        (r matches Err(e) ==> e == PipelineError::NetworkOrParseFailure),
        (r matches Ok(v) ==> raw_view(v@) == json_listing(text@)),
{
    match read_listing(text) {
        Some(v) => Ok(v),
        None => Err(PipelineError::NetworkOrParseFailure),
    }
}

/// Read one listing body straight into tree entries.
///
/// Fails exactly when the body is not valid JSON; otherwise the entries
/// are the body's records tightened as [`spec_entries_of_records`] states:
/// records missing a field or carrying an unrecognised kind are skipped,
/// the rest keep listing order.
pub fn parse_tree_entries(text: &str) -> (r: Result<Vec<TreeEntry>, PipelineError>)
    ensures
        r is Err <==> !json_parses(text@),
        (r matches Err(e) ==> e == PipelineError::NetworkOrParseFailure),
        (r matches Ok(entries) ==> entries_view(entries@) == spec_entries_of_records(
            json_listing(text@),
        )),
{
    match parse_listing(text) {
        Ok(raw) => Ok(entries_from_raw(&raw)),
        Err(e) => Err(e),
    }
}

} // verus!
