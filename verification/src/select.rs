//! The random selector: one uniform draw from the enumerated pool.
//!
//! An empty pool is the one failure of this stage; the check happens here,
//! once, after enumeration and before content loading.

use vstd::prelude::*;

use crate::errors::PipelineError;

verus! {

/// Relies on rand::random_range: a draw from `0..n`, documented as
/// uniform, from the process-wide generator. The range is non-empty, so
/// the call does not panic; nothing beyond the bound holds of any one
/// draw, and nothing of the distribution is claimed in the contract.
#[verifier::external_body]
fn random_below(n: usize) -> (r: usize)
    requires
        n > 0,
    ensures
        r < n,
{
    rand::random_range(0..n)
}

/// Draw one identifier from the pool, uniformly at random.
///
/// Fails with the empty-pool error exactly when the pool is empty;
/// otherwise the result is an element of the pool.
pub fn select_file(files: &Vec<String>) -> (r: Result<&String, PipelineError>)
    ensures
        r is Err <==> files@.len() == 0,
        (r matches Err(e) ==> e == PipelineError::EmptyPool),
        (r matches Ok(f) ==> exists|i: int| 0 <= i < files@.len() && f == &files@[i]),
{
    if files.len() == 0 {
        Err(PipelineError::EmptyPool)
    } else {
        let i = random_below(files.len());
        Ok(&files[i])
    }
}

} // verus!
