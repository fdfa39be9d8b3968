//! The checks on a chunk of a transaction that is to be stored.

use crate::error::ContractError;
use vstd::prelude::*;

verus! {

/// Checks the message before it is worked on. Nothing is checked yet:
/// every message passes.
pub fn validate() -> (r: Result<(), ContractError>)
    ensures
        r == Ok::<(), ContractError>(()),
{
    Ok(())
}

} // verus!
