//! The checks on a query that runs a transaction without committing it.

use crate::error::ContractError;
use crate::message::execute_simple_transaction::Execution;
use crate::message::RawEthereumQueryResponse;
use crate::primitives::U256;
use vstd::prelude::*;

verus! {

/// Checks the message before it is worked on. Nothing is checked yet:
/// every message passes.
pub fn validate() -> (r: Result<(), ContractError>)
    ensures
        r == Ok::<(), ContractError>(()),
{
    Ok(())
}

/// The answer to a query that the interpreter has run: what the
/// transaction returned, or nothing where it used more gas than its
/// limit. Nothing is committed, whatever the transaction did.
pub fn execute(gas_limit: U256, execution: Execution) -> (r: Result<
    RawEthereumQueryResponse,
    ContractError,
>)
    ensures
        r matches Ok(response) && response.result@ == execution.answer(gas_limit),
{
    Ok(RawEthereumQueryResponse { result: execution.into_answer(&gas_limit) })
}

} // verus!
