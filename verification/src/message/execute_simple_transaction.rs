//! What becomes of a transaction once the interpreter has run it.

use crate::error::{lemma_ok_is_unit, ContractError};
use crate::executor_state::{applies_view, is_diff, ApplyView, ExecutorSubstate};
use crate::primitives::{H160, U256};
use crate::storage::{CwStorageInterface, StorageInterface};
use vstd::prelude::*;

verus! {

/// Checks the message before it is worked on. Nothing is checked yet:
/// every message passes.
pub fn validate() -> (r: Result<(), ContractError>)
    ensures
        r == Ok::<(), ContractError>(()),
{
    Ok(())
}

/// What the interpreter reports of a transaction that it has run.
#[derive(Debug)]
pub struct Execution {
    /// Whether the transaction ended in success.
    pub succeeded: bool,
    /// The bytes that the transaction returned.
    pub return_value: Vec<u8>,
    /// The gas that the transaction used.
    pub used_gas: U256,
}

impl Execution {
    /// Whether the transaction is to be committed: it succeeded and did
    /// not use more gas than its limit.
    pub open spec fn commits(self, gas_limit: U256) -> bool {
        self.succeeded && self.used_gas@ <= gas_limit@
    }

    /// The bytes that the host answers with: none where the gas ran out.
    pub open spec fn answer(self, gas_limit: U256) -> Seq<u8> {
        if self.used_gas@ > gas_limit@ {
            Seq::empty()
        } else {
            self.return_value@
        }
    }
}

impl Execution {
    /// The bytes that the host answers with: what the transaction
    /// returned, or nothing where it used more gas than its limit.
    pub fn into_answer(self, gas_limit: &U256) -> (r: Vec<u8>)
        ensures
            r@ == self.answer(*gas_limit),
    {
        if self.used_gas.gt(gas_limit) {
            Vec::new()
        } else {
            self.return_value
        }
    }
}

/// A result without its value.
pub open spec fn outcome(r: Result<Vec<u8>, ContractError>) -> Result<(), ContractError> {
    match r {
        Ok(_) => Ok(()),
        Err(e) => Err(e),
    }
}

/// Settles a transaction that the interpreter has run over `journal`.
///
/// Where it succeeded within its gas limit, the diff of the journal is
/// committed to the store. Where it failed or ran out of gas, nothing of
/// the journal is kept, and the store only counts one more transaction
/// of the caller. The answer is what the transaction returned, or
/// nothing where the gas ran out.
pub fn execute(
    storage: &mut CwStorageInterface,
    caller_address: H160,
    gas_limit: U256,
    execution: Execution,
    journal: ExecutorSubstate,
) -> (r: Result<Vec<u8>, ContractError>)
    requires
        old(storage).wf(),
        journal.wf(),
        journal@.parent is None,
    ensures
        final(storage).wf(),
        r matches Ok(data) ==> data@ == execution.answer(gas_limit),
        execution.commits(gas_limit) ==> exists|applies: Seq<ApplyView>, split: int| #[trigger]
            is_diff(journal@, old(storage), applies, split) && (final(storage)@, outcome(r)) == old(
                storage,
            )@.state_changed(applies, journal@.transfers),
        !execution.commits(gas_limit) ==> (final(storage)@, outcome(r)) == old(
            storage,
        )@.nonce_incremented(caller_address),
{
    let over = execution.used_gas.gt(&gas_limit);
    let (return_value, apply_state) = if over {
        (Vec::new(), None)
    } else if execution.succeeded {
        (execution.return_value, Some(journal.deconstruct(&*storage)))
    } else {
        (execution.return_value, None)
    };
    match apply_state {
        Some(state) => {
            let ghost applies = applies_view(state.0@);
            let ghost split = choose|split: int| #[trigger]
                is_diff(journal@, old(storage), applies, split);
            let applied = storage.apply_state_change(state);
            proof {
                if applied is Ok {
                    lemma_ok_is_unit(applied);
                }
                assert(is_diff(journal@, old(storage), applies, split) && (storage@, applied)
                    == old(storage)@.state_changed(applies, journal@.transfers));
            }
            match applied {
                Ok(()) => {},
                Err(e) => {
                    return Err(e);
                },
            }
        },
        None => {
            let counted = storage.increment_nonce(&caller_address);
            proof {
                if counted is Ok {
                    lemma_ok_is_unit(counted);
                }
            }
            match counted {
                Ok(()) => {},
                Err(e) => {
                    return Err(e);
                },
            }
        },
    }
    Ok(return_value)
}

} // verus!
