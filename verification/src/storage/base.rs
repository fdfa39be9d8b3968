//! How a store comes to be, and how its state is handed back.

use crate::account::contracts_view;
use crate::error::ContractError;
use crate::storage::{CwStorageInterface, EvmState, StoredState};
use vstd::prelude::*;

verus! {

impl CwStorageInterface {
    /// A store over `state` for reading, in the block of the given
    /// height and time (in nanoseconds since the epoch).
    pub fn new_ref(state: EvmState, block_height: u64, block_time: u64, chain_id: u64) -> (r:
        Result<Self, ContractError>)
        requires
            state.wf(),
        ensures
            r matches Ok(store) && store.wf() && store@ == (StoredState {
                accounts: state.accounts@,
                contracts: contracts_view(state.contracts@),
                contract_storage: state.contract_storage@,
                block_height,
                block_time,
                chain_id,
            }),
    {
        Ok(CwStorageInterface { state, block_height, block_time, chain_id })
    }

    /// A store over `state` for reading and writing, in the block of the
    /// given height and time (in nanoseconds since the epoch).
    pub fn new_mut(state: EvmState, block_height: u64, block_time: u64, chain_id: u64) -> (r:
        Result<Self, ContractError>)
        requires
            state.wf(),
        ensures
            r matches Ok(store) && store.wf() && store@ == (StoredState {
                accounts: state.accounts@,
                contracts: contracts_view(state.contracts@),
                contract_storage: state.contract_storage@,
                block_height,
                block_time,
                chain_id,
            }),
    {
        Ok(CwStorageInterface { state, block_height, block_time, chain_id })
    }

    /// Hands the state back, to be made durable.
    pub fn into_state(self) -> (state: EvmState)
        requires
            self.wf(),
        ensures
            state.wf(),
            state.accounts@ == self@.accounts,
            contracts_view(state.contracts@) == self@.contracts,
            state.contract_storage@ == self@.contract_storage,
    {
        self.state
    }
}

} // verus!
