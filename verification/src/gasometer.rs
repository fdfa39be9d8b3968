//! The meter of what a transaction uses. It records nothing yet: every
//! record leaves the meter as it was.

use crate::executor_state::ExecutorState;
use crate::primitives::{H160, U256};
use crate::storage::StorageInterface;
use crate::transaction::UnsignedTransaction;
use vstd::prelude::*;

verus! {

/// The gas that a transaction has used so far.
pub struct Gasometer {
    gas: u64,
}

impl View for Gasometer {
    type V = u64;

    closed spec fn view(&self) -> u64 {
        self.gas
    }
}

impl Gasometer {
    /// A meter that has counted nothing.
    pub fn new() -> (r: Self)
        ensures
            r@ == 0,
    {
        Gasometer { gas: 0 }
    }

    /// The gas used so far.
    pub fn used_gas(&self) -> (r: U256)
        ensures
            r@ == self@,
    {
        U256::from_u64(self.gas)
    }

    /// Records the overhead of one more iteration.
    pub fn record_iterative_overhead(&mut self)
        ensures
            final(self)@ == old(self)@,
    {
    }

    /// Records the size of a transaction.
    pub fn record_transaction_size(&mut self, trx: &UnsignedTransaction)
        ensures
            final(self)@ == old(self)@,
    {
    }

    /// Records steps that the interpreter has run.
    pub fn record_evm_steps(&mut self, steps: u64)
        ensures
            final(self)@ == old(self)@,
    {
    }

    /// Pads the steps that the interpreter has run.
    pub fn pad_evm_steps(&mut self, steps: u64)
        ensures
            final(self)@ == old(self)@,
    {
    }

    /// Records a write to a slot of a contract.
    pub fn record_storage_write<B: StorageInterface>(
        &mut self,
        state: &ExecutorState<B>,
        address: H160,
        key: U256,
    )
        ensures
            final(self)@ == old(self)@,
    {
    }

    /// Records the deployment of a contract.
    pub fn record_deploy<B: StorageInterface>(&mut self, state: &ExecutorState<B>, address: H160)
        ensures
            final(self)@ == old(self)@,
    {
    }

    /// Records a transfer.
    pub fn record_transfer<B: StorageInterface>(
        &mut self,
        state: &ExecutorState<B>,
        target: H160,
        value: U256,
    )
        ensures
            final(self)@ == old(self)@,
    {
    }
}

} // verus!
