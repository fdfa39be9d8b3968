//! Reading durable state.

use crate::primitives::{StorageKey, H160, H256, U256};
use crate::storage::{CwStorageInterface, StorageInterface};
use crate::utils::keccak256_h256;
use vstd::prelude::*;

verus! {

/// The number of nanoseconds in a second.
pub const NANOS_PER_SECOND: u64 = 1_000_000_000;

impl StorageInterface for CwStorageInterface {
    open spec fn readable(&self) -> bool {
        self.wf()
    }

    open spec fn stored_block_number(&self) -> U256 {
        U256 { hi: 0, lo: self@.block_height as u128 }
    }

    open spec fn stored_block_timestamp(&self) -> U256 {
        U256 { hi: 0, lo: (self@.block_time / NANOS_PER_SECOND) as u128 }
    }

    open spec fn stored_block_hash(&self, number: U256) -> H256 {
        H256 { hi: 0, lo: 0 }
    }

    open spec fn stored_chain_id(&self) -> u64 {
        self@.chain_id
    }

    open spec fn stored_exists(&self, address: H160) -> bool {
        self@.accounts.contains_key(address)
    }

    open spec fn stored_nonce(&self, address: H160) -> U256 {
        U256 { hi: 0, lo: self@.nonce(address) as u128 }
    }

    open spec fn stored_balance(&self, address: H160) -> U256 {
        self@.balance(address)
    }

    open spec fn stored_code_size(&self, address: H160) -> usize {
        self@.code_size(address)
    }

    open spec fn stored_code_hash(&self, address: H160) -> H256 {
        self@.code_hash(address)
    }

    open spec fn stored_code(&self, address: H160) -> Seq<u8> {
        self@.code(address)
    }

    open spec fn stored_valids(&self, address: H160) -> Seq<u8> {
        self@.valids(address)
    }

    open spec fn stored_storage(&self, address: H160, index: U256) -> U256 {
        self@.storage(address, index)
    }

    /// The height of the current block.
    fn block_number(&self) -> (r: U256) {
        U256::from_u64(self.block_height)
    }

    /// The time of the current block, in whole seconds since the epoch.
    fn block_timestamp(&self) -> (r: U256) {
        U256::from_u64(self.block_time / NANOS_PER_SECOND)
    }

    /// The store keeps no block hashes: every block reads as the zero hash.
    fn block_hash(&self, number: U256) -> (r: H256) {
        H256::zero()
    }

    /// The id that the store was made with.
    fn chain_id(&self) -> (r: u64) {
        self.chain_id
    }

    /// Whether an account record is stored under the address.
    fn account_exists(&self, address: &H160) -> (r: bool) {
        self.state.accounts.contains_key(address)
    }

    fn nonce(&self, address: &H160) -> (r: U256) {
        match self.state.accounts.get(address) {
            Some(account) => U256::from_u64(account.trx_count),
            None => U256::from_u64(0),
        }
    }

    fn balance(&self, address: &H160) -> (r: U256) {
        match self.state.accounts.get(address) {
            Some(account) => account.balance,
            None => U256::zero(),
        }
    }

    fn code_size(&self, address: &H160) -> (r: usize) {
        match self.state.contracts.get(address) {
            Some(contract) => contract.code_size as usize,
            None => 0,
        }
    }

    fn code_hash(&self, address: &H160) -> (r: H256) {
        match self.state.contracts.get(address) {
            Some(contract) => {
                let hash = keccak256_h256(contract.code.as_slice());
                proof {
                    H256::lemma_h256_of(hash);
                }
                hash
            },
            None => H256::zero(),
        }
    }

    fn code(&self, address: &H160) -> (r: Vec<u8>) {
        match self.state.contracts.get(address) {
            Some(contract) => {
                let code = contract.code.clone();
                assert(code@ =~= contract.code@);
                code
            },
            None => Vec::new(),
        }
    }

    fn valids(&self, address: &H160) -> (r: Vec<u8>) {
        match self.state.contracts.get(address) {
            Some(contract) => {
                let valids = contract.valids.clone();
                assert(valids@ =~= contract.valids@);
                valids
            },
            None => Vec::new(),
        }
    }

    fn storage(&self, address: &H160, index: &U256) -> (r: U256) {
        match self.state.contract_storage.get(&StorageKey { address: *address, slot: *index }) {
            Some(value) => *value,
            None => U256::zero(),
        }
    }
}

} // verus!
