//! The durable state beneath the journal: what an executing transaction
//! may read of it, and the store that keeps it.

pub mod apply;
pub mod backend;
pub mod base;

use crate::account::{contracts_view, ContractView, EvmAccount, EvmContract};
use crate::ordered_map::OrderedMap;
use crate::primitives::{be_value, h256_of, StorageKey, H160, H256, U256};
use crate::utils::keccak256;
use vstd::prelude::*;

verus! {

/// The three key spaces of durable state: accounts by address,
/// contracts by address, and storage values by contract and slot.
#[derive(Debug)]
pub struct EvmState {
    pub accounts: OrderedMap<H160, EvmAccount>,
    pub contracts: OrderedMap<H160, EvmContract>,
    pub contract_storage: OrderedMap<StorageKey, U256>,
}

impl EvmState {
    /// The invariant: each key space is held in order.
    pub open spec fn wf(self) -> bool {
        &&& self.accounts.wf()
        &&& self.contracts.wf()
        &&& self.contract_storage.wf()
    }

    /// Durable state without any record: each key space holds no entry.
    pub fn new() -> (r: Self)
        ensures
            r.wf(),
            r.accounts@ == Map::<H160, EvmAccount>::empty(),
            r.contracts@ == Map::<H160, EvmContract>::empty(),
            r.contract_storage@ == Map::<StorageKey, U256>::empty(),
            r.accounts.entries().len() == 0,
            r.contracts.entries().len() == 0,
            r.contract_storage.entries().len() == 0,
    {
        EvmState {
            accounts: OrderedMap::new(),
            contracts: OrderedMap::new(),
            contract_storage: OrderedMap::new(),
        }
    }
}

/// Durable state between transactions, in the block that the host is
/// working on: the backend that journals read through, and the store
/// that a finished transaction is committed to.
pub struct CwStorageInterface {
    state: EvmState,
    block_height: u64,
    block_time: u64,
    chain_id: u64,
}

/// A [`CwStorageInterface`] as a value.
pub struct StoredState {
    pub accounts: Map<H160, EvmAccount>,
    pub contracts: Map<H160, ContractView>,
    pub contract_storage: Map<StorageKey, U256>,
    /// The height of the current block.
    pub block_height: u64,
    /// The time of the current block, in nanoseconds since the epoch.
    pub block_time: u64,
    pub chain_id: u64,
}

impl StoredState {
    /// The nonce of an address: that of its account, or zero.
    pub open spec fn nonce(self, address: H160) -> u64 {
        if self.accounts.contains_key(address) {
            self.accounts[address].trx_count
        } else {
            0
        }
    }

    /// The balance of an address: that of its account, or zero.
    pub open spec fn balance(self, address: H160) -> U256 {
        if self.accounts.contains_key(address) {
            self.accounts[address].balance
        } else {
            U256 { hi: 0, lo: 0 }
        }
    }

    /// The recorded code size of an address: that of its contract, or zero.
    pub open spec fn code_size(self, address: H160) -> usize {
        if self.contracts.contains_key(address) {
            self.contracts[address].code_size as usize
        } else {
            0
        }
    }

    /// The code of an address: that of its contract, or none.
    pub open spec fn code(self, address: H160) -> Seq<u8> {
        if self.contracts.contains_key(address) {
            self.contracts[address].code
        } else {
            Seq::empty()
        }
    }

    /// The code hash of an address: the Keccak-256 digest of its
    /// contract's code, or the zero hash where it has no contract.
    pub open spec fn code_hash(self, address: H160) -> H256 {
        if self.contracts.contains_key(address) {
            h256_of(be_value(keccak256(self.contracts[address].code)))
        } else {
            H256 { hi: 0, lo: 0 }
        }
    }

    /// The jump-destination bitmap of an address: that of its contract,
    /// or none.
    pub open spec fn valids(self, address: H160) -> Seq<u8> {
        if self.contracts.contains_key(address) {
            self.contracts[address].valids
        } else {
            Seq::empty()
        }
    }

    /// The value in a slot: what is stored there, or zero.
    pub open spec fn storage(self, address: H160, index: U256) -> U256 {
        if self.contract_storage.contains_key(StorageKey { address, slot: index }) {
            self.contract_storage[StorageKey { address, slot: index }]
        } else {
            U256 { hi: 0, lo: 0 }
        }
    }
}

impl View for CwStorageInterface {
    type V = StoredState;

    closed spec fn view(&self) -> StoredState {
        StoredState {
            accounts: self.state.accounts@,
            contracts: contracts_view(self.state.contracts@),
            contract_storage: self.state.contract_storage@,
            block_height: self.block_height,
            block_time: self.block_time,
            chain_id: self.chain_id,
        }
    }
}

impl CwStorageInterface {
    /// The invariant of the store: each key space is held in order.
    pub closed spec fn wf(self) -> bool {
        self.state.wf()
    }
}

/// Read access to durable state as of the start of the current
/// transaction. Each read is a function of the backend and the key alone:
/// nothing that a journal holds shows in it, and an address without a
/// record reads as zero or empty.
pub trait StorageInterface {
    /// Whether the backend is in a state in which it can be read.
    spec fn readable(&self) -> bool;

    /// The number of the current block.
    spec fn stored_block_number(&self) -> U256;

    /// The time of the current block, in seconds since the epoch.
    spec fn stored_block_timestamp(&self) -> U256;

    /// The hash of the block with this number.
    spec fn stored_block_hash(&self, number: U256) -> H256;

    /// The chain's id.
    spec fn stored_chain_id(&self) -> u64;

    /// Whether an account is stored under the address.
    spec fn stored_exists(&self, address: H160) -> bool;

    /// The stored nonce of the address.
    spec fn stored_nonce(&self, address: H160) -> U256;

    /// The stored balance of the address.
    spec fn stored_balance(&self, address: H160) -> U256;

    /// The length of the code stored for the address.
    spec fn stored_code_size(&self, address: H160) -> usize;

    /// The hash of the code stored for the address.
    spec fn stored_code_hash(&self, address: H160) -> H256;

    /// The code stored for the address.
    spec fn stored_code(&self, address: H160) -> Seq<u8>;

    /// The jump-destination bitmap stored with the code of the address.
    spec fn stored_valids(&self, address: H160) -> Seq<u8>;

    /// The value stored in a slot of the address.
    spec fn stored_storage(&self, address: H160, index: U256) -> U256;

    fn block_number(&self) -> (r: U256)
        requires
            self.readable(),
        ensures
            r == self.stored_block_number(),
    ;

    fn block_timestamp(&self) -> (r: U256)
        requires
            self.readable(),
        ensures
            r == self.stored_block_timestamp(),
    ;

    fn block_hash(&self, number: U256) -> (r: H256)
        requires
            self.readable(),
        ensures
            r == self.stored_block_hash(number),
    ;

    fn chain_id(&self) -> (r: u64)
        requires
            self.readable(),
        ensures
            r == self.stored_chain_id(),
    ;

    fn account_exists(&self, address: &H160) -> (r: bool)
        requires
            self.readable(),
        ensures
            r == self.stored_exists(*address),
    ;

    fn nonce(&self, address: &H160) -> (r: U256)
        requires
            self.readable(),
        ensures
            r == self.stored_nonce(*address),
    ;

    fn balance(&self, address: &H160) -> (r: U256)
        requires
            self.readable(),
        ensures
            r == self.stored_balance(*address),
    ;

    fn code_size(&self, address: &H160) -> (r: usize)
        requires
            self.readable(),
        ensures
            r == self.stored_code_size(*address),
    ;

    fn code_hash(&self, address: &H160) -> (r: H256)
        requires
            self.readable(),
        ensures
            r == self.stored_code_hash(*address),
    ;

    fn code(&self, address: &H160) -> (r: Vec<u8>)
        requires
            self.readable(),
        ensures
            r@ == self.stored_code(*address),
    ;

    fn valids(&self, address: &H160) -> (r: Vec<u8>)
        requires
            self.readable(),
        ensures
            r@ == self.stored_valids(*address),
    ;

    fn storage(&self, address: &H160, index: &U256) -> (r: U256)
        requires
            self.readable(),
        ensures
            r == self.stored_storage(*address, *index),
    ;
}

} // verus!
