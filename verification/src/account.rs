//! The records that durable state keeps of accounts and contracts.

use crate::primitives::{H160, U256};
use vstd::prelude::*;

verus! {

/// The durable record of an account, of a user or of a contract.
#[derive(Clone, Copy, Debug)]
pub struct EvmAccount {
    /// The account's address.
    pub address: H160,
    pub bump_seed: u8,
    /// The account's nonce: the number of transactions it has sent.
    pub trx_count: u64,
    /// The address under which the account's contract record is kept:
    /// its own, where it is a contract's account.
    pub contract_storage_key: Option<H160>,
    /// The account's balance of native tokens.
    pub balance: U256,
    /// Read-write lock; kept, not enforced.
    pub rw_blocked: bool,
    /// Read-only lock counter; kept, not enforced.
    pub ro_blocked_count: u8,
}

impl EvmAccount {
    /// The record of an account that was never used.
    pub open spec fn fresh(address: H160) -> EvmAccount {
        EvmAccount {
            address,
            bump_seed: 0,
            trx_count: 0,
            contract_storage_key: None,
            balance: U256 { hi: 0, lo: 0 },
            rw_blocked: false,
            ro_blocked_count: 0,
        }
    }

    /// The record of a new account: no transactions, no balance, no
    /// contract, no locks.
    pub fn new_user_account(address: &H160) -> (r: Self)
        ensures
            r == Self::fresh(*address),
    {
        EvmAccount {
            address: *address,
            bump_seed: 0,
            trx_count: 0,
            contract_storage_key: None,
            balance: U256::zero(),
            rw_blocked: false,
            ro_blocked_count: 0,
        }
    }
}

/// The durable record of a contract, kept under the address of its
/// account. Its storage slots are kept apart.
#[derive(Debug)]
pub struct EvmContract {
    /// The length of `code`.
    pub code_size: u32,
    pub code: Vec<u8>,
    /// The bitmap of the code's valid jump destinations.
    pub valids: Vec<u8>,
}

/// An [`EvmContract`] as a value.
pub struct ContractView {
    pub code_size: u32,
    pub code: Seq<u8>,
    pub valids: Seq<u8>,
}

impl View for EvmContract {
    type V = ContractView;

    open spec fn view(&self) -> ContractView {
        ContractView { code_size: self.code_size, code: self.code@, valids: self.valids@ }
    }
}

/// The views of the contract records in a map.
pub open spec fn contracts_view(contracts: Map<H160, EvmContract>) -> Map<H160, ContractView> {
    contracts.map_values(|c: EvmContract| c@)
}

} // verus!
