//! The messages that the host hands to the execution layer, and what it
//! answers.

pub mod execute_chunked_transaction;
pub mod execute_simple_transaction;
pub mod raw_ethereum_query;
pub mod store_transaction_chunk;
pub mod transaction_execute_simple;

use crate::primitives::U256;
use vstd::prelude::*;

verus! {

/// The message that sets the execution layer up. It says nothing.
#[derive(Clone, Debug)]
pub struct InstantiateMsg {}

/// A message that may change state.
#[derive(Clone, Debug)]
pub enum ExecuteMsg {
    /// Runs one transaction.
    ExecuteRawEthereumTx {
        /// The sender's address, as bytes.
        caller_evm_address: [u8; 20],
        /// The RLP encoding of the unsigned transaction.
        unsigned_tx: Vec<u8>,
    },
    /// Stores one chunk of a transaction that is too long for a message.
    StoreTxChunk {
        caller_evm_address: [u8; 20],
        /// The Keccak-256 digest of the whole unsigned transaction.
        full_tx_hash: [u8; 32],
        chunk_index: u8,
        chunk_data: Vec<u8>,
    },
    /// Runs a transaction whose chunks were stored.
    ExecuteChunkedEthereumTx {
        caller_evm_address: [u8; 20],
        full_tx_hash: [u8; 32],
        chunk_count: u8,
    },
}

/// A message that changes nothing.
#[derive(Clone, Debug)]
pub enum QueryMsg {
    /// Runs a transaction without committing it and answers with what
    /// it returned.
    RawEthereumQuery { caller_evm_address: [u8; 20], unsigned_tx: Vec<u8> },
    /// Asks for the balance and nonce of an account.
    QueryEvmAccount { evm_address: [u8; 20] },
}

/// The answer to `RawEthereumQuery`.
#[derive(Clone, Debug)]
pub struct RawEthereumQueryResponse {
    /// The bytes that the transaction returned.
    pub result: Vec<u8>,
}

/// The answer to `QueryEvmAccount`.
#[derive(Clone, Copy, Debug)]
pub struct EvmAccountResponse {
    pub balance: U256,
    pub nonce: u64,
}

} // verus!
