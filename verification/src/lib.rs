//! Ethereum-compatible execution layer: the journal of speculative state
//! that a transaction's call tree builds up, the backend it reads through,
//! and the writer that commits a finished transaction to durable state.

pub mod account;
pub mod config;
pub mod error;
pub mod executor_state;
pub mod gasometer;
pub mod journal_laws;
pub mod message;
pub mod ordered_map;
pub mod primitives;
pub mod storage;
pub mod transaction;
pub mod tx_chunk;
pub mod utils;
pub mod valids;

pub use crate::error::ContractError;
