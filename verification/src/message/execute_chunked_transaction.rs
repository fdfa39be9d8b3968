//! The checks on a transaction whose chunks were stored one by one.

use crate::error::ContractError;
use crate::primitives::{be_value, H256};
use crate::tx_chunk::{all_stored, collect_chunks, joined};
use crate::utils::{keccak256, keccak256_h256};
use vstd::prelude::*;

verus! {

/// Puts the stored chunks of a transaction together and holds them to
/// the hash that the sender gave for the whole: `TxChunksMissing` where
/// a chunk was not stored, `InvalidTxChunks` where the Keccak-256 digest
/// of the chunks together is not that hash, else the transaction's
/// bytes.
pub fn process(full_tx_hash: H256, chunks: &Vec<Option<Vec<u8>>>) -> (r: Result<
    Vec<u8>,
    ContractError,
>)
    ensures
        match r {
            Ok(bytes) => {
                &&& all_stored(chunks@)
                &&& bytes@ == joined(chunks@, chunks@.len() as int)
                &&& full_tx_hash@ == be_value(keccak256(bytes@))
            },
            Err(e) => if !all_stored(chunks@) {
                e == ContractError::TxChunksMissing
            } else {
                &&& e == ContractError::InvalidTxChunks
                &&& full_tx_hash@ != be_value(keccak256(joined(chunks@, chunks@.len() as int)))
            },
        },
{
    let collected_tx_bytes = match collect_chunks(chunks) {
        Ok(bytes) => bytes,
        Err(e) => {
            return Err(e);
        },
    };
    let hash = keccak256_h256(collected_tx_bytes.as_slice());
    if full_tx_hash != hash {
        return Err(ContractError::InvalidTxChunks);
    }
    Ok(collected_tx_bytes)
}

} // verus!
