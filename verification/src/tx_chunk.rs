//! Transactions that arrive in chunks, because they are too long for one
//! message.

use crate::error::ContractError;
use vstd::prelude::*;

verus! {

/// The bytes of the first `n` chunks, one after the other. A chunk that
/// is missing adds nothing.
pub open spec fn joined(chunks: Seq<Option<Vec<u8>>>, n: int) -> Seq<u8>
    decreases n,
{
    if n <= 0 {
        Seq::empty()
    } else {
        match chunks[n - 1] {
            Some(chunk) => joined(chunks, n - 1) + chunk@,
            None => joined(chunks, n - 1),
        }
    }
}

/// Whether each of the chunks was stored.
pub open spec fn all_stored(chunks: Seq<Option<Vec<u8>>>) -> bool {
    forall|i: int| 0 <= i < chunks.len() ==> (#[trigger] chunks[i]) is Some
}

/// Puts the chunks of a transaction together, in order: for each index
/// the chunk that was stored under it, or `None`. Where one is missing
/// the transaction cannot be had yet.
pub fn collect_chunks(chunks: &Vec<Option<Vec<u8>>>) -> (r: Result<Vec<u8>, ContractError>)
    ensures
        match r {
            Ok(bytes) => all_stored(chunks@) && bytes@ == joined(chunks@, chunks@.len() as int),
            Err(e) => !all_stored(chunks@) && e == ContractError::TxChunksMissing,
        },
{
    let mut collected_bytes: Vec<u8> = Vec::new();
    let mut i: usize = 0;
    while i < chunks.len()
        invariant
            i <= chunks@.len(),
            forall|j: int| 0 <= j < i ==> (#[trigger] chunks@[j]) is Some,
            collected_bytes@ == joined(chunks@, i as int),
        decreases chunks@.len() - i,
    {
        match &chunks[i] {
            Some(chunk) => {
                let mut j: usize = 0;
                let ghost before = collected_bytes@;
                while j < chunk.len()
                    invariant
                        j <= chunk@.len(),
                        collected_bytes@ == before + chunk@.take(j as int),
                    decreases chunk@.len() - j,
                {
                    collected_bytes.push(chunk[j]);
                    assert(collected_bytes@ =~= before + chunk@.take(j + 1));
                    j += 1;
                }
                assert(chunk@.take(chunk@.len() as int) =~= chunk@);
            },
            None => {
                return Err(ContractError::TxChunksMissing);
            },
        }
        i += 1;
    }
    Ok(collected_bytes)
}

} // verus!
