//! Settings that stand in until the host supplies its own.

use vstd::prelude::*;

verus! {

/// The chain id that the execution layer reports.
pub fn chain_id_dummy() -> (r: u64)
    ensures
        r == 789_789_789,
{
    789_789_789_u64
}

} // verus!
