//! What holds of the journal whatever a transaction does with it.

use crate::error::ExitError;
use crate::executor_state::{
    committed, committed_to_root, is_diff, keyed, lemma_commit_leaves_one_frame_fewer, ApplyView,
    SubstateView, Transfer,
};
use crate::ordered_map::lemma_same_map_same_entries;
use crate::primitives::{StorageKey, H160, H256, U256};
use crate::storage::StorageInterface;
use vstd::prelude::*;

verus! {

/// Committing a frame changes nothing that the transaction can see:
/// every lookup answers in the parent that the commit leaves as it
/// answered in the child before. So what a child wrote is visible in
/// its parent once the child has committed.
pub proof fn lemma_commit_keeps_what_is_known(child: SubstateView, address: H160, key: U256)
    requires
        child.parent is Some,
    ensures
        ({
            let merged = committed(*child.parent->0, child);
            &&& merged.known_storage(address, key) == child.known_storage(address, key)
            &&& merged.known_original_storage(address, key) == child.known_original_storage(
                address,
                key,
            )
            &&& merged.known_balance(address) == child.known_balance(address)
            &&& merged.known_nonce(address) == child.known_nonce(address)
            &&& merged.known_code(address) == child.known_code(address)
            &&& merged.known_valids(address) == child.known_valids(address)
            &&& merged.known_empty(address) == child.known_empty(address)
            &&& merged.deleted(address) == child.deleted(address)
        }),
{
    reveal_with_fuel(SubstateView::known_storage, 3);
    reveal_with_fuel(SubstateView::known_original_storage, 3);
    reveal_with_fuel(SubstateView::known_balance, 3);
    reveal_with_fuel(SubstateView::known_account, 3);
    reveal_with_fuel(SubstateView::deleted, 3);
}

/// However deep the journal is nested, committing every frame changes
/// nothing that the transaction can see: the root that is left answers
/// every lookup as the innermost frame did.
pub proof fn lemma_commits_keep_what_is_known(view: SubstateView, address: H160, key: U256)
    ensures
        ({
            let root = committed_to_root(view);
            &&& root.parent is None
            &&& root.known_storage(address, key) == view.known_storage(address, key)
            &&& root.known_original_storage(address, key) == view.known_original_storage(
                address,
                key,
            )
            &&& root.known_balance(address) == view.known_balance(address)
            &&& root.known_nonce(address) == view.known_nonce(address)
            &&& root.known_code(address) == view.known_code(address)
            &&& root.known_valids(address) == view.known_valids(address)
            &&& root.known_empty(address) == view.known_empty(address)
            &&& root.deleted(address) == view.deleted(address)
        }),
    decreases view.frames_below(),
{
    if view.parent is Some {
        lemma_commit_leaves_one_frame_fewer(view);
        lemma_commit_keeps_what_is_known(view, address, key);
        lemma_commits_keep_what_is_known(committed(*view.parent->0, view), address, key);
    }
}

/// A write to a slot in a frame that then commits is what the parent
/// holds for the slot.
pub proof fn lemma_committed_write_is_visible(
    child: SubstateView,
    address: H160,
    key: U256,
    value: U256,
)
    requires
        child.parent is Some,
        child.storages.contains_key(StorageKey { address, slot: key }),
        child.storages[StorageKey { address, slot: key }] == value,
    ensures
        committed(*child.parent->0, child).known_storage(address, key) == Some(value),
{
    lemma_commit_keeps_what_is_known(child, address, key);
}

/// Whatever a frame has come to hold, leaving it by revert or discard
/// gives back the journal as it was when the frame was entered: what
/// the frame wrote is gone, and the parent's events and transfers are
/// as they were.
pub proof fn lemma_dropped_frame_leaves_parent(before: SubstateView, child: SubstateView)
    requires
        child.parent == Some(Box::new(before)),
    ensures
        *child.parent->0 == before,
        (*child.parent->0).logs == before.logs,
        (*child.parent->0).transfers == before.transfers,
        forall|address: H160, key: U256|
            (*child.parent->0).known_storage(address, key) == before.known_storage(address, key),
{
}

/// Reading a balance twice, with no write between, gives the same
/// balance, and the second read neither asks the backend nor changes
/// the journal: it answers the same whatever is stored.
pub proof fn lemma_balance_read_is_remembered(
    view: SubstateView,
    address: H160,
    stored: U256,
    other: U256,
)
    ensures
        ({
            let first = view.balance(address, stored);
            let after = view.remembering(address, stored);
            &&& after.known_balance(address) == Some(first)
            &&& after.balance(address, other) == first
            &&& after.remembering(address, other) == after
        }),
{
}

/// Reading a block's hash twice gives the same hash, and the second
/// read neither asks the backend nor changes the journal.
pub proof fn lemma_block_hash_read_is_remembered(
    view: SubstateView,
    number: U256,
    stored: H256,
    other: H256,
)
    ensures
        ({
            let first = view.block_hash(number, stored);
            let after = view.remembering_hash(number, stored);
            &&& after.block_hash(number, other) == first
            &&& after.remembering_hash(number, other) == after
        }),
{
}

/// A transfer that fails moves nothing: every account's balance reads
/// as before, and no transfer, event, record, write or deletion is
/// added. All that the frame may have gained is the memory of the
/// balances it read.
pub proof fn lemma_failed_transfer_changes_no_balance(
    view: SubstateView,
    transfer: Transfer,
    stored: spec_fn(H160) -> U256,
    address: H160,
)
    requires
        view.transferred(transfer, stored(transfer.source), stored(transfer.target)).0 is Err,
    ensures
        ({
            let after = view.transferred(
                transfer,
                stored(transfer.source),
                stored(transfer.target),
            ).1;
            &&& after.balance(address, stored(address)) == view.balance(address, stored(address))
            &&& after.transfers == view.transfers
            &&& after.logs == view.logs
            &&& after.accounts == view.accounts
            &&& after.storages == view.storages
            &&& after.deletes == view.deletes
            &&& after.parent == view.parent
        }),
{
}

/// A transfer fails if and only if the source holds less than the value
/// or the target would leave the 256-bit range, and says which.
pub proof fn lemma_transfer_outcome(
    view: SubstateView,
    transfer: Transfer,
    stored_source: U256,
    stored_target: U256,
)
    ensures
        ({
            let r = view.transferred(transfer, stored_source, stored_target).0;
            let source = view.balance(transfer.source, stored_source);
            let target = view.remembering(transfer.source, stored_source).balance(
                transfer.target,
                stored_target,
            );
            &&& r == Err::<(), ExitError>(ExitError::OutOfFund) <==> source@ < transfer.value@
            &&& r == Err::<(), ExitError>(ExitError::InvalidRange) <==> (source@
                >= transfer.value@ && target@ + transfer.value@ >= crate::primitives::pow2_256())
        }),
{
}

/// A root frame has one diff: two sequences of instructions that both
/// are a diff of the same frame over the same backend are the same
/// sequence.
pub proof fn lemma_diff_is_unique<B: StorageInterface>(
    view: SubstateView,
    backend: &B,
    first: Seq<ApplyView>,
    first_split: int,
    second: Seq<ApplyView>,
    second_split: int,
)
    requires
        is_diff(view, backend, first, first_split),
        is_diff(view, backend, second, second_split),
    ensures
        first == second,
        first_split == second_split,
{
    lemma_same_map_same_entries(keyed(first.take(first_split)), keyed(second.take(second_split)));
    lemma_same_map_same_entries(keyed(first.skip(first_split)), keyed(second.skip(second_split)));
    assert(keyed(first.take(first_split)).len() == first_split);
    assert(keyed(second.take(second_split)).len() == second_split);
    assert(keyed(first.skip(first_split)).len() == first.len() - first_split);
    assert(keyed(second.skip(second_split)).len() == second.len() - second_split);
    assert forall|i: int| 0 <= i < first.len() implies first[i] == second[i] by {
        if i < first_split {
            assert(keyed(first.take(first_split))[i].1 == first[i]);
            assert(keyed(second.take(second_split))[i].1 == second[i]);
        } else {
            assert(keyed(first.skip(first_split))[i - first_split].1 == first[i]);
            assert(keyed(second.skip(second_split))[i - first_split].1 == second[i]);
        }
    }
    assert(first =~= second);
}

/// Where a committing child had reset an account, the parent's own
/// writes to the account's slots are gone: the merged frame holds for
/// them what the child wrote, and zero for every other slot; and the
/// account's record in the merged frame is marked reset.
pub proof fn lemma_commit_propagates_reset(
    parent: SubstateView,
    child: SubstateView,
    address: H160,
    key: U256,
)
    requires
        child.accounts.contains_key(address),
        child.accounts[address].reset,
    ensures
        ({
            let merged = committed(parent, child);
            let slot = StorageKey { address, slot: key };
            &&& merged.storages.contains_key(slot) == child.storages.contains_key(slot)
            &&& merged.storages.contains_key(slot) ==> merged.storages[slot]
                == child.storages[slot]
            &&& merged.accounts.contains_key(address)
            &&& merged.accounts[address].reset
            &&& merged.known_storage(address, key) == (if child.storages.contains_key(slot) {
                Some(child.storages[slot])
            } else {
                Some(U256 { hi: 0, lo: 0 })
            })
        }),
{
}

/// An account that the parent had reset stays marked reset when a child
/// commits, whatever the child's record of it says.
pub proof fn lemma_commit_keeps_parent_reset(
    parent: SubstateView,
    child: SubstateView,
    address: H160,
)
    requires
        parent.accounts.contains_key(address),
        parent.accounts[address].reset,
    ensures
        committed(parent, child).accounts.contains_key(address),
        committed(parent, child).accounts[address].reset,
{
}

} // verus!
