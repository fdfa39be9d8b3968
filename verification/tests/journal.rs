use terranova::account::EvmAccount;
use terranova::error::ExitError;
use terranova::executor_state::{
    Apply, ExecutorAccount, ExecutorMetadata, ExecutorSubstate, Transfer,
};
use terranova::primitives::{H160, H256, U256};
use terranova::storage::{CwStorageInterface, EvmState, StorageInterface};
use terranova::valids::compute;

const HEIGHT: u64 = 12_345;
const TIME: u64 = 1_571_797_419_879_305_533;

fn backend_over(state: EvmState) -> CwStorageInterface {
    CwStorageInterface::new_mut(state, HEIGHT, TIME, 789).unwrap()
}

fn backend() -> CwStorageInterface {
    backend_over(EvmState::new())
}

fn addr(n: u128) -> H160 {
    H160 { hi: 0, lo: n }
}

fn word(n: u64) -> U256 {
    U256::from_u64(n)
}

fn modify_of(apply: &Apply) -> (H160, U256, Option<(Vec<u8>, Vec<u8>)>, Vec<(U256, U256)>, bool) {
    match apply {
        Apply::Modify { address, nonce, code_and_valids, storage, reset_storage } => {
            let mut slots = Vec::new();
            for i in 0..storage.len() {
                slots.push((storage.key_at(i), *storage.value_at(i)));
            }
            (*address, *nonce, code_and_valids.clone(), slots, *reset_storage)
        }
        Apply::Delete { .. } => panic!("a deletion where a modification was expected"),
    }
}

#[test]
fn root_metadata_comes_from_the_backend() {
    let b = backend();
    let m = ExecutorMetadata::new(&b);
    assert!(!m.is_static());
    assert_eq!(m.depth(), None);
    assert_eq!(*m.block_number(), word(12_345));
    assert_eq!(*m.block_timestamp(), word(1_571_797_419));
    let s = ExecutorSubstate::new(&b);
    assert!(s.is_root());
    assert_eq!(s.metadata().depth(), None);
    assert_eq!(*s.metadata().block_number(), word(12_345));
}

#[test]
fn child_metadata_is_deeper_and_static_sticks() {
    let b = backend();
    let m = ExecutorMetadata::new(&b);
    let c = m.spit_child(false);
    assert_eq!(c.depth(), Some(0));
    assert!(!c.is_static());
    let d = c.spit_child(true);
    assert_eq!(d.depth(), Some(1));
    assert!(d.is_static());
    let e = d.spit_child(false);
    assert_eq!(e.depth(), Some(2));
    assert!(e.is_static());
    assert_eq!(*e.block_number(), word(12_345));
    assert_eq!(*e.block_timestamp(), word(1_571_797_419));
}

#[test]
fn swallowing_metadata_changes_nothing() {
    let b = backend();
    let mut m = ExecutorMetadata::new(&b);
    let other = m.spit_child(true);
    assert_eq!(m.swallow_commit(other), Ok(()));
    assert_eq!(m.swallow_revert(other), Ok(()));
    assert_eq!(m.swallow_discard(other), Ok(()));
    assert_eq!(m.depth(), None);
    assert!(!m.is_static());
}

#[test]
fn metadata_can_be_changed_in_place() {
    let b = backend();
    let mut s = ExecutorSubstate::new(&b);
    s.metadata_mut().is_static = true;
    assert!(s.metadata().is_static());
}

#[test]
fn enter_and_exit_walk_the_frames() {
    let b = backend();
    let mut s = ExecutorSubstate::new(&b);
    s.enter(false);
    assert!(!s.is_root());
    assert_eq!(s.metadata().depth(), Some(0));
    s.enter(true);
    assert_eq!(s.metadata().depth(), Some(1));
    assert!(s.metadata().is_static());
    assert_eq!(s.exit_discard(), Ok(()));
    assert_eq!(s.metadata().depth(), Some(0));
    assert!(!s.metadata().is_static());
    assert_eq!(s.exit_commit(), Ok(()));
    assert!(s.is_root());
    assert_eq!(s.metadata().depth(), None);
}

#[test]
fn transfer_from_an_empty_account_is_out_of_fund() {
    let b = backend();
    let mut s = ExecutorSubstate::new(&b);
    let t = Transfer { source: addr(1), target: addr(2), value: word(100) };
    assert_eq!(s.transfer(&t, &b), Err(ExitError::OutOfFund));
    assert_eq!(s.balance(&addr(1), &b), U256::zero());
    assert_eq!(s.balance(&addr(2), &b), U256::zero());
    let (applies, logs, transfers) = s.deconstruct(&b);
    assert!(applies.is_empty());
    assert!(logs.is_empty());
    assert!(transfers.is_empty());
}

#[test]
fn transfer_moves_the_value_and_is_recorded() {
    let mut b = backend();
    b.airdrop_write_balance(&addr(1));
    let mut s = ExecutorSubstate::new(&b);
    let t = Transfer { source: addr(1), target: addr(2), value: word(123_456) };
    assert_eq!(s.transfer(&t, &b), Ok(()));
    assert_eq!(s.balance(&addr(1), &b), word(99_876_544));
    assert_eq!(s.balance(&addr(2), &b), word(123_456));
    assert_eq!(s.known_balance(&addr(1)), Some(word(99_876_544)));
    let (applies, _logs, transfers) = s.deconstruct(&b);
    assert!(applies.is_empty());
    assert_eq!(transfers, vec![t]);
}

#[test]
fn transfer_that_would_overflow_the_target_is_invalid_range() {
    let mut state = EvmState::new();
    let mut rich = EvmAccount::new_user_account(&addr(2));
    rich.balance = U256::max_value();
    state.accounts.insert(addr(2), rich);
    let mut b = backend_over(state);
    b.airdrop_write_balance(&addr(1));
    let mut s = ExecutorSubstate::new(&b);
    let t = Transfer { source: addr(1), target: addr(2), value: word(1) };
    assert_eq!(s.transfer(&t, &b), Err(ExitError::InvalidRange));
    assert_eq!(s.balance(&addr(1), &b), word(100_000_000));
    assert_eq!(s.balance(&addr(2), &b), U256::max_value());
    let (_applies, _logs, transfers) = s.deconstruct(&b);
    assert!(transfers.is_empty());
}

#[test]
fn transfer_of_the_whole_balance_leaves_zero() {
    let mut b = backend();
    b.airdrop_write_balance(&addr(1));
    let mut s = ExecutorSubstate::new(&b);
    let t = Transfer { source: addr(1), target: addr(2), value: word(100_000_000) };
    assert_eq!(s.transfer(&t, &b), Ok(()));
    assert_eq!(s.balance(&addr(1), &b), U256::zero());
    assert_eq!(s.balance(&addr(2), &b), word(100_000_000));
    let more = Transfer { source: addr(1), target: addr(2), value: word(1) };
    assert_eq!(s.transfer(&more, &b), Err(ExitError::OutOfFund));
}

#[test]
fn balance_is_fetched_once_and_then_remembered() {
    let mut b = backend();
    let mut s = ExecutorSubstate::new(&b);
    assert_eq!(s.known_balance(&addr(1)), None);
    assert_eq!(s.balance(&addr(1), &b), U256::zero());
    assert_eq!(s.known_balance(&addr(1)), Some(U256::zero()));
    b.airdrop_write_balance(&addr(1));
    assert_eq!(s.balance(&addr(1), &b), U256::zero());
    assert_eq!(s.balance(&addr(1), &b), U256::zero());
    let mut fresh = ExecutorSubstate::new(&b);
    assert_eq!(fresh.balance(&addr(1), &b), word(100_000_000));
}

#[test]
fn balance_of_a_parent_is_seen_by_its_child() {
    let mut b = backend();
    b.airdrop_write_balance(&addr(1));
    let mut s = ExecutorSubstate::new(&b);
    s.reset_balance(addr(1));
    s.enter(false);
    assert_eq!(s.known_balance(&addr(1)), Some(U256::zero()));
    assert_eq!(s.balance(&addr(1), &b), U256::zero());
}

#[test]
fn block_hash_is_what_the_backend_reports() {
    let b = backend();
    let mut s = ExecutorSubstate::new(&b);
    assert_eq!(s.block_hash(word(5), &b), H256::zero());
    assert_eq!(s.block_hash(word(5), &b), b.block_hash(word(5)));
}

#[test]
fn committed_write_is_visible_in_the_parent() {
    let b = backend();
    let mut s = ExecutorSubstate::new(&b);
    s.enter(false);
    s.set_storage(addr(7), word(1), word(42));
    assert_eq!(s.known_storage(addr(7), word(1)), Some(word(42)));
    s.exit_commit().unwrap();
    assert!(s.is_root());
    assert_eq!(s.known_storage(addr(7), word(1)), Some(word(42)));
}

#[test]
fn reverted_and_discarded_writes_are_gone() {
    let mut b = backend();
    b.airdrop_write_balance(&addr(1));
    let mut s = ExecutorSubstate::new(&b);
    s.set_storage(addr(7), word(1), word(1));
    s.log(addr(7), vec![H256::zero()], vec![1, 2, 3]);
    s.transfer(&Transfer { source: addr(1), target: addr(2), value: word(5) }, &b).unwrap();

    s.enter(false);
    s.set_storage(addr(7), word(1), word(2));
    s.set_storage(addr(7), word(2), word(3));
    s.set_deleted(addr(9));
    s.log(addr(8), vec![], vec![9]);
    s.transfer(&Transfer { source: addr(1), target: addr(3), value: word(6) }, &b).unwrap();
    s.inc_nonce(addr(1), &b).unwrap();
    assert_eq!(s.known_storage(addr(7), word(1)), Some(word(2)));
    assert!(s.deleted(addr(9)));
    s.exit_revert().unwrap();

    assert_eq!(s.known_storage(addr(7), word(1)), Some(word(1)));
    assert_eq!(s.known_storage(addr(7), word(2)), None);
    assert!(!s.deleted(addr(9)));
    assert_eq!(s.known_nonce(addr(1)), None);
    assert_eq!(s.known_balance(&addr(3)), None);
    assert_eq!(s.known_balance(&addr(1)), Some(word(99_999_995)));

    s.enter(true);
    s.set_storage(addr(7), word(1), word(4));
    s.exit_discard().unwrap();
    assert_eq!(s.known_storage(addr(7), word(1)), Some(word(1)));

    let (_applies, logs, transfers) = s.deconstruct(&b);
    assert_eq!(logs.len(), 1);
    assert_eq!(logs[0].address, addr(7));
    assert_eq!(logs[0].topics, vec![H256::zero()]);
    assert_eq!(logs[0].data, vec![1, 2, 3]);
    assert_eq!(transfers, vec![Transfer { source: addr(1), target: addr(2), value: word(5) }]);
}

#[test]
fn commit_appends_logs_and_transfers_and_merges_balances() {
    let mut b = backend();
    b.airdrop_write_balance(&addr(1));
    let mut s = ExecutorSubstate::new(&b);
    let first = Transfer { source: addr(1), target: addr(2), value: word(5) };
    let second = Transfer { source: addr(2), target: addr(3), value: word(2) };
    s.log(addr(1), vec![], vec![1]);
    s.transfer(&first, &b).unwrap();
    s.enter(false);
    s.log(addr(2), vec![], vec![2]);
    s.transfer(&second, &b).unwrap();
    s.set_deleted(addr(4));
    s.exit_commit().unwrap();
    assert_eq!(s.known_balance(&addr(1)), Some(word(99_999_995)));
    assert_eq!(s.known_balance(&addr(2)), Some(word(3)));
    assert_eq!(s.known_balance(&addr(3)), Some(word(2)));
    assert!(s.deleted(addr(4)));
    let (applies, logs, transfers) = s.deconstruct(&b);
    assert_eq!(transfers, vec![first, second]);
    assert_eq!(logs.len(), 2);
    assert_eq!(logs[0].data, vec![1]);
    assert_eq!(logs[1].data, vec![2]);
    assert_eq!(applies.len(), 1);
    assert!(matches!(&applies[0], Apply::Delete { address } if *address == addr(4)));
}

#[test]
fn nonce_starts_from_the_stored_one_and_counts_up() {
    let mut b = backend();
    b.increment_nonce(&addr(1)).unwrap();
    b.increment_nonce(&addr(1)).unwrap();
    let mut s = ExecutorSubstate::new(&b);
    assert_eq!(s.known_nonce(addr(1)), None);
    assert_eq!(s.inc_nonce(addr(1), &b), Ok(()));
    assert_eq!(s.known_nonce(addr(1)), Some(word(3)));
    s.enter(false);
    assert_eq!(s.inc_nonce(addr(1), &b), Ok(()));
    assert_eq!(s.known_nonce(addr(1)), Some(word(4)));
    assert_eq!(s.inc_nonce(addr(2), &b), Ok(()));
    assert_eq!(s.known_nonce(addr(2)), Some(word(1)));
    s.exit_commit().unwrap();
    assert_eq!(s.known_nonce(addr(1)), Some(word(4)));
    assert_eq!(s.known_nonce(addr(2)), Some(word(1)));
}

#[test]
fn touch_records_the_account_without_changing_it() {
    let mut b = backend();
    b.increment_nonce(&addr(1)).unwrap();
    let mut s = ExecutorSubstate::new(&b);
    s.touch(addr(1), &b);
    assert_eq!(s.known_nonce(addr(1)), Some(word(1)));
    assert_eq!(s.known_code(addr(1)), None);
    assert_eq!(s.known_valids(addr(1)), None);
    s.touch(addr(1), &b);
    assert_eq!(s.known_nonce(addr(1)), Some(word(1)));
}

#[test]
fn set_code_stores_code_and_its_bitmap() {
    let b = backend();
    let mut s = ExecutorSubstate::new(&b);
    let code = vec![0x5b, 0x60, 0x5b, 0x5b, 0x00];
    s.set_code(addr(3), code.clone(), &b);
    assert_eq!(s.known_code(addr(3)), Some(code.clone()));
    assert_eq!(s.known_valids(addr(3)), Some(vec![0b0000_1001]));
    assert_eq!(s.known_valids(addr(3)), Some(compute(&code)));
    assert_eq!(s.known_nonce(addr(3)), Some(U256::zero()));
    s.enter(false);
    assert_eq!(s.known_code(addr(3)), Some(code));
}

#[test]
fn known_empty_tells_what_it_can() {
    let b = backend();
    let mut s = ExecutorSubstate::new(&b);
    assert_eq!(s.known_empty(addr(1)), None);
    s.balance(&addr(1), &b);
    assert_eq!(s.known_empty(addr(1)), None);
    s.touch(addr(1), &b);
    assert_eq!(s.known_empty(addr(1)), None);
    s.set_code(addr(1), vec![], &b);
    assert_eq!(s.known_empty(addr(1)), Some(true));
    s.set_code(addr(1), vec![0x00], &b);
    assert_eq!(s.known_empty(addr(1)), Some(false));
    s.set_code(addr(1), vec![], &b);
    s.inc_nonce(addr(1), &b).unwrap();
    assert_eq!(s.known_empty(addr(1)), Some(false));
}

#[test]
fn known_empty_is_false_for_an_account_with_balance() {
    let mut b = backend();
    b.airdrop_write_balance(&addr(1));
    let mut s = ExecutorSubstate::new(&b);
    s.balance(&addr(1), &b);
    assert_eq!(s.known_empty(addr(1)), Some(false));
}

#[test]
fn reset_storage_drops_writes_and_reads_as_zero() {
    let b = backend();
    let mut s = ExecutorSubstate::new(&b);
    s.set_storage(addr(1), word(1), word(10));
    s.set_storage(addr(1), word(2), word(20));
    s.set_storage(addr(2), word(1), word(30));
    assert_eq!(s.known_original_storage(addr(1), word(1)), None);
    s.reset_storage(addr(1), &b);
    assert_eq!(s.known_storage(addr(1), word(1)), Some(U256::zero()));
    assert_eq!(s.known_storage(addr(1), word(9)), Some(U256::zero()));
    assert_eq!(s.known_original_storage(addr(1), word(1)), Some(U256::zero()));
    assert_eq!(s.known_storage(addr(2), word(1)), Some(word(30)));
    assert_eq!(s.known_original_storage(addr(2), word(1)), None);
    s.set_storage(addr(1), word(2), word(21));
    assert_eq!(s.known_storage(addr(1), word(2)), Some(word(21)));
}

#[test]
fn commit_of_a_reset_clears_the_parents_writes() {
    let b = backend();
    let mut s = ExecutorSubstate::new(&b);
    s.set_storage(addr(1), word(1), word(10));
    s.set_storage(addr(1), word(2), word(20));
    s.set_storage(addr(2), word(1), word(5));
    s.enter(false);
    s.reset_storage(addr(1), &b);
    s.set_storage(addr(1), word(3), word(30));
    s.exit_commit().unwrap();
    assert_eq!(s.known_storage(addr(1), word(1)), Some(U256::zero()));
    assert_eq!(s.known_storage(addr(1), word(2)), Some(U256::zero()));
    assert_eq!(s.known_storage(addr(1), word(3)), Some(word(30)));
    assert_eq!(s.known_storage(addr(2), word(1)), Some(word(5)));
    let (applies, _logs, _transfers) = s.deconstruct(&b);
    assert_eq!(applies.len(), 2);
    assert_eq!(
        modify_of(&applies[0]),
        (addr(1), U256::zero(), None, vec![(word(3), word(30))], true)
    );
    assert_eq!(
        modify_of(&applies[1]),
        (addr(2), U256::zero(), None, vec![(word(1), word(5))], false)
    );
}

#[test]
fn reset_of_the_parent_survives_a_childs_touch() {
    let b = backend();
    let mut s = ExecutorSubstate::new(&b);
    s.reset_storage(addr(1), &b);
    s.enter(false);
    s.inc_nonce(addr(1), &b).unwrap();
    assert_eq!(s.known_storage(addr(1), word(1)), Some(U256::zero()));
    s.exit_commit().unwrap();
    assert_eq!(s.known_storage(addr(1), word(1)), Some(U256::zero()));
    let (applies, _logs, _transfers) = s.deconstruct(&b);
    assert_eq!(applies.len(), 1);
    assert_eq!(modify_of(&applies[0]), (addr(1), word(1), None, vec![], true));
}

#[test]
fn deconstruct_lists_modifications_by_address_then_deletions() {
    let mut b = backend();
    b.increment_nonce(&addr(5)).unwrap();
    let mut s = ExecutorSubstate::new(&b);
    let code = vec![0x5b, 0x00];
    s.set_storage(addr(5), word(2), word(22));
    s.set_storage(addr(5), word(1), word(11));
    s.set_code(addr(3), code.clone(), &b);
    s.inc_nonce(addr(3), &b).unwrap();
    s.set_storage(addr(9), word(1), word(1));
    s.set_deleted(addr(9));
    s.set_deleted(addr(8));
    s.touch(addr(4), &b);
    let (applies, logs, transfers) = s.deconstruct(&b);
    assert!(logs.is_empty());
    assert!(transfers.is_empty());
    assert_eq!(applies.len(), 5);
    assert_eq!(
        modify_of(&applies[0]),
        (addr(3), word(1), Some((code.clone(), compute(&code))), vec![], false)
    );
    assert_eq!(modify_of(&applies[1]), (addr(4), U256::zero(), None, vec![], false));
    assert_eq!(
        modify_of(&applies[2]),
        (addr(5), word(1), None, vec![(word(1), word(11)), (word(2), word(22))], false)
    );
    assert!(matches!(&applies[3], Apply::Delete { address } if *address == addr(8)));
    assert!(matches!(&applies[4], Apply::Delete { address } if *address == addr(9)));
}

#[test]
fn deconstruct_does_not_depend_on_the_order_of_writes() {
    let b = backend();
    let mut first = ExecutorSubstate::new(&b);
    first.set_storage(addr(2), word(1), word(1));
    first.set_storage(addr(1), word(2), word(2));
    first.inc_nonce(addr(3), &b).unwrap();
    first.set_deleted(addr(7));
    first.set_deleted(addr(6));
    let mut second = ExecutorSubstate::new(&b);
    second.set_deleted(addr(6));
    second.inc_nonce(addr(3), &b).unwrap();
    second.set_storage(addr(1), word(2), word(2));
    second.set_deleted(addr(7));
    second.set_storage(addr(2), word(1), word(1));
    let a = first.deconstruct(&b);
    let c = second.deconstruct(&b);
    assert_eq!(format!("{:?}", a), format!("{:?}", c));
    assert_eq!(a.0.len(), 5);
}

#[test]
fn account_copy_is_equal_in_every_field() {
    let a = ExecutorAccount {
        nonce: word(3),
        code: Some(vec![1, 2]),
        valids: Some(vec![0]),
        reset: true,
    };
    let c = a.duplicate();
    assert_eq!(c.nonce, word(3));
    assert_eq!(c.code, Some(vec![1, 2]));
    assert_eq!(c.valids, Some(vec![0]));
    assert!(c.reset);
}

#[test]
fn writes_of_nested_frames_reach_the_root_when_all_commit() {
    let mut b = backend();
    b.airdrop_write_balance(&addr(1));
    let mut s = ExecutorSubstate::new(&b);
    s.set_storage(addr(7), word(1), word(1));
    s.enter(false);
    s.set_storage(addr(7), word(2), word(2));
    s.enter(false);
    s.set_storage(addr(7), word(1), word(3));
    s.set_code(addr(8), vec![0x00], &b);
    s.transfer(&Transfer { source: addr(1), target: addr(2), value: word(1) }, &b).unwrap();
    s.enter(true);
    s.set_deleted(addr(9));
    s.inc_nonce(addr(1), &b).unwrap();
    assert_eq!(s.metadata().depth(), Some(2));
    s.exit_commit().unwrap();
    s.exit_commit().unwrap();
    s.exit_commit().unwrap();
    assert!(s.is_root());
    assert_eq!(s.known_storage(addr(7), word(1)), Some(word(3)));
    assert_eq!(s.known_storage(addr(7), word(2)), Some(word(2)));
    assert_eq!(s.known_code(addr(8)), Some(vec![0x00]));
    assert_eq!(s.known_balance(&addr(2)), Some(word(1)));
    assert_eq!(s.known_nonce(addr(1)), Some(word(1)));
    assert!(s.deleted(addr(9)));
    assert_eq!(s.known_empty(addr(8)), None);
}

#[test]
fn a_revert_in_the_middle_drops_only_its_own_frames() {
    let b = backend();
    let mut s = ExecutorSubstate::new(&b);
    s.enter(false);
    s.set_storage(addr(7), word(1), word(1));
    s.enter(false);
    s.set_storage(addr(7), word(2), word(2));
    s.enter(false);
    s.set_storage(addr(7), word(3), word(3));
    s.exit_commit().unwrap();
    assert_eq!(s.known_storage(addr(7), word(3)), Some(word(3)));
    s.exit_revert().unwrap();
    assert_eq!(s.known_storage(addr(7), word(3)), None);
    assert_eq!(s.known_storage(addr(7), word(2)), None);
    assert_eq!(s.known_storage(addr(7), word(1)), Some(word(1)));
    s.exit_commit().unwrap();
    assert!(s.is_root());
    assert_eq!(s.known_storage(addr(7), word(1)), Some(word(1)));
}
