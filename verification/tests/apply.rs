use terranova::account::EvmAccount;
use terranova::error::{ContractError, RecordKind, StdError, Violation};
use terranova::executor_state::{Apply, Log, Transfer};
use terranova::ordered_map::OrderedMap;
use terranova::primitives::{StorageKey, H160, H256, U256};
use terranova::storage::{CwStorageInterface, EvmState, StorageInterface};
use terranova::utils::keccak256_h256;
use terranova::valids::compute;

fn store_over(state: EvmState) -> CwStorageInterface {
    CwStorageInterface::new_mut(state, 12_345, 1_571_797_419_879_305_533, 789).unwrap()
}

fn store() -> CwStorageInterface {
    store_over(EvmState::new())
}

fn addr(n: u128) -> H160 {
    H160 { hi: 0, lo: n }
}

fn word(n: u64) -> U256 {
    U256::from_u64(n)
}

fn slots(pairs: &[(u64, u64)]) -> OrderedMap<U256, U256> {
    let mut m = OrderedMap::new();
    for (k, v) in pairs {
        m.insert(word(*k), word(*v));
    }
    m
}

fn modify(address: H160, nonce: U256, code: Option<Vec<u8>>, storage: &[(u64, u64)], reset: bool) -> Apply {
    Apply::Modify {
        address,
        nonce,
        code_and_valids: code.map(|c| {
            let v = compute(&c);
            (c, v)
        }),
        storage: slots(storage),
        reset_storage: reset,
    }
}

fn stored_slots(s: CwStorageInterface) -> Vec<(StorageKey, U256)> {
    s.into_state().contract_storage.into_entries()
}

#[test]
fn a_new_store_reads_as_empty() {
    let s = store();
    assert_eq!(s.block_number(), word(12_345));
    assert_eq!(s.block_timestamp(), word(1_571_797_419));
    assert_eq!(s.block_hash(word(1)), H256::zero());
    assert_eq!(s.chain_id(), 789);
    assert!(!s.account_exists(&addr(1)));
    assert_eq!(s.nonce(&addr(1)), U256::zero());
    assert_eq!(s.balance(&addr(1)), U256::zero());
    assert_eq!(s.code_size(&addr(1)), 0);
    assert_eq!(s.code_hash(&addr(1)), H256::zero());
    assert_eq!(s.code(&addr(1)), Vec::<u8>::new());
    assert_eq!(s.valids(&addr(1)), Vec::<u8>::new());
    assert_eq!(s.storage(&addr(1), &word(1)), U256::zero());
}

#[test]
fn a_store_for_reading_reads_the_state_given() {
    let mut state = EvmState::new();
    let mut account = EvmAccount::new_user_account(&addr(1));
    account.balance = word(5);
    account.trx_count = 2;
    state.accounts.insert(addr(1), account);
    let s = CwStorageInterface::new_ref(state, 1, 999_999_999, 2).unwrap();
    assert_eq!(s.balance(&addr(1)), word(5));
    assert_eq!(s.nonce(&addr(1)), word(2));
    assert_eq!(s.block_number(), word(1));
    assert_eq!(s.block_timestamp(), U256::zero());
    assert_eq!(s.chain_id(), 2);
}

#[test]
fn new_account_record_is_blank() {
    let a = EvmAccount::new_user_account(&addr(9));
    assert_eq!(a.address, addr(9));
    assert_eq!(a.bump_seed, 0);
    assert_eq!(a.trx_count, 0);
    assert_eq!(a.contract_storage_key, None);
    assert_eq!(a.balance, U256::zero());
    assert!(!a.rw_blocked);
    assert_eq!(a.ro_blocked_count, 0);
}

#[test]
fn deploy_stores_code_and_marks_the_account() {
    let mut s = store();
    let code = vec![0x60, 0x80, 0x60, 0x40, 0x52, 0x5b, 0x00];
    let diff = vec![modify(addr(0xc), word(1), Some(code.clone()), &[], false)];
    assert_eq!(s.apply_state_change((diff, vec![], vec![])), Ok(()));
    assert!(s.account_exists(&addr(0xc)));
    assert_eq!(s.code(&addr(0xc)), code);
    assert_eq!(s.code_size(&addr(0xc)), 7);
    assert_eq!(s.valids(&addr(0xc)), compute(&code));
    assert_eq!(s.code_hash(&addr(0xc)), keccak256_h256(&code));
    assert_eq!(s.nonce(&addr(0xc)), word(1));
    let state = s.into_state();
    let contract = state.contracts.get(&addr(0xc)).unwrap();
    assert_eq!(contract.code_size, 7);
    assert_eq!(contract.code, code);
    assert_eq!(state.accounts.get(&addr(0xc)).unwrap().contract_storage_key, Some(addr(0xc)));
}

#[test]
fn reset_leaves_only_the_new_slots() {
    let mut s = store();
    let d = addr(0xd);
    let first = vec![modify(d, word(1), Some(vec![0x00]), &[(1, 10), (2, 20), (3, 30)], false)];
    assert_eq!(s.apply_state_change((first, vec![], vec![])), Ok(()));
    assert_eq!(s.storage(&d, &word(2)), word(20));
    let second = vec![modify(d, word(1), None, &[(7, 70), (8, 80)], true)];
    assert_eq!(s.apply_state_change((second, vec![], vec![])), Ok(()));
    assert_eq!(s.storage(&d, &word(1)), U256::zero());
    assert_eq!(s.storage(&d, &word(7)), word(70));
    assert_eq!(
        stored_slots(s),
        vec![
            (StorageKey { address: d, slot: word(7) }, word(70)),
            (StorageKey { address: d, slot: word(8) }, word(80)),
        ]
    );
}

#[test]
fn reset_leaves_the_slots_of_other_contracts() {
    let mut s = store();
    let diff = vec![
        modify(addr(1), word(1), Some(vec![0x00]), &[(1, 10)], false),
        modify(addr(2), word(1), Some(vec![0x00]), &[(1, 20)], false),
        modify(addr(1), word(1), None, &[], true),
    ];
    assert_eq!(s.apply_state_change((diff, vec![], vec![])), Ok(()));
    assert_eq!(
        stored_slots(s),
        vec![(StorageKey { address: addr(2), slot: word(1) }, word(20))]
    );
}

#[test]
fn writes_without_reset_go_over_the_stored_slots() {
    let mut s = store();
    let d = addr(0xd);
    let diff = vec![
        modify(d, word(1), Some(vec![0x00]), &[(1, 10), (2, 20)], false),
        modify(d, word(1), None, &[(2, 21), (3, 30)], false),
    ];
    assert_eq!(s.apply_state_change((diff, vec![], vec![])), Ok(()));
    assert_eq!(
        stored_slots(s),
        vec![
            (StorageKey { address: d, slot: word(1) }, word(10)),
            (StorageKey { address: d, slot: word(2) }, word(21)),
            (StorageKey { address: d, slot: word(3) }, word(30)),
        ]
    );
}

#[test]
fn a_lower_nonce_is_a_broken_protocol() {
    let mut s = store();
    let a = addr(1);
    assert_eq!(s.apply_state_change((vec![modify(a, word(5), None, &[], false)], vec![], vec![])), Ok(()));
    assert_eq!(s.nonce(&a), word(5));
    let lower = vec![modify(a, word(4), Some(vec![0x00]), &[(1, 1)], false)];
    assert_eq!(
        s.apply_state_change((lower, vec![], vec![])),
        Err(ContractError::ProtocolViolation(Violation::NonceNotIncreasing))
    );
    assert_eq!(s.nonce(&a), word(5));
    assert_eq!(s.code(&a), Vec::<u8>::new());
    assert_eq!(
        s.apply_state_change((vec![modify(a, U256::zero(), None, &[], false)], vec![], vec![])),
        Err(ContractError::ProtocolViolation(Violation::NonceNotIncreasing))
    );
}

#[test]
fn the_stored_nonce_again_changes_nothing() {
    let mut s = store();
    let a = addr(1);
    assert_eq!(s.apply_state_change((vec![modify(a, word(5), None, &[], false)], vec![], vec![])), Ok(()));
    assert_eq!(s.apply_state_change((vec![modify(a, word(5), None, &[], false)], vec![], vec![])), Ok(()));
    assert_eq!(s.nonce(&a), word(5));
    assert_eq!(s.apply_state_change((vec![modify(a, word(6), None, &[], false)], vec![], vec![])), Ok(()));
    assert_eq!(s.nonce(&a), word(6));
}

#[test]
fn a_nonce_beyond_64_bits_overflows() {
    let mut s = store();
    let a = addr(1);
    let too_big = U256::from_u128(u64::MAX as u128 + 1);
    assert_eq!(
        s.apply_state_change((vec![modify(a, too_big, None, &[], false)], vec![], vec![])),
        Err(ContractError::NonceOverflow)
    );
    assert!(s.account_exists(&a));
    assert_eq!(s.nonce(&a), U256::zero());
    let top = U256::from_u64(u64::MAX);
    assert_eq!(s.apply_state_change((vec![modify(a, top, None, &[], false)], vec![], vec![])), Ok(()));
    assert_eq!(s.nonce(&a), top);
    assert_eq!(s.increment_nonce(&a), Err(ContractError::NonceOverflow));
    assert_eq!(s.nonce(&a), top);
}

#[test]
fn increment_nonce_counts_from_zero() {
    let mut s = store();
    assert_eq!(s.increment_nonce(&addr(1)), Ok(()));
    assert!(s.account_exists(&addr(1)));
    assert_eq!(s.nonce(&addr(1)), word(1));
    assert_eq!(s.increment_nonce(&addr(1)), Ok(()));
    assert_eq!(s.nonce(&addr(1)), word(2));
    assert_eq!(s.balance(&addr(1)), U256::zero());
}

#[test]
fn only_a_contract_can_be_deleted() {
    let mut s = store();
    s.airdrop_write_balance(&addr(1));
    assert_eq!(
        s.apply_state_change((vec![Apply::Delete { address: addr(1) }], vec![], vec![])),
        Err(ContractError::ProtocolViolation(Violation::DeleteOfNonContract))
    );
    assert!(s.account_exists(&addr(1)));
    assert_eq!(
        s.apply_state_change((vec![Apply::Delete { address: addr(2) }], vec![], vec![])),
        Err(ContractError::ProtocolViolation(Violation::DeleteOfNonContract))
    );
}

#[test]
fn delete_removes_account_and_contract() {
    let mut s = store();
    let c = addr(3);
    let diff = vec![modify(c, word(1), Some(vec![0x5b]), &[], false), Apply::Delete { address: c }];
    assert_eq!(s.apply_state_change((diff, vec![], vec![])), Ok(()));
    assert!(!s.account_exists(&c));
    assert_eq!(s.code(&c), Vec::<u8>::new());
    assert_eq!(s.code_size(&c), 0);
    assert_eq!(s.nonce(&c), U256::zero());
    let state = s.into_state();
    assert!(state.accounts.is_empty());
    assert!(state.contracts.is_empty());
}

#[test]
fn slots_need_a_contract_record() {
    let mut s = store();
    let missing = Err(ContractError::Std(StdError::NotFound { kind: RecordKind::EvmContract }));
    assert_eq!(
        s.apply_state_change((vec![modify(addr(1), word(1), None, &[(1, 1)], false)], vec![], vec![])),
        missing
    );
    assert_eq!(s.nonce(&addr(1)), word(1));
    assert_eq!(
        s.apply_state_change((vec![modify(addr(1), word(1), None, &[], true)], vec![], vec![])),
        missing
    );
    assert!(stored_slots(s).is_empty());
}

#[test]
fn the_first_failing_instruction_ends_the_diff() {
    let mut s = store();
    let diff = vec![
        modify(addr(1), word(1), None, &[], false),
        Apply::Delete { address: addr(2) },
        modify(addr(3), word(1), None, &[], false),
    ];
    assert_eq!(
        s.apply_state_change((diff, vec![], vec![])),
        Err(ContractError::ProtocolViolation(Violation::DeleteOfNonContract))
    );
    assert_eq!(s.nonce(&addr(1)), word(1));
    assert!(!s.account_exists(&addr(3)));
}

#[test]
fn transfer_without_funds_is_insufficient() {
    let mut s = store();
    let t = Transfer { source: addr(1), target: addr(2), value: word(100) };
    assert_eq!(s.apply_state_change((vec![], vec![], vec![t])), Err(ContractError::InsufficientFunds));
    assert_eq!(s.balance(&addr(1)), U256::zero());
    assert_eq!(s.balance(&addr(2)), U256::zero());
    assert!(s.account_exists(&addr(1)));
    assert!(s.account_exists(&addr(2)));
}

#[test]
fn transfer_over_the_range_overflows() {
    let mut state = EvmState::new();
    let mut rich = EvmAccount::new_user_account(&addr(2));
    rich.balance = U256::max_value();
    state.accounts.insert(addr(2), rich);
    let mut s = store_over(state);
    s.airdrop_write_balance(&addr(1));
    let t = Transfer { source: addr(1), target: addr(2), value: word(1) };
    assert_eq!(s.apply_state_change((vec![], vec![], vec![t])), Err(ContractError::BalanceOverflow));
    assert_eq!(s.balance(&addr(1)), word(100_000_000));
    assert_eq!(s.balance(&addr(2)), U256::max_value());
}

#[test]
fn transfers_move_balances_in_order() {
    let mut s = store();
    s.airdrop_write_balance(&addr(1));
    let transfers = vec![
        Transfer { source: addr(1), target: addr(2), value: word(123_456) },
        Transfer { source: addr(2), target: addr(3), value: word(456) },
    ];
    assert_eq!(s.apply_state_change((vec![], vec![], transfers)), Ok(()));
    assert_eq!(s.balance(&addr(1)), word(99_876_544));
    assert_eq!(s.balance(&addr(2)), word(123_000));
    assert_eq!(s.balance(&addr(3)), word(456));
}

#[test]
fn a_failing_transfer_keeps_the_diff_from_being_applied() {
    let mut s = store();
    s.airdrop_write_balance(&addr(1));
    let transfers = vec![
        Transfer { source: addr(1), target: addr(2), value: word(10) },
        Transfer { source: addr(3), target: addr(2), value: word(1) },
        Transfer { source: addr(1), target: addr(2), value: word(10) },
    ];
    let diff = vec![modify(addr(9), word(1), Some(vec![0x00]), &[], false)];
    assert_eq!(s.apply_state_change((diff, vec![], transfers)), Err(ContractError::InsufficientFunds));
    assert_eq!(s.balance(&addr(1)), word(99_999_990));
    assert_eq!(s.balance(&addr(2)), word(10));
    assert!(!s.account_exists(&addr(9)));
    assert_eq!(s.code(&addr(9)), Vec::<u8>::new());
}

#[test]
fn airdrop_sets_the_balance() {
    let mut s = store();
    s.airdrop_write_balance(&addr(1));
    assert_eq!(s.balance(&addr(1)), word(100_000_000));
    assert_eq!(s.nonce(&addr(1)), U256::zero());
    s.increment_nonce(&addr(1)).unwrap();
    s.airdrop_write_balance(&addr(1));
    assert_eq!(s.balance(&addr(1)), word(100_000_000));
    assert_eq!(s.nonce(&addr(1)), word(1));
}

#[test]
fn airdrop_deploys_a_contract() {
    let mut s = store();
    let code = vec![0x5b, 0x60, 0x5b];
    s.airdrop_deploy_contract(&addr(4), code.clone());
    assert_eq!(s.code(&addr(4)), code);
    assert_eq!(s.valids(&addr(4)), vec![0b0000_0001]);
    assert_eq!(s.nonce(&addr(4)), word(1));
    assert_eq!(s.code_size(&addr(4)), 3);
}

#[test]
fn events_are_taken_and_not_kept() {
    let mut s = store();
    let logs = vec![Log { address: addr(1), topics: vec![H256::zero()], data: vec![1] }];
    assert_eq!(s.apply_state_change((vec![], logs, vec![])), Ok(()));
    let state = s.into_state();
    assert!(state.accounts.is_empty());
    assert!(state.contracts.is_empty());
    assert!(state.contract_storage.is_empty());
}
