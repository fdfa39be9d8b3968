use terranova::error::{ContractError, ExitError, RecordKind, StdError, Violation};
use terranova::executor_state::{Apply, ExecutorState, ExecutorSubstate, Transfer};
use terranova::message::execute_chunked_transaction::process;
use terranova::message::execute_simple_transaction::{execute, Execution};
use terranova::primitives::{H160, U256};
use terranova::storage::{CwStorageInterface, EvmState, StorageInterface};
use terranova::tx_chunk::collect_chunks;
use terranova::utils::keccak256_h256;

fn store() -> CwStorageInterface {
    let mut s = CwStorageInterface::new_mut(EvmState::new(), 1, 0, 789).unwrap();
    s.airdrop_write_balance(&addr(1));
    s
}

fn addr(n: u128) -> H160 {
    H160 { hi: 0, lo: n }
}

fn word(n: u64) -> U256 {
    U256::from_u64(n)
}

fn journal_of_a_transfer(s: &CwStorageInterface) -> ExecutorSubstate {
    let mut j = ExecutorSubstate::new(s);
    j.inc_nonce(addr(1), s).unwrap();
    j.transfer(&Transfer { source: addr(1), target: addr(2), value: word(10) }, s).unwrap();
    j.set_code(addr(3), vec![0x5b], s);
    j
}

#[test]
fn a_successful_transaction_is_committed() {
    let mut s = store();
    let j = journal_of_a_transfer(&s);
    let e = Execution { succeeded: true, return_value: vec![1, 2], used_gas: word(21_000) };
    assert_eq!(execute(&mut s, addr(1), word(21_000), e, j), Ok(vec![1, 2]));
    assert_eq!(s.balance(&addr(1)), word(99_999_990));
    assert_eq!(s.balance(&addr(2)), word(10));
    assert_eq!(s.nonce(&addr(1)), word(1));
    assert_eq!(s.code(&addr(3)), vec![0x5b]);
}

#[test]
fn a_failed_transaction_only_counts_for_the_nonce() {
    let mut s = store();
    let j = journal_of_a_transfer(&s);
    let e = Execution { succeeded: false, return_value: vec![9], used_gas: word(5) };
    assert_eq!(execute(&mut s, addr(1), word(21_000), e, j), Ok(vec![9]));
    assert_eq!(s.balance(&addr(1)), word(100_000_000));
    assert_eq!(s.balance(&addr(2)), U256::zero());
    assert!(!s.account_exists(&addr(2)));
    assert_eq!(s.nonce(&addr(1)), word(1));
    assert_eq!(s.code(&addr(3)), Vec::<u8>::new());
}

#[test]
fn a_transaction_over_its_gas_limit_is_not_committed_and_answers_nothing() {
    let mut s = store();
    let j = journal_of_a_transfer(&s);
    let e = Execution { succeeded: true, return_value: vec![1, 2], used_gas: word(21_001) };
    assert_eq!(execute(&mut s, addr(1), word(21_000), e, j), Ok(vec![]));
    assert_eq!(s.balance(&addr(1)), word(100_000_000));
    assert_eq!(s.nonce(&addr(1)), word(1));
    assert!(!s.account_exists(&addr(2)));
}

#[test]
fn a_commit_that_fails_hands_the_error_on() {
    let mut s = store();
    let mut j = ExecutorSubstate::new(&s);
    j.set_storage(addr(4), word(1), word(1));
    let e = Execution { succeeded: true, return_value: vec![1], used_gas: word(1) };
    assert_eq!(
        execute(&mut s, addr(1), word(2), e, j),
        Err(ContractError::Std(StdError::NotFound { kind: RecordKind::EvmContract }))
    );
    assert_eq!(s.nonce(&addr(1)), U256::zero());
}

#[test]
fn a_query_answers_what_was_returned_within_the_limit() {
    use_answer(word(5), word(5), vec![7, 8]);
    use_answer(word(6), word(5), vec![]);
}

fn use_answer(used_gas: U256, gas_limit: U256, expected: Vec<u8>) {
    let e = Execution { succeeded: true, return_value: vec![7, 8], used_gas };
    let r = terranova::message::raw_ethereum_query::execute(gas_limit, e).unwrap();
    assert_eq!(r.result, expected);
    let e = Execution { succeeded: false, return_value: vec![7, 8], used_gas };
    assert_eq!(e.into_answer(&gas_limit), expected);
}

#[test]
fn executor_state_holds_journal_and_backend() {
    let s = store();
    let j = journal_of_a_transfer(&s);
    let state = ExecutorState::new(j, &s);
    assert_eq!(state.backend().balance(&addr(1)), word(100_000_000));
    assert_eq!(state.substate().known_balance(&addr(1)), Some(word(99_999_990)));
    assert!(state.substate().is_root());
    let (applies, logs, transfers) = state.deconstruct();
    assert_eq!(applies.len(), 2);
    assert!(logs.is_empty());
    assert_eq!(transfers, vec![Transfer { source: addr(1), target: addr(2), value: word(10) }]);
    assert!(matches!(&applies[0], Apply::Modify { address, nonce, .. } if *address == addr(1) && *nonce == word(1)));
    assert!(matches!(&applies[1], Apply::Modify { address, code_and_valids: Some((code, valids)), .. }
        if *address == addr(3) && *code == vec![0x5b] && *valids == vec![1]));
}

#[test]
fn chunks_are_joined_in_order() {
    assert_eq!(collect_chunks(&vec![]), Ok(vec![]));
    assert_eq!(
        collect_chunks(&vec![Some(vec![1, 2]), Some(vec![]), Some(vec![3])]),
        Ok(vec![1, 2, 3])
    );
}

#[test]
fn a_missing_chunk_is_reported() {
    assert_eq!(
        collect_chunks(&vec![Some(vec![1, 2]), None, Some(vec![3])]),
        Err(ContractError::TxChunksMissing)
    );
    assert_eq!(collect_chunks(&vec![None]), Err(ContractError::TxChunksMissing));
}

#[test]
fn chunks_must_hash_to_what_the_sender_said() {
    let chunks = vec![Some(vec![1, 2]), Some(vec![3])];
    let hash = keccak256_h256(&[1, 2, 3]);
    assert_eq!(process(hash, &chunks), Ok(vec![1, 2, 3]));
    let other = keccak256_h256(&[1, 2]);
    assert_eq!(process(other, &chunks), Err(ContractError::InvalidTxChunks));
    let missing = vec![Some(vec![1, 2]), None];
    assert_eq!(process(other, &missing), Err(ContractError::TxChunksMissing));
}

#[test]
fn errors_say_what_went_wrong() {
    assert_eq!(
        ContractError::InsufficientFunds.message(),
        "Terranova EVM transfer failed due to insufficient funds in the caller account"
    );
    assert_eq!(ContractError::ContractCreationFailed.message(), "Contract creation failed");
    assert_eq!(ContractError::InvalidTransactionData.message(), "The unsigned transaction is invalid");
    assert_eq!(ContractError::BalanceOverflow.message(), "An account balance overflowed");
    assert_eq!(ContractError::NonceOverflow.message(), "An account nonce overflowed");
    assert_eq!(
        ContractError::InvalidTxChunks.message(),
        "The collected chunks of the transaction do not match the provided hash"
    );
    assert_eq!(
        ContractError::TxChunksMissing.message(),
        "One or more of the chunks for this transaction are still missing"
    );
    assert_eq!(
        ContractError::QueryChangedState.message(),
        "The provided query is invalid because it tried to incur a state change"
    );
    assert_eq!(
        ContractError::Std(StdError::NotFound { kind: RecordKind::EvmAccount }).message(),
        "EvmAccount not found"
    );
    assert_eq!(
        ContractError::Std(StdError::NotFound { kind: RecordKind::EvmContract }).message(),
        "EvmContract not found"
    );
    assert_ne!(
        ContractError::ProtocolViolation(Violation::DeleteOfNonContract).message(),
        ContractError::ProtocolViolation(Violation::NonceNotIncreasing).message()
    );
    assert_ne!(ExitError::OutOfFund, ExitError::InvalidRange);
    assert_ne!(ExitError::MaxNonce, ExitError::InvalidRange);
}
