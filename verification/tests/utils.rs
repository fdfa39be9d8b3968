use terranova::config::chain_id_dummy;
use terranova::executor_state::{ExecutorState, ExecutorSubstate};
use terranova::gasometer::Gasometer;
use terranova::storage::{CwStorageInterface, EvmState};
use terranova::transaction::UnsignedTransaction;
use terranova::primitives::{H160, H256, U256};
use terranova::utils::{keccak256_digest, keccak256_h256, parse_h160, parse_hex, u256_to_h256};
use terranova::valids::compute;

#[test]
fn parse_hex_reads_pairs_of_digits() {
    assert_eq!(parse_hex("0x00ff10"), vec![0x00, 0xff, 0x10]);
    assert_eq!(parse_hex("0xDeadBEEF"), vec![0xde, 0xad, 0xbe, 0xef]);
    assert_eq!(parse_hex("0x"), Vec::<u8>::new());
}

#[test]
fn parse_hex_of_a_text_shorter_than_its_prefix_is_empty() {
    assert_eq!(parse_hex(""), Vec::<u8>::new());
    assert_eq!(parse_hex("a"), Vec::<u8>::new());
}

#[test]
fn parse_hex_skips_the_prefix_whatever_it_is() {
    assert_eq!(parse_hex("ab12"), vec![0x12]);
    assert_eq!(parse_hex("zz0a0b"), vec![0x0a, 0x0b]);
}

#[test]
fn parse_hex_skips_other_bytes_and_a_lone_last_digit() {
    assert_eq!(parse_hex("0x12 34-5g6"), vec![0x12, 0x34, 0x56]);
    assert_eq!(parse_hex("0x123"), vec![0x12]);
    assert_eq!(parse_hex("0x1"), Vec::<u8>::new());
}

#[test]
fn parse_h160_reads_twenty_bytes() {
    let a = parse_h160("0xB34e2213751c5d8e9a31355fcA6F1B4FA5bB6bE1");
    assert_eq!(a, H160 { hi: 0xB34e2213, lo: 0x751c5d8e9a31355fcA6F1B4FA5bB6bE1 });
}

#[test]
fn parse_h160_pads_short_text_with_zeros_at_the_end() {
    assert_eq!(parse_h160("0x01"), H160 { hi: 0x0100_0000, lo: 0 });
    assert_eq!(parse_h160("0x0000000005"), H160 { hi: 0, lo: 0x05u128 << 120 });
    assert_eq!(parse_h160("0x"), H160::zero());
}

#[test]
fn keccak256_of_nothing() {
    let expected = parse_hex("0xc5d2460186f7233c927e7db2dcc703c0e500b653ca82273b7bfad8045d85a470");
    assert_eq!(keccak256_digest(&[]), expected);
    assert_eq!(
        keccak256_h256(&[]),
        H256 { hi: 0xc5d2460186f7233c927e7db2dcc703c0, lo: 0xe500b653ca82273b7bfad8045d85a470 }
    );
}

#[test]
fn keccak256_of_text() {
    let expected = parse_hex("0x1c8aff950685c2ed4bc3174f3472287b56d9517b9c948127319a09a7a36deac8");
    assert_eq!(keccak256_digest(b"hello"), expected);
    assert_eq!(
        keccak256_h256(b"hello"),
        H256 { hi: 0x1c8aff950685c2ed4bc3174f3472287b, lo: 0x56d9517b9c948127319a09a7a36deac8 }
    );
}

#[test]
fn word_to_hash_keeps_the_number() {
    assert_eq!(u256_to_h256(U256 { hi: 7, lo: 9 }), H256 { hi: 7, lo: 9 });
    assert_eq!(u256_to_h256(U256::zero()), H256::zero());
}

#[test]
fn valids_of_empty_code_is_one_clear_byte() {
    assert_eq!(compute(&vec![]), vec![0u8]);
}

#[test]
fn valids_marks_jump_destinations_and_skips_push_data() {
    // JUMPDEST, PUSH1 0x5b, JUMPDEST
    assert_eq!(compute(&vec![0x5b, 0x60, 0x5b, 0x5b]), vec![0b0000_1001]);
    // PUSH2 0x5b5b, JUMPDEST
    assert_eq!(compute(&vec![0x61, 0x5b, 0x5b, 0x5b]), vec![0b0000_1000]);
    // STOP, STOP: nothing to jump to
    assert_eq!(compute(&vec![0x00, 0x00]), vec![0u8]);
}

#[test]
fn valids_spans_bytes_lowest_bit_first() {
    let mut code = vec![0u8; 17];
    code[0] = 0x5b;
    code[7] = 0x5b;
    code[8] = 0x5b;
    code[16] = 0x5b;
    assert_eq!(compute(&code), vec![0b1000_0001, 0b0000_0001, 0b0000_0001]);
    let code = vec![0x5b; 8];
    assert_eq!(compute(&code), vec![0xff, 0x00]);
}

#[test]
fn valids_agrees_with_the_jump_table() {
    let code = parse_hex("0x608060405234801561001057600080fd5b50600436106100365760003560e01c80632e64cec11461003b5780636057361d14610059575b600080fd5b");
    let table = evm::Valids::new(&code);
    let bitmap = compute(&code);
    assert_eq!(bitmap.len(), code.len() / 8 + 1);
    for i in 0..code.len() {
        assert_eq!(bitmap[i / 8] & (1 << (i % 8)) != 0, table.is_valid(i));
    }
    assert!((0..code.len()).any(|i| table.is_valid(i)));
}

#[test]
fn chain_id_is_the_configured_one() {
    assert_eq!(chain_id_dummy(), 789_789_789);
}

#[test]
fn gasometer_counts_nothing_yet() {
    let store = CwStorageInterface::new_ref(EvmState::new(), 1, 0, 1).unwrap();
    let state = ExecutorState::new(ExecutorSubstate::new(&store), &store);
    let trx = UnsignedTransaction::from_rlp(&parse_hex(
        "0xe00101830186a094b34e2213751c5d8e9a31755fca6f1b4fa5bb6be18301e24080",
    ))
    .unwrap();
    let mut g = Gasometer::new();
    assert_eq!(g.used_gas(), U256::zero());
    g.record_iterative_overhead();
    g.record_transaction_size(&trx);
    g.record_evm_steps(100);
    g.pad_evm_steps(7);
    g.record_storage_write(&state, H160::zero(), U256::one());
    g.record_deploy(&state, H160::zero());
    g.record_transfer(&state, H160::zero(), U256::one());
    assert_eq!(g.used_gas(), U256::zero());
}

#[test]
fn every_message_passes_validation() {
    assert_eq!(terranova::message::execute_simple_transaction::validate(), Ok(()));
    assert_eq!(terranova::message::raw_ethereum_query::validate(), Ok(()));
    assert_eq!(terranova::message::store_transaction_chunk::validate(), Ok(()));
    assert_eq!(terranova::message::transaction_execute_simple::validate(), Ok(()));
}
