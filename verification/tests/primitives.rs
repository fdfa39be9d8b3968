use terranova::ordered_map::{OrderedMap, OrderedSet};
use terranova::primitives::{StorageKey, H160, H256, U256};

#[test]
fn word_constants() {
    assert_eq!(U256::zero(), U256 { hi: 0, lo: 0 });
    assert_eq!(U256::one(), U256 { hi: 0, lo: 1 });
    assert_eq!(U256::max_value(), U256 { hi: u128::MAX, lo: u128::MAX });
    assert_eq!(U256::from_u64(7), U256 { hi: 0, lo: 7 });
    assert_eq!(U256::from_u128(u128::MAX), U256 { hi: 0, lo: u128::MAX });
    assert!(U256::zero().is_zero());
    assert!(!U256::one().is_zero());
    assert!(!U256 { hi: 1, lo: 0 }.is_zero());
}

#[test]
fn word_from_limbs_puts_least_significant_first() {
    assert_eq!(U256::from_limbs([1, 0, 0, 0]), U256 { hi: 0, lo: 1 });
    assert_eq!(U256::from_limbs([0, 1, 0, 0]), U256 { hi: 0, lo: 1u128 << 64 });
    assert_eq!(U256::from_limbs([0, 0, 1, 0]), U256 { hi: 1, lo: 0 });
    assert_eq!(U256::from_limbs([0, 0, 0, 1]), U256 { hi: 1u128 << 64, lo: 0 });
    assert_eq!(U256::from_limbs([u64::MAX; 4]), U256::max_value());
}

#[test]
fn word_addition_carries_and_detects_overflow() {
    let a = U256 { hi: 0, lo: u128::MAX };
    assert_eq!(a.checked_add(U256::one()), Some(U256 { hi: 1, lo: 0 }));
    assert_eq!(a.checked_add(a), Some(U256 { hi: 1, lo: u128::MAX - 1 }));
    assert_eq!(U256::max_value().checked_add(U256::one()), None);
    assert_eq!(U256::max_value().checked_add(U256::zero()), Some(U256::max_value()));
    let half = U256 { hi: 1u128 << 127, lo: 0 };
    assert_eq!(half.checked_add(half), None);
    assert_eq!(U256::from_u64(2).checked_add(U256::from_u64(3)), Some(U256::from_u64(5)));
}

#[test]
fn word_subtraction_borrows_and_detects_underflow() {
    let a = U256 { hi: 1, lo: 0 };
    assert_eq!(a.checked_sub(U256::one()), Some(U256 { hi: 0, lo: u128::MAX }));
    assert_eq!(U256::zero().checked_sub(U256::one()), None);
    assert_eq!(U256::from_u64(5).checked_sub(U256::from_u64(5)), Some(U256::zero()));
    assert_eq!(U256 { hi: 2, lo: 1 }.checked_sub(U256 { hi: 1, lo: 2 }), Some(U256 { hi: 0, lo: u128::MAX }));
    assert_eq!(U256 { hi: 1, lo: 2 }.checked_sub(U256 { hi: 2, lo: 1 }), None);
}

#[test]
fn word_order_and_width() {
    assert!(U256::from_u64(1).lt(&U256::from_u64(2)));
    assert!(!U256::from_u64(2).lt(&U256::from_u64(2)));
    assert!(U256 { hi: 0, lo: u128::MAX }.lt(&U256 { hi: 1, lo: 0 }));
    assert!(U256 { hi: 1, lo: 0 }.gt(&U256 { hi: 0, lo: u128::MAX }));
    assert!(U256::from_u64(u64::MAX).fits_u64());
    assert!(!U256::from_u128(u64::MAX as u128 + 1).fits_u64());
    assert!(!U256 { hi: 1, lo: 0 }.fits_u64());
    assert_eq!(U256::from_u64(u64::MAX).as_u64(), u64::MAX);
    assert_eq!(U256::from_u64(42).as_u64(), 42);
}

#[test]
fn address_from_bytes_reads_big_endian() {
    let mut bytes = [0u8; 20];
    bytes[19] = 1;
    assert_eq!(H160::from_bytes(&bytes), H160 { hi: 0, lo: 1 });
    let mut bytes = [0u8; 20];
    bytes[0] = 0xb3;
    bytes[3] = 0x13;
    bytes[4] = 0x75;
    assert_eq!(H160::from_bytes(&bytes), H160 { hi: 0xb300_0013, lo: 0x75u128 << 120 });
    assert_eq!(H160::from_bytes(&[0xff; 20]), H160 { hi: u32::MAX, lo: u128::MAX });
    assert_eq!(H160::zero(), H160 { hi: 0, lo: 0 });
}

#[test]
fn hash_from_bytes_reads_big_endian() {
    let mut bytes = [0u8; 32];
    bytes[0] = 1;
    bytes[31] = 2;
    assert_eq!(H256::from_bytes(&bytes), H256 { hi: 1u128 << 120, lo: 2 });
    assert_eq!(H256::from_bytes(&[0xff; 32]), H256 { hi: u128::MAX, lo: u128::MAX });
    assert_eq!(H256::zero(), H256 { hi: 0, lo: 0 });
}

#[test]
fn ordered_map_keeps_keys_ascending() {
    let mut m: OrderedMap<U256, u32> = OrderedMap::new();
    assert!(m.is_empty());
    m.insert(U256::from_u64(30), 3);
    m.insert(U256::from_u64(10), 1);
    m.insert(U256 { hi: 1, lo: 0 }, 9);
    m.insert(U256::from_u64(20), 2);
    assert_eq!(m.len(), 4);
    assert!(!m.is_empty());
    assert_eq!(m.key_at(0), U256::from_u64(10));
    assert_eq!(m.key_at(1), U256::from_u64(20));
    assert_eq!(m.key_at(2), U256::from_u64(30));
    assert_eq!(m.key_at(3), U256 { hi: 1, lo: 0 });
    assert_eq!(*m.value_at(1), 2);
    assert_eq!(m.get(&U256::from_u64(20)), Some(&2));
    assert_eq!(m.get(&U256::from_u64(25)), None);
    assert!(m.contains_key(&U256::from_u64(30)));
    assert!(!m.contains_key(&U256::from_u64(31)));
}

#[test]
fn ordered_map_insert_replaces_and_remove_takes_out() {
    let mut m: OrderedMap<U256, u32> = OrderedMap::new();
    m.insert(U256::from_u64(1), 10);
    m.insert(U256::from_u64(2), 20);
    m.insert(U256::from_u64(1), 11);
    assert_eq!(m.len(), 2);
    assert_eq!(m.get(&U256::from_u64(1)), Some(&11));
    assert_eq!(m.remove(&U256::from_u64(1)), Some(11));
    assert_eq!(m.remove(&U256::from_u64(1)), None);
    assert_eq!(m.len(), 1);
    assert_eq!(m.key_at(0), U256::from_u64(2));
    assert_eq!(m.into_entries(), vec![(U256::from_u64(2), 20)]);
}

#[test]
fn ordered_map_append_prefers_the_appended() {
    let mut a: OrderedMap<U256, u32> = OrderedMap::new();
    a.insert(U256::from_u64(1), 1);
    a.insert(U256::from_u64(3), 3);
    let mut b: OrderedMap<U256, u32> = OrderedMap::new();
    b.insert(U256::from_u64(3), 33);
    b.insert(U256::from_u64(2), 22);
    a.append(b);
    assert_eq!(
        a.into_entries(),
        vec![(U256::from_u64(1), 1), (U256::from_u64(2), 22), (U256::from_u64(3), 33)]
    );
}

#[test]
fn ordered_set_holds_each_member_once() {
    let mut s: OrderedSet<H160> = OrderedSet::new();
    let a = H160 { hi: 1, lo: 0 };
    let b = H160 { hi: 0, lo: 5 };
    s.insert(a);
    s.insert(b);
    s.insert(a);
    assert_eq!(s.len(), 2);
    assert_eq!(s.key_at(0), b);
    assert_eq!(s.key_at(1), a);
    assert!(s.contains(&a));
    assert!(!s.contains(&H160 { hi: 0, lo: 6 }));
    let mut t: OrderedSet<H160> = OrderedSet::new();
    t.insert(H160 { hi: 0, lo: 1 });
    t.insert(a);
    s.append(t);
    assert_eq!(s.len(), 3);
    assert_eq!(s.key_at(0), H160 { hi: 0, lo: 1 });
}

#[test]
fn storage_keys_order_by_address_then_slot() {
    let mut m: OrderedMap<StorageKey, u8> = OrderedMap::new();
    let low = H160 { hi: 0, lo: 1 };
    let high = H160 { hi: 0, lo: 2 };
    m.insert(StorageKey { address: high, slot: U256::zero() }, 3);
    m.insert(StorageKey { address: low, slot: U256::max_value() }, 2);
    m.insert(StorageKey { address: low, slot: U256::one() }, 1);
    assert_eq!(*m.value_at(0), 1);
    assert_eq!(*m.value_at(1), 2);
    assert_eq!(*m.value_at(2), 3);
}
