//! Hashing and the reading of hexadecimal text.

use crate::primitives::{be_value, H160, H256, U256};
use vstd::prelude::*;
use vstd::string::StringSliceAdditionalSpecFns;

verus! {

/// The Keccak-256 digest of `data`, as `tiny_keccak::keccak256` computes it.
pub uninterp spec fn keccak256(data: Seq<u8>) -> Seq<u8>;

/// Calls `tiny_keccak::keccak256`, which hashes its input with
/// Keccak-256 into 32 bytes. Taken on trust: that the digest depends on
/// the input alone, so that it is [`keccak256`] of it.
#[verifier::external_body]
fn keccak256_bytes(data: &[u8]) -> (digest: [u8; 32])
    ensures
        digest@ == keccak256(data@),
{
    tiny_keccak::keccak256(data)
}

/// The Keccak-256 digest of `data` as a hash.
pub fn keccak256_h256(data: &[u8]) -> (r: H256)
    ensures
        r@ == be_value(keccak256(data@)),
{
    let digest = keccak256_bytes(data);
    H256::from_bytes(&digest)
}

/// The Keccak-256 digest of `data` as bytes.
pub fn keccak256_digest(data: &[u8]) -> (r: Vec<u8>)
    ensures
        r@ == keccak256(data@),
{
    let digest = keccak256_bytes(data);
    let mut r: Vec<u8> = Vec::new();
    let mut i: usize = 0;
    while i < 32
        invariant
            i <= 32,
            r@ == digest@.take(i as int),
        decreases 32 - i,
    {
        r.push(digest[i]);
        assert(r@ =~= digest@.take(i + 1));
        i += 1;
    }
    assert(digest@.take(32) =~= digest@);
    r
}

/// The hash whose 32 bytes spell `value` big-endian.
pub fn u256_to_h256(value: U256) -> (r: H256)
    ensures
        r@ == value@,
{
    H256 { hi: value.hi, lo: value.lo }
}

/// Whether `b` is an ASCII hexadecimal digit, of either case.
pub open spec fn is_hex_digit(b: u8) -> bool {
    (0x30 <= b <= 0x39) || (0x61 <= b <= 0x66) || (0x41 <= b <= 0x46)
}

/// The value of a hexadecimal digit.
pub open spec fn hex_value(b: u8) -> int {
    if 0x30 <= b <= 0x39 {
        b - 0x30
    } else if 0x61 <= b <= 0x66 {
        b - 0x61 + 10
    } else {
        b - 0x41 + 10
    }
}

/// The hexadecimal digits among `bytes`, in order.
pub open spec fn hex_digits(bytes: Seq<u8>) -> Seq<u8>
    decreases bytes.len(),
{
    if bytes.len() == 0 {
        Seq::empty()
    } else if is_hex_digit(bytes.last()) {
        hex_digits(bytes.drop_last()).push(bytes.last())
    } else {
        hex_digits(bytes.drop_last())
    }
}

/// The bytes that pairs of `digits` spell, high digit first. A last
/// digit without a partner is left out.
pub open spec fn hex_bytes(digits: Seq<u8>) -> Seq<u8> {
    Seq::new(
        digits.len() / 2,
        |i: int| (hex_value(digits[2 * i]) * 16 + hex_value(digits[2 * i + 1])) as u8,
    )
}

/// The bytes of a text after its prefix of two bytes, such as `0x`. A
/// text of fewer bytes has nothing after its prefix.
pub open spec fn after_prefix(bytes: Seq<u8>) -> Seq<u8> {
    if bytes.len() >= 2 {
        bytes.skip(2)
    } else {
        Seq::empty()
    }
}

/// The value of a hexadecimal digit.
fn hex_digit_value(b: u8) -> (r: u8)
    requires
        is_hex_digit(b),
    ensures
        r == hex_value(b),
        r < 16,
{
    if 0x30 <= b && b <= 0x39 {
        b - 0x30
    } else if 0x61 <= b && b <= 0x66 {
        b - 0x61 + 10
    } else {
        b - 0x41 + 10
    }
}

/// The bytes that a hexadecimal text spells: the first two bytes of the
/// text (a prefix such as `0x`) are skipped, and so is every byte that
/// is no hexadecimal digit.
pub fn parse_hex(hex_asm: &str) -> (r: Vec<u8>)
    ensures
        r@ == hex_bytes(hex_digits(after_prefix(hex_asm.spec_bytes()))),
{
    let bytes = hex_asm.as_bytes();
    let mut r: Vec<u8> = Vec::new();
    if bytes.len() < 2 {
        assert(r@ =~= hex_bytes(hex_digits(Seq::<u8>::empty())));
        return r;
    }
    let ghost tail = bytes@.skip(2);
    let mut high: Option<u8> = None;
    let mut i: usize = 2;
    assert(tail.take(0) =~= Seq::<u8>::empty());
    assert(r@ =~= hex_bytes(hex_digits(tail.take(0))));
    while i < bytes.len()
        invariant
            2 <= i <= bytes@.len(),
            tail == bytes@.skip(2),
            r@ == hex_bytes(hex_digits(tail.take(i - 2))),
            match high {
                Some(h) => hex_digits(tail.take(i - 2)).len() % 2 == 1 && h == hex_value(
                    hex_digits(tail.take(i - 2)).last(),
                ) && h < 16,
                None => hex_digits(tail.take(i - 2)).len() % 2 == 0,
            },
        decreases bytes@.len() - i,
    {
        let b = bytes[i];
        let ghost before = hex_digits(tail.take(i - 2));
        proof {
            assert(tail.take(i - 1).drop_last() =~= tail.take(i - 2));
            assert(tail.take(i - 1).last() == b);
        }
        let is_digit = (0x30 <= b && b <= 0x39) || (0x61 <= b && b <= 0x66) || (0x41 <= b && b
            <= 0x46);
        if is_digit {
            let low = hex_digit_value(b);
            match high {
                Some(h) => {
                    r.push(h * 16 + low);
                    high = None;
                    assert(r@ =~= hex_bytes(before.push(b)));
                },
                None => {
                    high = Some(low);
                    assert(r@ =~= hex_bytes(before.push(b)));
                },
            }
        }
        i += 1;
    }
    assert(tail.take(bytes@.len() - 2) =~= tail);
    r
}

/// `bytes` followed by zeros, twenty bytes in all.
pub open spec fn padded_to_address(bytes: Seq<u8>) -> Seq<u8> {
    Seq::new(20, |i: int| if i < bytes.len() { bytes[i] } else { 0u8 })
}

/// The address that a hexadecimal text spells, read as by
/// [`parse_hex`]; where it spells fewer than twenty bytes, zeros follow.
pub fn parse_h160(address_str: &str) -> (r: H160)
    requires
        hex_bytes(hex_digits(after_prefix(address_str.spec_bytes()))).len() <= 20,
    ensures
        r@ == be_value(
            padded_to_address(hex_bytes(hex_digits(after_prefix(address_str.spec_bytes())))),
        ),
{
    let vec_u8 = parse_hex(address_str);
    let mut array_u8 = [0u8;20];
    let mut i: usize = 0;
    while i < vec_u8.len()
        invariant
            i <= vec_u8@.len() <= 20,
            forall|j: int| 0 <= j < i ==> #[trigger] array_u8@[j] == vec_u8@[j],
            forall|j: int| i <= j < 20 ==> #[trigger] array_u8@[j] == 0u8,
        decreases vec_u8@.len() - i,
    {
        array_u8[i] = vec_u8[i];
        i += 1;
    }
    assert(array_u8@ =~= padded_to_address(vec_u8@));
    H160::from_bytes(&array_u8)
}

} // verus!
