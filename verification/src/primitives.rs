//! Fixed-width values of the execution layer: 256-bit words, 160-bit
//! addresses and 256-bit hashes, each held as big-endian integer halves.

use crate::ordered_map::OrderedKey;
use vstd::prelude::*;

verus! {

/// Two to the power 128, the weight of a high half.
pub open spec fn pow2_128() -> int {
    0x1_0000_0000_0000_0000_0000_0000_0000_0000int
}

/// Two to the power 256, one more than the largest 256-bit word.
pub open spec fn pow2_256() -> int {
    pow2_128() * pow2_128()
}

/// The number that a sequence of bytes spells when read big-endian.
pub open spec fn be_value(bytes: Seq<u8>) -> nat
    decreases bytes.len(),
{
    if bytes.len() == 0 {
        0
    } else {
        be_value(bytes.drop_last()) * 256 + bytes.last() as nat
    }
}

/// An unsigned 256-bit integer.
#[derive(Clone, Copy, Debug, PartialEq, Eq, Structural)]
pub struct U256 {
    pub hi: u128,
    pub lo: u128,
}

impl View for U256 {
    type V = nat;

    open spec fn view(&self) -> nat {
        (self.hi as int * pow2_128() + self.lo as int) as nat
    }
}

/// The word with the value `n`, for `n` below `2^256`.
pub open spec fn u256_of(n: nat) -> U256 {
    U256 { hi: (n / (pow2_128() as nat)) as u128, lo: (n % (pow2_128() as nat)) as u128 }
}

impl U256 {
    /// A word is the word of its value.
    pub proof fn lemma_u256_of(x: U256)
        ensures
            u256_of(x@) == x,
    {
        let n = x.hi as int * 0x1_0000_0000_0000_0000_0000_0000_0000_0000int + x.lo as int;
        assert(x@ == n);
        assert(n / 0x1_0000_0000_0000_0000_0000_0000_0000_0000int == x.hi as int);
        assert(n % 0x1_0000_0000_0000_0000_0000_0000_0000_0000int == x.lo as int);
    }

    /// The value `0`.
    pub fn zero() -> (r: U256)
        ensures
            r@ == 0,
            r == (U256 { hi: 0, lo: 0 }),
    {
        U256 { hi: 0, lo: 0 }
    }

    /// The value `1`.
    pub fn one() -> (r: U256)
        ensures
            r@ == 1,
            r == (U256 { hi: 0, lo: 1 }),
    {
        U256 { hi: 0, lo: 1 }
    }

    /// The largest value, `2^256 - 1`.
    pub fn max_value() -> (r: U256)
        ensures
            r@ == pow2_256() - 1,
    {
        U256 { hi: u128::MAX, lo: u128::MAX }
    }

    /// Widens a 64-bit integer.
    pub fn from_u64(value: u64) -> (r: U256)
        ensures
            r@ == value,
    {
        U256 { hi: 0, lo: value as u128 }
    }

    /// Widens a 128-bit integer.
    pub fn from_u128(value: u128) -> (r: U256)
        ensures
            r@ == value,
    {
        U256 { hi: 0, lo: value }
    }

    /// The word with four 64-bit limbs, least significant first.
    pub open spec fn of_limbs(limbs: [u64; 4]) -> U256 {
        U256 {
            hi: (limbs[3] as int * 0x1_0000_0000_0000_0000 + limbs[2] as int) as u128,
            lo: (limbs[1] as int * 0x1_0000_0000_0000_0000 + limbs[0] as int) as u128,
        }
    }

    /// Builds the word from four 64-bit limbs, least significant first.
    pub fn from_limbs(limbs: [u64; 4]) -> (r: U256)
        ensures
            r == Self::of_limbs(limbs),
            r@ == limbs[0] as int + limbs[1] as int * 0x1_0000_0000_0000_0000 + (limbs[2] as int
                + limbs[3] as int * 0x1_0000_0000_0000_0000) * pow2_128(),
    {
        let lo: u128 = limbs[1] as u128 * 0x1_0000_0000_0000_0000u128 + limbs[0] as u128;
        let hi: u128 = limbs[3] as u128 * 0x1_0000_0000_0000_0000u128 + limbs[2] as u128;
        U256 { hi, lo }
    }

    /// Whether the value is `0`.
    pub fn is_zero(&self) -> (r: bool)
        ensures
            r == (self@ == 0),
    {
        self.hi == 0 && self.lo == 0
    }

    /// Whether `self` is strictly below `other`.
    pub fn lt(&self, other: &U256) -> (r: bool)
        ensures
            r == (self@ < other@),
    {
        self.hi < other.hi || (self.hi == other.hi && self.lo < other.lo)
    }

    /// Whether `self` is strictly above `other`.
    pub fn gt(&self, other: &U256) -> (r: bool)
        ensures
            r == (self@ > other@),
    {
        other.lt(self)
    }

    /// Whether the value fits in 64 bits.
    pub fn fits_u64(&self) -> (r: bool)
        ensures
            r == (self@ <= u64::MAX),
    {
        self.hi == 0 && self.lo <= u64::MAX as u128
    }

    /// The value as a 64-bit integer.
    pub fn as_u64(&self) -> (r: u64)
        requires
            self@ <= u64::MAX,
        ensures
            r == self@,
    {
        self.lo as u64
    }

    /// The sum, or `None` where it does not fit in 256 bits.
    pub fn checked_add(self, other: U256) -> (r: Option<U256>)
        ensures
            match r {
                Some(sum) => sum@ == self@ + other@,
                None => self@ + other@ >= pow2_256(),
            },
    {
        let room: u128 = u128::MAX - other.lo;
        let (lo, carry): (u128, u128) = if self.lo <= room {
            (self.lo + other.lo, 0)
        } else {
            (self.lo - room - 1, 1)
        };
        if self.hi > u128::MAX - other.hi {
            return None;
        }
        let hi_sum: u128 = self.hi + other.hi;
        if hi_sum > u128::MAX - carry {
            return None;
        }
        Some(U256 { hi: hi_sum + carry, lo })
    }

    /// The difference, or `None` where `other` is the larger.
    pub fn checked_sub(self, other: U256) -> (r: Option<U256>)
        ensures
            match r {
                Some(diff) => diff@ == self@ - other@,
                None => self@ < other@,
            },
    {
        if self.lt(&other) {
            return None;
        }
        if self.lo >= other.lo {
            Some(U256 { hi: self.hi - other.hi, lo: self.lo - other.lo })
        } else {
            let gap: u128 = other.lo - self.lo;
            Some(U256 { hi: self.hi - other.hi - 1, lo: u128::MAX - gap + 1 })
        }
    }

    /// Two words with the same value are the same word.
    pub proof fn lemma_view_injective(a: U256, b: U256)
        requires
            a@ == b@,
        ensures
            a == b,
    {
    }
}

/// A 160-bit account address: the 20 bytes read big-endian, the first
/// four in `hi` and the other sixteen in `lo`.
#[derive(Clone, Copy, Debug, PartialEq, Eq, Structural)]
pub struct H160 {
    pub hi: u32,
    pub lo: u128,
}

impl View for H160 {
    type V = nat;

    open spec fn view(&self) -> nat {
        (self.hi as int * pow2_128() + self.lo as int) as nat
    }
}

/// The address whose twenty bytes spell `n` big-endian, for `n` below `2^160`.
pub open spec fn h160_of(n: nat) -> H160 {
    H160 { hi: (n / (pow2_128() as nat)) as u32, lo: (n % (pow2_128() as nat)) as u128 }
}

impl H160 {
    /// An address is the address of the number it spells.
    pub proof fn lemma_h160_of(x: H160)
        ensures
            h160_of(x@) == x,
    {
        let n = x.hi as int * 0x1_0000_0000_0000_0000_0000_0000_0000_0000int + x.lo as int;
        assert(x@ == n);
        assert(n / 0x1_0000_0000_0000_0000_0000_0000_0000_0000int == x.hi as int);
        assert(n % 0x1_0000_0000_0000_0000_0000_0000_0000_0000int == x.lo as int);
    }

    /// The address whose bytes are all `0`.
    pub fn zero() -> (r: H160)
        ensures
            r@ == 0,
    {
        H160 { hi: 0, lo: 0 }
    }

    /// The address that twenty bytes spell.
    pub fn from_bytes(bytes: &[u8; 20]) -> (r: H160)
        ensures
            r@ == be_value(bytes@),
    {
        let mut hi: u32 = 0;
        let mut lo: u128 = 0;
        let mut i: usize = 0;
        while i < 4
            invariant
                i <= 4,
                hi as nat == be_value(bytes@.take(i as int)),
                (hi as int) < pow256(i as nat),
            decreases 4 - i,
        {
            proof {
                lemma_be_value_step(bytes@, i as int);
                reveal_with_fuel(pow256, 5);
            }
            hi = hi * 256 + bytes[i] as u32;
            i += 1;
        }
        assert(hi as nat * pow256((i - 4) as nat) == hi as nat) by (nonlinear_arith)
            requires
                pow256((i - 4) as nat) == 1,
        ;
        while i < 20
            invariant
                4 <= i <= 20,
                hi as nat == be_value(bytes@.take(4)),
                hi as nat * pow256((i - 4) as nat) + lo as nat == be_value(bytes@.take(i as int)),
                (lo as int) < pow256((i - 4) as nat),
            decreases 20 - i,
        {
            proof {
                lemma_be_value_step(bytes@, i as int);
                reveal_with_fuel(pow256, 17);
                assert(hi as nat * (pow256((i - 4) as nat) * 256) == hi as nat * pow256((i - 4) as nat)
                    * 256) by (nonlinear_arith);
            }
            lo = lo * 256 + bytes[i] as u128;
            i += 1;
        }
        proof {
            reveal_with_fuel(pow256, 17);
            assert(bytes@.take(20) =~= bytes@);
        }
        H160 { hi, lo }
    }
}

/// A 256-bit hash: the 32 bytes read big-endian, sixteen in each half.
#[derive(Clone, Copy, Debug, PartialEq, Eq, Structural)]
pub struct H256 {
    pub hi: u128,
    pub lo: u128,
}

impl View for H256 {
    type V = nat;

    open spec fn view(&self) -> nat {
        (self.hi as int * pow2_128() + self.lo as int) as nat
    }
}

/// The hash whose 32 bytes spell `n` big-endian, for `n` below `2^256`.
pub open spec fn h256_of(n: nat) -> H256 {
    H256 { hi: (n / (pow2_128() as nat)) as u128, lo: (n % (pow2_128() as nat)) as u128 }
}

impl H256 {
    /// A hash is the hash of the number it spells.
    pub proof fn lemma_h256_of(x: H256)
        ensures
            h256_of(x@) == x,
    {
        let n = x.hi as int * 0x1_0000_0000_0000_0000_0000_0000_0000_0000int + x.lo as int;
        assert(x@ == n);
        assert(n / 0x1_0000_0000_0000_0000_0000_0000_0000_0000int == x.hi as int);
        assert(n % 0x1_0000_0000_0000_0000_0000_0000_0000_0000int == x.lo as int);
    }

    /// The hash whose bytes are all `0`.
    pub fn zero() -> (r: H256)
        ensures
            r@ == 0,
    {
        H256 { hi: 0, lo: 0 }
    }

    /// The hash that 32 bytes spell.
    pub fn from_bytes(bytes: &[u8; 32]) -> (r: H256)
        ensures
            r@ == be_value(bytes@),
    {
        let mut hi: u128 = 0;
        let mut lo: u128 = 0;
        let mut i: usize = 0;
        while i < 16
            invariant
                i <= 16,
                hi as nat == be_value(bytes@.take(i as int)),
                (hi as int) < pow256(i as nat),
            decreases 16 - i,
        {
            proof {
                lemma_be_value_step(bytes@, i as int);
                reveal_with_fuel(pow256, 17);
            }
            hi = hi * 256 + bytes[i] as u128;
            i += 1;
        }
        assert(hi as nat * pow256((i - 16) as nat) == hi as nat) by (nonlinear_arith)
            requires
                pow256((i - 16) as nat) == 1,
        ;
        while i < 32
            invariant
                16 <= i <= 32,
                hi as nat == be_value(bytes@.take(16)),
                hi as nat * pow256((i - 16) as nat) + lo as nat == be_value(bytes@.take(i as int)),
                (lo as int) < pow256((i - 16) as nat),
            decreases 32 - i,
        {
            proof {
                lemma_be_value_step(bytes@, i as int);
                reveal_with_fuel(pow256, 17);
                assert(hi as nat * (pow256((i - 16) as nat) * 256) == hi as nat * pow256(
                    (i - 16) as nat,
                ) * 256) by (nonlinear_arith);
            }
            lo = lo * 256 + bytes[i] as u128;
            i += 1;
        }
        proof {
            reveal_with_fuel(pow256, 17);
            assert(bytes@.take(32) =~= bytes@);
        }
        H256 { hi, lo }
    }
}

impl OrderedKey for U256 {
    open spec fn rank(self) -> int {
        self@ as int
    }

    proof fn lemma_rank_injective(a: Self, b: Self) {
    }

    fn precedes(&self, other: &Self) -> (r: bool) {
        self.lt(other)
    }
}

impl OrderedKey for H160 {
    open spec fn rank(self) -> int {
        self@ as int
    }

    proof fn lemma_rank_injective(a: Self, b: Self) {
    }

    fn precedes(&self, other: &Self) -> (r: bool) {
        self.hi < other.hi || (self.hi == other.hi && self.lo < other.lo)
    }
}

/// One storage slot of one contract. Slots order by address first, then
/// by the slot's number.
#[derive(Clone, Copy, Debug, PartialEq, Eq, Structural)]
pub struct StorageKey {
    pub address: H160,
    pub slot: U256,
}

impl OrderedKey for StorageKey {
    open spec fn rank(self) -> int {
        self.address@ * pow2_256() + self.slot@
    }

    proof fn lemma_rank_injective(a: Self, b: Self) {
        lemma_slot_rank(
            a.address@ as int,
            a.slot@ as int,
            b.address@ as int,
            b.slot@ as int,
            pow2_256(),
        );
    }

    fn precedes(&self, other: &Self) -> (r: bool) {
        proof {
            lemma_slot_rank(
                self.address@ as int,
                self.slot@ as int,
                other.address@ as int,
                other.slot@ as int,
                pow2_256(),
            );
            lemma_slot_rank(
                other.address@ as int,
                other.slot@ as int,
                self.address@ as int,
                self.slot@ as int,
                pow2_256(),
            );
        }
        self.address.precedes(&other.address) || (self.address == other.address && self.slot.lt(
            &other.slot,
        ))
    }
}

/// Pairs whose second parts stay below `p` order by their first parts, then
/// by their second.
pub proof fn lemma_slot_rank(a0: int, a1: int, b0: int, b1: int, p: int)
    requires
        0 <= a1 < p,
        0 <= b1 < p,
    ensures
        a0 < b0 ==> a0 * p + a1 < b0 * p + b1,
        a0 == b0 ==> (a0 * p + a1 < b0 * p + b1 <==> a1 < b1),
        a0 * p + a1 == b0 * p + b1 ==> a0 == b0 && a1 == b1,
{
    assert(a0 < b0 ==> a0 * p + a1 < b0 * p + b1) by (nonlinear_arith)
        requires
            0 <= a1 < p,
            0 <= b1 < p,
    ;
    assert(b0 < a0 ==> b0 * p + b1 < a0 * p + a1) by (nonlinear_arith)
        requires
            0 <= a1 < p,
            0 <= b1 < p,
    ;
}

/// 256 to the power `n`.
pub open spec fn pow256(n: nat) -> int
    decreases n,
{
    if n == 0 {
        1
    } else {
        pow256((n - 1) as nat) * 256
    }
}

/// Reading one byte more multiplies what was read by 256 and adds the byte.
pub proof fn lemma_be_value_step(bytes: Seq<u8>, i: int)
    requires
        0 <= i < bytes.len(),
    ensures
        be_value(bytes.take(i + 1)) == be_value(bytes.take(i)) * 256 + bytes[i] as nat,
{
    assert(bytes.take(i + 1).drop_last() =~= bytes.take(i));
}

} // verus!
