//! The jump-destination bitmap that is kept beside contract code, so that
//! running the code need not scan it again.

use vstd::prelude::*;

verus! {

/// The jump table of the `evm` crate, `evm::Valids`: one flag for each
/// byte of code. Nothing is known of a value of it but through
/// [`table_flags`].
#[verifier::external_type_specification]
#[verifier::external_body]
pub struct ExValids(evm::Valids);

/// The flags that a jump table holds, in the order of the code's bytes.
pub uninterp spec fn table_flags(table: evm::Valids) -> Seq<bool>;

/// For each byte of `code`, whether `evm::Valids::new` marks it as a
/// valid jump destination.
pub uninterp spec fn jump_destinations(code: Seq<u8>) -> Seq<bool>;

/// `evm::Valids::new` scans the code and returns a table with one flag
/// for each byte of it. Taken on trust: that the flags depend on the
/// code alone, so that they are [`jump_destinations`] of it, and that
/// there are as many flags as bytes.
pub assume_specification[ evm::Valids::new ](code: &[u8]) -> (table: evm::Valids)
    ensures
        table_flags(table) == jump_destinations(code@),
        table_flags(table).len() == code@.len(),
;

/// `evm::Valids::is_valid` answers `false` beyond the table's end, and
/// with the flag at `position` otherwise. Taken on trust: that this is
/// what it answers.
pub assume_specification[ evm::Valids::is_valid ](table: &evm::Valids, position: usize) -> (r:
    bool)
    ensures
        r == (position < table_flags(*table).len() && table_flags(*table)[position as int]),
;

/// Whether bit `k` of `byte` is set.
pub open spec fn bit_set(byte: u8, k: u8) -> bool {
    (byte >> k) & 1u8 == 1u8
}

/// Whether `bitmap` packs `flags`: one bit for each flag, eight to a
/// byte with the lowest bit first, in `len / 8 + 1` bytes whose other
/// bits are clear.
pub open spec fn packs(bitmap: Seq<u8>, flags: Seq<bool>) -> bool {
    &&& bitmap.len() == flags.len() / 8 + 1
    &&& forall|i: int|
        0 <= i < bitmap.len() * 8 ==> (#[trigger] bit_set(bitmap[i / 8], (i % 8) as u8) <==> (i
            < flags.len() && flags[i]))
}

/// Bytes that agree in each of their eight bits are the same byte.
proof fn lemma_same_bits(a: u8, b: u8)
    requires
        forall|k: u8| k < 8 ==> bit_set(a, k) == bit_set(b, k),
    ensures
        a == b,
{
    assert(bit_set(a, 0) == bit_set(b, 0));
    assert(bit_set(a, 1) == bit_set(b, 1));
    assert(bit_set(a, 2) == bit_set(b, 2));
    assert(bit_set(a, 3) == bit_set(b, 3));
    assert(bit_set(a, 4) == bit_set(b, 4));
    assert(bit_set(a, 5) == bit_set(b, 5));
    assert(bit_set(a, 6) == bit_set(b, 6));
    assert(bit_set(a, 7) == bit_set(b, 7));
    assert(a == b) by (bit_vector)
        requires
            ((a >> 0u8) & 1u8 == 1u8) == ((b >> 0u8) & 1u8 == 1u8),
            ((a >> 1u8) & 1u8 == 1u8) == ((b >> 1u8) & 1u8 == 1u8),
            ((a >> 2u8) & 1u8 == 1u8) == ((b >> 2u8) & 1u8 == 1u8),
            ((a >> 3u8) & 1u8 == 1u8) == ((b >> 3u8) & 1u8 == 1u8),
            ((a >> 4u8) & 1u8 == 1u8) == ((b >> 4u8) & 1u8 == 1u8),
            ((a >> 5u8) & 1u8 == 1u8) == ((b >> 5u8) & 1u8 == 1u8),
            ((a >> 6u8) & 1u8 == 1u8) == ((b >> 6u8) & 1u8 == 1u8),
            ((a >> 7u8) & 1u8 == 1u8) == ((b >> 7u8) & 1u8 == 1u8),
    ;
}

/// Flags have one bitmap: two byte sequences that both pack the same
/// flags are the same sequence.
pub proof fn lemma_packs_one_bitmap(first: Seq<u8>, second: Seq<u8>, flags: Seq<bool>)
    requires
        packs(first, flags),
        packs(second, flags),
    ensures
        first == second,
{
    assert forall|j: int| 0 <= j < first.len() implies first[j] == second[j] by {
        assert forall|k: u8| k < 8 implies bit_set(first[j], k) == bit_set(second[j], k) by {
            let i = j * 8 + k as int;
            assert(i / 8 == j && i % 8 == k as int);
            assert(bit_set(first[i / 8], (i % 8) as u8) <==> (i < flags.len() && flags[i]));
            assert(bit_set(second[i / 8], (i % 8) as u8) <==> (i < flags.len() && flags[i]));
        }
        lemma_same_bits(first[j], second[j]);
    }
    assert(first =~= second);
}

/// `byte` with bit `k` set.
fn with_bit(byte: u8, k: u8) -> (r: u8)
    requires
        k < 8,
    ensures
        bit_set(r, k),
        forall|j: u8| j < 8 && j != k ==> (#[trigger] bit_set(r, j) <==> bit_set(byte, j)),
{
    let r: u8 = byte | (1u8 << k);
    assert((r >> k) & 1u8 == 1u8) by (bit_vector)
        requires
            k < 8,
            r == byte | (1u8 << k),
    ;
    assert forall|j: u8| j < 8 && j != k implies (#[trigger] bit_set(r, j) <==> bit_set(
        byte,
        j,
    )) by {
        assert(((r >> j) & 1u8 == 1u8) <==> ((byte >> j) & 1u8 == 1u8)) by (bit_vector)
            requires
                k < 8,
                j < 8,
                j != k,
                r == byte | (1u8 << k),
        ;
    }
    r
}

/// The bitmap of valid jump destinations of `code`, as it is stored
/// beside the code.
pub fn compute(code: &Vec<u8>) -> (bitmap: Vec<u8>)
    ensures
        packs(bitmap@, jump_destinations(code@)),
{
    let table = evm::Valids::new(code.as_slice());
    let size: usize = code.len() / 8 + 1;
    let mut bitmap: Vec<u8> = Vec::new();
    let mut n: usize = 0;
    while n < size
        invariant
            n <= size,
            bitmap@.len() == n,
            forall|j: int| 0 <= j < n ==> #[trigger] bitmap@[j] == 0u8,
        decreases size - n,
    {
        bitmap.push(0u8);
        n += 1;
    }
    let ghost flags = table_flags(table);
    assert forall|i: int| 0 <= i < bitmap@.len() * 8 implies !(#[trigger] bit_set(
        bitmap@[i / 8],
        (i % 8) as u8,
    )) by {
        let k = (i % 8) as u8;
        assert(bitmap@[i / 8] == 0u8);
        assert((0u8 >> k) & 1u8 != 1u8) by (bit_vector);
    }
    let mut i: usize = 0;
    while i < code.len()
        invariant
            i <= code.len(),
            flags == table_flags(table),
            flags.len() == code@.len(),
            bitmap@.len() == code@.len() / 8 + 1,
            forall|p: int|
                0 <= p < bitmap@.len() * 8 ==> (#[trigger] bit_set(bitmap@[p / 8], (p % 8) as u8)
                    <==> (p < i && flags[p])),
        decreases code.len() - i,
    {
        if table.is_valid(i) {
            let at: usize = i / 8;
            let k: u8 = (i % 8) as u8;
            let ghost before = bitmap@;
            let byte = with_bit(bitmap[at], k);
            bitmap.set(at, byte);
            assert forall|p: int| 0 <= p < bitmap@.len() * 8 implies (#[trigger] bit_set(
                bitmap@[p / 8],
                (p % 8) as u8,
            ) <==> (p < i + 1 && flags[p])) by {
                assert(bit_set(before[p / 8], (p % 8) as u8) <==> (p < i && flags[p]));
                if p / 8 == at {
                    let j = (p % 8) as u8;
                    if j != k {
                        assert(bit_set(byte, j) <==> bit_set(before[at as int], j));
                    }
                }
            }
        }
        i += 1;
    }
    bitmap
}

} // verus!
