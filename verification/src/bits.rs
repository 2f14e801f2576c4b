//! Fixed-size board bitsets: 144 cells (12 x 12), one bit per cell, packed
//! into 18 bytes least-significant-bit first within each byte.

use vstd::prelude::*;
use vstd::arithmetic::div_mod::{lemma_fundamental_div_mod, lemma_fundamental_div_mod_converse};

verus! {

/// Board width in cells.
pub const MAP_W: u32 = 12;
/// Board height in cells.
pub const MAP_H: u32 = 12;
/// Total cell count of the board.
pub const CELL_COUNT: u32 = MAP_W * MAP_H;
/// Bytes per board bitset (one bit per cell).
pub const BITSET_BYTES: usize = 18;

/// Whether bit `i` is set in the packed bitset `bits`.
pub open spec fn spec_bit_is_set(bits: Seq<u8>, i: int) -> bool
    recommends
        0 <= i < 8 * bits.len(),
{
    bits[i / 8] & (1u8 << ((i % 8) as u8)) != 0
}

proof fn lemma_bit_or_hits(x: u8, o: u8)
    requires
        o < 8,
    ensures
        ((x | (1u8 << o)) & (1u8 << o)) != 0,
{
    assert(((x | (1u8 << o)) & (1u8 << o)) != 0) by (bit_vector)
        requires
            o < 8,
    ;
}

proof fn lemma_bit_or_misses(x: u8, o: u8, p: u8)
    requires
        o < 8,
        p < 8,
        o != p,
    ensures
        ((x | (1u8 << o)) & (1u8 << p)) == (x & (1u8 << p)),
{
    assert(((x | (1u8 << o)) & (1u8 << p)) == (x & (1u8 << p))) by (bit_vector)
        requires
            o < 8,
            p < 8,
            o != p,
    ;
}

/// Bit positions decompose uniquely into a byte index and an offset.
proof fn lemma_bit_pos(i: int)
    requires
        0 <= i,
    ensures
        i == 8 * (i / 8) + (i % 8),
        0 <= i % 8 < 8,
        i / 8 >= 0,
{
    lemma_fundamental_div_mod(i, 8);
}

/// The packed bit position of board cell (x, y).
pub open spec fn cell_of(x: int, y: int) -> int {
    y * 12 + x
}

/// Board coordinates map to distinct bit positions below 144.
pub proof fn lemma_cell_of(x: int, y: int)
    requires
        0 <= x < 12,
        0 <= y < 12,
    ensures
        0 <= cell_of(x, y) < 144,
        cell_of(x, y) / 12 == y,
        cell_of(x, y) % 12 == x,
{
    lemma_fundamental_div_mod_converse(y * 12 + x, 12, y, x);
}

/// Every bit position below 144 is the cell of exactly one coordinate pair.
pub proof fn lemma_cell_decomp(j: int)
    requires
        0 <= j < 144,
    ensures
        j == cell_of(j % 12, j / 12),
        0 <= j % 12 < 12,
        0 <= j / 12 < 12,
{
    lemma_fundamental_div_mod(j, 12);
}

/// The all-zero bitset has no cell set.
pub proof fn lemma_zero_bits_clear(j: int)
    requires
        0 <= j < 144,
    ensures
        !spec_bit_is_set(Seq::new(18, |i: int| 0u8), j),
{
    lemma_bit_pos(j);
    let o = (j % 8) as u8;
    assert(0u8 & (1u8 << o) == 0) by (bit_vector);
}

/// Reads one cell bit of the board bitset.
pub fn bit_is_set(bits: &[u8; 18], bit_index: u32) -> (r: bool)
    requires
        bit_index < 144,
    ensures
        r == spec_bit_is_set(bits@, bit_index as int),
{
    let byte: usize = (bit_index / 8) as usize;
    let offset: u8 = (bit_index % 8) as u8;
    (bits[byte] & (1u8 << offset)) != 0
}

/// The bitset `bits` with bit `i` set, as bytes.
pub open spec fn spec_bit_set(bits: Seq<u8>, i: int) -> Seq<u8>
    recommends
        0 <= i < 8 * bits.len(),
{
    bits.update(i / 8, bits[i / 8] | (1u8 << ((i % 8) as u8)))
}

/// Sets one cell bit of the board bitset, leaving every other cell as it was.
pub fn bit_set(bits: &mut [u8; 18], bit_index: u32)
    requires
        bit_index < 144,
    ensures
        final(bits)@ == spec_bit_set(old(bits)@, bit_index as int),
        spec_bit_is_set(final(bits)@, bit_index as int),
        forall|j: int|
            0 <= j < 144 && j != bit_index ==> spec_bit_is_set(final(bits)@, j)
                == spec_bit_is_set(old(bits)@, j),
{
    let byte: usize = (bit_index / 8) as usize;
    let offset: u8 = (bit_index % 8) as u8;
    let updated: u8 = bits[byte] | (1u8 << offset);
    bits[byte] = updated;
    proof {
        assert(bits@ =~= spec_bit_set(old(bits)@, bit_index as int));
        lemma_bit_or_hits(old(bits)@[byte as int], offset);
        assert forall|j: int|
            0 <= j < 144 && j != bit_index implies spec_bit_is_set(bits@, j) == spec_bit_is_set(
            old(bits)@,
            j,
        ) by {
            lemma_bit_pos(j);
            lemma_bit_pos(bit_index as int);
            if j / 8 == byte as int {
                lemma_bit_or_misses(old(bits)@[byte as int], offset, (j % 8) as u8);
            }
        }
    }
}

proof fn lemma_byte_from_bits(x: u8, y: u8)
    requires
        forall|o: u8| o < 8 ==> ((x & (1u8 << o) != 0) == (y & (1u8 << o) != 0)),
    ensures
        x == y,
{
    assert(x == y) by (bit_vector)
        requires
            (x & (1u8 << 0u8) != 0) == (y & (1u8 << 0u8) != 0),
            (x & (1u8 << 1u8) != 0) == (y & (1u8 << 1u8) != 0),
            (x & (1u8 << 2u8) != 0) == (y & (1u8 << 2u8) != 0),
            (x & (1u8 << 3u8) != 0) == (y & (1u8 << 3u8) != 0),
            (x & (1u8 << 4u8) != 0) == (y & (1u8 << 4u8) != 0),
            (x & (1u8 << 5u8) != 0) == (y & (1u8 << 5u8) != 0),
            (x & (1u8 << 6u8) != 0) == (y & (1u8 << 6u8) != 0),
            (x & (1u8 << 7u8) != 0) == (y & (1u8 << 7u8) != 0),
    ;
}

/// A board bitset holds exactly 144 bits, so two bitsets that agree on
/// every cell bit are byte-identical.
pub proof fn lemma_bits_determine_bytes(a: Seq<u8>, b: Seq<u8>)
    requires
        a.len() == 18,
        b.len() == 18,
        forall|j: int| 0 <= j < 144 ==> spec_bit_is_set(a, j) == spec_bit_is_set(b, j),
    ensures
        a == b,
{
    assert forall|k: int| 0 <= k < 18 implies a[k] == b[k] by {
        assert forall|o: u8| o < 8 implies ((a[k] & (1u8 << o) != 0) == (b[k] & (1u8 << o)
            != 0)) by {
            lemma_fundamental_div_mod_converse(8 * k + o, 8, k, o as int);
            assert(spec_bit_is_set(a, 8 * k + o) == spec_bit_is_set(b, 8 * k + o));
        }
        lemma_byte_from_bits(a[k], b[k]);
    }
    assert(a =~= b);
}

/// Setting bit `i` at the spec level sets exactly that bit.
pub proof fn lemma_bit_set_effect(b: Seq<u8>, i: int, j: int)
    requires
        b.len() == 18,
        0 <= i < 144,
        0 <= j < 144,
    ensures
        spec_bit_is_set(spec_bit_set(b, i), j) == (i == j || spec_bit_is_set(b, j)),
{
    lemma_bit_pos(i);
    lemma_bit_pos(j);
    if j / 8 == i / 8 {
        if j % 8 == i % 8 {
            lemma_bit_or_hits(b[i / 8], (i % 8) as u8);
        } else {
            lemma_bit_or_misses(b[i / 8], (i % 8) as u8, (j % 8) as u8);
        }
    }
}

/// Whether any cell bit at all is set.
pub fn has_any_set_bit(bits: &[u8; 18]) -> (r: bool)
    ensures
        r == exists|i: int| 0 <= i < 144 && spec_bit_is_set(bits@, i),
{
    let mut i: u32 = 0;
    while i < 144
        invariant
            i <= 144,
            forall|j: int| 0 <= j < i ==> !spec_bit_is_set(bits@, j),
        decreases 144 - i,
    {
        if bit_is_set(bits, i) {
            return true;
        }
        i = i + 1;
    }
    false
}

/// Whether every loot cell has already been collected.
pub fn is_full_collection(loot: &[u8; 18], collected: &[u8; 18]) -> (r: bool)
    ensures
        r == forall|i: int|
            0 <= i < 144 && spec_bit_is_set(loot@, i) ==> spec_bit_is_set(collected@, i),
{
    let mut i: u32 = 0;
    while i < 144
        invariant
            i <= 144,
            forall|j: int| 0 <= j < i && spec_bit_is_set(loot@, j) ==> spec_bit_is_set(
                collected@,
                j,
            ),
        decreases 144 - i,
    {
        if bit_is_set(loot, i) && !bit_is_set(collected, i) {
            return false;
        }
        i = i + 1;
    }
    true
}

} // verus!
