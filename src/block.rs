//! Cell slots and the blocks that hold them, with their GC mark bitmaps.
use vstd::prelude::*;

use crate::object::LispObject;

verus! {

/// Number of cell slots in one block.
pub const CONS_BLOCK_SIZE: usize = 100;

/// Bits in one word of a mark bitmap.
pub const BITS_PER_BITS_WORD: usize = 64;

/// Words in a block's mark bitmap: one bit per slot, rounded up.
pub const MARK_WORDS: usize = 2;

/// The contents of a live cons cell.
#[derive(Clone, Copy, Debug, PartialEq, Eq, Structural)]
pub struct LispCons {
    /// Car of this cons cell.
    pub car: LispObject,
    /// Cdr of this cons cell.
    pub cdr: LispObject,
    /// Whether the cell lies in pure (read-only) storage.
    pub is_pure: bool,
}

/// A reclaimed slot's link to the next free slot, `None` at the tail.
#[derive(Clone, Copy, Debug, PartialEq, Eq, Structural)]
pub struct LispConsChain {
    pub chain: Option<usize>,
}

/// The state of one slot: a live cell or a node of the free list.
#[derive(Clone, Copy, Debug, PartialEq, Eq, Structural)]
pub enum ConsSlot {
    Live(LispCons),
    Free(LispConsChain),
}

/// The purpose a block of memory was allocated for, so that a scanner of
/// the whole heap can tell cons storage from other kinds.
#[derive(Clone, Copy, Debug, PartialEq, Eq, Structural)]
pub enum MemType {
    NonLisp,
    Buffer,
    Cons,
    String,
    Misc,
    Symbol,
    Float,
    /// Large regular vectors and large bool pseudovectors.
    Vectorlike,
    VectorBlock,
    Spare,
}

/// A block of cell slots, its mark bitmap, the kind of storage it was
/// allocated as, and the index of the block allocated before it (`None`
/// for the first).
pub struct ConsBlock {
    pub conses: Vec<ConsSlot>,
    pub gcmarkbits: Vec<u64>,
    pub mem_type: MemType,
    pub next: Option<usize>,
}

/// Bit `k` of `w`.
pub open spec fn word_bit(w: u64, k: u64) -> bool {
    (w >> k) & 1u64 == 1u64
}

/// Setting bit `k` changes that bit alone.
pub proof fn lemma_set_bit(w: u64, k: u64, j: u64)
    requires
        k < 64,
        j < 64,
    ensures
        word_bit(w | (1u64 << k), j) == (j == k || word_bit(w, j)),
{
    assert(((w | (1u64 << k)) >> j) & 1u64 == 1u64 <==> (j == k || (w >> j) & 1u64 == 1u64))
        by (bit_vector)
        requires
            k < 64,
            j < 64,
    ;
}

/// Clearing bit `k` changes that bit alone.
pub proof fn lemma_clear_bit(w: u64, k: u64, j: u64)
    requires
        k < 64,
        j < 64,
    ensures
        word_bit(w & !(1u64 << k), j) == (j != k && word_bit(w, j)),
{
    assert(((w & !(1u64 << k)) >> j) & 1u64 == 1u64 <==> (j != k && (w >> j) & 1u64 == 1u64))
        by (bit_vector)
        requires
            k < 64,
            j < 64,
    ;
}

/// A zero word has no bit set.
pub proof fn lemma_zero_word(j: u64)
    requires
        j < 64,
    ensures
        !word_bit(0u64, j),
{
    assert((0u64 >> j) & 1u64 != 1u64) by (bit_vector)
        requires
            j < 64,
    ;
}

/// Reads bit `k` of `w`.
pub fn test_bit(w: u64, k: u64) -> (r: bool)
    requires
        k < 64,
    ensures
        r == word_bit(w, k),
{
    (w >> k) & 1u64 == 1u64
}

} // verus!
