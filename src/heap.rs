//! The allocator context: the block chain, the free list and the
//! accounting counters, with an abstract model of all three.
use vstd::prelude::*;

use crate::block::{
    lemma_clear_bit, lemma_set_bit, lemma_zero_word, test_bit, word_bit, ConsBlock, ConsSlot,
    LispCons, LispConsChain, MemType, BITS_PER_BITS_WORD, CONS_BLOCK_SIZE, MARK_WORDS,
};
use crate::object::{LispError, LispObject};
use vstd::set_lib::{lemma_int_range, lemma_len_subset, set_int_range};

verus! {

/// Storage charged to the since-last-collection counter for each cell:
/// two machine words.
pub const CONS_CELL_BYTES: u64 = 16;

/// Abstract state of a `ConsHeap`. Cell `a` is slot `a % CONS_BLOCK_SIZE`
/// of block `a / CONS_BLOCK_SIZE`.
#[verifier::ext_equal]
pub struct HeapModel {
    /// Every slot of every block, by address.
    pub cells: Seq<ConsSlot>,
    /// The mark bit of every slot, by address.
    pub marks: Seq<bool>,
    /// The free list, head first.
    pub free: Seq<usize>,
    /// Number of blocks allocated so far.
    pub n_blocks: nat,
    /// Bytes consed since the last collection.
    pub consing_since_gc: nat,
    /// Number of cells on the free list, as accounted.
    pub total_free_conses: nat,
}

/// The link stored in the free slot at position `i` of the free list `free`.
pub open spec fn chain_at(free: Seq<usize>, i: int) -> Option<usize> {
    if i + 1 < free.len() {
        Some(free[i + 1])
    } else {
        None
    }
}

/// The head of a free list, `None` if it is empty.
pub open spec fn head_of(free: Seq<usize>) -> Option<usize> {
    if free.len() > 0 {
        Some(free[0])
    } else {
        None
    }
}

impl HeapModel {
    /// The invariant every reachable heap state satisfies.
    pub open spec fn inv(self) -> bool {
        &&& self.cells.len() == self.n_blocks * CONS_BLOCK_SIZE
        &&& self.cells.len() <= usize::MAX
        &&& self.marks.len() == self.cells.len()
        &&& self.free.no_duplicates()
        &&& forall|i: int|
            #![trigger self.free[i]]
            0 <= i < self.free.len() ==> {
                &&& self.free[i] < self.cells.len()
                &&& self.cells[self.free[i] as int] == ConsSlot::Free(
                    LispConsChain { chain: chain_at(self.free, i) },
                )
                &&& !self.marks[self.free[i] as int]
            }
        &&& forall|a: int|
            #![trigger self.cells[a]]
            0 <= a < self.cells.len() && self.cells[a] is Free ==> self.free.contains(a as usize)
        &&& self.total_free_conses == self.free.len()
    }

    /// `a` addresses a live cell.
    pub open spec fn is_cell(self, a: int) -> bool {
        0 <= a < self.cells.len() && self.cells[a] is Live
    }

    /// The contents of the live cell at `a`.
    pub open spec fn cell(self, a: int) -> LispCons {
        self.cells[a]->Live_0
    }

    /// `v` refers to a live cell of this heap.
    pub open spec fn is_cell_ref(self, v: LispObject) -> bool {
        v is Cons && self.is_cell(v->Cons_0 as int)
    }

    /// The state with the mark bit of `a` set to `b`.
    pub open spec fn with_mark(self, a: int, b: bool) -> HeapModel {
        HeapModel { marks: self.marks.update(a, b), ..self }
    }

    /// The state with slot `a` holding the live cell `c`.
    pub open spec fn with_cell(self, a: int, c: LispCons) -> HeapModel {
        HeapModel { cells: self.cells.update(a, ConsSlot::Live(c)), ..self }
    }

    /// The state after pushing the live cell `a` onto the free list.
    pub open spec fn reclaimed(self, a: usize) -> HeapModel {
        HeapModel {
            cells: self.cells.update(a as int, ConsSlot::Free(LispConsChain { chain: head_of(self.free) })),
            free: seq![a].add(self.free),
            total_free_conses: self.total_free_conses + 1,
            ..self
        }
    }

    /// The result and state of popping the free list: the head, now an
    /// empty live cell, or `None` with nothing changed when it is empty.
    pub open spec fn pop_spec(self) -> (Option<usize>, HeapModel) {
        if self.free.len() == 0 {
            (None, self)
        } else {
            (
                Some(self.free[0]),
                HeapModel {
                    cells: self.cells.update(self.free[0] as int, ConsSlot::Live(empty_cons())),
                    free: self.free.drop_first(),
                    total_free_conses: (self.total_free_conses - 1) as nat,
                    ..self
                },
            )
        }
    }

    /// Whether one more block stays within the addressable range.
    pub open spec fn can_grow(self) -> bool {
        self.cells.len() + CONS_BLOCK_SIZE <= usize::MAX
    }

    /// The state after appending a fresh, unmarked block whose slots are
    /// all free and pushed in address order ahead of the old free list.
    pub open spec fn grown(self) -> HeapModel {
        let n = self.cells.len() as int;
        HeapModel {
            cells: self.cells + Seq::new(
                CONS_BLOCK_SIZE as nat,
                |i: int| ConsSlot::Free(LispConsChain { chain: fresh_chain(n, i, head_of(self.free)) }),
            ),
            marks: self.marks + clear_marks(),
            free: Seq::new(CONS_BLOCK_SIZE as nat, |i: int| (n + i) as usize) + self.free,
            n_blocks: self.n_blocks + 1,
            total_free_conses: self.total_free_conses + CONS_BLOCK_SIZE as nat,
            ..self
        }
    }

    /// The state after charging one cell to the since-last-collection
    /// counter, which saturates at `u64::MAX`.
    pub open spec fn charged(self) -> HeapModel {
        HeapModel {
            consing_since_gc: if self.consing_since_gc + CONS_CELL_BYTES <= u64::MAX {
                (self.consing_since_gc + CONS_CELL_BYTES) as nat
            } else {
                u64::MAX as nat
            },
            ..self
        }
    }

    /// The result and state of block allocation.
    pub open spec fn allocate_block_spec(self) -> (Result<(), LispError>, HeapModel) {
        if self.can_grow() {
            (Ok(()), self.grown())
        } else {
            (Err(LispError::OutOfMemory), self)
        }
    }
}

/// The marks of a fresh block: all clear.
pub open spec fn clear_marks() -> Seq<bool> {
    Seq::new(CONS_BLOCK_SIZE as nat, |i: int| false)
}

/// A live cell with both fields `nil`, not pure.
pub open spec fn empty_cons() -> LispCons {
    LispCons { car: LispObject::Nil, cdr: LispObject::Nil, is_pure: false }
}

/// The link of slot `i` of a fresh block starting at address `n`: the next
/// slot, and after the last one the old free-list head.
pub open spec fn fresh_chain(n: int, i: int, tail: Option<usize>) -> Option<usize> {
    if i + 1 < CONS_BLOCK_SIZE {
        Some((n + i + 1) as usize)
    } else {
        tail
    }
}

/// The allocator context: a chain of blocks, newest last in `blocks` and
/// linked newest-first through each block's `next`, the free list threaded
/// through the free slots, and the accounting counters.
pub struct ConsHeap {
    blocks: Vec<ConsBlock>,
    cons_free_list: Option<usize>,
    free_cells: Ghost<Seq<usize>>,
    consing_since_gc: u64,
    total_free_conses: usize,
}

/// Every block has its full complement of slots and mark words, is cons
/// storage, and is linked to the block before it; every address fits.
pub closed spec fn blocks_shaped(blocks: Seq<ConsBlock>) -> bool {
    &&& blocks.len() * CONS_BLOCK_SIZE <= usize::MAX
    &&& forall|b: int| #![trigger blocks[b]] 0 <= b < blocks.len() ==> block_shaped(blocks[b], b)
}

/// Block `blk` is well laid out as block number `b`.
pub open spec fn block_shaped(blk: ConsBlock, b: int) -> bool {
    &&& blk.conses@.len() == CONS_BLOCK_SIZE
    &&& blk.gcmarkbits@.len() == MARK_WORDS
    &&& blk.mem_type == MemType::Cons
    &&& blk.next == (if b == 0 {
        None
    } else {
        Some((b - 1) as usize)
    })
}

/// Appending a well laid out block keeps the chain well laid out.
proof fn lemma_push_shaped(blocks: Seq<ConsBlock>, blk: ConsBlock)
    requires
        blocks_shaped(blocks),
        block_shaped(blk, blocks.len() as int),
        (blocks.len() + 1) * CONS_BLOCK_SIZE <= usize::MAX,
    ensures
        blocks_shaped(blocks.push(blk)),
{
    assert forall|b: int| 0 <= b < blocks.len() + 1 implies #[trigger] block_shaped(blocks.push(blk)[b], b) by {
        if b < blocks.len() {
            assert(blocks.push(blk)[b] == blocks[b]);
        }
    }
}

/// The slots of a block sequence, by address.
pub closed spec fn cells_of(blocks: Seq<ConsBlock>) -> Seq<ConsSlot> {
    Seq::new(
        (blocks.len() * CONS_BLOCK_SIZE) as nat,
        |a: int| blocks[a / CONS_BLOCK_SIZE as int].conses@[a % CONS_BLOCK_SIZE as int],
    )
}

/// The mark bit of address `a`, read from its block's bitmap.
pub closed spec fn mark_of(blocks: Seq<ConsBlock>, a: int) -> bool {
    let s = a % CONS_BLOCK_SIZE as int;
    word_bit(
        blocks[a / CONS_BLOCK_SIZE as int].gcmarkbits@[s / BITS_PER_BITS_WORD as int],
        (s % BITS_PER_BITS_WORD as int) as u64,
    )
}

/// The mark bits of a block sequence, by address.
pub closed spec fn marks_of(blocks: Seq<ConsBlock>) -> Seq<bool> {
    Seq::new((blocks.len() * CONS_BLOCK_SIZE) as nat, |a: int| mark_of(blocks, a))
}

/// Appending a full block with a clear bitmap appends its slots and clear
/// marks.
proof fn lemma_push_block(blocks: Seq<ConsBlock>, blk: ConsBlock)
    requires
        blk.conses@.len() == CONS_BLOCK_SIZE,
        blk.gcmarkbits@ == seq![0u64, 0u64],
    ensures
        cells_of(blocks.push(blk)) =~= cells_of(blocks) + blk.conses@,
        marks_of(blocks.push(blk)) =~= marks_of(blocks) + clear_marks(),
{
    let nb = blocks.len() as int;
    let n = nb * 100;
    let bs = blocks.push(blk);
    let cm = clear_marks();
    assert(marks_of(bs).len() == marks_of(blocks).len() + cm.len());
    assert forall|a: int|
        #![trigger cells_of(bs)[a]]
        #![trigger marks_of(bs)[a]]
        0 <= a < n + 100 implies cells_of(bs)[a] == (cells_of(blocks) + blk.conses@)[a]
            && marks_of(bs)[a] == (marks_of(blocks) + cm)[a] by {
        assert(marks_of(bs)[a] == mark_of(bs, a));
        if a >= n {
            assert(a / 100 == nb && a % 100 == a - n);
            let sl = a % 100;
            assert(sl / 64 == 0 || sl / 64 == 1);
            assert(bs[nb].gcmarkbits@[sl / 64] == 0u64);
            lemma_zero_word((sl % 64) as u64);
            assert(!mark_of(bs, a));
            assert((marks_of(blocks) + cm)[a] == cm[a - n]);
        } else {
            assert(a / 100 < nb) by (nonlinear_arith)
                requires
                    a < nb * 100,
                    0 <= a,
            ;
            assert(bs[a / 100] == blocks[a / 100]);
            assert(mark_of(bs, a) == mark_of(blocks, a));
            assert(marks_of(blocks)[a] == mark_of(blocks, a));
        }
    }
}

impl View for ConsHeap {
    type V = HeapModel;

    closed spec fn view(&self) -> HeapModel {
        HeapModel {
            cells: cells_of(self.blocks@),
            marks: marks_of(self.blocks@),
            free: self.free_cells@,
            n_blocks: self.blocks@.len(),
            consing_since_gc: self.consing_since_gc as nat,
            total_free_conses: self.total_free_conses as nat,
        }
    }
}

impl ConsHeap {
    /// The blocks are well laid out, the model satisfies its invariant, and
    /// the free-list head matches it.
    pub closed spec fn wf(&self) -> bool {
        &&& self.shaped()
        &&& self.cons_free_list == head_of(self.free_cells@)
        &&& self@.inv()
    }

    /// The block layout: full blocks, full bitmaps, previous-block links,
    /// and every address representable.
    closed spec fn shaped(&self) -> bool {
        blocks_shaped(self.blocks@)
    }

    /// A well-formed heap's model satisfies the model invariant.
    pub proof fn lemma_wf_inv(&self)
        requires
            self.wf(),
        ensures
            self@.inv(),
    {
    }

    /// An empty heap: no blocks, an empty free list, zero counters.
    pub fn new() -> (r: ConsHeap)
        ensures
            r.wf(),
            r@.n_blocks == 0,
            r@.cells.len() == 0,
            r@.free.len() == 0,
            r@.consing_since_gc == 0,
            r@.total_free_conses == 0,
    {
        let r = ConsHeap {
            blocks: Vec::new(),
            cons_free_list: None,
            free_cells: Ghost(Seq::empty()),
            consing_since_gc: 0,
            total_free_conses: 0,
        };
        assert(r@.cells =~= Seq::empty());
        r
    }

    /// Whether the mark bit of cell `a` is set.
    pub fn is_marked(&self, a: usize) -> (r: bool)
        requires
            self.wf(),
            a < self@.cells.len(),
        ensures
            r == self@.marks[a as int],
    {
        let b = a / CONS_BLOCK_SIZE;
        let s = a % CONS_BLOCK_SIZE;
        assert(b < self.blocks@.len()) by (nonlinear_arith)
            requires
                a < self.blocks@.len() * 100,
                b == a / 100,
        ;
        assert(self.blocks@[b as int].gcmarkbits@.len() == MARK_WORDS);
        test_bit(self.blocks[b].gcmarkbits[s / BITS_PER_BITS_WORD], (s % BITS_PER_BITS_WORD) as u64)
    }

    /// Sets the mark bit of the live cell `a`; nothing else changes.
    pub fn set_mark(&mut self, a: usize)
        requires
            old(self).wf(),
            old(self)@.is_cell(a as int),
        ensures
            final(self).wf(),
            final(self)@ == old(self)@.with_mark(a as int, true),
    {
        self.write_mark(a, true);
    }

    /// Clears the mark bit of cell `a`; nothing else changes.
    pub fn clear_mark(&mut self, a: usize)
        requires
            old(self).wf(),
            a < old(self)@.cells.len(),
        ensures
            final(self).wf(),
            final(self)@ == old(self)@.with_mark(a as int, false),
    {
        self.write_mark(a, false);
    }

    /// The slot at address `a`.
    fn read_slot(&self, a: usize) -> (r: ConsSlot)
        requires
            self.shaped(),
            a < self@.cells.len(),
        ensures
            r == self@.cells[a as int],
    {
        let b = a / CONS_BLOCK_SIZE;
        assert(b < self.blocks@.len()) by (nonlinear_arith)
            requires
                a < self.blocks@.len() * 100,
                b == a / 100,
        ;
        self.blocks[b].conses[a % CONS_BLOCK_SIZE]
    }

    /// Stores `x` in the slot at address `a`; the invariant is the caller's
    /// to restore.
    fn write_slot(&mut self, a: usize, x: ConsSlot)
        requires
            old(self).shaped(),
            a < old(self)@.cells.len(),
        ensures
            final(self).shaped(),
            final(self)@ == (HeapModel { cells: old(self)@.cells.update(a as int, x), ..old(self)@ }),
            final(self).cons_free_list == old(self).cons_free_list,
    {
        let ghost pre = self@;
        let b = a / CONS_BLOCK_SIZE;
        assert(b < self.blocks@.len()) by (nonlinear_arith)
            requires
                a < self.blocks@.len() * 100,
                b == a / 100,
        ;
        assert(self.blocks@[b as int].conses@.len() == CONS_BLOCK_SIZE);
        self.blocks[b].conses[a % CONS_BLOCK_SIZE] = x;
        assert(self.blocks@.len() == pre.n_blocks);
        assert forall|i: int| 0 <= i < pre.cells.len() implies #[trigger] self@.cells[i] == (if i
            == a {
            x
        } else {
            pre.cells[i]
        }) && self@.marks[i] == pre.marks[i] by {
            lemma_addr(i, a as int);
        }
        assert(self@.cells =~= pre.cells.update(a as int, x));
        assert(self@.marks =~= pre.marks);
        assert forall|bi: int| 0 <= bi < self.blocks@.len() implies #[trigger] self.blocks@[bi].conses@.len() == CONS_BLOCK_SIZE by {}
    }

    /// Pushes the live, unmarked cell `a` onto the free list; its slot now
    /// holds the link to the old head. This is the collector's reclaim
    /// step: it must only be used on a cell that nothing refers to any more.
    pub fn free_cons(&mut self, a: usize)
        requires
            old(self).wf(),
            old(self)@.is_cell(a as int),
            !old(self)@.marks[a as int],
        ensures
            final(self).wf(),
            final(self)@ == old(self)@.reclaimed(a),
    {
        let ghost pre = self@;
        proof {
            lemma_free_len(pre, a as int);
        }
        let link = LispConsChain { chain: self.cons_free_list };
        self.write_slot(a, ConsSlot::Free(link));
        self.cons_free_list = Some(a);
        self.free_cells = Ghost(seq![a].add(self.free_cells@));
        self.total_free_conses = self.total_free_conses + 1;
        proof {
            assert(self@ =~= pre.reclaimed(a));
            lemma_reclaimed_inv(pre, a);
        }
    }

    /// Detaches the head of the free list and hands it out as an empty live
    /// cell; `None` when the free list is exhausted.
    pub fn pop_free_cons(&mut self) -> (r: Option<usize>)
        requires
            old(self).wf(),
        ensures
            final(self).wf(),
            (r, final(self)@) == old(self)@.pop_spec(),
    {
        let ghost pre = self@;
        match self.cons_free_list {
            None => None,
            Some(a) => {
                assert(pre.free[0] == a);
                let next = match self.read_slot(a) {
                    ConsSlot::Free(link) => link.chain,
                    ConsSlot::Live(_) => None,
                };
                self.write_slot(a, ConsSlot::Live(LispCons { car: LispObject::Nil, cdr: LispObject::Nil, is_pure: false }));
                self.cons_free_list = next;
                self.free_cells = Ghost(self.free_cells@.drop_first());
                self.total_free_conses = self.total_free_conses - 1;
                proof {
                    let post = self@;
                    assert forall|i: int| 0 <= i < post.free.len() implies #[trigger] post.free[i] < post.cells.len()
                        && post.cells[post.free[i] as int] == ConsSlot::Free(LispConsChain { chain: chain_at(post.free, i) })
                        && !post.marks[post.free[i] as int] by {
                        assert(post.free[i] == pre.free[i + 1]);
                    }
                    assert forall|x: int| 0 <= x < post.cells.len() && (#[trigger] post.cells[x]) is Free implies post.free.contains(x as usize) by {
                        assert(pre.cells[x] is Free);
                        let j = choose|j: int| 0 <= j < pre.free.len() && pre.free[j] == x as usize;
                        assert(j != 0);
                        assert(post.free[j - 1] == x as usize);
                    }
                    assert(self@ =~= pre.pop_spec().1);
                }
                Some(a)
            },
        }
    }

    /// Appends a fresh block with a clear bitmap, links it to the previous
    /// block, and seeds the free list with all of its slots. Fails with
    /// `OutOfMemory`, changing nothing, when its addresses would not fit.
    pub fn allocate_block(&mut self) -> (r: Result<(), LispError>)
        requires
            old(self).wf(),
        ensures
            final(self).wf(),
            (r, final(self)@) == old(self)@.allocate_block_spec(),
    {
        let ghost pre = self@;
        proof {
            lemma_free_len(pre, 0);
        }
        let nb = self.blocks.len();
        let n = nb * CONS_BLOCK_SIZE;
        if n > usize::MAX - CONS_BLOCK_SIZE {
            return Err(LispError::OutOfMemory);
        }
        let tail = self.cons_free_list;
        let block = fresh_block(n, nb, tail);
        let ghost blk = block;
        self.blocks.push(block);
        self.cons_free_list = Some(n);
        self.free_cells = Ghost(
            Seq::new(CONS_BLOCK_SIZE as nat, |j: int| (n + j) as usize) + self.free_cells@,
        );
        self.total_free_conses = self.total_free_conses + CONS_BLOCK_SIZE;
        proof {
            lemma_push_block(old(self).blocks@, blk);
            assert(self.blocks@ == old(self).blocks@.push(blk));
            assert(self@.cells == pre.grown().cells);
            assert(self@.marks == pre.grown().marks);
            assert(self@.free =~= pre.grown().free);
            assert(self@ =~= pre.grown());
            lemma_grown_inv(pre);
            lemma_push_shaped(old(self).blocks@, blk);
        }
        Ok(())
    }

    /// The contents of cell `a`, or `None` when `a` is not a live cell:
    /// what a tracer reads for each slot.
    pub fn live_cons(&self, a: usize) -> (r: Option<LispCons>)
        requires
            self.wf(),
        ensures
            r == (if self@.is_cell(a as int) {
                Some(self@.cell(a as int))
            } else {
                None
            }),
    {
        if a >= self.blocks.len() * CONS_BLOCK_SIZE {
            return None;
        }
        match self.read_slot(a) {
            ConsSlot::Live(c) => Some(c),
            ConsSlot::Free(_) => None,
        }
    }

    /// Overwrites the live cell `a` with `c`.
    pub fn set_cons(&mut self, a: usize, c: LispCons)
        requires
            old(self).wf(),
            old(self)@.is_cell(a as int),
        ensures
            final(self).wf(),
            final(self)@ == old(self)@.with_cell(a as int, c),
    {
        let ghost pre = self@;
        self.write_slot(a, ConsSlot::Live(c));
        proof {
            let post = self@;
            assert(post =~= pre.with_cell(a as int, c));
            assert forall|i: int| 0 <= i < post.free.len() implies #[trigger] post.free[i] < post.cells.len()
                && post.cells[post.free[i] as int] == ConsSlot::Free(LispConsChain { chain: chain_at(post.free, i) })
                && !post.marks[post.free[i] as int] by {
                assert(pre.free[i] != a) by {
                    if pre.free[i] == a {
                        assert(pre.cells[a as int] is Free);
                    }
                }
            }
        }
    }

    /// Charges one cell's storage to the since-last-collection counter.
    pub fn charge_cons(&mut self)
        requires
            old(self).wf(),
        ensures
            final(self).wf(),
            final(self)@ == old(self)@.charged(),
    {
        self.consing_since_gc = self.consing_since_gc.saturating_add(CONS_CELL_BYTES);
        assert(self@ =~= old(self)@.charged());
    }

    /// Whether the free list has a cell to hand out.
    pub fn has_free_cons(&self) -> (r: bool)
        requires
            self.wf(),
        ensures
            r == (self@.free.len() > 0),
    {
        self.cons_free_list.is_some()
    }

    /// Bytes consed since the last collection.
    pub fn consing_since_gc(&self) -> (r: u64)
        ensures
            r == self@.consing_since_gc,
    {
        self.consing_since_gc
    }

    /// Number of cells on the free list.
    pub fn total_free_conses(&self) -> (r: usize)
        ensures
            r == self@.total_free_conses,
    {
        self.total_free_conses
    }

    /// The storage kind block `b` was allocated as: always cons storage.
    pub fn block_mem_type(&self, b: usize) -> (r: MemType)
        requires
            self.wf(),
            b < self@.n_blocks,
        ensures
            r == MemType::Cons,
    {
        self.blocks[b].mem_type
    }

    /// Number of blocks allocated so far.
    pub fn n_blocks(&self) -> (r: usize)
        ensures
            r == self@.n_blocks,
    {
        self.blocks.len()
    }

    /// Restarts the since-last-collection counter, as the collector does
    /// after a cycle; nothing else changes.
    pub fn reset_consing_since_gc(&mut self)
        requires
            old(self).wf(),
        ensures
            final(self).wf(),
            final(self)@ == (HeapModel { consing_since_gc: 0, ..old(self)@ }),
    {
        self.consing_since_gc = 0;
        assert(self@ =~= (HeapModel { consing_since_gc: 0, ..old(self)@ }));
    }

    /// Sets (`on`) or clears the mark bit of address `a`.
    fn write_mark(&mut self, a: usize, on: bool)
        requires
            old(self).wf(),
            a < old(self)@.cells.len(),
            on ==> old(self)@.is_cell(a as int),
        ensures
            final(self).wf(),
            final(self)@ == old(self)@.with_mark(a as int, on),
    {
        let ghost pre = self@;
        let b = a / CONS_BLOCK_SIZE;
        let s = a % CONS_BLOCK_SIZE;
        let w = s / BITS_PER_BITS_WORD;
        let k = (s % BITS_PER_BITS_WORD) as u64;
        assert(b < self.blocks@.len()) by (nonlinear_arith)
            requires
                a < self.blocks@.len() * 100,
                b == a / 100,
        ;
        assert(self.blocks@[b as int].gcmarkbits@.len() == MARK_WORDS);
        let old_word = self.blocks[b].gcmarkbits[w];
        let new_word = if on {
            old_word | (1u64 << k)
        } else {
            old_word & !(1u64 << k)
        };
        self.blocks[b].gcmarkbits[w] = new_word;
        assert(self.blocks@.len() == pre.n_blocks);
        assert forall|i: int| 0 <= i < pre.cells.len() implies #[trigger] self@.marks[i] == (if i
            == a {
            on
        } else {
            pre.marks[i]
        }) && self@.cells[i] == pre.cells[i] by {
            lemma_addr(i, a as int);
            let j = ((i % 100) % 64) as u64;
            if on {
                lemma_set_bit(old_word, k, j);
            } else {
                lemma_clear_bit(old_word, k, j);
            }
        }
        assert(self@.marks =~= pre.marks.update(a as int, on));
        assert(self@.cells =~= pre.cells);
        assert(self@ =~= pre.with_mark(a as int, on));
        assert forall|bi: int| 0 <= bi < self.blocks@.len() implies #[trigger] self.blocks@[bi].conses@.len() == CONS_BLOCK_SIZE by {}
    }
}

/// A block for addresses `n ..`, all slots free and chained in address
/// order, the last one linked to `tail`, with a clear bitmap, following
/// block `nb - 1`.
fn fresh_block(n: usize, nb: usize, tail: Option<usize>) -> (r: ConsBlock)
    requires
        n + CONS_BLOCK_SIZE <= usize::MAX,
    ensures
        r.conses@ == Seq::new(
            CONS_BLOCK_SIZE as nat,
            |i: int| ConsSlot::Free(LispConsChain { chain: fresh_chain(n as int, i, tail) }),
        ),
        r.gcmarkbits@ == seq![0u64, 0u64],
        r.mem_type == MemType::Cons,
        r.next == (if nb == 0 {
            None
        } else {
            Some((nb - 1) as usize)
        }),
{
    let mut conses: Vec<ConsSlot> = Vec::new();
    let mut i: usize = 0;
    while i < CONS_BLOCK_SIZE
        invariant
            n + CONS_BLOCK_SIZE <= usize::MAX,
            i <= CONS_BLOCK_SIZE,
            conses@.len() == i,
            forall|j: int|
                0 <= j < i ==> #[trigger] conses@[j] == ConsSlot::Free(
                    LispConsChain { chain: fresh_chain(n as int, j, tail) },
                ),
        decreases CONS_BLOCK_SIZE - i,
    {
        let chain = if i + 1 < CONS_BLOCK_SIZE {
            Some(n + i + 1)
        } else {
            tail
        };
        conses.push(ConsSlot::Free(LispConsChain { chain }));
        i = i + 1;
    }
    let next = if nb == 0 {
        None
    } else {
        Some(nb - 1)
    };
    let gcmarkbits = vec![0u64, 0u64];
    assert(gcmarkbits@ =~= seq![0u64, 0u64]);
    assert(conses@ =~= Seq::new(
        CONS_BLOCK_SIZE as nat,
        |i: int| ConsSlot::Free(LispConsChain { chain: fresh_chain(n as int, i, tail) }),
    ));
    ConsBlock { conses, gcmarkbits, mem_type: MemType::Cons, next }
}

/// Reclaiming a live, unmarked cell preserves the invariant.
proof fn lemma_reclaimed_inv(pre: HeapModel, a: usize)
    requires
        pre.inv(),
        pre.is_cell(a as int),
        !pre.marks[a as int],
    ensures
        pre.reclaimed(a).inv(),
{
    lemma_free_len(pre, a as int);
    let post = pre.reclaimed(a);
    assert forall|i: int| 0 <= i < post.free.len() implies #[trigger] post.free[i] < post.cells.len()
        && post.cells[post.free[i] as int] == ConsSlot::Free(LispConsChain { chain: chain_at(post.free, i) })
        && !post.marks[post.free[i] as int] by {
        if i > 0 {
            assert(post.free[i] == pre.free[i - 1]);
        }
    }
    assert forall|x: int| 0 <= x < post.cells.len() && (#[trigger] post.cells[x]) is Free implies post.free.contains(x as usize) by {
        if x != a {
            assert(pre.cells[x] is Free);
            let j = choose|j: int| 0 <= j < pre.free.len() && pre.free[j] == x as usize;
            assert(post.free[j + 1] == x as usize);
        } else {
            assert(post.free[0] == a);
        }
    }
}

/// Growing preserves the invariant.
pub proof fn lemma_grown_inv(pre: HeapModel)
    requires
        pre.inv(),
        pre.can_grow(),
    ensures
        pre.grown().inv(),
{
    let g = pre.grown();
    assert forall|i: int| 0 <= i < g.free.len() implies #[trigger] g.free[i] < g.cells.len()
        && g.cells[g.free[i] as int] == ConsSlot::Free(LispConsChain { chain: chain_at(g.free, i) })
        && !g.marks[g.free[i] as int] by {
        if i >= 100 {
            assert(g.free[i] == pre.free[i - 100]);
        } else if i == 99 {
            if pre.free.len() > 0 {
                assert(g.free[100] == pre.free[0]);
            }
        }
    }
    assert forall|x: int| 0 <= x < g.cells.len() && (#[trigger] g.cells[x]) is Free implies g.free.contains(x as usize) by {
        if x >= pre.cells.len() as int {
            assert(g.free[x - pre.cells.len()] == x as usize);
        } else {
            assert(pre.cells[x] is Free);
            let j = choose|j: int| 0 <= j < pre.free.len() && pre.free[j] == x as usize;
            assert(g.free[j + 100] == x as usize);
        }
    }
    assert forall|i: int, j: int| 0 <= i < g.free.len() && 0 <= j < g.free.len() && i != j implies g.free[i] != g.free[j] by {
        if i >= 100 {
            assert(pre.free[i - 100] < pre.cells.len());
        }
        if j >= 100 {
            assert(pre.free[j - 100] < pre.cells.len());
        }
    }
}

/// The free list is no longer than any finite set of addresses that
/// holds all of its entries.
proof fn lemma_free_within(m: HeapModel, r: Set<int>)
    requires
        m.free.no_duplicates(),
        r.finite(),
        forall|i: int| 0 <= i < m.free.len() ==> r.contains(#[trigger] m.free[i] as int),
    ensures
        m.free.len() <= r.len(),
{
    let s = m.free.map_values(|x: usize| x as int);
    assert forall|i: int, j: int| 0 <= i < s.len() && 0 <= j < s.len() && i != j implies s[i] != s[j] by {
        assert(m.free[i] != m.free[j]);
    }
    assert(s.no_duplicates());
    s.unique_seq_to_set();
    assert forall|x: int| s.to_set().contains(x) implies r.contains(x) by {
        let i = choose|i: int| 0 <= i < s.len() && s[i] == x;
        assert(r.contains(m.free[i] as int));
    }
    lemma_len_subset(s.to_set(), r);
}

/// The free list is no longer than the heap, and shorter when some cell
/// is live.
proof fn lemma_free_len(m: HeapModel, a: int)
    requires
        m.inv(),
    ensures
        m.free.len() <= m.cells.len(),
        m.is_cell(a) ==> m.free.len() < m.cells.len(),
{
    let n = m.cells.len() as int;
    lemma_int_range(0, n);
    assert forall|i: int| 0 <= i < m.free.len() implies set_int_range(0, n).contains(#[trigger] m.free[i] as int) by {}
    lemma_free_within(m, set_int_range(0, n));
    if m.is_cell(a) {
        let r = set_int_range(0, n).remove(a);
        assert forall|i: int| 0 <= i < m.free.len() implies r.contains(#[trigger] m.free[i] as int) by {
            if m.free[i] as int == a {
                assert(m.cells[a] is Free);
            }
        }
        lemma_free_within(m, r);
    }
}

/// Two addresses share a block and a slot exactly when they are equal.
proof fn lemma_addr(i: int, a: int)
    requires
        0 <= i,
        0 <= a,
    ensures
        (i / 100 == a / 100 && i % 100 == a % 100) <==> i == a,
        (i / 100 == a / 100 && (i % 100) / 64 == (a % 100) / 64 && (i % 100) % 64 == (a % 100) % 64) <==> i == a,
{
}

} // verus!
