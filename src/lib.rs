//! A fixed-size-object allocator for cons cells.
//!
//! Cells live in blocks of `CONS_BLOCK_SIZE` slots, each block with a
//! parallel mark bitmap for the garbage collector. Reclaimed cells are
//! threaded onto a free list that `cons` consults before growing the
//! block chain. Every slot is explicitly either a live cell or a free-list
//! node, so a reclaimed cell can never be read as live data.
use vstd::prelude::*;

pub mod object;
pub mod block;
pub mod heap;
pub mod cons;
pub mod laws;

verus! {

} // verus!
