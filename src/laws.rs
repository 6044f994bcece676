//! Laws relating the cons primitives and the free list.
use vstd::prelude::*;

use crate::cons::{car_result, cdr_result, cons_result, setcar_result, setcdr_result};
use crate::heap::{lemma_grown_inv, HeapModel};
use crate::object::{consp_spec, LispError, LispObject};

verus! {

/// Whatever `cons` returns on success satisfies `consp`.
pub proof fn lemma_cons_is_consp(h: HeapModel, car: LispObject, cdr: LispObject)
    requires
        h.inv(),
    ensures
        cons_result(h, car, cdr, false).0 is Ok ==> consp_spec(
            cons_result(h, car, cdr, false).0->Ok_0,
        ),
{
}

/// The car and cdr of a new cell are the values it was built from.
pub proof fn lemma_car_cdr_of_cons(h: HeapModel, car: LispObject, cdr: LispObject)
    requires
        h.inv(),
    ensures
        ({
            let (r, h2) = cons_result(h, car, cdr, false);
            r is Ok ==> car_result(h2, r->Ok_0) == Ok::<LispObject, LispError>(car) && cdr_result(
                h2,
                r->Ok_0,
            ) == Ok::<LispObject, LispError>(cdr)
        }),
{
    if h.free.len() == 0 && h.can_grow() {
        lemma_grown_inv(h);
        assert(h.grown().free.len() > 0);
    }
}

/// A new cell is never one that was live before: it comes from the free
/// list or from a block that did not exist.
pub proof fn lemma_cons_fresh(h: HeapModel, car: LispObject, cdr: LispObject)
    requires
        h.inv(),
    ensures
        ({
            let r = cons_result(h, car, cdr, false).0;
            r is Ok ==> forall|x: int| #[trigger] h.is_cell(x) ==> x != r->Ok_0->Cons_0 as int
        }),
{
    if h.free.len() == 0 && h.can_grow() {
        lemma_grown_inv(h);
        assert(h.grown().free[0] == h.cells.len());
    } else if h.free.len() > 0 {
        assert(h.free[0] < h.cells.len());
    }
}

/// With the free list empty, `cons` adds one block and hands out its first
/// cell, an address past every cell that existed before.
pub proof fn lemma_cons_grows(h: HeapModel, car: LispObject, cdr: LispObject)
    requires
        h.inv(),
        h.free.len() == 0,
        h.can_grow(),
    ensures
        ({
            let (r, h2) = cons_result(h, car, cdr, false);
            &&& r == Ok::<LispObject, LispError>(LispObject::Cons(h.cells.len() as usize))
            &&& h2.n_blocks == h.n_blocks + 1
            &&& forall|x: int| #[trigger] h.is_cell(x) ==> x < h.cells.len()
        }),
{
    lemma_grown_inv(h);
    assert(h.grown().free[0] == h.cells.len());
}

/// `setcar` replaces the car and keeps the cdr; when it fails nothing
/// changes.
pub proof fn lemma_setcar_then_car(h: HeapModel, c: LispObject, v: LispObject)
    requires
        h.inv(),
    ensures
        ({
            let (r, h2) = setcar_result(h, c, v);
            &&& r is Ok ==> car_result(h2, c) == Ok::<LispObject, LispError>(v) && cdr_result(h2, c)
                == cdr_result(h, c)
            &&& r is Err ==> h2 == h
        }),
{
}

/// `setcdr` replaces the cdr and keeps the car; when it fails nothing
/// changes.
pub proof fn lemma_setcdr_then_cdr(h: HeapModel, c: LispObject, v: LispObject)
    requires
        h.inv(),
    ensures
        ({
            let (r, h2) = setcdr_result(h, c, v);
            &&& r is Ok ==> cdr_result(h2, c) == Ok::<LispObject, LispError>(v) && car_result(h2, c)
                == car_result(h, c)
            &&& r is Err ==> h2 == h
        }),
{
}

/// Reclaiming a cell and then popping the free list once hands back that
/// same cell and restores the free list and its count.
pub proof fn lemma_reclaim_then_pop(h: HeapModel, a: usize)
    requires
        h.inv(),
        h.is_cell(a as int),
        !h.marks[a as int],
    ensures
        ({
            let (r, h2) = h.reclaimed(a).pop_spec();
            &&& r == Some(a)
            &&& h2.free == h.free
            &&& h2.total_free_conses == h.total_free_conses
        }),
{
    assert(h.reclaimed(a).free.drop_first() =~= h.free);
}

} // verus!
