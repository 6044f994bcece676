//! The cons primitives: allocation, accessors and guarded mutation.
use vstd::prelude::*;

use crate::block::LispCons;
use crate::heap::{ConsHeap, HeapModel};
use crate::object::{consp_spec, LispError, LispObject, XCONS};

verus! {

/// What allocating a cell with the given fields returns, and the state it
/// leaves: the head of the free list, after growing the block chain when
/// the free list is empty, now holding the fields and charged to the
/// since-last-collection counter; `OutOfMemory` with nothing changed when
/// the free list is empty and no block can be added.
pub open spec fn cons_result(h: HeapModel, car: LispObject, cdr: LispObject, is_pure: bool) -> (
    Result<LispObject, LispError>,
    HeapModel,
) {
    if h.free.len() == 0 && !h.can_grow() {
        (Err(LispError::OutOfMemory), h)
    } else {
        let g = if h.free.len() == 0 {
            h.grown()
        } else {
            h
        };
        let a = g.free[0];
        (
            Ok(LispObject::Cons(a)),
            g.pop_spec().1.with_cell(a as int, LispCons { car, cdr, is_pure }).charged(),
        )
    }
}

/// What `car` returns on `v`: the first field of a live cell, else a type
/// error naming `v`.
pub open spec fn car_result(h: HeapModel, v: LispObject) -> Result<LispObject, LispError> {
    if h.is_cell_ref(v) {
        Ok(h.cell(v->Cons_0 as int).car)
    } else {
        Err(LispError::TypeError(v))
    }
}

/// What `cdr` returns on `v`: the second field of a live cell, else a type
/// error naming `v`.
pub open spec fn cdr_result(h: HeapModel, v: LispObject) -> Result<LispObject, LispError> {
    if h.is_cell_ref(v) {
        Ok(h.cell(v->Cons_0 as int).cdr)
    } else {
        Err(LispError::TypeError(v))
    }
}

/// What a mutation of `cell` returns and leaves: a type error if `cell` is
/// not a live cell, an immutability error if it is pure, and otherwise
/// `newval` with the cell's contents replaced by `updated`.
pub open spec fn guarded_set(h: HeapModel, cell: LispObject, newval: LispObject, updated: LispCons) -> (
    Result<LispObject, LispError>,
    HeapModel,
) {
    if !h.is_cell_ref(cell) {
        (Err(LispError::TypeError(cell)), h)
    } else if h.cell(cell->Cons_0 as int).is_pure {
        (Err(LispError::ImmutabilityError(cell)), h)
    } else {
        (Ok(newval), h.with_cell(cell->Cons_0 as int, updated))
    }
}

/// What `setcar` returns and leaves.
pub open spec fn setcar_result(h: HeapModel, cell: LispObject, newcar: LispObject) -> (
    Result<LispObject, LispError>,
    HeapModel,
) {
    guarded_set(h, cell, newcar, LispCons { car: newcar, ..h.cell(cell->Cons_0 as int) })
}

/// What `setcdr` returns and leaves.
pub open spec fn setcdr_result(h: HeapModel, cell: LispObject, newcdr: LispObject) -> (
    Result<LispObject, LispError>,
    HeapModel,
) {
    guarded_set(h, cell, newcdr, LispCons { cdr: newcdr, ..h.cell(cell->Cons_0 as int) })
}

/// Takes a cell from the free list, growing the block chain first when the
/// free list is empty, and fills it.
fn allocate_cons(h: &mut ConsHeap, car: LispObject, cdr: LispObject, is_pure: bool) -> (r: Result<
    LispObject,
    LispError,
>)
    requires
        old(h).wf(),
    ensures
        final(h).wf(),
        (r, final(h)@) == cons_result(old(h)@, car, cdr, is_pure),
{
    if !h.has_free_cons() {
        match h.allocate_block() {
            Ok(()) => {},
            Err(e) => {
                return Err(e);
            },
        }
    }
    proof {
        h.lemma_wf_inv();
    }
    let a = match h.pop_free_cons() {
        Some(a) => a,
        None => {
            return Err(LispError::OutOfMemory);
        },
    };
    h.set_cons(a, LispCons { car, cdr, is_pure });
    h.charge_cons();
    Ok(LispObject::Cons(a))
}

/// Creates a new cons cell with the given car and cdr.
#[allow(non_snake_case)]
pub fn Fcons(h: &mut ConsHeap, car: LispObject, cdr: LispObject) -> (r: Result<
    LispObject,
    LispError,
>)
    requires
        old(h).wf(),
    ensures
        final(h).wf(),
        (r, final(h)@) == cons_result(old(h)@, car, cdr, false),
        r is Err <==> (old(h)@.free.len() == 0 && !old(h)@.can_grow()),
{
    allocate_cons(h, car, cdr, false)
}

/// Creates a new cons cell in pure storage: it can never be mutated.
pub fn pure_cons(h: &mut ConsHeap, car: LispObject, cdr: LispObject) -> (r: Result<
    LispObject,
    LispError,
>)
    requires
        old(h).wf(),
    ensures
        final(h).wf(),
        (r, final(h)@) == cons_result(old(h)@, car, cdr, true),
        r is Err <==> (old(h)@.free.len() == 0 && !old(h)@.can_grow()),
{
    allocate_cons(h, car, cdr, true)
}

/// The contents of the cell `x` refers to, or a type error when `x` is not
/// a live cell.
#[allow(non_snake_case)]
pub fn CHECK_CONS(h: &ConsHeap, x: LispObject) -> (r: Result<LispCons, LispError>)
    requires
        h.wf(),
    ensures
        r == (if h@.is_cell_ref(x) {
            Ok(h@.cell(x->Cons_0 as int))
        } else {
            Err(LispError::TypeError(x))
        }),
{
    match x {
        LispObject::Cons(a) => match h.live_cons(a) {
            Some(c) => Ok(c),
            None => Err(LispError::TypeError(x)),
        },
        _ => Err(LispError::TypeError(x)),
    }
}

/// Fails with an immutability error naming `x` when its contents `c` are
/// pure.
#[allow(non_snake_case)]
pub fn CHECK_IMPURE(x: LispObject, c: &LispCons) -> (r: Result<(), LispError>)
    ensures
        r == (if c.is_pure {
            Err(LispError::ImmutabilityError(x))
        } else {
            Ok(())
        }),
{
    if c.is_pure {
        Err(LispError::ImmutabilityError(x))
    } else {
        Ok(())
    }
}

/// The car of `cell`.
#[allow(non_snake_case)]
pub fn Fcar(h: &ConsHeap, cell: LispObject) -> (r: Result<LispObject, LispError>)
    requires
        h.wf(),
    ensures
        r == car_result(h@, cell),
        !consp_spec(cell) ==> r == Err::<LispObject, LispError>(LispError::TypeError(cell)),
{
    match CHECK_CONS(h, cell) {
        Ok(c) => Ok(c.car),
        Err(e) => Err(e),
    }
}

/// The cdr of `cell`.
#[allow(non_snake_case)]
pub fn Fcdr(h: &ConsHeap, cell: LispObject) -> (r: Result<LispObject, LispError>)
    requires
        h.wf(),
    ensures
        r == cdr_result(h@, cell),
        !consp_spec(cell) ==> r == Err::<LispObject, LispError>(LispError::TypeError(cell)),
{
    match CHECK_CONS(h, cell) {
        Ok(c) => Ok(c.cdr),
        Err(e) => Err(e),
    }
}

/// Sets the car of the live cell `c` to `n`, with no checks.
#[allow(non_snake_case)]
fn XSETCAR(h: &mut ConsHeap, c: usize, n: LispObject)
    requires
        old(h).wf(),
        old(h)@.is_cell(c as int),
    ensures
        final(h).wf(),
        final(h)@ == old(h)@.with_cell(c as int, LispCons { car: n, ..old(h)@.cell(c as int) }),
{
    let cell = match h.live_cons(c) {
        Some(x) => x,
        None => {
            return;
        },
    };
    h.set_cons(c, LispCons { car: n, ..cell });
}

/// Sets the cdr of the live cell `c` to `n`, with no checks.
#[allow(non_snake_case)]
fn XSETCDR(h: &mut ConsHeap, c: usize, n: LispObject)
    requires
        old(h).wf(),
        old(h)@.is_cell(c as int),
    ensures
        final(h).wf(),
        final(h)@ == old(h)@.with_cell(c as int, LispCons { cdr: n, ..old(h)@.cell(c as int) }),
{
    let cell = match h.live_cons(c) {
        Some(x) => x,
        None => {
            return;
        },
    };
    h.set_cons(c, LispCons { cdr: n, ..cell });
}

/// Sets the car of `cell` to `newcar` and returns `newcar`. Fails, with
/// nothing changed, when `cell` is not a live cell or is pure.
#[allow(non_snake_case)]
pub fn Fsetcar(h: &mut ConsHeap, cell: LispObject, newcar: LispObject) -> (r: Result<
    LispObject,
    LispError,
>)
    requires
        old(h).wf(),
    ensures
        final(h).wf(),
        (r, final(h)@) == setcar_result(old(h)@, cell, newcar),
        !old(h)@.is_cell_ref(cell) ==> r == Err::<LispObject, LispError>(LispError::TypeError(cell))
            && final(h)@ == old(h)@,
        old(h)@.is_cell_ref(cell) && old(h)@.cell(cell->Cons_0 as int).is_pure ==> r == Err::<
            LispObject,
            LispError,
        >(LispError::ImmutabilityError(cell)) && final(h)@ == old(h)@,
{
    let c = match CHECK_CONS(h, cell) {
        Ok(c) => c,
        Err(e) => {
            return Err(e);
        },
    };
    match CHECK_IMPURE(cell, &c) {
        Ok(()) => {},
        Err(e) => {
            return Err(e);
        },
    }
    XSETCAR(h, XCONS(cell), newcar);
    Ok(newcar)
}

/// Sets the cdr of `cell` to `newcdr` and returns `newcdr`. Fails, with
/// nothing changed, when `cell` is not a live cell or is pure.
#[allow(non_snake_case)]
pub fn Fsetcdr(h: &mut ConsHeap, cell: LispObject, newcdr: LispObject) -> (r: Result<
    LispObject,
    LispError,
>)
    requires
        old(h).wf(),
    ensures
        final(h).wf(),
        (r, final(h)@) == setcdr_result(old(h)@, cell, newcdr),
        !old(h)@.is_cell_ref(cell) ==> r == Err::<LispObject, LispError>(LispError::TypeError(cell))
            && final(h)@ == old(h)@,
        old(h)@.is_cell_ref(cell) && old(h)@.cell(cell->Cons_0 as int).is_pure ==> r == Err::<
            LispObject,
            LispError,
        >(LispError::ImmutabilityError(cell)) && final(h)@ == old(h)@,
{
    let c = match CHECK_CONS(h, cell) {
        Ok(c) => c,
        Err(e) => {
            return Err(e);
        },
    };
    match CHECK_IMPURE(cell, &c) {
        Ok(()) => {},
        Err(e) => {
            return Err(e);
        },
    }
    XSETCDR(h, XCONS(cell), newcdr);
    Ok(newcdr)
}

} // verus!
