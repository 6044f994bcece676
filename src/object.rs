//! Tagged Lisp values and the errors the cons primitives signal.
use vstd::prelude::*;

verus! {

/// A dynamically typed Lisp value: an immediate datum or a reference to a
/// cons cell, identified by its address in a `ConsHeap`.
#[derive(Clone, Copy, Debug, PartialEq, Eq, Structural)]
pub enum LispObject {
    Nil,
    T,
    Int(i64),
    Cons(usize),
}

/// The failures a cons primitive can report.
#[derive(Clone, Copy, Debug, PartialEq, Eq, Structural)]
pub enum LispError {
    /// The operand is not a live cons cell (`wrong-type-argument consp`).
    TypeError(LispObject),
    /// The operand is a cons cell in pure (read-only) storage.
    ImmutabilityError(LispObject),
    /// No further block can be addressed.
    OutOfMemory,
}

/// True iff the dynamic type tag of `x` is "cons".
pub open spec fn consp_spec(x: LispObject) -> bool {
    x is Cons
}

/// The type predicate on the tag alone.
#[allow(non_snake_case)]
pub fn CONSP(x: LispObject) -> (r: bool)
    ensures
        r == consp_spec(x),
{
    matches!(x, LispObject::Cons(_))
}

/// Lisp-level `consp`: `t` for a cons, `nil` for anything else.
#[allow(non_snake_case)]
pub fn Fconsp(object: LispObject) -> (r: LispObject)
    ensures
        r == (if consp_spec(object) { LispObject::T } else { LispObject::Nil }),
{
    if CONSP(object) {
        LispObject::T
    } else {
        LispObject::Nil
    }
}

/// The address carried by a cons reference.
#[allow(non_snake_case)]
pub fn XCONS(a: LispObject) -> (r: usize)
    requires
        a is Cons,
    ensures
        r == a->Cons_0,
{
    match a {
        LispObject::Cons(p) => p,
        _ => 0,
    }
}

} // verus!
