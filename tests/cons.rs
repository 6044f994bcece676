use cons_alloc::block::{LispCons, MemType, CONS_BLOCK_SIZE};
use cons_alloc::cons::{pure_cons, Fcar, Fcdr, Fcons, Fsetcar, Fsetcdr};
use cons_alloc::heap::ConsHeap;
use cons_alloc::object::{Fconsp, LispError, LispObject, CONSP, XCONS};

fn cons(h: &mut ConsHeap, a: LispObject, b: LispObject) -> LispObject {
    Fcons(h, a, b).expect("allocation succeeds")
}

#[test]
fn end_to_end_scenario() {
    let mut h = ConsHeap::new();
    let x = cons(&mut h, LispObject::Int(1), LispObject::Nil);
    assert!(CONSP(x));
    assert_eq!(Fcar(&h, x), Ok(LispObject::Int(1)));
    assert_eq!(Fcdr(&h, x), Ok(LispObject::Nil));
    let y = cons(&mut h, LispObject::Int(2), LispObject::Nil);
    assert_eq!(Fsetcdr(&mut h, x, y), Ok(y));
    assert_eq!(Fcar(&h, x), Ok(LispObject::Int(1)));
    let rest = Fcdr(&h, x).unwrap();
    assert_eq!(Fcar(&h, rest), Ok(LispObject::Int(2)));
    assert_eq!(Fcdr(&h, rest), Ok(LispObject::Nil));
}

#[test]
fn consp_is_false_for_non_cells() {
    for v in [LispObject::Nil, LispObject::T, LispObject::Int(0), LispObject::Int(-7)] {
        assert!(!CONSP(v));
        assert_eq!(Fconsp(v), LispObject::Nil);
    }
}

#[test]
fn consp_is_true_for_new_cells() {
    let mut h = ConsHeap::new();
    let x = cons(&mut h, LispObject::T, LispObject::T);
    let p = pure_cons(&mut h, LispObject::Nil, LispObject::Nil).unwrap();
    assert!(CONSP(x));
    assert!(CONSP(p));
    assert_eq!(Fconsp(x), LispObject::T);
}

#[test]
fn car_and_cdr_of_cons() {
    let mut h = ConsHeap::new();
    let inner = cons(&mut h, LispObject::Int(3), LispObject::T);
    let x = cons(&mut h, inner, LispObject::Int(-4));
    assert_eq!(Fcar(&h, x), Ok(inner));
    assert_eq!(Fcdr(&h, x), Ok(LispObject::Int(-4)));
    assert_eq!(Fcar(&h, inner), Ok(LispObject::Int(3)));
    assert_eq!(Fcdr(&h, inner), Ok(LispObject::T));
}

#[test]
fn car_of_non_cell_is_type_error() {
    let h = ConsHeap::new();
    assert_eq!(Fcar(&h, LispObject::Nil), Err(LispError::TypeError(LispObject::Nil)));
    assert_eq!(Fcdr(&h, LispObject::Int(9)), Err(LispError::TypeError(LispObject::Int(9))));
    let dangling = LispObject::Cons(5);
    assert_eq!(Fcar(&h, dangling), Err(LispError::TypeError(dangling)));
}

#[test]
fn setcar_changes_car_only() {
    let mut h = ConsHeap::new();
    let x = cons(&mut h, LispObject::Int(1), LispObject::Int(2));
    assert_eq!(Fsetcar(&mut h, x, LispObject::T), Ok(LispObject::T));
    assert_eq!(Fcar(&h, x), Ok(LispObject::T));
    assert_eq!(Fcdr(&h, x), Ok(LispObject::Int(2)));
}

#[test]
fn setcdr_changes_cdr_only() {
    let mut h = ConsHeap::new();
    let x = cons(&mut h, LispObject::Int(1), LispObject::Int(2));
    assert_eq!(Fsetcdr(&mut h, x, LispObject::Nil), Ok(LispObject::Nil));
    assert_eq!(Fcar(&h, x), Ok(LispObject::Int(1)));
    assert_eq!(Fcdr(&h, x), Ok(LispObject::Nil));
}

#[test]
fn mutating_a_pure_cell_fails() {
    let mut h = ConsHeap::new();
    let p = pure_cons(&mut h, LispObject::Int(1), LispObject::Int(2)).unwrap();
    assert_eq!(Fsetcar(&mut h, p, LispObject::T), Err(LispError::ImmutabilityError(p)));
    assert_eq!(Fsetcdr(&mut h, p, LispObject::T), Err(LispError::ImmutabilityError(p)));
    assert_eq!(Fcar(&h, p), Ok(LispObject::Int(1)));
    assert_eq!(Fcdr(&h, p), Ok(LispObject::Int(2)));
}

#[test]
fn mutating_a_non_cell_fails() {
    let mut h = ConsHeap::new();
    let x = cons(&mut h, LispObject::Int(1), LispObject::Int(2));
    let v = LispObject::Int(5);
    assert_eq!(Fsetcar(&mut h, v, LispObject::T), Err(LispError::TypeError(v)));
    assert_eq!(Fsetcdr(&mut h, LispObject::Nil, LispObject::T), Err(LispError::TypeError(LispObject::Nil)));
    assert_eq!(Fcar(&h, x), Ok(LispObject::Int(1)));
    assert_eq!(Fcdr(&h, x), Ok(LispObject::Int(2)));
    assert_eq!(h.total_free_conses(), CONS_BLOCK_SIZE - 1);
}

#[test]
fn first_cons_grows_the_chain() {
    let mut h = ConsHeap::new();
    assert_eq!(h.n_blocks(), 0);
    assert_eq!(h.total_free_conses(), 0);
    let x = cons(&mut h, LispObject::Nil, LispObject::Nil);
    assert_eq!(x, LispObject::Cons(0));
    assert_eq!(h.n_blocks(), 1);
    assert_eq!(h.total_free_conses(), CONS_BLOCK_SIZE - 1);
    let y = cons(&mut h, LispObject::Nil, LispObject::Nil);
    assert_eq!(y, LispObject::Cons(1));
}

#[test]
fn exhausted_free_list_adds_a_block() {
    let mut h = ConsHeap::new();
    let mut seen = Vec::new();
    for i in 0..CONS_BLOCK_SIZE {
        seen.push(XCONS(cons(&mut h, LispObject::Int(i as i64), LispObject::Nil)));
    }
    assert_eq!(h.n_blocks(), 1);
    assert_eq!(h.total_free_conses(), 0);
    let x = cons(&mut h, LispObject::T, LispObject::Nil);
    assert_eq!(h.n_blocks(), 2);
    assert_eq!(x, LispObject::Cons(CONS_BLOCK_SIZE));
    assert!(!seen.contains(&XCONS(x)));
    assert_eq!(h.total_free_conses(), CONS_BLOCK_SIZE - 1);
    for (i, a) in seen.iter().enumerate() {
        assert_eq!(Fcar(&h, LispObject::Cons(*a)), Ok(LispObject::Int(i as i64)));
    }
}

#[test]
fn reclaim_then_pop_returns_same_cell() {
    let mut h = ConsHeap::new();
    let x = cons(&mut h, LispObject::Int(1), LispObject::Nil);
    let a = XCONS(x);
    let before = h.total_free_conses();
    h.free_cons(a);
    assert_eq!(h.total_free_conses(), before + 1);
    assert_eq!(Fcar(&h, x), Err(LispError::TypeError(x)));
    assert_eq!(h.live_cons(a), None);
    assert_eq!(h.pop_free_cons(), Some(a));
    assert_eq!(h.total_free_conses(), before);
    assert_eq!(
        h.live_cons(a),
        Some(LispCons { car: LispObject::Nil, cdr: LispObject::Nil, is_pure: false })
    );
}

#[test]
fn cons_reuses_reclaimed_cell() {
    let mut h = ConsHeap::new();
    let x = cons(&mut h, LispObject::Int(1), LispObject::Nil);
    let _y = cons(&mut h, LispObject::Int(2), LispObject::Nil);
    h.free_cons(XCONS(x));
    let z = cons(&mut h, LispObject::Int(3), LispObject::T);
    assert_eq!(z, x);
    assert_eq!(Fcar(&h, z), Ok(LispObject::Int(3)));
    assert_eq!(h.n_blocks(), 1);
}

#[test]
fn pop_on_empty_free_list_is_none() {
    let mut h = ConsHeap::new();
    assert_eq!(h.pop_free_cons(), None);
    assert_eq!(h.n_blocks(), 0);
}

#[test]
fn allocate_block_seeds_free_list() {
    let mut h = ConsHeap::new();
    assert_eq!(h.allocate_block(), Ok(()));
    assert_eq!(h.allocate_block(), Ok(()));
    assert_eq!(h.n_blocks(), 2);
    assert_eq!(h.total_free_conses(), 2 * CONS_BLOCK_SIZE);
    assert!(h.has_free_cons());
    assert_eq!(h.pop_free_cons(), Some(CONS_BLOCK_SIZE));
    assert!(!h.is_marked(2 * CONS_BLOCK_SIZE - 1));
}

#[test]
fn consing_is_charged_two_words_per_cell() {
    let mut h = ConsHeap::new();
    assert_eq!(h.consing_since_gc(), 0);
    cons(&mut h, LispObject::Nil, LispObject::Nil);
    cons(&mut h, LispObject::Nil, LispObject::Nil);
    assert_eq!(h.consing_since_gc(), 32);
    h.reset_consing_since_gc();
    assert_eq!(h.consing_since_gc(), 0);
    assert_eq!(h.n_blocks(), 1);
}

#[test]
fn mark_bits_are_independent() {
    let mut h = ConsHeap::new();
    for _ in 0..CONS_BLOCK_SIZE {
        cons(&mut h, LispObject::Nil, LispObject::Nil);
    }
    h.set_mark(70);
    h.set_mark(3);
    assert!(h.is_marked(70));
    assert!(h.is_marked(3));
    assert!(!h.is_marked(69));
    assert!(!h.is_marked(71));
    assert!(!h.is_marked(2));
    h.clear_mark(70);
    assert!(!h.is_marked(70));
    assert!(h.is_marked(3));
}

#[test]
fn blocks_are_tagged_as_cons_storage() {
    let mut h = ConsHeap::new();
    assert_eq!(h.allocate_block(), Ok(()));
    assert_eq!(h.block_mem_type(0), MemType::Cons);
}
