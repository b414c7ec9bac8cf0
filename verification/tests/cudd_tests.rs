//! Runtime tests of the manager's observable bookkeeping: variable counts,
//! reference counts, transfer counters, handle identity, and support-index
//! extraction. The test harness plays the engine's part, handing each
//! operation the node id the engine would have returned.

use cudd::{Cudd, DdNode};

fn variable(m: &mut Cudd, index: usize) -> DdNode {
    // one fixed engine node per variable index, as the engine's canonical
    // variable nodes would be
    m.ith_var(index, 1000 + index as u64)
}

#[test]
fn test() {
    let mut cudd = Cudd::new(1);
    let var0 = cudd.new_var(1000);
    let var1 = cudd.new_var(1001);
    let _and = var0.and(&mut cudd, &var1, 2000);
    let _or = var0.or(&mut cudd, &var1, 2001);
    let _xor = var0.xor(&mut cudd, &var1, 2002);
    assert_eq!(cudd.num_var(), 2);
}

#[test]
fn test_num_var() {
    let mut cudd = Cudd::new(1);
    variable(&mut cudd, 0);
    variable(&mut cudd, 1);
    variable(&mut cudd, 3);
    assert_eq!(cudd.num_var(), 4);
}

#[test]
fn test_support_index() {
    let mut cudd = Cudd::new(1);
    let x = variable(&mut cudd, 2);
    // the engine's indicator array: one entry per registered variable,
    // positive exactly at the support of `x`
    let indicator: Vec<i32> = vec![0, 0, 1];
    assert_eq!(x.support_index(&cudd, &indicator), vec![2]);
}

#[test]
fn support_index_empty_and_full() {
    let mut cudd = Cudd::new(1);
    let x = variable(&mut cudd, 3);
    let none: Vec<i32> = vec![0, 0, 0, 0];
    assert_eq!(x.support_index(&cudd, &none), Vec::<usize>::new());
    let all: Vec<i32> = vec![1, 2, 3, 1];
    assert_eq!(x.support_index(&cudd, &all), vec![0, 1, 2, 3]);
}

#[test]
fn refcount_liveness() {
    let mut cudd = Cudd::new(1);
    let h = cudd.new_var(1000);
    assert_eq!(cudd.ref_count_of(1000), 1);
    // clone the handle three times, then drop all but one clone
    let c1 = h.duplicate(&mut cudd);
    let c2 = h.duplicate(&mut cudd);
    let c3 = h.duplicate(&mut cudd);
    assert_eq!(cudd.ref_count_of(1000), 4);
    c1.release(&mut cudd);
    c2.release(&mut cudd);
    assert_eq!(cudd.ref_count_of(1000), 2);
    // the node stays referenced while a handle remains
    c3.release(&mut cudd);
    assert_eq!(cudd.ref_count_of(1000), 1);
    // the last release lets the count reach zero: reclamation is allowed
    h.release(&mut cudd);
    assert_eq!(cudd.ref_count_of(1000), 0);
}

#[test]
fn duplicate_keeps_node_identity() {
    let mut cudd = Cudd::new(1);
    let h = variable(&mut cudd, 0);
    let c = h.duplicate(&mut cudd);
    assert!(h.node_eq(&c));
    assert_eq!(h.raw_node(), c.raw_node());
}

#[test]
fn node_eq_on_distinct_nodes() {
    let mut cudd = Cudd::new(1);
    // the engine hands distinct canonical nodes for distinct variables
    let v0 = variable(&mut cudd, 0);
    let v1 = variable(&mut cudd, 1);
    assert!(!v0.node_eq(&v1));
    let v0_again = variable(&mut cudd, 0);
    assert!(v0.node_eq(&v0_again));
}

#[test]
fn transfer_same_manager_is_a_clone() {
    let mut cudd = Cudd::new(1);
    let h = variable(&mut cudd, 0);
    assert_eq!(cudd.ref_count_of(1000), 1);
    let t = cudd.translocate(&h, 0);
    // no engine translation: the same node, one more reference
    assert!(h.node_eq(&t));
    assert_eq!(cudd.ref_count_of(1000), 2);
    assert_eq!(cudd.transfers(), 1);
}

#[test]
fn transfer_across_managers() {
    let mut cudd_from = Cudd::new(1);
    let mut cudd_to = Cudd::new(2);
    let var0 = variable(&mut cudd_from, 0);
    let var1 = variable(&mut cudd_from, 1);
    let and = var0.and(&mut cudd_from, &var1, 2000);
    assert!(!and.in_same_manager(&cudd_to));
    // the engine's translation into the target context returned node 77
    let node = cudd_to.translocate(&and, 77);
    assert_eq!(node.raw_node(), 77);
    assert_eq!(node.context_of(), cudd_to.context_id());
    assert_eq!(cudd_to.ref_count_of(77), 1);
    assert_eq!(cudd_to.transfers(), 1);
    assert_eq!(cudd_from.transfers(), 0);
    // the source manager's counts are untouched
    assert_eq!(cudd_from.ref_count_of(2000), 1);
}

#[test]
fn is_constant_leaves_counts_alone() {
    let mut cudd = Cudd::new(1);
    // the engine's constant nodes for true and false
    let t = cudd.constant(true, 10);
    assert!(t.is_constant(&mut cudd, true, 10));
    assert!(!t.is_constant(&mut cudd, false, 11));
    assert_eq!(cudd.ref_count_of(10), 1);
    assert_eq!(cudd.ref_count_of(11), 0);
}

#[test]
fn cube_registers_its_variables() {
    let mut cudd = Cudd::new(1);
    let cube = cudd.cube(&vec![0, 1, 3], 3000);
    assert_eq!(cudd.num_var(), 4);
    assert_eq!(cube.raw_node(), 3000);
    assert_eq!(cudd.ref_count_of(3000), 1);
}

#[test]
fn exist_abstract_registers_its_variables() {
    let mut cudd = Cudd::new(1);
    let cube = cudd.cube(&vec![0, 1, 3], 3000);
    let exist = cube.exist_abstract(&mut cudd, &vec![0, 1, 2], 3001);
    assert_eq!(cudd.num_var(), 4);
    assert_eq!(exist.raw_node(), 3001);
}

#[test]
fn and_abstract_shares_bookkeeping() {
    let mut cudd = Cudd::new(1);
    let f = variable(&mut cudd, 0);
    let g = variable(&mut cudd, 1);
    let fused = f.and_abstract(&mut cudd, &g, &vec![0], 4000);
    assert_eq!(fused.raw_node(), 4000);
    assert_eq!(cudd.ref_count_of(4000), 1);
    assert_eq!(cudd.num_var(), 2);
}

#[test]
fn swap_vars_registers_both_lists() {
    let mut cudd = Cudd::new(1);
    let h = variable(&mut cudd, 0);
    let swapped = h.swap_vars(&mut cudd, &vec![0, 1], &vec![2, 3], 5000);
    assert_eq!(cudd.num_var(), 4);
    assert_eq!(swapped.raw_node(), 5000);
}

#[test]
fn next_state_keeps_the_frame() {
    let mut cudd = Cudd::new(1);
    variable(&mut cudd, 0);
    variable(&mut cudd, 1);
    variable(&mut cudd, 2);
    variable(&mut cudd, 3);
    let h = variable(&mut cudd, 0);
    let next = h.next_state(&mut cudd, 6000);
    assert_eq!(cudd.num_var(), 4);
    assert_eq!(next.raw_node(), 6000);
    assert_eq!(cudd.ref_count_of(6000), 1);
}

#[test]
fn support_takes_a_reference() {
    let mut cudd = Cudd::new(1);
    let x = variable(&mut cudd, 2);
    let s = x.support(&mut cudd, 7000);
    assert_eq!(s.raw_node(), 7000);
    assert_eq!(cudd.ref_count_of(7000), 1);
}

#[test]
fn fresh_manager_is_empty() {
    let cudd = Cudd::new(9);
    assert_eq!(cudd.num_var(), 0);
    assert_eq!(cudd.transfers(), 0);
    assert_eq!(cudd.ref_count_of(12345), 0);
    assert_eq!(cudd.context_id(), 9);
}

#[test]
fn empty_cube_registers_nothing() {
    let mut cudd = Cudd::new(1);
    let cube = cudd.cube(&Vec::new(), 3000);
    assert_eq!(cudd.num_var(), 0);
    assert_eq!(cube.raw_node(), 3000);
}

#[test]
fn cube_with_repeated_indices() {
    let mut cudd = Cudd::new(1);
    cudd.cube(&vec![1, 1, 3, 1], 3000);
    assert_eq!(cudd.num_var(), 4);
}

#[test]
fn negation_and_ite_take_references() {
    let mut cudd = Cudd::new(1);
    let c = variable(&mut cudd, 0);
    let t = variable(&mut cudd, 1);
    let e = variable(&mut cudd, 2);
    let n = c.not(&mut cudd, 8000);
    assert_eq!(n.raw_node(), 8000);
    assert_eq!(cudd.ref_count_of(8000), 1);
    let ite = c.if_then_else(&mut cudd, &t, &e, 8001);
    assert_eq!(ite.raw_node(), 8001);
    assert_eq!(cudd.ref_count_of(8001), 1);
    assert_eq!(cudd.num_var(), 3);
}
