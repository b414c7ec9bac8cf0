//! The algebraic laws of the library, proved over the semantic model.
//!
//! Each law is stated over the same spec functions that the handle
//! operations' contracts use, so it applies to the denotation of every handle
//! those operations produce. Handle identity itself is decided by the
//! engine's canonical nodes; what is proved here is the semantic side: the
//! Boolean functions the handles stand for.

use vstd::prelude::*;

verus! {

use crate::semantics::{
    bf_and, bf_const, bf_cube, bf_cube_set, bf_exists, bf_exists_all, bf_not, bf_or, bf_support,
    bf_swap, bf_var, bf_xor, depends_on, even_indices, odd_indices, set_var, support_of,
    swap_target, swap_valuation, BoolFn, Valuation,
};

/// Distinct variable indices denote distinct functions: a valuation that
/// separates them always exists.
pub proof fn law_variables_distinct(i: nat, j: nat)
    requires
        i != j,
    ensures
        bf_var(i) != bf_var(j),
{
    let a: Valuation = |v: nat| v == i;
    assert(bf_var(i)(a));
    assert(!bf_var(j)(a));
}

/// The constant true function is the negation of the constant false function.
pub proof fn law_true_is_not_false()
    ensures
        bf_const(true) =~= bf_not(bf_const(false)),
{
}

/// Conjunction is commutative.
pub proof fn law_and_commutes(f: BoolFn, g: BoolFn)
    ensures
        bf_and(f, g) =~= bf_and(g, f),
{
}

/// Disjunction is commutative.
pub proof fn law_or_commutes(f: BoolFn, g: BoolFn)
    ensures
        bf_or(f, g) =~= bf_or(g, f),
{
}

/// Exclusive or of a function with itself is the constant false function.
pub proof fn law_xor_cancels(f: BoolFn)
    ensures
        bf_xor(f, f) =~= bf_const(false),
{
}

/// The constant true function is a unit of conjunction.
pub proof fn law_and_true_identity(f: BoolFn)
    ensures
        bf_and(f, bf_const(true)) =~= f,
{
}

/// Double negation gives the function back.
pub proof fn law_double_negation(f: BoolFn)
    ensures
        bf_not(bf_not(f)) =~= f,
{
}

/// The conjunction of the variables in `vars`, chained pairwise: the shape a
/// caller builds by combining variable handles with `and`, one at a time.
pub open spec fn bf_and_all(vars: Seq<nat>) -> BoolFn
    decreases vars.len(),
{
    if vars.len() == 0 {
        bf_const(true)
    } else {
        bf_and(bf_and_all(vars.drop_last()), bf_var(vars.last()))
    }
}

/// Reconstruction: a cube denotes the same function as the chain of
/// conjunctions of its variables.
pub proof fn law_cube_is_conjunction(vars: Seq<nat>)
    ensures
        bf_cube(vars) =~= bf_and_all(vars),
    decreases vars.len(),
{
    if vars.len() == 0 {
    } else {
        let dl = vars.drop_last();
        law_cube_is_conjunction(dl);
        assert forall|a: Valuation| #[trigger] bf_cube(vars)(a) == bf_and_all(vars)(a) by {
            if bf_cube(vars)(a) {
                assert forall|k: int| 0 <= k < dl.len() implies a(dl[k]) by {
                    assert(dl[k] == vars[k]);
                }
                assert(a(vars[vars.len() - 1]));
            }
            if bf_and_all(vars)(a) {
                assert(bf_cube(dl)(a));
                assert forall|k: int| 0 <= k < vars.len() implies a(vars[k]) by {
                    if k < vars.len() - 1 {
                        assert(vars[k] == dl[k]);
                        assert(a(dl[k]));
                    } else {
                        assert(vars[k] == vars.last());
                    }
                }
            }
        }
    }
}

/// Reconstruction on a three-variable cube: `cube([i, j, k])` denotes
/// `var(i) & var(j) & var(k)`.
pub proof fn law_cube_of_three(i: nat, j: nat, k: nat)
    ensures
        bf_cube(seq![i, j, k]) =~= bf_and(bf_and(bf_var(i), bf_var(j)), bf_var(k)),
{
    let s = seq![i, j, k];
    assert forall|a: Valuation|
        #[trigger] bf_cube(s)(a) == bf_and(bf_and(bf_var(i), bf_var(j)), bf_var(k))(a) by {
        if bf_cube(s)(a) {
            assert(a(s[0]));
            assert(a(s[1]));
            assert(a(s[2]));
        }
        if a(i) && a(j) && a(k) {
            assert forall|p: int| 0 <= p < s.len() implies a(s[p]) by {
                assert(s[0] == i && s[1] == j && s[2] == k);
            }
        }
    }
}

/// The order of a cube's variables is irrelevant: two index sequences with
/// the same members denote the same cube.
pub proof fn law_cube_order_irrelevant(s1: Seq<nat>, s2: Seq<nat>)
    requires
        forall|v: nat| s1.contains(v) == s2.contains(v),
    ensures
        bf_cube(s1) =~= bf_cube(s2),
{
    assert forall|a: Valuation| #[trigger] bf_cube(s1)(a) == bf_cube(s2)(a) by {
        if bf_cube(s1)(a) {
            assert forall|k: int| 0 <= k < s2.len() implies a(s2[k]) by {
                assert(s2.contains(s2[k]));
                assert(s1.contains(s2[k]));
                let idx = choose|idx: int| 0 <= idx < s1.len() && s1[idx] == s2[k];
                assert(a(s1[idx]));
            }
        }
        if bf_cube(s2)(a) {
            assert forall|k: int| 0 <= k < s1.len() implies a(s1[k]) by {
                assert(s1.contains(s1[k]));
                assert(s2.contains(s1[k]));
                let idx = choose|idx: int| 0 <= idx < s2.len() && s2[idx] == s1[k];
                assert(a(s2[idx]));
            }
        }
    }
}

/// The set of indices a sequence mentions.
pub open spec fn members(s: Seq<nat>) -> Set<nat> {
    Set::new(|v: nat| s.contains(v))
}

/// A cube over a sequence of indices is the cube over its set of members.
pub proof fn lemma_cube_members(s: Seq<nat>)
    ensures
        bf_cube(s) =~= bf_cube_set(members(s)),
{
    assert forall|a: Valuation| #[trigger] bf_cube(s)(a) == bf_cube_set(members(s))(a) by {
        if bf_cube(s)(a) {
            assert forall|v: nat| members(s).contains(v) implies a(v) by {
                let idx = choose|idx: int| 0 <= idx < s.len() && s[idx] == v;
                assert(a(s[idx]));
            }
        }
        if bf_cube_set(members(s))(a) {
            assert forall|k: int| 0 <= k < s.len() implies a(s[k]) by {
                assert(s.contains(s[k]));
                assert(members(s).contains(s[k]));
            }
        }
    }
}

/// A cube of one variable denotes that variable.
pub proof fn lemma_cube_set_single(i: nat)
    ensures
        bf_cube_set(Set::empty().insert(i)) =~= bf_var(i),
{
    assert forall|a: Valuation| #[trigger] bf_cube_set(Set::empty().insert(i))(a) == bf_var(i)(a) by {
        if a(i) {
            assert forall|v: nat| Set::empty().insert(i).contains(v) implies a(v) by {
                assert(v == i);
            }
        }
        if bf_cube_set(Set::empty().insert(i))(a) {
            assert(Set::empty().insert(i).contains(i));
        }
    }
}

/// Quantifying one variable out of a cube removes it from the cube: the
/// true-cofactor drops the literal, and the false-cofactor implies it.
pub proof fn lemma_exists_over_cube_set(vars: Set<nat>, i: nat)
    ensures
        bf_exists(bf_cube_set(vars), i) =~= bf_cube_set(vars.remove(i)),
{
    assert forall|a: Valuation|
        #[trigger] bf_exists(bf_cube_set(vars), i)(a) == bf_cube_set(vars.remove(i))(a) by {
        if bf_cube_set(vars)(set_var(a, i, true)) {
            assert forall|v: nat| vars.remove(i).contains(v) implies a(v) by {
                assert(vars.contains(v));
                assert(set_var(a, i, true)(v));
            }
        }
        if bf_cube_set(vars)(set_var(a, i, false)) {
            assert forall|v: nat| vars.remove(i).contains(v) implies a(v) by {
                assert(vars.contains(v));
                assert(set_var(a, i, false)(v));
            }
        }
        if bf_cube_set(vars.remove(i))(a) {
            assert forall|v: nat| vars.contains(v) implies set_var(a, i, true)(v) by {
                if v != i {
                    assert(vars.remove(i).contains(v));
                }
            }
            assert(bf_cube_set(vars)(set_var(a, i, true)));
        }
    }
}

/// The set left after removing, one at a time, every index in `q`.
pub open spec fn remove_all(vars: Set<nat>, q: Seq<nat>) -> Set<nat>
    decreases q.len(),
{
    if q.len() == 0 {
        vars
    } else {
        remove_all(vars, q.drop_last()).remove(q.last())
    }
}

/// Quantifying a sequence of variables out of a cube removes them all from
/// the cube.
pub proof fn lemma_exists_all_over_cube_set(vars: Set<nat>, q: Seq<nat>)
    ensures
        bf_exists_all(bf_cube_set(vars), q) =~= bf_cube_set(remove_all(vars, q)),
    decreases q.len(),
{
    if q.len() == 0 {
    } else {
        lemma_exists_all_over_cube_set(vars, q.drop_last());
        assert(bf_exists_all(bf_cube_set(vars), q.drop_last()) == bf_cube_set(
            remove_all(vars, q.drop_last()),
        ));
        lemma_exists_over_cube_set(remove_all(vars, q.drop_last()), q.last());
    }
}

/// Quantifier correctness on the motivating instance: from the cube of the
/// variables 0, 1 and 3, existentially abstracting the variables 0, 1 and 2
/// leaves exactly the variable 3.
pub proof fn law_quantified_cube()
    ensures
        bf_exists_all(bf_cube(seq![0nat, 1nat, 3nat]), seq![0nat, 1nat, 2nat]) =~= bf_var(3nat),
{
    let c = seq![0nat, 1nat, 3nat];
    let q = seq![0nat, 1nat, 2nat];
    lemma_cube_members(c);
    lemma_exists_all_over_cube_set(members(c), q);
    let s0 = members(c);
    let q1 = seq![0nat];
    let q2 = seq![0nat, 1nat];
    assert(q.drop_last() == q2);
    assert(q2.drop_last() == q1);
    assert(q1.drop_last() == Seq::<nat>::empty());
    assert(remove_all(s0, Seq::<nat>::empty()) == s0);
    assert(remove_all(s0, q1) == s0.remove(0nat));
    assert(remove_all(s0, q2) == s0.remove(0nat).remove(1nat));
    assert(remove_all(s0, q) == s0.remove(0nat).remove(1nat).remove(2nat));
    assert(s0.remove(0nat).remove(1nat).remove(2nat) =~= Set::empty().insert(3nat)) by {
        assert forall|v: nat|
            s0.remove(0nat).remove(1nat).remove(2nat).contains(v) == Set::empty().insert(
                3nat,
            ).contains(v) by {
            if v == 3nat {
                assert(c[2] == 3nat);
                assert(c.contains(3nat));
            }
            if s0.contains(v) {
                let idx = choose|idx: int| 0 <= idx < c.len() && c[idx] == v;
                assert(v == 0nat || v == 1nat || v == 3nat);
            }
        }
    }
    lemma_cube_set_single(3nat);
}

/// Fused-abstraction equivalence: `fused` is what the fused
/// conjoin-and-abstract operation posts for its result, and `staged` is what
/// plain quantification posts for the result of the plain conjunction. The
/// two are one function: the fusion changes the intermediate diagrams, never
/// the function — and either order of the conjuncts gives it.
pub proof fn law_fused_abstraction(
    f: BoolFn,
    g: BoolFn,
    vars: Seq<nat>,
    fused: BoolFn,
    staged: BoolFn,
)
    requires
        fused == bf_exists_all(bf_and(f, g), vars),
        staged == bf_exists_all(bf_and(f, g), vars),
    ensures
        fused == staged,
        fused == bf_exists_all(bf_and(g, f), vars),
{
    assert(bf_and(f, g) =~= bf_and(g, f));
}

/// Where the exchange of two disjoint, duplicate-free index lists sends a
/// variable, the reverse exchange sends it back.
proof fn lemma_swap_target_involution(v: nat, from: Seq<nat>, to: Seq<nat>)
    requires
        from.len() == to.len(),
        from.no_duplicates(),
        to.no_duplicates(),
        forall|x: nat| !(from.contains(x) && to.contains(x)),
    ensures
        swap_target(swap_target(v, from, to), to, from) == v,
{
    if from.contains(v) {
        let k = from.index_of(v);
        assert(0 <= k < from.len() && from[k] == v);
        let w = to[k];
        assert(to.contains(w));
        assert(swap_target(v, from, to) == w);
        let j = to.index_of(w);
        assert(0 <= j < to.len() && to[j] == w);
        assert(j == k);
        assert(swap_target(w, to, from) == from[j]);
    } else if to.contains(v) {
        let k = to.index_of(v);
        assert(0 <= k < to.len() && to[k] == v);
        let w = from[k];
        assert(from.contains(w));
        assert(swap_target(v, from, to) == w);
        assert(!to.contains(w));
        let j = from.index_of(w);
        assert(0 <= j < from.len() && from[j] == w);
        assert(j == k);
        assert(swap_target(w, to, from) == to[j]);
    } else {
        assert(swap_target(v, from, to) == v);
    }
}

/// Permutation round-trip: exchanging two disjoint, duplicate-free variable
/// lists and then exchanging them back gives the function back.
pub proof fn law_swap_roundtrip(f: BoolFn, from: Seq<nat>, to: Seq<nat>)
    requires
        from.len() == to.len(),
        from.no_duplicates(),
        to.no_duplicates(),
        forall|x: nat| !(from.contains(x) && to.contains(x)),
    ensures
        bf_swap(bf_swap(f, from, to), to, from) =~= f,
{
    assert forall|a: Valuation| #[trigger] bf_swap(bf_swap(f, from, to), to, from)(a) == f(a) by {
        let b = swap_valuation(a, to, from);
        assert(swap_valuation(b, from, to) =~= a) by {
            assert forall|v: nat| #[trigger] swap_valuation(b, from, to)(v) == a(v) by {
                lemma_swap_target_involution(v, from, to);
            }
        }
        assert(f(swap_valuation(b, from, to)) == f(a));
    }
}

/// Support correctness on a variable: a single variable depends on itself
/// alone, so its support cube is itself.
pub proof fn law_support_of_variable(i: nat)
    ensures
        support_of(bf_var(i)) =~= Set::empty().insert(i),
        bf_support(bf_var(i)) =~= bf_var(i),
{
    assert forall|j: nat|
        support_of(bf_var(i)).contains(j) == Set::empty().insert(i).contains(j) by {
        if j == i {
            let w: Valuation = |v: nat| false;
            assert(bf_var(i)(set_var(w, i, true)));
            assert(!bf_var(i)(set_var(w, i, false)));
            assert(depends_on(bf_var(i), i));
        } else {
            assert forall|a: Valuation|
                #[trigger] bf_var(i)(set_var(a, j, true)) == bf_var(i)(set_var(a, j, false)) by {
                assert(set_var(a, j, true)(i) == a(i));
                assert(set_var(a, j, false)(i) == a(i));
            }
            assert(!depends_on(bf_var(i), j));
        }
    }
    assert(support_of(bf_var(i)) =~= Set::empty().insert(i));
    lemma_cube_set_single(i);
}

/// The two halves of a state frame pair up: the even and odd index lists
/// have equal length, no duplicates, and no index in common — the
/// preconditions under which exchanging them is a round trip.
pub proof fn lemma_frame_halves(n: nat)
    ensures
        even_indices(n).len() == odd_indices(n).len(),
        even_indices(n).no_duplicates(),
        odd_indices(n).no_duplicates(),
        forall|x: nat| !(even_indices(n).contains(x) && odd_indices(n).contains(x)),
{
    assert forall|x: nat| !(even_indices(n).contains(x) && odd_indices(n).contains(x)) by {
        if even_indices(n).contains(x) && odd_indices(n).contains(x) {
            let p = choose|p: int| 0 <= p < even_indices(n).len() && even_indices(n)[p] == x;
            let q = choose|q: int| 0 <= q < odd_indices(n).len() && odd_indices(n)[q] == x;
            assert(2 * p == 2 * q + 1);
        }
    }
}

/// Mapping a predicate onto the next-state frame and back gives it back:
/// the two halves of the frame satisfy the round-trip conditions.
pub proof fn law_next_state_roundtrip(f: BoolFn, n: nat)
    ensures
        bf_swap(bf_swap(f, even_indices(n), odd_indices(n)), odd_indices(n), even_indices(n))
            =~= f,
{
    lemma_frame_halves(n);
    law_swap_roundtrip(f, even_indices(n), odd_indices(n));
}

/// The running count after a history of handle events on one node, oldest
/// first: `true` for a duplication (one reference acquired), `false` for a
/// release (one reference given back).
pub open spec fn count_after(c: int, trace: Seq<bool>) -> int
    decreases trace.len(),
{
    if trace.len() == 0 {
        c
    } else {
        count_after(c, trace.drop_last()) + (if trace.last() {
            1int
        } else {
            -1int
        })
    }
}

/// How many events of a history are duplications.
pub open spec fn duplications(trace: Seq<bool>) -> int
    decreases trace.len(),
{
    if trace.len() == 0 {
        0
    } else {
        duplications(trace.drop_last()) + (if trace.last() {
            1int
        } else {
            0int
        })
    }
}

/// The count after a history is the starting count, up by one per
/// duplication and down by one per release.
pub proof fn lemma_count_after(c: int, trace: Seq<bool>)
    ensures
        count_after(c, trace) == c + duplications(trace) - (trace.len() - duplications(trace)),
    decreases trace.len(),
{
    if trace.len() > 0 {
        lemma_count_after(c, trace.drop_last());
    }
}

/// Reference-count liveness: duplication acquires one reference and release
/// gives one back (the ensures of those operations), so a handle duplicated
/// `n` times and released `n - 1` times leaves the node with exactly one
/// reference more than it began with — in particular still live. A release
/// never meets a zero count: every live handle holds the reference its
/// release gives back.
pub proof fn law_refcount_liveness(c: int, trace: Seq<bool>)
    requires
        c >= 1,
        trace.len() == 2 * duplications(trace) - 1,
    ensures
        count_after(c, trace) == c + 1,
        count_after(c, trace) >= 1,
{
    lemma_count_after(c, trace);
}

} // verus!
