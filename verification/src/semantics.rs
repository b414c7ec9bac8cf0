//! The mathematical model of what a diagram node stands for: a Boolean
//! function over an unbounded store of variables, written as a spec-level
//! function from valuations to truth values.
//!
//! Every handle operation's contract states the denotation of its result in
//! terms of these definitions, and the algebraic laws of the library are
//! proved about them.

use vstd::prelude::*;

verus! {

/// A truth assignment: every variable index has a value.
pub type Valuation = spec_fn(nat) -> bool;

/// A Boolean function of the variables.
pub type BoolFn = spec_fn(Valuation) -> bool;

/// The valuation that agrees with `a` everywhere except at `i`, which is `b`.
pub open spec fn set_var(a: Valuation, i: nat, b: bool) -> Valuation {
    |v: nat| if v == i { b } else { a(v) }
}

/// The function of the single variable `i`.
pub open spec fn bf_var(i: nat) -> BoolFn {
    |a: Valuation| a(i)
}

/// The constant function `value`.
pub open spec fn bf_const(value: bool) -> BoolFn {
    |a: Valuation| value
}

/// Logical negation.
pub open spec fn bf_not(f: BoolFn) -> BoolFn {
    |a: Valuation| !f(a)
}

/// Logical conjunction.
pub open spec fn bf_and(f: BoolFn, g: BoolFn) -> BoolFn {
    |a: Valuation| f(a) && g(a)
}

/// Logical disjunction.
pub open spec fn bf_or(f: BoolFn, g: BoolFn) -> BoolFn {
    |a: Valuation| f(a) || g(a)
}

/// Exclusive or.
pub open spec fn bf_xor(f: BoolFn, g: BoolFn) -> BoolFn {
    |a: Valuation| f(a) != g(a)
}

/// `if cond { then_f } else { else_f }`, pointwise.
pub open spec fn bf_ite(cond: BoolFn, then_f: BoolFn, else_f: BoolFn) -> BoolFn {
    |a: Valuation| if cond(a) { then_f(a) } else { else_f(a) }
}

/// The cube of a sequence of variable indices: the conjunction of their
/// positive literals.
pub open spec fn bf_cube(vars: Seq<nat>) -> BoolFn {
    |a: Valuation| forall|k: int| 0 <= k < vars.len() ==> a(#[trigger] vars[k])
}

/// The cube of a set of variable indices.
pub open spec fn bf_cube_set(vars: Set<nat>) -> BoolFn {
    |a: Valuation| forall|i: nat| vars.contains(i) ==> a(i)
}

/// Existential quantification over one variable: the disjunction of the two
/// cofactors with respect to `i`.
pub open spec fn bf_exists(f: BoolFn, i: nat) -> BoolFn {
    |a: Valuation| f(set_var(a, i, true)) || f(set_var(a, i, false))
}

/// Existential quantification over a sequence of variables, one at a time.
pub open spec fn bf_exists_all(f: BoolFn, vars: Seq<nat>) -> BoolFn
    decreases vars.len(),
{
    if vars.len() == 0 {
        f
    } else {
        bf_exists(bf_exists_all(f, vars.drop_last()), vars.last())
    }
}

/// Where the simultaneous exchange of `from[k]` with `to[k]` sends the
/// variable `v`.
pub open spec fn swap_target(v: nat, from: Seq<nat>, to: Seq<nat>) -> nat {
    if from.contains(v) {
        to[from.index_of(v)]
    } else if to.contains(v) {
        from[to.index_of(v)]
    } else {
        v
    }
}

/// The valuation read through the exchange: position `from[k]` reads what `a`
/// holds at `to[k]`, and the other way round.
pub open spec fn swap_valuation(a: Valuation, from: Seq<nat>, to: Seq<nat>) -> Valuation {
    |v: nat| a(swap_target(v, from, to))
}

/// `f` with the variables `from[k]` and `to[k]` exchanged, simultaneously
/// over the whole function (no sequential capture).
pub open spec fn bf_swap(f: BoolFn, from: Seq<nat>, to: Seq<nat>) -> BoolFn {
    |a: Valuation| f(swap_valuation(a, from, to))
}

/// Whether the value of `f` can depend on the variable `i`.
pub open spec fn depends_on(f: BoolFn, i: nat) -> bool {
    exists|a: Valuation| f(set_var(a, i, true)) != f(set_var(a, i, false))
}

/// The set of variables `f` actually depends on.
pub open spec fn support_of(f: BoolFn) -> Set<nat> {
    Set::new(|i: nat| depends_on(f, i))
}

/// The cube of the variables `f` depends on.
pub open spec fn bf_support(f: BoolFn) -> BoolFn {
    bf_cube_set(support_of(f))
}

/// The even indices `0, 2, 4, ...` below `n`, in ascending order; the
/// current-state half of a variable frame of `n` variables.
pub open spec fn even_indices(n: nat) -> Seq<nat> {
    Seq::new(n / 2, |k: int| (2 * k) as nat)
}

/// The odd indices `1, 3, 5, ...` below `n`, in ascending order; the
/// next-state half of a variable frame of `n` variables.
pub open spec fn odd_indices(n: nat) -> Seq<nat> {
    Seq::new(n / 2, |k: int| (2 * k + 1) as nat)
}

} // verus!
