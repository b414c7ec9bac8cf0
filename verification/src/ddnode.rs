//! Node handles: one Boolean function inside one manager.
//!
//! A handle pairs the identity of its manager's context with the engine node
//! it holds a reference on, and carries the denotation of that node as a
//! ghost Boolean function. Every operation that combines handles requires
//! manager affinity, and every handle created or given back moves the
//! manager's reference counts by exactly one.

use vstd::prelude::*;

verus! {

use crate::semantics::{
    bf_and, bf_exists_all, bf_ite, bf_not, bf_or, bf_support, bf_swap, bf_xor, even_indices,
    odd_indices, BoolFn,
};
use crate::{acquires, acquires_extending, extend_vars, lemma_extend_vars_covered, releases, Cudd};

/// A handle on one node of the engine's graph, inside one manager context.
pub struct DdNode {
    pub(crate) ctx: u64,
    pub(crate) node: u64,
    pub(crate) den: Ghost<BoolFn>,
}

impl DdNode {
    /// The context tag of the manager this handle belongs to.
    pub closed spec fn context(&self) -> u64 {
        self.ctx
    }

    /// The engine node this handle holds a reference on.
    pub closed spec fn node_id(&self) -> u64 {
        self.node
    }

    /// The Boolean function this handle represents.
    pub closed spec fn denotation(&self) -> BoolFn {
        self.den@
    }

    /// Manager affinity: the handle belongs to the context of `m`.
    pub open spec fn in_manager(&self, m: Cudd) -> bool {
        self.context() == m.context()
    }

    /// Connects the handle's fields to its spec view, for the manager's own
    /// module, where the view's definitions are not visible.
    pub(crate) proof fn spec_parts(&self)
        ensures
            self.context() == self.ctx,
            self.node_id() == self.node,
            self.denotation() == self.den@,
    {
    }

    /// One more handle on the same node: the engine's external reference
    /// count rises by one, and the new handle carries the same denotation.
    pub fn duplicate(&self, m: &mut Cudd) -> (r: DdNode)
        requires
            old(m).wf(),
            self.in_manager(*old(m)),
            old(m).ref_count(self.node_id()) < usize::MAX,
        ensures
            acquires(*old(m), *final(m), self.node_id()),
            r.in_manager(*final(m)),
            r.node_id() == self.node_id(),
            r.denotation() == self.denotation(),
    {
        m.register(self.node);
        DdNode { ctx: self.ctx, node: self.node, den: Ghost(self.den@) }
    }

    /// Give the handle back: the count on its node drops by one, and with the
    /// last handle gone the node becomes eligible for engine-side
    /// reclamation. A live handle always holds a reference, so the count
    /// cannot be below one here.
    pub fn release(self, m: &mut Cudd)
        requires
            old(m).wf(),
            self.in_manager(*old(m)),
            old(m).ref_count(self.node_id()) >= 1,
        ensures
            releases(*old(m), *final(m), self.node_id()),
    {
        m.unregister(self.node);
    }

    /// Handle equality: same node in the same context. The engine keeps one
    /// canonical node per distinct Boolean function, which is what makes this
    /// comparison a proxy for semantic equivalence; the comparison itself is
    /// on the node identity. Comparing handles of different managers is a
    /// programming error and is excluded outright.
    pub fn node_eq(&self, other: &DdNode) -> (r: bool)
        requires
            self.context() == other.context(),
        ensures
            r == (self.node_id() == other.node_id()),
    {
        self.node == other.node
    }

    /// Logical negation; `raw` is the engine's complement node.
    pub fn not(&self, m: &mut Cudd, raw: u64) -> (r: DdNode)
        requires
            old(m).wf(),
            self.in_manager(*old(m)),
            old(m).ref_count(raw) < usize::MAX,
        ensures
            acquires(*old(m), *final(m), raw),
            r.in_manager(*final(m)),
            r.node_id() == raw,
            r.denotation() == bf_not(self.denotation()),
    {
        m.register(raw);
        DdNode { ctx: self.ctx, node: raw, den: Ghost(bf_not(self.den@)) }
    }

    /// Conjunction of two handles of the same manager; `raw` is the node the
    /// engine returned for it.
    pub fn and(&self, m: &mut Cudd, other: &DdNode, raw: u64) -> (r: DdNode)
        requires
            old(m).wf(),
            self.in_manager(*old(m)),
            other.in_manager(*old(m)),
            old(m).ref_count(raw) < usize::MAX,
        ensures
            acquires(*old(m), *final(m), raw),
            r.in_manager(*final(m)),
            r.node_id() == raw,
            r.denotation() == bf_and(self.denotation(), other.denotation()),
    {
        m.register(raw);
        DdNode { ctx: self.ctx, node: raw, den: Ghost(bf_and(self.den@, other.den@)) }
    }

    /// Disjunction of two handles of the same manager.
    pub fn or(&self, m: &mut Cudd, other: &DdNode, raw: u64) -> (r: DdNode)
        requires
            old(m).wf(),
            self.in_manager(*old(m)),
            other.in_manager(*old(m)),
            old(m).ref_count(raw) < usize::MAX,
        ensures
            acquires(*old(m), *final(m), raw),
            r.in_manager(*final(m)),
            r.node_id() == raw,
            r.denotation() == bf_or(self.denotation(), other.denotation()),
    {
        m.register(raw);
        DdNode { ctx: self.ctx, node: raw, den: Ghost(bf_or(self.den@, other.den@)) }
    }

    /// Exclusive or of two handles of the same manager.
    pub fn xor(&self, m: &mut Cudd, other: &DdNode, raw: u64) -> (r: DdNode)
        requires
            old(m).wf(),
            self.in_manager(*old(m)),
            other.in_manager(*old(m)),
            old(m).ref_count(raw) < usize::MAX,
        ensures
            acquires(*old(m), *final(m), raw),
            r.in_manager(*final(m)),
            r.node_id() == raw,
            r.denotation() == bf_xor(self.denotation(), other.denotation()),
    {
        m.register(raw);
        DdNode { ctx: self.ctx, node: raw, den: Ghost(bf_xor(self.den@, other.den@)) }
    }

    /// `self ? then_node : else_node`, which generalizes the two-argument
    /// combinators; all three handles must share the manager.
    pub fn if_then_else(&self, m: &mut Cudd, then_node: &DdNode, else_node: &DdNode, raw: u64) -> (r:
        DdNode)
        requires
            old(m).wf(),
            self.in_manager(*old(m)),
            then_node.in_manager(*old(m)),
            else_node.in_manager(*old(m)),
            old(m).ref_count(raw) < usize::MAX,
        ensures
            acquires(*old(m), *final(m), raw),
            r.in_manager(*final(m)),
            r.node_id() == raw,
            r.denotation() == bf_ite(
                self.denotation(),
                then_node.denotation(),
                else_node.denotation(),
            ),
    {
        m.register(raw);
        DdNode {
            ctx: self.ctx,
            node: raw,
            den: Ghost(bf_ite(self.den@, then_node.den@, else_node.den@)),
        }
    }

    /// Whether this handle is the manager's constant `value`. `raw` is the
    /// engine's constant node for that value; the comparison takes a handle
    /// on it and gives it back, so the counts end where they began.
    pub fn is_constant(&self, m: &mut Cudd, value: bool, raw: u64) -> (r: bool)
        requires
            old(m).wf(),
            self.in_manager(*old(m)),
            old(m).ref_count(raw) < usize::MAX,
        ensures
            final(m).wf(),
            final(m).context() == old(m).context(),
            final(m).transfer_count() == old(m).transfer_count(),
            final(m).var_count() == old(m).var_count(),
            forall|j: u64| final(m).ref_count(j) == old(m).ref_count(j),
            r == (self.node_id() == raw),
    {
        let c = m.constant(value, raw);
        let r = self.node_eq(&c);
        c.release(m);
        r
    }

    /// The cube of all variables the function actually depends on; `raw` is
    /// the engine's support node, derived from the diagram shape.
    pub fn support(&self, m: &mut Cudd, raw: u64) -> (r: DdNode)
        requires
            old(m).wf(),
            self.in_manager(*old(m)),
            old(m).ref_count(raw) < usize::MAX,
        ensures
            acquires(*old(m), *final(m), raw),
            r.in_manager(*final(m)),
            r.node_id() == raw,
            r.denotation() == bf_support(self.denotation()),
    {
        m.register(raw);
        DdNode { ctx: self.ctx, node: raw, den: Ghost(bf_support(self.den@)) }
    }

    /// The ascending list of variable indices the function depends on,
    /// extracted from the engine's indicator array: one entry per registered
    /// variable, positive where the variable is in the support.
    pub fn support_index(&self, m: &Cudd, indicator: &Vec<i32>) -> (r: Vec<usize>)
        requires
            self.in_manager(*m),
            indicator@.len() == m.var_count(),
        ensures
            forall|p: int, q: int| 0 <= p < q < r@.len() ==> r@[p] < r@[q],
            forall|p: int| 0 <= p < r@.len() ==> (#[trigger] r@[p]) < indicator@.len(),
            forall|p: int| 0 <= p < r@.len() ==> indicator@[(#[trigger] r@[p]) as int] > 0,
            forall|k: int| 0 <= k < indicator@.len() && indicator@[k] > 0 ==> r@.contains(
                k as usize,
            ),
    {
        let mut r: Vec<usize> = Vec::new();
        let n = indicator.len();
        let mut i: usize = 0;
        while i < n
            invariant
                i <= n,
                n == indicator@.len(),
                forall|p: int, q: int| 0 <= p < q < r@.len() ==> r@[p] < r@[q],
                forall|p: int| 0 <= p < r@.len() ==> (#[trigger] r@[p]) < i,
                forall|p: int| 0 <= p < r@.len() ==> indicator@[(#[trigger] r@[p]) as int] > 0,
                forall|k: int| 0 <= k < i && indicator@[k] > 0 ==> r@.contains(k as usize),
            decreases n - i,
        {
            if indicator[i] > 0 {
                let ghost prev = r@;
                r.push(i);
                proof {
                    assert(r@[r@.len() - 1] == i);
                    assert forall|k: int| 0 <= k < i && indicator@[k] > 0 implies r@.contains(
                        k as usize,
                    ) by {
                        let idx = choose|idx: int|
                            0 <= idx < prev.len() && prev[idx] == k as usize;
                        assert(r@[idx] == k as usize);
                    }
                }
            }
            i = i + 1;
        }
        r
    }

    /// Existential abstraction: the handle for `exists vars . self`. The cube
    /// of `vars` is built first, registering variables the store does not yet
    /// cover; `raw` is the engine's abstraction node.
    pub fn exist_abstract(&self, m: &mut Cudd, vars: &Vec<usize>, raw: u64) -> (r: DdNode)
        requires
            old(m).wf(),
            self.in_manager(*old(m)),
            forall|k: int| 0 <= k < vars@.len() ==> #[trigger] vars@[k] < usize::MAX,
            old(m).ref_count(raw) < usize::MAX,
        ensures
            acquires_extending(*old(m), *final(m), raw, vars@),
            r.in_manager(*final(m)),
            r.node_id() == raw,
            r.denotation() == bf_exists_all(
                self.denotation(),
                vars@.map_values(|v: usize| v as nat),
            ),
    {
        m.extend_for(vars);
        m.register(raw);
        DdNode {
            ctx: self.ctx,
            node: raw,
            den: Ghost(bf_exists_all(self.den@, vars@.map_values(|v: usize| v as nat))),
        }
    }

    /// Fused conjunction and abstraction: the handle for
    /// `exists vars . (self and other)`, without materializing the full
    /// conjunction, whose diagram may be far larger than the abstracted
    /// result. `raw` is the engine's node for the fused operation.
    pub fn and_abstract(&self, m: &mut Cudd, other: &DdNode, vars: &Vec<usize>, raw: u64) -> (r:
        DdNode)
        requires
            old(m).wf(),
            self.in_manager(*old(m)),
            other.in_manager(*old(m)),
            forall|k: int| 0 <= k < vars@.len() ==> #[trigger] vars@[k] < usize::MAX,
            old(m).ref_count(raw) < usize::MAX,
        ensures
            acquires_extending(*old(m), *final(m), raw, vars@),
            r.in_manager(*final(m)),
            r.node_id() == raw,
            r.denotation() == bf_exists_all(
                bf_and(self.denotation(), other.denotation()),
                vars@.map_values(|v: usize| v as nat),
            ),
    {
        m.extend_for(vars);
        m.register(raw);
        DdNode {
            ctx: self.ctx,
            node: raw,
            den: Ghost(
                bf_exists_all(
                    bf_and(self.den@, other.den@),
                    vars@.map_values(|v: usize| v as nat),
                ),
            ),
        }
    }

    /// Simultaneous exchange of the variables `from[k]` and `to[k]` over the
    /// whole function, in one batch rather than sequentially, which would
    /// capture overlapping variables. The two lists must pair up; `raw` is
    /// the engine's permuted node.
    pub fn swap_vars(&self, m: &mut Cudd, from: &Vec<usize>, to: &Vec<usize>, raw: u64) -> (r:
        DdNode)
        requires
            old(m).wf(),
            self.in_manager(*old(m)),
            from@.len() == to@.len(),
            forall|k: int| 0 <= k < from@.len() ==> #[trigger] from@[k] < usize::MAX,
            forall|k: int| 0 <= k < to@.len() ==> #[trigger] to@[k] < usize::MAX,
            old(m).ref_count(raw) < usize::MAX,
        ensures
            final(m).wf(),
            final(m).context() == old(m).context(),
            final(m).transfer_count() == old(m).transfer_count(),
            final(m).var_count() == extend_vars(extend_vars(old(m).var_count(), from@), to@),
            final(m).ref_count(raw) == old(m).ref_count(raw) + 1,
            forall|j: u64| j != raw ==> final(m).ref_count(j) == old(m).ref_count(j),
            r.in_manager(*final(m)),
            r.node_id() == raw,
            r.denotation() == bf_swap(
                self.denotation(),
                from@.map_values(|v: usize| v as nat),
                to@.map_values(|v: usize| v as nat),
            ),
    {
        m.extend_for(from);
        m.extend_for(to);
        m.register(raw);
        DdNode {
            ctx: self.ctx,
            node: raw,
            den: Ghost(
                bf_swap(
                    self.den@,
                    from@.map_values(|v: usize| v as nat),
                    to@.map_values(|v: usize| v as nat),
                ),
            ),
        }
    }

    /// The function mapped from the current-state frame onto the next-state
    /// frame: variable `2k` stands for current-state bit `k` and variable
    /// `2k + 1` for next-state bit `k`, and every such pair is exchanged.
    /// The convention needs a fully paired frame, so the variable count must
    /// be even. `raw` is the engine's permuted node.
    pub fn next_state(&self, m: &mut Cudd, raw: u64) -> (r: DdNode)
        requires
            old(m).wf(),
            self.in_manager(*old(m)),
            old(m).var_count() % 2 == 0,
            old(m).ref_count(raw) < usize::MAX,
        ensures
            acquires(*old(m), *final(m), raw),
            r.in_manager(*final(m)),
            r.node_id() == raw,
            r.denotation() == bf_swap(
                self.denotation(),
                even_indices(old(m).var_count() as nat),
                odd_indices(old(m).var_count() as nat),
            ),
    {
        let n = m.num_var();
        let mut from: Vec<usize> = Vec::new();
        let mut to: Vec<usize> = Vec::new();
        let mut idx: usize = 0;
        while idx + 1 < n
            invariant
                idx <= n,
                idx % 2 == 0,
                n % 2 == 0,
                from@.len() == idx / 2,
                to@.len() == idx / 2,
                forall|p: int| 0 <= p < from@.len() ==> #[trigger] from@[p] == 2 * p,
                forall|p: int| 0 <= p < to@.len() ==> #[trigger] to@[p] == 2 * p + 1,
            decreases n - idx,
        {
            from.push(idx);
            to.push(idx + 1);
            idx = idx + 2;
        }
        assert(idx == n);
        let r = self.swap_vars(m, &from, &to, raw);
        proof {
            assert(from@.map_values(|v: usize| v as nat) =~= even_indices(n as nat));
            assert(to@.map_values(|v: usize| v as nat) =~= odd_indices(n as nat));
            assert forall|k: int| 0 <= k < from@.len() implies #[trigger] from@[k] < n by {}
            assert forall|k: int| 0 <= k < to@.len() implies #[trigger] to@[k] < n by {}
            lemma_extend_vars_covered(n, from@);
            lemma_extend_vars_covered(n, to@);
        }
        r
    }

    /// The context tag of the manager this handle belongs to.
    pub fn context_of(&self) -> (r: u64)
        ensures
            r == self.context(),
    {
        self.ctx
    }

    /// The engine node this handle holds a reference on.
    pub fn raw_node(&self) -> (r: u64)
        ensures
            r == self.node_id(),
    {
        self.node
    }

    /// Whether this handle belongs to the context of `m`; callers check this
    /// before combining handles, and before deciding whether a transfer needs
    /// the engine at all.
    pub fn in_same_manager(&self, m: &Cudd) -> (r: bool)
        ensures
            r == self.in_manager(*m),
    {
        self.ctx == m.context_id()
    }
}

} // verus!
