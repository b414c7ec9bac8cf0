//! A safe handle layer over a shared, reference-counted binary decision
//! diagram engine.
//!
//! The engine itself (canonical node creation, the Boolean recursive
//! algorithms, garbage collection) is an external collaborator; this crate
//! verifies the layer above it: how a manager context governs which handles
//! may be combined, how handles mirror the engine's external reference counts
//! across duplication and release, and what Boolean function each operation's
//! result denotes.
//!
//! A manager is a pure state machine over plain values. The caller performs
//! each engine call and hands the returned node id (`raw`) to the matching
//! manager operation, which enforces manager affinity, moves the reference
//! counts, and fixes the denotation of the new handle.

pub mod ddnode;
pub mod laws;
pub mod ledger;
pub mod semantics;

pub use crate::ddnode::DdNode;

use vstd::prelude::*;

verus! {

use crate::ledger::Ledger;
use crate::semantics::{bf_const, bf_cube, bf_var, BoolFn};

/// A manager: one engine context, the variables registered in it, the
/// external reference counts of its nodes, and a diagnostic transfer counter.
pub struct Cudd {
    ctx: u64,
    num_vars: usize,
    num_transfer: usize,
    refs: Ledger,
}

/// The variable count after registering every index in `indices`: each one
/// grows the store to `index + 1` where it was not yet covered.
pub open spec fn extend_vars(nv: usize, indices: Seq<usize>) -> usize
    decreases indices.len(),
{
    if indices.len() == 0 {
        nv
    } else {
        let rest = extend_vars(nv, indices.drop_last());
        if indices.last() + 1 > rest {
            (indices.last() + 1) as usize
        } else {
            rest
        }
    }
}

/// Registering indices that the store already covers leaves it as it is.
pub proof fn lemma_extend_vars_covered(nv: usize, indices: Seq<usize>)
    requires
        forall|k: int| 0 <= k < indices.len() ==> #[trigger] indices[k] < nv,
    ensures
        extend_vars(nv, indices) == nv,
    decreases indices.len(),
{
    if indices.len() > 0 {
        assert(forall|k: int|
            0 <= k < indices.drop_last().len() ==> #[trigger] indices.drop_last()[k] < nv);
        lemma_extend_vars_covered(nv, indices.drop_last());
    }
}

/// `after` is `before` with one more reference held on the node `id`, and
/// nothing else changed.
pub open spec fn acquires(before: Cudd, after: Cudd, id: u64) -> bool {
    &&& after.wf()
    &&& after.context() == before.context()
    &&& after.transfer_count() == before.transfer_count()
    &&& after.var_count() == before.var_count()
    &&& after.ref_count(id) == before.ref_count(id) + 1
    &&& forall|j: u64| j != id ==> after.ref_count(j) == before.ref_count(j)
}

/// `after` is `before` with one reference on the node `id` given back, and
/// nothing else changed.
pub open spec fn releases(before: Cudd, after: Cudd, id: u64) -> bool {
    &&& after.wf()
    &&& after.context() == before.context()
    &&& after.transfer_count() == before.transfer_count()
    &&& after.var_count() == before.var_count()
    &&& after.ref_count(id) == before.ref_count(id) - 1
    &&& forall|j: u64| j != id ==> after.ref_count(j) == before.ref_count(j)
}

/// `after` is `before` with one more reference on `id` and the variable
/// store grown to cover `indices`.
pub open spec fn acquires_extending(before: Cudd, after: Cudd, id: u64, indices: Seq<usize>) -> bool {
    &&& after.wf()
    &&& after.context() == before.context()
    &&& after.transfer_count() == before.transfer_count()
    &&& after.var_count() == extend_vars(before.var_count(), indices)
    &&& after.ref_count(id) == before.ref_count(id) + 1
    &&& forall|j: u64| j != id ==> after.ref_count(j) == before.ref_count(j)
}

/// The node a transfer into `m` yields a handle on: the node itself where it
/// already lives in `m`, otherwise the engine's translation `raw`.
pub open spec fn transfer_target(m: Cudd, node: DdNode, raw: u64) -> u64 {
    if node.context() == m.context() {
        node.node_id()
    } else {
        raw
    }
}

impl Cudd {
    /// The identity of the engine context this manager wraps: two managers
    /// stand for the same context exactly when these agree.
    pub closed spec fn context(&self) -> u64 {
        self.ctx
    }

    /// The number of variables registered in this manager.
    pub closed spec fn var_count(&self) -> usize {
        self.num_vars
    }

    /// The external reference count this manager records for the node `id`.
    pub closed spec fn ref_count(&self, id: u64) -> usize {
        self.refs.count(id)
    }

    /// The reference-count table is well formed.
    pub closed spec fn wf(&self) -> bool {
        self.refs.wf()
    }

    /// Cross-context transfers performed into this manager; diagnostic
    /// instrumentation, not part of correctness.
    pub closed spec fn transfer_count(&self) -> usize {
        self.num_transfer
    }

    /// A fresh manager for the engine context tagged `ctx`: no variables, no
    /// references, no transfers. The caller initializes the engine instance
    /// itself and tags it here; distinct live contexts must carry distinct
    /// tags (the engine-facing caller uses the instance's address), since
    /// the tag is what manager affinity compares.
    pub fn new(ctx: u64) -> (m: Cudd)
        ensures
            m.wf(),
            m.context() == ctx,
            m.var_count() == 0,
            m.transfer_count() == 0,
            forall|id: u64| m.ref_count(id) == 0,
    {
        Cudd { ctx, num_vars: 0, num_transfer: 0, refs: Ledger::new() }
    }

    /// Record the one reference a new handle on `id` holds.
    pub(crate) fn register(&mut self, id: u64)
        requires
            old(self).wf(),
            old(self).ref_count(id) < usize::MAX,
        ensures
            acquires(*old(self), *final(self), id),
    {
        self.refs.incr(id);
    }

    /// Give back the one reference a handle on `id` held.
    pub(crate) fn unregister(&mut self, id: u64)
        requires
            old(self).wf(),
            old(self).ref_count(id) >= 1,
        ensures
            releases(*old(self), *final(self), id),
    {
        self.refs.decr(id);
    }

    /// Grow the variable store to cover every index in `indices`, as the
    /// engine does when a variable is first mentioned.
    pub(crate) fn extend_for(&mut self, indices: &Vec<usize>)
        requires
            old(self).wf(),
            forall|k: int| 0 <= k < indices@.len() ==> #[trigger] indices@[k] < usize::MAX,
        ensures
            final(self).wf(),
            final(self).context() == old(self).context(),
            final(self).transfer_count() == old(self).transfer_count(),
            forall|j: u64| final(self).ref_count(j) == old(self).ref_count(j),
            final(self).var_count() == extend_vars(old(self).var_count(), indices@),
    {
        let n = indices.len();
        let mut k: usize = 0;
        while k < n
            invariant
                k <= n,
                n == indices@.len(),
                self.wf(),
                self.context() == old(self).context(),
                self.transfer_count() == old(self).transfer_count(),
                forall|j: u64| self.ref_count(j) == old(self).ref_count(j),
                forall|p: int| 0 <= p < indices@.len() ==> #[trigger] indices@[p] < usize::MAX,
                self.var_count() == extend_vars(old(self).var_count(), indices@.take(k as int)),
            decreases n - k,
        {
            let i = indices[k];
            if i + 1 > self.num_vars {
                self.num_vars = i + 1;
            }
            proof {
                assert(indices@.take(k as int + 1).drop_last() =~= indices@.take(k as int));
                assert(indices@.take(k as int + 1).last() == indices@[k as int]);
            }
            k = k + 1;
        }
        proof {
            assert(indices@.take(n as int) =~= indices@);
        }
    }

    /// A new independent variable at the next free index. `raw` is the node
    /// the engine returned for it.
    pub fn new_var(&mut self, raw: u64) -> (r: DdNode)
        requires
            old(self).wf(),
            old(self).var_count() < usize::MAX,
            old(self).ref_count(raw) < usize::MAX,
        ensures
            final(self).wf(),
            final(self).context() == old(self).context(),
            final(self).transfer_count() == old(self).transfer_count(),
            final(self).var_count() == old(self).var_count() + 1,
            final(self).ref_count(raw) == old(self).ref_count(raw) + 1,
            forall|j: u64| j != raw ==> final(self).ref_count(j) == old(self).ref_count(j),
            r.in_manager(*final(self)),
            r.node_id() == raw,
            r.denotation() == bf_var(old(self).var_count() as nat),
    {
        let ghost idx: nat = self.num_vars as nat;
        self.num_vars = self.num_vars + 1;
        self.refs.incr(raw);
        let r = DdNode { ctx: self.ctx, node: raw, den: Ghost(bf_var(idx)) };
        proof {
            r.spec_parts();
        }
        r
    }

    /// The variable at the zero-based `index`, registering it (and growing
    /// the store over every lower index) where it is not yet covered. `raw`
    /// is the node the engine returned for it.
    pub fn ith_var(&mut self, index: usize, raw: u64) -> (r: DdNode)
        requires
            old(self).wf(),
            index < usize::MAX,
            old(self).ref_count(raw) < usize::MAX,
        ensures
            final(self).wf(),
            final(self).context() == old(self).context(),
            final(self).transfer_count() == old(self).transfer_count(),
            final(self).var_count() == (if index + 1 > old(self).var_count() {
                (index + 1) as int
            } else {
                old(self).var_count() as int
            }),
            final(self).ref_count(raw) == old(self).ref_count(raw) + 1,
            forall|j: u64| j != raw ==> final(self).ref_count(j) == old(self).ref_count(j),
            r.in_manager(*final(self)),
            r.node_id() == raw,
            r.denotation() == bf_var(index as nat),
    {
        if index + 1 > self.num_vars {
            self.num_vars = index + 1;
        }
        self.refs.incr(raw);
        let r = DdNode { ctx: self.ctx, node: raw, den: Ghost(bf_var(index as nat)) };
        proof {
            r.spec_parts();
        }
        r
    }

    /// The number of variables currently registered.
    pub fn num_var(&self) -> (n: usize)
        ensures
            n == self.var_count(),
    {
        self.num_vars
    }

    /// The canonical handle for the constant function `value`. `raw` is the
    /// engine's constant node for that value.
    pub fn constant(&mut self, value: bool, raw: u64) -> (r: DdNode)
        requires
            old(self).wf(),
            old(self).ref_count(raw) < usize::MAX,
        ensures
            acquires(*old(self), *final(self), raw),
            r.in_manager(*final(self)),
            r.node_id() == raw,
            r.denotation() == bf_const(value),
    {
        self.refs.incr(raw);
        let r = DdNode { ctx: self.ctx, node: raw, den: Ghost(bf_const(value)) };
        proof {
            r.spec_parts();
        }
        r
    }

    /// The conjunction of the variables at `indices` as one handle; the order
    /// of the indices does not matter to the denotation. Variables not yet
    /// registered are created, as the engine does when it builds the cube.
    /// `raw` is the engine's cube node.
    pub fn cube(&mut self, indices: &Vec<usize>, raw: u64) -> (r: DdNode)
        requires
            old(self).wf(),
            forall|k: int| 0 <= k < indices@.len() ==> #[trigger] indices@[k] < usize::MAX,
            old(self).ref_count(raw) < usize::MAX,
        ensures
            acquires_extending(*old(self), *final(self), raw, indices@),
            r.in_manager(*final(self)),
            r.node_id() == raw,
            r.denotation() == bf_cube(indices@.map_values(|v: usize| v as nat)),
    {
        self.extend_for(indices);
        self.refs.incr(raw);
        let r = DdNode {
            ctx: self.ctx,
            node: raw,
            den: Ghost(bf_cube(indices@.map_values(|v: usize| v as nat))),
        };
        proof {
            r.spec_parts();
        }
        r
    }

    /// A handle in this manager for the same Boolean function as `node`. A
    /// handle already of this manager is duplicated with no engine call and
    /// `raw` is ignored; otherwise `raw` is the node the engine's
    /// cross-context translation returned, whose variable indices align
    /// positionally with the source. Either way the transfer counter moves.
    pub fn translocate(&mut self, node: &DdNode, raw: u64) -> (r: DdNode)
        requires
            old(self).wf(),
            old(self).transfer_count() < usize::MAX,
            old(self).ref_count(transfer_target(*old(self), *node, raw)) < usize::MAX,
        ensures
            final(self).wf(),
            final(self).context() == old(self).context(),
            final(self).var_count() == old(self).var_count(),
            final(self).transfer_count() == old(self).transfer_count() + 1,
            final(self).ref_count(transfer_target(*old(self), *node, raw)) == old(self).ref_count(
                transfer_target(*old(self), *node, raw),
            ) + 1,
            forall|j: u64|
                j != transfer_target(*old(self), *node, raw) ==> final(self).ref_count(j) == old(
                    self,
                ).ref_count(j),
            r.in_manager(*final(self)),
            r.node_id() == transfer_target(*old(self), *node, raw),
            r.denotation() == node.denotation(),
    {
        proof {
            node.spec_parts();
        }
        self.num_transfer = self.num_transfer + 1;
        let target = if node.ctx == self.ctx {
            node.node
        } else {
            raw
        };
        self.refs.incr(target);
        let r = DdNode { ctx: self.ctx, node: target, den: Ghost(node.den@) };
        proof {
            r.spec_parts();
        }
        r
    }

    /// The number of cross-context transfers performed into this manager.
    pub fn transfers(&self) -> (r: usize)
        ensures
            r == self.transfer_count(),
    {
        self.num_transfer
    }

    /// The context tag, for callers that correlate managers.
    pub fn context_id(&self) -> (r: u64)
        ensures
            r == self.context(),
    {
        self.ctx
    }

    /// The external reference count recorded for the node `id`.
    pub fn ref_count_of(&self, id: u64) -> (r: usize)
        requires
            self.wf(),
        ensures
            r == self.ref_count(id),
    {
        self.refs.get(id)
    }
}

} // verus!
