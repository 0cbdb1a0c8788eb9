//! The control-flow graph a process compiles to.

use vstd::prelude::*;
use crate::value::Value;
use crate::engine::Memory;
use crate::node::{Node, lemma_targets_mono, all_below};
use crate::engine::seq_below;
use crate::utility::{firsts, seconds};
use crate::signal::{fns_total, lemma_signal_ids_mono, SignalRuntime};
use crate::node::mem_manip::RCell;
use crate::node::par::{JoinPoint, BigJoinPoint};

verus! {

/// A full control-flow graph of a reactive system, with the memory and the
/// user functions its nodes refer to.
///
/// Nodes are identified by their index. A `None` marks a reserved id, which
/// may only exist during compilation.
pub struct Graph<F> {
    pub nodes: Vec<Option<Node>>,
    pub mem: Memory,
    pub fns: Vec<F>,
}

/// The model of a graph: its nodes, the parts of its memory, and its user
/// functions.
pub struct GraphView<F> {
    pub nodes: Seq<Option<Node>>,
    pub cells: Seq<Option<Value>>,
    pub joins: Seq<JoinPoint<Value, Value>>,
    pub big_joins: Seq<BigJoinPoint>,
    pub signals: Seq<SignalRuntime>,
    pub fns: Seq<F>,
}

impl<F> GraphView<F> {
    /// The id the next node gets.
    pub open spec fn next_id(self) -> usize {
        self.nodes.len() as usize
    }

    /// The cell the next allocation gives.
    pub open spec fn next_cell(self) -> RCell {
        RCell { id: self.cells.len() as usize }
    }

    /// With a fresh reserved id.
    pub open spec fn reserve(self) -> Self {
        GraphView { nodes: self.nodes.push(None), ..self }
    }

    /// With the node `n` added.
    pub open spec fn add(self, n: Node) -> Self {
        GraphView { nodes: self.nodes.push(Some(n)), ..self }
    }

    /// With the node `n` at the reserved id `pos`.
    pub open spec fn set(self, pos: usize, n: Node) -> Self {
        GraphView { nodes: self.nodes.update(pos as int, Some(n)), ..self }
    }

    /// With a fresh empty cell.
    pub open spec fn new_cell(self) -> Self {
        GraphView { cells: self.cells.push(None), ..self }
    }

    /// With a fresh cell holding `v`.
    pub open spec fn new_cell_with(self, v: Value) -> Self {
        GraphView { cells: self.cells.push(Some(v)), ..self }
    }

    /// With a fresh join point of two branches.
    pub open spec fn new_join(self) -> Self {
        GraphView { joins: self.joins.push(JoinPoint { o1: None, o2: None }), ..self }
    }

    /// With a fresh join point of `total` branches continuing in `dest`.
    pub open spec fn new_big_join(self, total: usize, dest: usize) -> Self {
        GraphView { big_joins: self.big_joins.push(BigJoinPoint { nb: 0, total, dest }), ..self }
    }

    /// With the user function `f` added.
    pub open spec fn add_fn(self, f: F) -> Self {
        GraphView { fns: self.fns.push(f), ..self }
    }
}

impl<F> Graph<F> {
    /// The model of the graph.
    pub open spec fn view(&self) -> GraphView<F> {
        GraphView {
            nodes: self.nodes@,
            cells: self.mem.cells@,
            joins: self.mem.joins@,
            big_joins: self.mem.big_joins@,
            signals: self.mem.signals@,
            fns: self.fns@,
        }
    }

    /// No reserved id is left unset.
    pub open spec fn complete(&self) -> bool {
        forall|i: int| 0 <= i < self.nodes@.len() ==> (#[trigger] self.nodes@[i]) is Some
    }

    /// Every node id the graph's nodes (and its many-branch join points and
    /// signals) may schedule is below `b`.
    pub open spec fn closed_under(&self, b: nat) -> bool {
        &&& forall|i: int| 0 <= i < self.nodes@.len() && (#[trigger] self.nodes@[i]) is Some
            ==> self.nodes@[i]->0.targets_ok(b)
        &&& forall|i: int| 0 <= i < self.mem.big_joins@.len() ==> (#[trigger] self.mem.big_joins@[i]).dest < b
        &&& forall|k: int| 0 <= k < self.mem.signals@.len() ==> (#[trigger] self.mem.signals@[k]).ids_below(b)
    }

    /// Every node id the graph may schedule is an id of the graph.
    pub open spec fn closed(&self) -> bool {
        self.closed_under(self.nodes@.len() as nat)
    }
}

/// A bound on the targets of a graph stays a bound when it grows.
pub proof fn lemma_closed_mono<F>(g: Graph<F>, b0: nat, b1: nat)
    requires
        g.closed_under(b0),
        b0 <= b1,
    ensures
        g.closed_under(b1),
{
    assert forall|i: int| 0 <= i < g.nodes@.len() && (#[trigger] g.nodes@[i]) is Some
        implies g.nodes@[i]->0.targets_ok(b1) by {
        lemma_targets_mono(g.nodes@[i]->0, b0, b1);
    }
    assert forall|k: int| 0 <= k < g.mem.signals@.len() implies (#[trigger] g.mem.signals@[k]).ids_below(b1) by {
        lemma_signal_ids_mono(g.mem.signals@[k], b0, b1);
    }
}

impl<F> Graph<F> {
    /// The model of an empty graph.
    pub open spec fn new_view() -> GraphView<F> {
        GraphView {
            nodes: Seq::empty(),
            cells: Seq::empty(),
            joins: Seq::empty(),
            big_joins: Seq::empty(),
            signals: Seq::empty(),
            fns: Seq::empty(),
        }
    }
}

impl<F: FnMut(Value) -> Value> Graph<F> {
    /// All user functions accept every value.
    pub open spec fn wf(&self) -> bool {
        fns_total(self.fns@)
    }

    /// Creates an empty graph.
    pub fn new() -> (r: Self)
        ensures
            r.nodes@.len() == 0,
            r.mem.cells@.len() == 0,
            r.mem.joins@.len() == 0,
            r.mem.big_joins@.len() == 0,
            r.mem.signals@.len() == 0,
            r.fns@.len() == 0,
            r@ == Self::new_view(),
            r.wf(),
    {
        let g = Graph { nodes: Vec::new(), mem: Memory::new(), fns: Vec::new() };
        proof {
            assert(g.nodes@ =~= Seq::<Option<Node>>::empty());
            assert(g.mem.cells@ =~= Seq::<Option<Value>>::empty());
            assert(g.mem.joins@ =~= Seq::<JoinPoint<Value, Value>>::empty());
            assert(g.mem.big_joins@ =~= Seq::<BigJoinPoint>::empty());
            assert(g.mem.signals@ =~= Seq::<SignalRuntime>::empty());
            assert(g.fns@ =~= Seq::<F>::empty());
        }
        g
    }

    /// Reserves a fresh id and returns it.
    pub fn reserve(&mut self) -> (r: usize)
        ensures
            r == old(self).nodes@.len(),
            final(self).nodes@ == old(self).nodes@.push(None),
            final(self).mem == old(self).mem,
            final(self).fns == old(self).fns,
            old(self).closed() ==> final(self).closed(),
    {
        self.nodes.push(None);
        proof {
            if old(self).closed() {
                lemma_closed_mono(*old(self), old(self).nodes@.len() as nat, self.nodes@.len() as nat);
                assert forall|i: int| 0 <= i < self.nodes@.len() && (#[trigger] self.nodes@[i]) is Some
                    implies self.nodes@[i]->0.targets_ok(self.nodes@.len() as nat) by {
                    assert(old(self).nodes@[i] == self.nodes@[i]);
                }
            }
        }
        self.nodes.len() - 1
    }

    /// Sets the node at a reserved position, which must not be set yet.
    pub fn set(&mut self, pos: usize, val: Node)
        requires
            pos < old(self).nodes@.len(),
            old(self).nodes@[pos as int] is None,
        ensures
            final(self).nodes@ == old(self).nodes@.update(pos as int, Some(val)),
            final(self).mem == old(self).mem,
            final(self).fns == old(self).fns,
            old(self).closed() && val.targets_ok(old(self).nodes@.len() as nat) ==> final(self).closed(),
    {
        self.nodes.set(pos, Some(val));
    }

    /// Adds a new node to the graph and returns its id.
    pub fn add(&mut self, val: Node) -> (r: usize)
        ensures
            r == old(self).nodes@.len(),
            final(self).nodes@ == old(self).nodes@.push(Some(val)),
            final(self).mem == old(self).mem,
            final(self).fns == old(self).fns,
            old(self).closed() && val.targets_ok(old(self).nodes@.len() + 1) ==> final(self).closed(),
    {
        let pos = self.nodes.len();
        self.nodes.push(Some(val));
        proof {
            if old(self).closed() && val.targets_ok(old(self).nodes@.len() + 1) {
                lemma_closed_mono(*old(self), old(self).nodes@.len() as nat, self.nodes@.len() as nat);
                assert forall|i: int| 0 <= i < self.nodes@.len() && (#[trigger] self.nodes@[i]) is Some
                    implies self.nodes@[i]->0.targets_ok(self.nodes@.len() as nat) by {
                    if i < old(self).nodes@.len() {
                        assert(old(self).nodes@[i] == self.nodes@[i]);
                    }
                }
            }
        }
        pos
    }

    /// Adds a user function and returns its index.
    pub fn add_fn(&mut self, f: F) -> (r: usize)
        requires
            old(self).wf(),
            forall|v: Value| call_requires(f, (v,)),
        ensures
            final(self).wf(),
            r == old(self).fns@.len(),
            final(self).fns@ == old(self).fns@.push(f),
            final(self).nodes == old(self).nodes,
            final(self).mem == old(self).mem,
    {
        let pos = self.fns.len();
        self.fns.push(f);
        pos
    }

    /// The nodes of the graph.
    pub fn get(self) -> (r: Vec<Option<Node>>)
        ensures
            r == self.nodes,
    {
        self.nodes
    }
}

impl<F> Graph<F> {
    /// Whether the graph is ready to run: no reserved id is left unset and
    /// every node id it may schedule is one of its ids.
    pub fn ready(&self) -> (r: bool)
        ensures
            r == (self.closed() && self.complete()),
    {
        let b = self.nodes.len();
        let mut i: usize = 0;
        while i < self.nodes.len()
            invariant
                b == self.nodes@.len(),
                i <= self.nodes@.len(),
                forall|j: int| 0 <= j < i ==> (#[trigger] self.nodes@[j]) is Some && self.nodes@[j]->0.targets_ok(b as nat),
            decreases self.nodes@.len() - i,
        {
            match &self.nodes[i] {
                Some(n) => {
                    if !n.targets_below(b) {
                        return false;
                    }
                },
                None => {
                    return false;
                },
            }
            i = i + 1;
        }
        let mut k: usize = 0;
        while k < self.mem.big_joins.len()
            invariant
                b == self.nodes@.len(),
                k <= self.mem.big_joins@.len(),
                forall|j: int| 0 <= j < self.nodes@.len() ==> (#[trigger] self.nodes@[j]) is Some && self.nodes@[j]->0.targets_ok(b as nat),
                forall|j: int| 0 <= j < k ==> (#[trigger] self.mem.big_joins@[j]).dest < b,
            decreases self.mem.big_joins@.len() - k,
        {
            if self.mem.big_joins[k].dest >= b {
                return false;
            }
            k = k + 1;
        }
        let mut m: usize = 0;
        while m < self.mem.signals.len()
            invariant
                b == self.nodes@.len(),
                m <= self.mem.signals@.len(),
                forall|j: int| 0 <= j < self.nodes@.len() ==> (#[trigger] self.nodes@[j]) is Some && self.nodes@[j]->0.targets_ok(b as nat),
                forall|j: int| 0 <= j < self.mem.big_joins@.len() ==> (#[trigger] self.mem.big_joins@[j]).dest < b,
                forall|j: int| 0 <= j < m ==> (#[trigger] self.mem.signals@[j]).ids_below(b as nat),
            decreases self.mem.signals@.len() - m,
        {
            let sig = &self.mem.signals[m];
            if !all_below(&sig.pending_await, b) || !all_below(&sig.pending_await_immediate, b)
                || !pairs_below(&sig.pending_present, b) {
                return false;
            }
            m = m + 1;
        }
        true
    }
}

/// Whether both components of every pair of `ps` are below `b`.
fn pairs_below(ps: &Vec<(usize, usize)>, b: usize) -> (r: bool)
    ensures
        r == (seq_below(firsts(ps@), b as nat) && seq_below(seconds(ps@), b as nat)),
{
    let mut i: usize = 0;
    while i < ps.len()
        invariant
            i <= ps@.len(),
            forall|j: int| 0 <= j < i ==> (#[trigger] ps@[j]).0 < b && ps@[j].1 < b,
        decreases ps.len() - i,
    {
        if ps[i].0 >= b || ps[i].1 >= b {
            proof {
                if ps[i as int].0 >= b {
                    assert(firsts(ps@)[i as int] >= b);
                } else {
                    assert(seconds(ps@)[i as int] >= b);
                }
            }
            return false;
        }
        i = i + 1;
    }
    proof {
        assert forall|j: int| 0 <= j < firsts(ps@).len() implies #[trigger] firsts(ps@)[j] < b by {
            assert(ps@[j].0 < b);
        }
        assert forall|j: int| 0 <= j < seconds(ps@).len() implies #[trigger] seconds(ps@)[j] < b by {
            assert(ps@[j].1 < b);
        }
    }
    true
}

} // verus!
