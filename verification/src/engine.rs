//! The runtime that executes a compiled reactive process, instant by instant.

use vstd::prelude::*;
use crate::value::Value;
use crate::signal::{SignalRuntime, SignalRuntimeRef, fns_total, lemma_sub_ids, ended_instant};
use crate::node::{Node, CFGDrawer, call_post, midpoint, turns, stepped};
use crate::node::dot::{NodeDrawing, DrawState, draw_nodes, total_leaves, lemma_draw_nodes_bounds};
use crate::graph::{Graph, GraphView};
use crate::process::{Process, Compiled};
use crate::process::compilation::{compiles, stage, close_link};
use crate::utility::take;
use crate::node::par::{JoinPoint, BigJoinPoint};

verus! {

/// The ids of the nodes that remain to be executed.
pub struct Tasks {
    /// Nodes to execute during the current instant.
    pub current: Vec<usize>,
    /// Nodes to execute during the next instant.
    pub next: Vec<usize>,
}

/// The signals that have work to do at the end of the instant (the `false`
/// branches of their pending presence tests).
pub struct EndOfInstant {
    pub pending: Vec<usize>,
}

/// The shared state that nodes read and write: value cells, join points
/// and signals, each designated by its index.
pub struct Memory {
    pub cells: Vec<Option<Value>>,
    pub joins: Vec<JoinPoint<Value, Value>>,
    pub big_joins: Vec<BigJoinPoint>,
    pub signals: Vec<SignalRuntime>,
}

impl Memory {
    /// An empty memory.
    pub fn new() -> (r: Self)
        ensures
            r.cells@.len() == 0,
            r.joins@.len() == 0,
            r.big_joins@.len() == 0,
            r.signals@.len() == 0,
    {
        Memory { cells: Vec::new(), joins: Vec::new(), big_joins: Vec::new(), signals: Vec::new() }
    }
}

/// Every id of the sequence is below `b`.
pub open spec fn seq_below(s: Seq<usize>, b: nat) -> bool {
    forall|i: int| 0 <= i < s.len() ==> #[trigger] s[i] < b
}

/// The concatenation of two sequences of ids below `b` is below `b`.
pub proof fn lemma_seq_below_add(a: Seq<usize>, c: Seq<usize>, b: nat)
    requires
        seq_below(a, b),
        seq_below(c, b),
    ensures
        seq_below(a + c, b),
{
    assert forall|i: int| 0 <= i < (a + c).len() implies #[trigger] (a + c)[i] < b by {
        if i < a.len() {
            assert((a + c)[i] == a[i]);
        } else {
            assert((a + c)[i] == c[i - a.len()]);
        }
    }
}

/// Every node id of the task lists is below `b`.
pub open spec fn tasks_below(t: Tasks, b: nat) -> bool {
    seq_below(t.current@, b) && seq_below(t.next@, b)
}

/// Every node id a sub-runtime holds, and may schedule later, is below `b`:
/// the ids of its task lists, of the nodes its signals keep waiting, and
/// the destinations of its many-branch join points.
pub open spec fn ids_below<F>(s: SubRuntime<F>, b: nat) -> bool {
    &&& tasks_below(s.tasks, b)
    &&& forall|i: int| 0 <= i < s.mem.big_joins@.len() ==> (#[trigger] s.mem.big_joins@[i]).dest < b
    &&& forall|k: int| 0 <= k < s.mem.signals@.len() ==> (#[trigger] s.mem.signals@[k]).ids_below(b)
}

/// Every bound on the node ids of `s0` is a bound on those of `s1`.
pub open spec fn ids_kept<F>(s0: SubRuntime<F>, s1: SubRuntime<F>) -> bool {
    forall|b: nat| #[trigger] ids_below(s0, b) ==> ids_below(s1, b)
}

/// Two memories hold the same number of cells, join points and signals.
pub open spec fn same_shape(m0: Memory, m1: Memory) -> bool {
    &&& m1.cells@.len() == m0.cells@.len()
    &&& m1.joins@.len() == m0.joins@.len()
    &&& m1.big_joins@.len() == m0.big_joins@.len()
    &&& m1.signals@.len() == m0.signals@.len()
}

/// The part of the runtime that is passed to nodes.
pub struct SubRuntime<F> {
    /// The task lists.
    pub tasks: Tasks,
    /// The signals to visit at the end of the instant.
    pub eoi: EndOfInstant,
    /// The id of the current instant.
    pub current_instant: usize,
    /// The cells, join points and signals.
    pub mem: Memory,
    /// The user functions.
    pub fns: Vec<F>,
    /// The number of node calls made so far.
    pub steps: usize,
    /// Whether a node met an input it refuses: a load from a cell that
    /// holds no value, a once-function called again, or a list of values
    /// to emit whose length differs from that of its signals. Such a node
    /// does nothing else and returns `Unit` (or its pass-through value).
    pub refused: bool,
}

impl<F: FnMut(Value) -> Value> SubRuntime<F> {
    /// All user functions accept every value.
    pub open spec fn wf(&self) -> bool {
        fns_total(self.fns@)
    }

    /// Records that a node met an input it refuses.
    pub fn refuse(&mut self)
        ensures
            *final(self) == (SubRuntime { refused: true, ..*old(self) }),
    {
        self.refused = true;
    }

    /// Adds a node to execute during the current instant.
    pub fn add_current(&mut self, ind: usize)
        ensures
            final(self).tasks.current@ == old(self).tasks.current@.push(ind),
            *final(self) == (SubRuntime { tasks: Tasks { current: final(self).tasks.current, ..old(self).tasks }, ..*old(self) }),
    {
        self.tasks.current.push(ind);
    }

    /// Adds a node to execute during the next instant.
    pub fn add_next(&mut self, ind: usize)
        ensures
            final(self).tasks.next@ == old(self).tasks.next@.push(ind),
            *final(self) == (SubRuntime { tasks: Tasks { next: final(self).tasks.next, ..old(self).tasks }, ..*old(self) }),
    {
        self.tasks.next.push(ind);
    }

    /// Registers a signal to visit at the end of the instant.
    pub fn add_eoi(&mut self, signal: usize)
        ensures
            final(self).eoi.pending@ == old(self).eoi.pending@.push(signal),
            *final(self) == (SubRuntime { eoi: EndOfInstant { pending: final(self).eoi.pending }, ..*old(self) }),
    {
        self.eoi.pending.push(signal);
    }

    /// The id of the current instant.
    pub fn get_current_instant(&self) -> (r: usize)
        ensures
            r == self.current_instant,
    {
        self.current_instant
    }

    /// Asks for the end of the execution: the sequential runtime stops by
    /// itself when no work remains, so there is nothing to do.
    pub fn end(&mut self)
        ensures
            *final(self) == *old(self),
    {
    }
}

} // verus!

verus! {

/// `s1` is `s0` with its current task list emptied.
pub open spec fn taken<F>(s0: SubRuntime<F>, s1: SubRuntime<F>) -> bool {
    &&& s1.tasks.current@.len() == 0
    &&& s1 == (SubRuntime { tasks: Tasks { current: s1.tasks.current, next: s0.tasks.next }, ..s0 })
}

/// The effect of running the task `id` on the nodes `nodes`: a step is
/// counted and the node of that id is called on `Unit` (an id that is not
/// one of a node is skipped); with the step counter saturated, nothing
/// happens.
pub open spec fn task_post<F: FnMut(Value) -> Value>(nodes: Seq<Node>, s0: SubRuntime<F>, id: usize, s1: SubRuntime<F>) -> bool {
    if s0.steps == usize::MAX {
        s1 == s0
    } else if id < nodes.len() {
        exists|r: Value| #[trigger] midpoint(s1, r) && call_post(nodes[id as int], stepped(s0), Value::Unit, s1, r)
    } else {
        s1 == stepped(s0)
    }
}

/// The effect of running the tasks `ids` in order.
pub open spec fn batch_post<F: FnMut(Value) -> Value>(nodes: Seq<Node>, s0: SubRuntime<F>, ids: Seq<usize>, s1: SubRuntime<F>) -> bool
    decreases ids.len(),
{
    if ids.len() == 0 {
        s1 == s0
    } else {
        exists|sm: SubRuntime<F>| #[trigger] midpoint(sm, Value::Unit)
            && batch_post(nodes, s0, ids.drop_last(), sm) && task_post(nodes, sm, ids.last(), s1)
    }
}

/// The effect of `k` rounds of an instant: each round takes the current
/// task list, which is not empty, and runs its tasks in order.
pub open spec fn rounds_post<F: FnMut(Value) -> Value>(nodes: Seq<Node>, s0: SubRuntime<F>, s1: SubRuntime<F>, k: nat) -> bool
    decreases k,
{
    if k == 0 {
        s1 == s0
    } else {
        exists|sm: SubRuntime<F>, sb: SubRuntime<F>| #![trigger midpoint(sm, Value::Unit), midpoint(sb, Value::Unit)]
            rounds_post(nodes, s0, sm, (k - 1) as nat)
            && sm.tasks.current@.len() > 0
            && sm.steps < usize::MAX
            && taken(sm, sb)
            && batch_post(nodes, sb, sm.tasks.current@, s1)
    }
}

/// `s1` is `s0` at the turn of an instant: the tasks for the next instant
/// are the current ones, and the other lists are empty.
pub open spec fn turned<F>(s0: SubRuntime<F>, s1: SubRuntime<F>) -> bool {
    &&& s1.tasks.current@ == s0.tasks.next@
    &&& s1.tasks.next@.len() == 0
    &&& s1.eoi.pending@.len() == 0
    &&& s1 == (SubRuntime { tasks: s1.tasks, eoi: s1.eoi, ..s0 })
}

/// The effect of the end-of-instant work of the signals `ids`, in order.
pub open spec fn ends_post<F>(s0: SubRuntime<F>, ids: Seq<usize>, s1: SubRuntime<F>) -> bool
    decreases ids.len(),
{
    if ids.len() == 0 {
        s1 == s0
    } else {
        exists|sm: SubRuntime<F>| #[trigger] midpoint(sm, Value::Unit)
            && ends_post(s0, ids.drop_last(), sm) && ended_instant(ids.last(), sm, s1)
    }
}

/// The effect of an instant on the state of a runtime of nodes `nodes`:
/// rounds of tasks run until no task is left for the instant (or the step
/// counter is saturated); then the tasks for the next instant become the
/// current ones, the signals that asked for it do their end-of-instant
/// work, and the instant id goes up by one.
pub open spec fn instant_post<F: FnMut(Value) -> Value>(nodes: Seq<Node>, s0: SubRuntime<F>, s1: SubRuntime<F>) -> bool {
    exists|k: nat, sa: SubRuntime<F>, sc: SubRuntime<F>, sb: SubRuntime<F>|
        #![trigger turns(k), midpoint(sa, Value::Unit), midpoint(sc, Value::Unit), midpoint(sb, Value::Unit)]
        rounds_post(nodes, s0, sa, k)
        && (sa.tasks.current@.len() == 0 || sa.steps == usize::MAX)
        && turned(sa, sc)
        && ends_post(sc, sa.eoi.pending@, sb)
        && s1 == (SubRuntime { current_instant: (sb.current_instant + 1) as usize, ..sb })
}

/// The effect of `n` instants in a row.
pub open spec fn instants_post<F: FnMut(Value) -> Value>(nodes: Seq<Node>, s0: SubRuntime<F>, s1: SubRuntime<F>, n: nat) -> bool
    decreases n,
{
    if n == 0 {
        s1 == s0
    } else {
        exists|sm: SubRuntime<F>| #[trigger] midpoint(sm, Value::Unit)
            && instants_post(nodes, s0, sm, (n - 1) as nat) && instant_post(nodes, sm, s1)
    }
}

/// Whether work remains for a next instant.
pub open spec fn has_work<F>(s: SubRuntime<F>) -> bool {
    s.tasks.current@.len() > 0 || s.eoi.pending@.len() > 0
}

/// `n` instants in a row, after each of which work remained.
pub open spec fn live_instants<F: FnMut(Value) -> Value>(nodes: Seq<Node>, s0: SubRuntime<F>, s1: SubRuntime<F>, n: nat) -> bool
    decreases n,
{
    if n == 0 {
        s1 == s0
    } else {
        exists|sm: SubRuntime<F>| #[trigger] midpoint(sm, Value::Unit)
            && live_instants(nodes, s0, sm, (n - 1) as nat) && instant_post(nodes, sm, s1) && has_work(s1)
    }
}

/// The effect of running up to `n` instants, stopping after one that leaves
/// no work or when the instant id reaches `usize::MAX`: `r` tells whether
/// all `n` ran, each leaving work.
pub open spec fn instantn_post<F: FnMut(Value) -> Value>(nodes: Seq<Node>, s0: SubRuntime<F>, s1: SubRuntime<F>, n: nat, r: bool) -> bool {
    let k = s1.current_instant - s0.current_instant;
    &&& 0 <= k <= n
    &&& r ==> k == n && live_instants(nodes, s0, s1, n)
    &&& !r ==> {
        ||| k < n && s1.current_instant == usize::MAX && live_instants(nodes, s0, s1, k as nat)
        ||| k > 0 && !has_work(s1) && exists|sm: SubRuntime<F>| #[trigger] midpoint(sm, Value::Unit)
                && live_instants(nodes, s0, sm, (k - 1) as nat) && instant_post(nodes, sm, s1)
    }
}

/// Runtime for running a reactive control-flow graph.
pub struct Runtime<F> {
    /// The nodes of the graph; the id of a node is its index.
    pub nodes: Vec<Node>,
    /// The state that nodes act on.
    pub sub_runtime: SubRuntime<F>,
}

/// What an instant may change in a runtime besides its tasks, end-of-instant
/// list, memory content and step count: the instant id goes up by one.
pub open spec fn instant_frame<F>(r0: Runtime<F>, r1: Runtime<F>) -> bool {
    &&& r1.nodes == r0.nodes
    &&& r1.sub_runtime.fns@ == r0.sub_runtime.fns@
    &&& same_shape(r0.sub_runtime.mem, r1.sub_runtime.mem)
    &&& r1.sub_runtime.current_instant == r0.sub_runtime.current_instant + 1
    &&& r1.sub_runtime.steps >= r0.sub_runtime.steps
}

impl<F: FnMut(Value) -> Value> Runtime<F> {
    /// All user functions accept every value.
    pub open spec fn wf(&self) -> bool {
        self.sub_runtime.wf()
    }

    /// Every node id the runtime may schedule, and every scheduled one, is
    /// the id of one of its nodes: the targets of its nodes, its task lists,
    /// the nodes its signals keep waiting and the destinations of its
    /// many-branch join points.
    pub open spec fn closed(&self) -> bool {
        let b = self.nodes@.len() as nat;
        &&& forall|i: int| 0 <= i < self.nodes@.len() ==> (#[trigger] self.nodes@[i]).targets_ok(b)
        &&& ids_below(self.sub_runtime, b)
    }

    /// The runtime holds the nodes, memory and user functions of the
    /// complete graph `v`, and only the node `start` is scheduled, for the
    /// first instant.
    pub open spec fn started_from(&self, v: GraphView<F>, start: usize) -> bool {
        &&& self.nodes@.len() == v.nodes.len()
        &&& forall|i: int| 0 <= i < v.nodes.len() ==> v.nodes[i] == Some(#[trigger] self.nodes@[i])
        &&& self.sub_runtime.mem.cells@ == v.cells
        &&& self.sub_runtime.mem.joins@ == v.joins
        &&& self.sub_runtime.mem.big_joins@ == v.big_joins
        &&& self.sub_runtime.mem.signals@ == v.signals
        &&& self.sub_runtime.fns@ == v.fns
        &&& self.sub_runtime.tasks.current@ == seq![start]
    }

    /// Whether a node has met an input it refuses so far (see
    /// `SubRuntime::refused`).
    pub fn refused(&self) -> (r: bool)
        ensures
            r == self.sub_runtime.refused,
    {
        self.sub_runtime.refused
    }

    /// Whether work remains for a next instant.
    pub open spec fn pending(&self) -> bool {
        self.sub_runtime.tasks.current@.len() > 0 || self.sub_runtime.eoi.pending@.len() > 0
    }

    /// Creates an empty runtime, with the instant id 3.
    pub fn newempty() -> (r: Self)
        ensures
            r.wf(),
            r.nodes@.len() == 0,
            r.sub_runtime.current_instant == 3,
            r.sub_runtime.steps == 0,
            !r.sub_runtime.refused,
            r.sub_runtime.tasks.current@.len() == 0,
            r.sub_runtime.tasks.next@.len() == 0,
            r.sub_runtime.eoi.pending@.len() == 0,
            r.sub_runtime.fns@.len() == 0,
            r.sub_runtime.mem.cells@.len() == 0,
            r.sub_runtime.mem.joins@.len() == 0,
            r.sub_runtime.mem.big_joins@.len() == 0,
            r.sub_runtime.mem.signals@.len() == 0,
    {
        Runtime {
            nodes: Vec::new(),
            sub_runtime: SubRuntime {
                tasks: Tasks { current: Vec::new(), next: Vec::new() },
                eoi: EndOfInstant { pending: Vec::new() },
                current_instant: 3,
                mem: Memory::new(),
                fns: Vec::new(),
                steps: 0,
                refused: false,
            },
        }
    }

    /// Creates a runtime from a complete graph (no reserved id left unset).
    /// No node is scheduled yet.
    pub fn fromgraph(g: Graph<F>) -> (r: Self)
        requires
            g.wf(),
            forall|i: int| 0 <= i < g.nodes@.len() ==> (#[trigger] g.nodes@[i]) is Some,
        ensures
            r.wf(),
            r.nodes@.len() == g.nodes@.len(),
            forall|i: int| 0 <= i < g.nodes@.len() ==> g.nodes@[i] == Some(#[trigger] r.nodes@[i]),
            r.sub_runtime.mem == g.mem,
            r.sub_runtime.fns == g.fns,
            r.sub_runtime.current_instant == 3,
            r.sub_runtime.steps == 0,
            !r.sub_runtime.refused,
            r.sub_runtime.tasks.current@.len() == 0,
            r.sub_runtime.tasks.next@.len() == 0,
            r.sub_runtime.eoi.pending@.len() == 0,
    {
        let Graph { nodes, mem, fns } = g;
        let mut nodes = nodes;
        let mut out: Vec<Node> = Vec::new();
        let mut i: usize = 0;
        while i < nodes.len()
            invariant
                i <= nodes@.len(),
                nodes@.len() == g.nodes@.len(),
                forall|j: int| i <= j < nodes@.len() ==> nodes@[j] == g.nodes@[j],
                forall|j: int| 0 <= j < g.nodes@.len() ==> (#[trigger] g.nodes@[j]) is Some,
                out@.len() == i,
                forall|j: int| 0 <= j < i ==> g.nodes@[j] == Some(#[trigger] out@[j]),
            decreases nodes@.len() - i,
        {
            let mut slot: Option<Node> = None;
            std::mem::swap(&mut slot, &mut nodes[i]);
            match slot {
                Some(b) => out.push(b),
                None => {
                    proof { assert(g.nodes@[i as int] is Some); }
                },
            }
            i = i + 1;
        }
        Runtime {
            nodes: out,
            sub_runtime: SubRuntime {
                tasks: Tasks { current: Vec::new(), next: Vec::new() },
                eoi: EndOfInstant { pending: Vec::new() },
                current_instant: 3,
                mem,
                fns,
                steps: 0,
                refused: false,
            },
        }
    }

    /// Creates a runtime for a process whose signals live in `g` (a graph
    /// holding no node yet, or only complete nodes): the process is compiled
    /// into `g` and its starting node is scheduled for the first instant.
    pub fn new_in(g: Graph<F>, p: Process<F>) -> (r: Self)
        requires
            g.wf(),
            g.closed(),
            g.complete(),
            p.fns_ok(),
        ensures
            r.wf(),
            r.closed(),
            r.sub_runtime.tasks.current@.len() == 1,
            r.sub_runtime.mem.signals == g.mem.signals,
            r.sub_runtime.current_instant == 3,
            r.sub_runtime.steps == 0,
            !r.sub_runtime.refused,
            r.sub_runtime.tasks.next@.len() == 0,
            r.sub_runtime.eoi.pending@.len() == 0,
            exists|c: Compiled, v: GraphView<F>| #[trigger] stage(c, v) && compiles(p, g@, c, v)
                && r.started_from(close_link(c, v).0, close_link(c, v).1),
    {
        let ghost p0 = p;
        let (g2, start) = p.compile_to_graph(g);
        let ghost (c, v) = choose|c: Compiled, v: GraphView<F>| #[trigger] stage(c, v) && compiles(p0, g@, c, v)
            && (g2@, start) == close_link(c, v);
        let mut r = Runtime::fromgraph(g2);
        r.sub_runtime.add_current(start);
        proof {
            assert(stage(c, v));
            assert(r.sub_runtime.tasks.current@ =~= seq![start]);
            assert(r.started_from(close_link(c, v).0, close_link(c, v).1));
            assert forall|i: int| 0 <= i < r.nodes@.len() implies (#[trigger] r.nodes@[i]).targets_ok(r.nodes@.len() as nat) by {
                assert(g2.nodes@[i] == Some(r.nodes@[i]));
            }
        }
        r
    }

    /// Creates a runtime for a process that uses no signal (see `new_in`).
    pub fn new(p: Process<F>) -> (r: Self)
        requires
            p.fns_ok(),
        ensures
            r.wf(),
            r.closed(),
            r.sub_runtime.tasks.current@.len() == 1,
            r.sub_runtime.current_instant == 3,
            r.sub_runtime.mem.signals@.len() == 0,
            exists|c: Compiled, v: GraphView<F>| #[trigger] stage(c, v) && compiles(p, Graph::<F>::new_view(), c, v)
                && r.started_from(close_link(c, v).0, close_link(c, v).1),
    {
        Runtime::new_in(Graph::new(), p)
    }

    /// Executes a single instant: runs the nodes scheduled for the current
    /// instant (and those they schedule for it) until none is left, makes
    /// the nodes scheduled for the next instant the current ones, runs the
    /// end-of-instant work of the signals and moves to the next instant.
    ///
    /// Returns whether the process should continue, i.e. whether work
    /// remains for the next instant.
    ///
    /// Every node call counts as a step; should the step counter ever reach
    /// `usize::MAX`, the nodes that remain are not run.
    pub fn instant(&mut self) -> (r: bool)
        requires
            old(self).wf(),
            old(self).sub_runtime.current_instant < usize::MAX,
        ensures
            final(self).wf(),
            old(self).closed() ==> final(self).closed(),
            instant_frame(*old(self), *final(self)),
            final(self).sub_runtime.tasks.next@ == Seq::<usize>::empty(),
            final(self).sub_runtime.eoi.pending@ == Seq::<usize>::empty(),
            r == final(self).pending(),
            instant_post(old(self).nodes@, old(self).sub_runtime, final(self).sub_runtime),
    {
        let ghost r0 = *self;
        let ghost b = r0.nodes@.len() as nat;
        let ghost mut rounds: nat = 0;
        loop
            invariant
                self.wf(),
                r0 == *old(self),
                rounds_post(r0.nodes@, r0.sub_runtime, self.sub_runtime, rounds),
                b == r0.nodes@.len(),
                self.nodes == r0.nodes,
                self.sub_runtime.fns@ == r0.sub_runtime.fns@,
                same_shape(r0.sub_runtime.mem, self.sub_runtime.mem),
                self.sub_runtime.current_instant == r0.sub_runtime.current_instant,
                self.sub_runtime.steps >= r0.sub_runtime.steps,
                r0.closed() ==> self.closed(),
            ensures
                self.sub_runtime.tasks.current@.len() == 0 || self.sub_runtime.steps == usize::MAX,
            decreases usize::MAX - self.sub_runtime.steps,
        {
            if self.sub_runtime.tasks.current.len() == 0 || self.sub_runtime.steps == usize::MAX {
                break;
            }
            let ghost steps0 = self.sub_runtime.steps;
            let ghost sm0 = self.sub_runtime;
            let v = take(&mut self.sub_runtime.tasks.current);
            let ghost sb0 = self.sub_runtime;
            proof {
                assert(taken(sm0, sb0));
                assert(batch_post(r0.nodes@, sb0, v@.take(0), sb0));
            }
            proof {
                if r0.closed() {
                    assert(seq_below(v@, b));
                    assert(ids_below(self.sub_runtime, b));
                }
            }
            let mut k: usize = 0;
            while k < v.len()
                invariant
                    self.wf(),
                    r0 == *old(self),
                    b == r0.nodes@.len(),
                    self.nodes == r0.nodes,
                    self.sub_runtime.fns@ == r0.sub_runtime.fns@,
                    same_shape(r0.sub_runtime.mem, self.sub_runtime.mem),
                    self.sub_runtime.current_instant == r0.sub_runtime.current_instant,
                    self.sub_runtime.steps >= steps0,
                    steps0 >= r0.sub_runtime.steps,
                    steps0 < usize::MAX,
                    v@.len() > 0,
                    k > 0 ==> self.sub_runtime.steps > steps0,
                    r0.closed() ==> self.closed() && seq_below(v@, b),
                    k <= v@.len(),
                    rounds_post(r0.nodes@, r0.sub_runtime, sm0, rounds),
                    sm0.tasks.current@ == v@,
                    sm0.steps == steps0,
                    taken(sm0, sb0),
                    batch_post(r0.nodes@, sb0, v@.take(k as int), self.sub_runtime),
                decreases v.len() - k,
            {
                let ghost bk = self.sub_runtime;
                if self.sub_runtime.steps < usize::MAX {
                    let ghost before = self.sub_runtime;
                    self.sub_runtime.steps = self.sub_runtime.steps + 1;
                    let ghost s1 = self.sub_runtime;
                    proof {
                        if r0.closed() {
                            assert(ids_below(before, b));
                            assert(ids_below(s1, b));
                        }
                    }
                    let id = v[k];
                    if id < self.nodes.len() {
                        let rv = self.nodes[id].call(&mut self.sub_runtime, Value::Unit);
                        proof {
                            if r0.closed() {
                                assert(self.nodes@[id as int].targets_ok(b));
                                assert(ids_below(self.sub_runtime, b));
                            }
                            assert(midpoint(self.sub_runtime, rv));
                        }
                    }
                }
                proof {
                    assert(task_post(r0.nodes@, bk, v@[k as int], self.sub_runtime));
                    assert(v@.take(k + 1).drop_last() =~= v@.take(k as int));
                    assert(midpoint(bk, Value::Unit));
                }
                k = k + 1;
            }
            proof {
                assert(v@.take(v@.len() as int) =~= v@);
                assert(midpoint(sm0, Value::Unit));
                assert(midpoint(sb0, Value::Unit));
                rounds = rounds + 1;
            }
        }
        let ghost sa = self.sub_runtime;
        let ghost before_swap = self.sub_runtime;
        self.sub_runtime.tasks.current = take(&mut self.sub_runtime.tasks.next);
        let eois = take(&mut self.sub_runtime.eoi.pending);
        let ghost sc = self.sub_runtime;
        proof {
            assert(turned(sa, sc));
            assert(ends_post(sc, eois@.take(0), sc));
            if r0.closed() {
                assert(ids_below(before_swap, b));
                assert(seq_below(self.sub_runtime.tasks.next@, b));
                assert(ids_below(self.sub_runtime, b));
            }
        }
        let mut k: usize = 0;
        while k < eois.len()
            invariant
                self.wf(),
                r0 == *old(self),
                b == r0.nodes@.len(),
                self.nodes == r0.nodes,
                self.sub_runtime.fns@ == r0.sub_runtime.fns@,
                same_shape(r0.sub_runtime.mem, self.sub_runtime.mem),
                self.sub_runtime.current_instant == r0.sub_runtime.current_instant,
                self.sub_runtime.steps >= r0.sub_runtime.steps,
                self.sub_runtime.tasks.next@ == Seq::<usize>::empty(),
                self.sub_runtime.eoi.pending@ == Seq::<usize>::empty(),
                r0.closed() ==> self.closed(),
                k <= eois@.len(),
                ends_post(sc, eois@.take(k as int), self.sub_runtime),
            decreases eois.len() - k,
        {
            let sr = SignalRuntimeRef { id: eois[k] };
            let ghost before = self.sub_runtime;
            sr.on_end_of_instant(&mut self.sub_runtime);
            proof {
                if r0.closed() {
                    assert(ids_below(before, b));
                    lemma_sub_ids(before, self.sub_runtime, sr.id, 0, 0, Value::Unit, b);
                }
                assert(eois@.take(k + 1).drop_last() =~= eois@.take(k as int));
                assert(midpoint(before, Value::Unit));
            }
            k = k + 1;
        }
        let ghost before_end = self.sub_runtime;
        proof {
            assert(eois@.take(eois@.len() as int) =~= eois@);
            assert(turns(rounds));
            assert(midpoint(sa, Value::Unit));
            assert(midpoint(sc, Value::Unit));
            assert(midpoint(before_end, Value::Unit));
        }
        self.sub_runtime.current_instant = self.sub_runtime.current_instant + 1;
        proof {
            if r0.closed() {
                assert(ids_below(before_end, b));
                assert(ids_below(self.sub_runtime, b));
            }
        }
        self.sub_runtime.tasks.current.len() > 0 || self.sub_runtime.eoi.pending.len() > 0
    }

    /// Executes instants until the process ends (or the instant id reaches
    /// `usize::MAX`).
    pub fn execute(&mut self)
        requires
            old(self).wf(),
        ensures
            final(self).wf(),
            old(self).closed() ==> final(self).closed(),
            final(self).nodes == old(self).nodes,
            final(self).sub_runtime.current_instant > old(self).sub_runtime.current_instant
                || old(self).sub_runtime.current_instant == usize::MAX,
            final(self).sub_runtime.current_instant < usize::MAX ==> !final(self).pending(),
            instants_post(old(self).nodes@, old(self).sub_runtime, final(self).sub_runtime,
                (final(self).sub_runtime.current_instant - old(self).sub_runtime.current_instant) as nat),
    {
        loop
            invariant
                self.wf(),
                old(self).closed() ==> self.closed(),
                self.nodes == old(self).nodes,
                self.sub_runtime.current_instant >= old(self).sub_runtime.current_instant,
                instants_post(old(self).nodes@, old(self).sub_runtime, self.sub_runtime,
                    (self.sub_runtime.current_instant - old(self).sub_runtime.current_instant) as nat),
            decreases usize::MAX - self.sub_runtime.current_instant,
        {
            if self.sub_runtime.current_instant == usize::MAX {
                return;
            }
            let ghost before = self.sub_runtime;
            let go_on = self.instant();
            proof { assert(midpoint(before, Value::Unit)); }
            if !go_on {
                return;
            }
        }
    }

    /// Executes `n` instants, or fewer if the process ends before; returns
    /// whether the process should continue.
    pub fn instantn(&mut self, n: usize) -> (r: bool)
        requires
            old(self).wf(),
        ensures
            final(self).wf(),
            old(self).closed() ==> final(self).closed(),
            final(self).nodes == old(self).nodes,
            final(self).sub_runtime.current_instant <= old(self).sub_runtime.current_instant + n,
            r ==> final(self).sub_runtime.current_instant == old(self).sub_runtime.current_instant + n,
            r ==> n == 0 || final(self).pending(),
            instants_post(old(self).nodes@, old(self).sub_runtime, final(self).sub_runtime,
                (final(self).sub_runtime.current_instant - old(self).sub_runtime.current_instant) as nat),
            instantn_post(old(self).nodes@, old(self).sub_runtime, final(self).sub_runtime, n as nat, r),
    {
        let mut i: usize = 0;
        while i < n
            invariant
                self.wf(),
                old(self).closed() ==> self.closed(),
                i <= n,
                self.nodes == old(self).nodes,
                self.sub_runtime.current_instant == old(self).sub_runtime.current_instant + i,
                i > 0 ==> self.pending(),
                instants_post(old(self).nodes@, old(self).sub_runtime, self.sub_runtime, i as nat),
                live_instants(old(self).nodes@, old(self).sub_runtime, self.sub_runtime, i as nat),
            decreases n - i,
        {
            if self.sub_runtime.current_instant == usize::MAX {
                return false;
            }
            let ghost before = self.sub_runtime;
            let go_on = self.instant();
            proof {
                assert(midpoint(before, Value::Unit));
                assert(instants_post(old(self).nodes@, old(self).sub_runtime, self.sub_runtime, (i + 1) as nat));
            }
            if !go_on {
                return false;
            }
            proof {
                assert(live_instants(old(self).nodes@, old(self).sub_runtime, self.sub_runtime, (i + 1) as nat));
            }
            i = i + 1;
        }
        true
    }
}

impl<F> Runtime<F> {
    /// Whether the runtime can be drawn (see `print_dot`): the keys of its
    /// cells and join points, and the count of its elementary nodes, fit in
    /// a `usize`.
    pub fn printable(&self) -> (r: bool)
        ensures
            r == (total_leaves(self.nodes@) <= usize::MAX),
    {
        let mut total: usize = 0;
        let mut i: usize = 0;
        while i < self.nodes.len()
            invariant
                i <= self.nodes@.len(),
                total == total_leaves(self.nodes@.take(i as int)),
            decreases self.nodes@.len() - i,
        {
            proof {
                assert(self.nodes@.take(i + 1).drop_last() =~= self.nodes@.take(i as int));
                lemma_total_leaves_prefix(self.nodes@, i + 1);
            }
            match self.nodes[i].leaves_count() {
                Some(c) => {
                    match total.checked_add(c) {
                        Some(t) => {
                            total = t;
                        },
                        None => {
                            return false;
                        },
                    }
                },
                None => {
                    proof { lemma_draw_nodes_bounds(self.nodes@.take(i as int), CFGDrawer::new_state()); }
                    return false;
                },
            }
            i = i + 1;
        }
        proof { assert(self.nodes@.take(self.nodes@.len() as int) =~= self.nodes@); }
        true
    }

    /// The drawing of the control-flow graph of the runtime, node by node
    /// (see `CFGDrawer::print_node`), from a fresh drawer.
    pub fn print_dot(&self) -> (r: Vec<NodeDrawing>)
        requires
            total_leaves(self.nodes@) <= usize::MAX,
        ensures
            r@.len() == self.nodes@.len(),
            forall|i: int| 0 <= i < r@.len() ==> {
                let d = draw_nodes(self.nodes@, CFGDrawer::new_state()).0[i];
                &&& (#[trigger] r@[i]).node == i
                &&& r@[i].label@ == d.0
                &&& r@[i].arrows@ == d.1
            },
    {
        let mut cfgd = CFGDrawer::new();
        let mut out: Vec<NodeDrawing> = Vec::new();
        let ghost st0 = cfgd.state();
        let mut i: usize = 0;
        while i < self.nodes.len()
            invariant
                i <= self.nodes@.len(),
                st0 == CFGDrawer::new_state(),
                total_leaves(self.nodes@) <= usize::MAX,
                cfgd.wf(),
                cfgd.state() == draw_nodes(self.nodes@.take(i as int), st0).1,
                out@.len() == i,
                forall|j: int| 0 <= j < i ==> {
                    let d = draw_nodes(self.nodes@.take(i as int), st0).0[j];
                    &&& (#[trigger] out@[j]).node == j
                    &&& out@[j].label@ == d.0
                    &&& out@[j].arrows@ == d.1
                },
            decreases self.nodes@.len() - i,
        {
            let ghost pre = self.nodes@.take(i as int);
            let ghost next = self.nodes@.take(i + 1);
            proof {
                assert(next.drop_last() =~= pre);
                assert(next.last() == self.nodes@[i as int]);
                lemma_total_leaves_prefix(self.nodes@, i + 1);
                lemma_draw_nodes_bounds(pre, st0);
                assert(total_leaves(next) == total_leaves(pre) + self.nodes@[i as int].leaves());
            }
            let (label, arrows) = cfgd.print_node(i, &self.nodes[i]);
            proof {
                lemma_draw_nodes_prefix(pre, next, st0);
            }
            out.push(NodeDrawing { node: i, label, arrows });
            i = i + 1;
        }
        proof { assert(self.nodes@.take(self.nodes@.len() as int) =~= self.nodes@); }
        out
    }
}

/// The elementary nodes of a prefix are at most those of the whole.
proof fn lemma_total_leaves_prefix(ns: Seq<Node>, k: int)
    requires
        0 <= k <= ns.len(),
    ensures
        total_leaves(ns.take(k)) <= total_leaves(ns),
    decreases ns.len(),
{
    if k < ns.len() {
        assert(ns.drop_last().take(k) =~= ns.take(k));
        lemma_total_leaves_prefix(ns.drop_last(), k);
    } else {
        assert(ns.take(k) =~= ns);
    }
}

/// Drawing one more node keeps the drawings of the nodes before it.
proof fn lemma_draw_nodes_prefix(pre: Seq<Node>, next: Seq<Node>, st: DrawState)
    requires
        next.len() == pre.len() + 1,
        next.drop_last() == pre,
    ensures
        forall|j: int| 0 <= j < pre.len() ==> #[trigger] draw_nodes(next, st).0[j] == draw_nodes(pre, st).0[j],
{
    lemma_draw_nodes_bounds(pre, st);
}

} // verus!
