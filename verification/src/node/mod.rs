//! Nodes: the pieces of reactive code a process compiles to.
//!
//! A node is called with an input value and returns an output value; a call
//! is always instantaneous and sequential. A non-immediate process compiles
//! to several nodes: the ones that form the control-flow graph ("main nodes")
//! take and return `Unit`, and schedule each other through the runtime.
//! Nodes keep no state of their own: what must survive a call lives in the
//! memory of the runtime (cells, join points, signals).

pub mod control;
pub mod mem_manip;
pub mod par;
pub mod signal;
pub mod sig_control;
pub mod dot;

use vstd::prelude::*;
use std::collections::HashMap;
use crate::value::{Value, ChoiceData, as_choice, fst, snd};
use crate::engine::{SubRuntime, Memory, same_shape, ids_below};
use crate::node::control::{NJump, NPause, NChoice, LoopIm};
use crate::node::mem_manip::{RCell, NStore, NLoad, NLoadCopy};
use crate::node::par::{Ignore, GenP, Ignore1, Ignore2, NPar, NSetVar1, NSetVar2, NMerge, NBigPar, NBigMerge};
use crate::node::signal::{NEmitD, NEmitS, NEmitVecS, NEmitVS, NEmitVVecS, NGetD, NGetS, NGetSIn, NAwaitD,
    NAwaitS, NAwaitImmediateD, NAwaitImmediateS, NPresentD, NPresentS};
use crate::node::sig_control::{ControlNode, ControlSignal, first_block};
use crate::signal::awaited_immediately;
use crate::node::dot::{take_ptr, take_internal, with_arrow, indices_ok, law_take_ptr, Shared};

verus! {

/// What a node call may change in a sub-runtime: tasks, end-of-instant
/// list, the content of the memory and the step count (which only grows).
pub open spec fn call_frame<F>(s0: SubRuntime<F>, s1: SubRuntime<F>) -> bool {
    &&& s1.fns@ == s0.fns@
    &&& same_shape(s0.mem, s1.mem)
    &&& s1.current_instant == s0.current_instant
    &&& s1.steps >= s0.steps
}

/// A call of the node `n` that takes the sub-runtime from `s0` to `s1`
/// keeps every node id it holds below any bound the targets of `n` are
/// below: a node only schedules its own targets and the nodes that were
/// already waiting.
pub open spec fn keeps_ids<F>(n: Node, s0: SubRuntime<F>, s1: SubRuntime<F>) -> bool {
    forall|b: nat| n.targets_ok(b) && #[trigger] ids_below(s0, b) ==> ids_below(s1, b)
}

/// A trigger marker, always true: it names an intermediate sub-runtime and
/// value of a call (the states between the parts of a composite node) in
/// the existential quantifiers of `call_post` and the runtime's contracts.
/// Those quantifiers sit inside recursive spec functions, whose recursive
/// calls cannot serve as triggers; a proof that provides a witness asserts
/// the marker on it.
pub open spec fn midpoint<F>(s: SubRuntime<F>, v: Value) -> bool {
    true
}

/// A trigger marker, always true, for the number of turns of a loop in
/// `call_post` (see `midpoint`).
pub open spec fn turns(k: nat) -> bool {
    true
}

/// What a call of the node `n` does, from the sub-runtime `s0` and the
/// input `v` to the sub-runtime `s1` and the result `r`: for an elementary
/// node, what its own `post` says; a sequence passes the result of its
/// first node to the second one, a choice runs the branch its input
/// selects, a parallel node runs its first node on the first component of
/// its input then its second node on the second one, a loop runs its body
/// until it returns `False` (see `loop_post`), and a controlled node runs
/// its inner node when no control blocks.
pub open spec fn call_post<F: FnMut(Value) -> Value>(n: Node, s0: SubRuntime<F>, v: Value, s1: SubRuntime<F>, r: Value) -> bool
    decreases n, 0nat,
{
    match n {
        Node::NSeq(x) => exists|sm: SubRuntime<F>, vm: Value|
            #[trigger] midpoint(sm, vm) && call_post(*x.n1, s0, v, sm, vm) && call_post(*x.n2, sm, vm, s1, r),
        Node::NChoice(x) => match as_choice(v) {
            ChoiceData::True(t) => call_post(*x.nt, s0, t, s1, r),
            ChoiceData::False(f) => call_post(*x.nf, s0, f, s1, r),
        },
        Node::NPar(x) => exists|sm: SubRuntime<F>, r1: Value, r2: Value|
            #![trigger midpoint(sm, r1), midpoint(sm, r2)]
            call_post(*x.n1, s0, fst(v), sm, r1) && call_post(*x.n2, sm, snd(v), s1, r2)
            && r == Value::Pair(Box::new(r1), Box::new(r2)),
        Node::LoopIm(x) => exists|k: nat| #[trigger] turns(k) && loop_post(*x.0, s0, v, s1, r, k),
        Node::ControlNode(x) => {
            let cs = x.control_sig@;
            let k = first_block(cs, s0);
            if k < cs.len() {
                &&& r == Value::Unit
                &&& match cs[k] {
                    ControlSignal::DoWhen(sig) => awaited_immediately(sig.id, x.id, s0, s1),
                    ControlSignal::DoUntil(_) => s1 == s0,
                }
            } else {
                call_post(*x.node, s0, Value::Unit, s1, r)
            }
        },
        Node::Nothing(x) => x.post(s0, v, s1, r),
        Node::NIdentity(x) => x.post(s0, v, s1, r),
        Node::NValue(x) => x.post(s0, v, s1, r),
        Node::NFnMut(x) => x.post(s0, v, s1, r),
        Node::NFnOnce(x) => x.post(s0, v, s1, r),
        Node::NEnd(x) => x.post(s0, v, s1, r),
        Node::NJump(x) => x.post(s0, v, s1, r),
        Node::NPause(x) => x.post(s0, v, s1, r),
        Node::NStore(x) => x.post(s0, v, s1, r),
        Node::NLoad(x) => x.post(s0, v, s1, r),
        Node::NLoadCopy(x) => x.post(s0, v, s1, r),
        Node::Ignore(x) => x.post(s0, v, s1, r),
        Node::GenP(x) => x.post(s0, v, s1, r),
        Node::Ignore1(x) => x.post(s0, v, s1, r),
        Node::Ignore2(x) => x.post(s0, v, s1, r),
        Node::NSetVar1(x) => x.post(s0, v, s1, r),
        Node::NSetVar2(x) => x.post(s0, v, s1, r),
        Node::NMerge(x) => x.post(s0, v, s1, r),
        Node::NBigPar(x) => x.post(s0, v, s1, r),
        Node::NBigMerge(x) => x.post(s0, v, s1, r),
        Node::NEmitD(x) => x.post(s0, v, s1, r),
        Node::NEmitS(x) => x.post(s0, v, s1, r),
        Node::NEmitVecS(x) => x.post(s0, v, s1, r),
        Node::NEmitVS(x) => x.post(s0, v, s1, r),
        Node::NEmitVVecS(x) => x.post(s0, v, s1, r),
        Node::NGetD(x) => x.post(s0, v, s1, r),
        Node::NGetS(x) => x.post(s0, v, s1, r),
        Node::NGetSIn(x) => x.post(s0, v, s1, r),
        Node::NAwaitD(x) => x.post(s0, v, s1, r),
        Node::NAwaitS(x) => x.post(s0, v, s1, r),
        Node::NAwaitImmediateD(x) => x.post(s0, v, s1, r),
        Node::NAwaitImmediateS(x) => x.post(s0, v, s1, r),
        Node::NPresentD(x) => x.post(s0, v, s1, r),
        Node::NPresentS(x) => x.post(s0, v, s1, r),
    }
}

/// The sub-runtime `s` with one more step counted.
pub open spec fn stepped<F>(s: SubRuntime<F>) -> SubRuntime<F> {
    SubRuntime { steps: (s.steps + 1) as usize, ..s }
}

/// What a loop of body `body` does in `k` turns, from the sub-runtime `s0`
/// and the input `v` to `s1` and the result `r`: each turn counts a step
/// and runs the body; `True(y)` starts a new turn with `y`, `False(x)` ends
/// the loop with `x`. When the step counter is saturated, the loop ends at
/// once with its input.
pub open spec fn loop_post<F: FnMut(Value) -> Value>(body: Node, s0: SubRuntime<F>, v: Value, s1: SubRuntime<F>, r: Value, k: nat) -> bool
    decreases body, k + 1,
{
    if s0.steps == usize::MAX {
        k == 0 && s1 == s0 && r == v
    } else if k == 0 {
        false
    } else {
        exists|sm: SubRuntime<F>, o: Value| #[trigger] midpoint(sm, o) && call_post(body, stepped(s0), v, sm, o) && match as_choice(o) {
            ChoiceData::True(t) => loop_post(body, sm, t, s1, r, (k - 1) as nat),
            ChoiceData::False(f) => k == 1 && s1 == sm && r == f,
        }
    }
}

/// `k` turns of a loop of body `body` that all returned `True`, from the
/// sub-runtime `s0` and the input `v0` to the sub-runtime `s` and the input
/// `v` of the next turn.
pub open spec fn loop_prefix<F: FnMut(Value) -> Value>(body: Node, s0: SubRuntime<F>, v0: Value, s: SubRuntime<F>, v: Value, k: nat) -> bool
    decreases k,
{
    if k == 0 {
        s == s0 && v == v0
    } else {
        &&& s0.steps < usize::MAX
        &&& exists|sm: SubRuntime<F>, o: Value| #[trigger] midpoint(sm, o) && call_post(body, stepped(s0), v0, sm, o) && match as_choice(o) {
            ChoiceData::True(t) => loop_prefix(body, sm, t, s, v, (k - 1) as nat),
            ChoiceData::False(_) => false,
        }
    }
}

/// A prefix of turns followed by the end of the loop is a run of the loop.
pub proof fn lemma_loop_compose<F: FnMut(Value) -> Value>(body: Node, s0: SubRuntime<F>, v0: Value, s: SubRuntime<F>,
    v: Value, s1: SubRuntime<F>, r: Value, k: nat, j: nat)
    requires
        loop_prefix(body, s0, v0, s, v, k),
        loop_post(body, s, v, s1, r, j),
    ensures
        loop_post(body, s0, v0, s1, r, k + j),
    decreases k,
{
    if k == 0 {
        assert(k + j == j);
    } else {
        let (sm, o) = choose|sm: SubRuntime<F>, o: Value| #[trigger] midpoint(sm, o) && call_post(body, stepped(s0), v0, sm, o) && match as_choice(o) {
            ChoiceData::True(t) => loop_prefix(body, sm, t, s, v, (k - 1) as nat),
            ChoiceData::False(_) => false,
        };
        match as_choice(o) {
            ChoiceData::True(t) => {
                lemma_loop_compose(body, sm, t, s, v, s1, r, (k - 1) as nat, j);
                let n = k + j;
                assert(((k - 1) as nat + j) == (n - 1) as nat);
                assert(midpoint(sm, o));
            },
            ChoiceData::False(_) => {},
        }
    }
}

/// One more turn that returned `True` extends a prefix of turns.
pub proof fn lemma_loop_extend<F: FnMut(Value) -> Value>(body: Node, s0: SubRuntime<F>, v0: Value, s: SubRuntime<F>,
    v: Value, s2: SubRuntime<F>, o: Value, k: nat)
    requires
        loop_prefix(body, s0, v0, s, v, k),
        s.steps < usize::MAX,
        call_post(body, stepped(s), v, s2, o),
        as_choice(o) is True,
    ensures
        loop_prefix(body, s0, v0, s2, as_choice(o)->True_0, k + 1),
    decreases k,
{
    if k == 0 {
        assert(loop_prefix(body, s2, as_choice(o)->True_0, s2, as_choice(o)->True_0, 0));
        assert(midpoint(s2, o));
    } else {
        let (sm, om) = choose|sm: SubRuntime<F>, om: Value| #[trigger] midpoint(sm, om) && call_post(body, stepped(s0), v0, sm, om) && match as_choice(om) {
            ChoiceData::True(t) => loop_prefix(body, sm, t, s, v, (k - 1) as nat),
            ChoiceData::False(_) => false,
        };
        match as_choice(om) {
            ChoiceData::True(t) => {
                lemma_loop_extend(body, sm, t, s, v, s2, o, (k - 1) as nat);
                assert(midpoint(sm, om));
            },
            ChoiceData::False(_) => {},
        }
    }
}

/// A node of a compiled process.
pub enum Node {
    Nothing(Nothing),
    NIdentity(NIdentity),
    NValue(NValue),
    NFnMut(NFnMut),
    NFnOnce(NFnOnce),
    NSeq(NSeq),
    NEnd(NEnd),
    NJump(NJump),
    NPause(NPause),
    NChoice(NChoice),
    LoopIm(LoopIm),
    NStore(NStore),
    NLoad(NLoad),
    NLoadCopy(NLoadCopy),
    Ignore(Ignore),
    GenP(GenP),
    Ignore1(Ignore1),
    Ignore2(Ignore2),
    NPar(NPar),
    NSetVar1(NSetVar1),
    NSetVar2(NSetVar2),
    NMerge(NMerge),
    NBigPar(NBigPar),
    NBigMerge(NBigMerge),
    NEmitD(NEmitD),
    NEmitS(NEmitS),
    NEmitVecS(NEmitVecS),
    NEmitVS(NEmitVS),
    NEmitVVecS(NEmitVVecS),
    NGetD(NGetD),
    NGetS(NGetS),
    NGetSIn(NGetSIn),
    NAwaitD(NAwaitD),
    NAwaitS(NAwaitS),
    NAwaitImmediateD(NAwaitImmediateD),
    NAwaitImmediateS(NAwaitImmediateS),
    NPresentD(NPresentD),
    NPresentS(NPresentS),
    ControlNode(ControlNode),
}

impl Node {
    /// Every node id this node may schedule is below `b`.
    pub open spec fn targets_ok(self, b: nat) -> bool
        decreases self,
    {
        match self {
            Node::NSeq(n) => n.n1.targets_ok(b) && n.n2.targets_ok(b),
            Node::NChoice(n) => n.nt.targets_ok(b) && n.nf.targets_ok(b),
            Node::LoopIm(n) => n.0.targets_ok(b),
            Node::NPar(n) => n.n1.targets_ok(b) && n.n2.targets_ok(b),
            Node::NJump(n) => n.dest < b,
            Node::NPause(n) => n.dest < b,
            Node::NSetVar1(n) => n.dest < b,
            Node::NSetVar2(n) => n.dest < b,
            Node::NBigPar(n) => forall|i: int| 0 <= i < n.dests@.len() ==> #[trigger] n.dests@[i] < b,
            Node::NAwaitD(n) => n.0 < b,
            Node::NAwaitS(n) => n.1 < b,
            Node::NAwaitImmediateD(n) => n.0 < b,
            Node::NAwaitImmediateS(n) => n.1 < b,
            Node::NPresentD(n) => n.node_true < b && n.node_false < b,
            Node::NPresentS(n) => n.node_true < b && n.node_false < b,
            Node::ControlNode(n) => n.id < b && n.node.targets_ok(b),
            _ => true,
        }
    }

    /// Calls the node on `val`.
    pub fn call<F: FnMut(Value) -> Value>(&self, sub: &mut SubRuntime<F>, val: Value) -> (r: Value)
        requires
            old(sub).wf(),
        ensures
            call_frame(*old(sub), *final(sub)),
            keeps_ids(*self, *old(sub), *final(sub)),
            call_post(*self, *old(sub), val, *final(sub), r),
        decreases self,
    {
        match self {
            Node::Nothing(n) => n.call(val),
            Node::NIdentity(n) => n.call(val),
            Node::NValue(n) => n.call(val),
            Node::NFnMut(n) => n.call(sub, val),
            Node::NFnOnce(n) => n.call(sub, val),
            Node::NSeq(n) => n.call(sub, val),
            Node::NEnd(n) => n.call(sub, val),
            Node::NJump(n) => n.call(sub, val),
            Node::NPause(n) => n.call(sub, val),
            Node::NChoice(n) => n.call(sub, val),
            Node::LoopIm(n) => n.call(sub, val),
            Node::NStore(n) => n.call(sub, val),
            Node::NLoad(n) => n.call(sub, val),
            Node::NLoadCopy(n) => n.call(sub, val),
            Node::Ignore(n) => n.call(val),
            Node::GenP(n) => n.call(val),
            Node::Ignore1(n) => n.call(val),
            Node::Ignore2(n) => n.call(val),
            Node::NPar(n) => n.call(sub, val),
            Node::NSetVar1(n) => n.call(sub, val),
            Node::NSetVar2(n) => n.call(sub, val),
            Node::NMerge(n) => n.call(sub, val),
            Node::NBigPar(n) => n.call(sub, val),
            Node::NBigMerge(n) => n.call(sub, val),
            Node::NEmitD(n) => n.call(sub, val),
            Node::NEmitS(n) => n.call(sub, val),
            Node::NEmitVecS(n) => n.call(sub, val),
            Node::NEmitVS(n) => n.call(sub, val),
            Node::NEmitVVecS(n) => n.call(sub, val),
            Node::NGetD(n) => n.call(sub, val),
            Node::NGetS(n) => n.call(sub, val),
            Node::NGetSIn(n) => n.call(sub, val),
            Node::NAwaitD(n) => n.call(sub, val),
            Node::NAwaitS(n) => n.call(sub, val),
            Node::NAwaitImmediateD(n) => n.call(sub, val),
            Node::NAwaitImmediateS(n) => n.call(sub, val),
            Node::NPresentD(n) => n.call(sub, val),
            Node::NPresentS(n) => n.call(sub, val),
            Node::ControlNode(n) => n.call(sub, val),
        }
    }

    /// Returns a node that runs `self`, then `n2` on the output of `self`.
    pub fn nseq(self, n2: Node) -> (r: Node)
        ensures
            r == Node::NSeq(NSeq { n1: Box::new(self), n2: Box::new(n2) }),
            forall|b: nat| #[trigger] r.targets_ok(b) == (self.targets_ok(b) && n2.targets_ok(b)),
    {
        Node::NSeq(NSeq { n1: Box::new(self), n2: Box::new(n2) })
    }

    /// Returns a node that runs `self` or `nf`, depending on its input.
    pub fn alter(self, nf: Node) -> (r: Node)
        ensures
            r == Node::NChoice(NChoice { nt: Box::new(self), nf: Box::new(nf) }),
            forall|b: nat| #[trigger] r.targets_ok(b) == (self.targets_ok(b) && nf.targets_ok(b)),
    {
        Node::NChoice(NChoice { nt: Box::new(self), nf: Box::new(nf) })
    }

    /// Returns a node that runs `self` on the first component of its input
    /// pair, then `n2` on the second one, and returns the pair of results.
    pub fn njoin(self, n2: Node) -> (r: Node)
        ensures
            r == Node::NPar(NPar { n1: Box::new(self), n2: Box::new(n2) }),
            forall|b: nat| #[trigger] r.targets_ok(b) == (self.targets_ok(b) && n2.targets_ok(b)),
    {
        Node::NPar(NPar { n1: Box::new(self), n2: Box::new(n2) })
    }
}

impl Node {
    /// Whether every node id this node may schedule is below `b`.
    pub fn targets_below(&self, b: usize) -> (r: bool)
        ensures
            r == self.targets_ok(b as nat),
        decreases self,
    {
        match self {
            Node::NSeq(n) => n.n1.targets_below(b) && n.n2.targets_below(b),
            Node::NChoice(n) => n.nt.targets_below(b) && n.nf.targets_below(b),
            Node::LoopIm(n) => n.0.targets_below(b),
            Node::NPar(n) => n.n1.targets_below(b) && n.n2.targets_below(b),
            Node::NJump(n) => n.dest < b,
            Node::NPause(n) => n.dest < b,
            Node::NSetVar1(n) => n.dest < b,
            Node::NSetVar2(n) => n.dest < b,
            Node::NBigPar(n) => all_below(&n.dests, b),
            Node::NAwaitD(n) => n.0 < b,
            Node::NAwaitS(n) => n.1 < b,
            Node::NAwaitImmediateD(n) => n.0 < b,
            Node::NAwaitImmediateS(n) => n.1 < b,
            Node::NPresentD(n) => n.node_true < b && n.node_false < b,
            Node::NPresentS(n) => n.node_true < b && n.node_false < b,
            Node::ControlNode(n) => n.id < b && n.node.targets_below(b),
            _ => true,
        }
    }
}

/// Whether every id of `ids` is below `b`.
pub fn all_below(ids: &Vec<usize>, b: usize) -> (r: bool)
    ensures
        r == (forall|i: int| 0 <= i < ids@.len() ==> #[trigger] ids@[i] < b),
{
    let mut i: usize = 0;
    while i < ids.len()
        invariant
            i <= ids@.len(),
            forall|j: int| 0 <= j < i ==> #[trigger] ids@[j] < b,
        decreases ids.len() - i,
    {
        if ids[i] >= b {
            return false;
        }
        i = i + 1;
    }
    true
}

/// A bound on the targets of a node stays a bound when it grows.
pub proof fn lemma_targets_mono(n: Node, b0: nat, b1: nat)
    requires
        n.targets_ok(b0),
        b0 <= b1,
    ensures
        n.targets_ok(b1),
    decreases n,
{
    match n {
        Node::NSeq(s) => {
            lemma_targets_mono(*s.n1, b0, b1);
            lemma_targets_mono(*s.n2, b0, b1);
        },
        Node::NChoice(c) => {
            lemma_targets_mono(*c.nt, b0, b1);
            lemma_targets_mono(*c.nf, b0, b1);
        },
        Node::LoopIm(l) => {
            lemma_targets_mono(*l.0, b0, b1);
        },
        Node::NPar(p) => {
            lemma_targets_mono(*p.n1, b0, b1);
            lemma_targets_mono(*p.n2, b0, b1);
        },
        Node::ControlNode(c) => {
            lemma_targets_mono(*c.node, b0, b1);
        },
        _ => {},
    }
}

/// Node that does nothing. Signature: `() -> ()`.
pub struct Nothing {}

impl Nothing {
    /// What a call of the node does, from the sub-runtime `s0` and the
    /// input `v` to the sub-runtime `s1` and the result `r`.
    pub open spec fn post<F: FnMut(Value) -> Value>(&self, s0: SubRuntime<F>, v: Value, s1: SubRuntime<F>, r: Value) -> bool {
        &&& r == Value::Unit
        &&& s1 == s0
    }

    pub fn call(&self, val: Value) -> (r: Value)
        ensures
            r == Value::Unit,
    {
        Value::Unit
    }
}

/// Node that passes its input value intact. Signature: `I -> I`.
pub struct NIdentity {}

impl NIdentity {
    /// What a call of the node does, from the sub-runtime `s0` and the
    /// input `v` to the sub-runtime `s1` and the result `r`.
    pub open spec fn post<F: FnMut(Value) -> Value>(&self, s0: SubRuntime<F>, v: Value, s1: SubRuntime<F>, r: Value) -> bool {
        &&& r == v
        &&& s1 == s0
    }

    pub fn call(&self, val: Value) -> (r: Value)
        ensures
            r == val,
    {
        val
    }
}

/// Node that returns a copy of a constant value. Signature: `() -> V`.
pub struct NValue(pub Value);

impl NValue {
    /// What a call of the node does, from the sub-runtime `s0` and the
    /// input `v` to the sub-runtime `s1` and the result `r`.
    pub open spec fn post<F: FnMut(Value) -> Value>(&self, s0: SubRuntime<F>, v: Value, s1: SubRuntime<F>, r: Value) -> bool {
        &&& crate::value::same_value(r, self.0)
        &&& s1 == s0
    }

    pub fn call(&self, val: Value) -> (r: Value)
        ensures
            crate::value::same_value(r, self.0),
    {
        self.0.duplicate()
    }
}

/// Node that calls the user function of index `self.0`.
/// Signature: `I -> O` when the function maps `I` to `O`.
pub struct NFnMut(pub usize);

impl NFnMut {
    /// What a call of the node does, from the sub-runtime `s0` and the
    /// input `v` to the sub-runtime `s1` and the result `r`.
    pub open spec fn post<F: FnMut(Value) -> Value>(&self, s0: SubRuntime<F>, v: Value, s1: SubRuntime<F>, r: Value) -> bool {
        &&& self.0 < s0.fns@.len() ==> call_ensures(s0.fns@[self.0 as int], (v,), r)
        &&& self.0 >= s0.fns@.len() ==> r == Value::Unit
        &&& s1 == (SubRuntime { fns: s1.fns, ..s0 })
        &&& s1.fns@ =~= s0.fns@
    }

    pub fn call<F: FnMut(Value) -> Value>(&self, sub: &mut SubRuntime<F>, val: Value) -> (r: Value)
        requires
            old(sub).wf(),
        ensures
            keeps_ids(Node::NFnMut(*self), *old(sub), *final(sub)),
            self.post(*old(sub), val, *final(sub), r),
    {
        if self.0 < sub.fns.len() {
            let i = self.0;
            (sub.fns[i])(val)
        } else {
            Value::Unit
        }
    }
}

/// Node that calls the user function of index `f` at most once: its first
/// call takes the token in cell `armed`; a later call finds the cell empty,
/// refuses (see `SubRuntime::refused`) and returns `Unit`.
pub struct NFnOnce {
    pub f: usize,
    pub armed: RCell,
}

impl NFnOnce {
    /// What a call of the node does, from the sub-runtime `s0` and the
    /// input `v` to the sub-runtime `s1` and the result `r`.
    pub open spec fn post<F: FnMut(Value) -> Value>(&self, s0: SubRuntime<F>, v: Value, s1: SubRuntime<F>, r: Value) -> bool {
        &&& ({
            let armed = self.armed.id < s0.mem.cells@.len()
                && s0.mem.cells@[self.armed.id as int] is Some;
            &&& armed && self.f < s0.fns@.len() ==> call_ensures(s0.fns@[self.f as int], (v,), r)
            &&& !(armed && self.f < s0.fns@.len()) ==> r == Value::Unit
            &&& armed ==> s1.mem.cells@ == s0.mem.cells@.update(self.armed.id as int, None)
            &&& !armed ==> s1.mem.cells == s0.mem.cells
            &&& s1 == (SubRuntime { mem: Memory { cells: s1.mem.cells, ..s0.mem }, fns: s1.fns, refused: s0.refused || !armed, ..s0 })
            &&& s1.fns@ == s0.fns@
        })
    }

    pub fn call<F: FnMut(Value) -> Value>(&self, sub: &mut SubRuntime<F>, val: Value) -> (r: Value)
        requires
            old(sub).wf(),
        ensures
            keeps_ids(Node::NFnOnce(*self), *old(sub), *final(sub)),
            call_frame(*old(sub), *final(sub)),
            self.post(*old(sub), val, *final(sub), r),
    {
        let armed = self.armed.id < sub.mem.cells.len() && sub.mem.cells[self.armed.id].is_some();
        if armed {
            sub.mem.cells.set(self.armed.id, None);
            NFnMut(self.f).call(sub, val)
        } else {
            sub.refuse();
            Value::Unit
        }
    }
}

/// Node that calls `n1` on its input, then `n2` on the output of `n1`.
/// Signature: `I -> O` when `n1: I -> M` and `n2: M -> O`.
pub struct NSeq {
    pub n1: Box<Node>,
    pub n2: Box<Node>,
}

impl NSeq {
    pub fn call<F: FnMut(Value) -> Value>(&self, sub: &mut SubRuntime<F>, val: Value) -> (r: Value)
        requires
            old(sub).wf(),
        ensures
            keeps_ids(Node::NSeq(*self), *old(sub), *final(sub)),
            call_frame(*old(sub), *final(sub)),
            call_post(Node::NSeq(*self), *old(sub), val, *final(sub), r),
        decreases self,
    {
        let ghost v0 = val;
        let valm = self.n1.call(sub, val);
        let ghost sm = *sub;
        let ghost vm = valm;
        let r = self.n2.call(sub, valm);
        proof {
            assert(midpoint(sm, vm));
        }
        r
    }
}

/// Node that signals to the runtime that the whole process has ended.
/// Signature: `() -> ()`.
pub struct NEnd {}

impl NEnd {
    /// What a call of the node does, from the sub-runtime `s0` and the
    /// input `v` to the sub-runtime `s1` and the result `r`.
    pub open spec fn post<F: FnMut(Value) -> Value>(&self, s0: SubRuntime<F>, v: Value, s1: SubRuntime<F>, r: Value) -> bool {
        &&& r == Value::Unit
        &&& s1 == s0
    }

    pub fn call<F: FnMut(Value) -> Value>(&self, sub: &mut SubRuntime<F>, val: Value) -> (r: Value)
        ensures
            keeps_ids(Node::NEnd(*self), *old(sub), *final(sub)),
            self.post(*old(sub), val, *final(sub), r),
    {
        sub.end();
        Value::Unit
    }
}

/// Structure that stores the information needed to draw node graphs: the
/// index given to each shared object, the current main node, the internal
/// node counter and the arrows of the current main node.
pub struct CFGDrawer {
    /// The indices given to cells, by cell id.
    pub map: HashMap<usize, usize>,
    /// The indices given to join points, by id.
    pub join_map: HashMap<usize, usize>,
    /// The indices given to many-branch join points, by id.
    pub big_join_map: HashMap<usize, usize>,
    pub ptr_ind: usize,
    pub node_ind: usize,
    pub internal_node_ind: usize,
    pub arrow: Vec<(usize, usize)>,
}

impl CFGDrawer {
    /// Every index given so far is below the next one to give, and distinct
    /// keys have distinct indices (see `indices_ok`).
    pub open spec fn wf(&self) -> bool {
        indices_ok(self.state())
    }

    pub fn new() -> (r: CFGDrawer)
        ensures
            r.wf(),
            r.state() == CFGDrawer::new_state(),
            r.node_ind == 0,
            r.ptr_ind == 0,
            r.node_ind == 0,
            r.internal_node_ind == 0,
            r.arrow@ == Seq::<(usize, usize)>::empty(),
    {
        let r = CFGDrawer {
            map: HashMap::new(),
            join_map: HashMap::new(),
            big_join_map: HashMap::new(),
            ptr_ind: 0,
            node_ind: 0,
            internal_node_ind: 0,
            arrow: Vec::new(),
        };
        proof {
            assert(r.state().map =~= Map::<(Shared, usize), usize>::empty());
            assert(r.arrow@ =~= Seq::<(usize, usize)>::empty());
        }
        r
    }

    /// Starts the drawing of the main node `node`.
    pub fn start_node(&mut self, node: usize)
        ensures
            *final(self) == (CFGDrawer { node_ind: node, ..*old(self) }),
    {
        self.node_ind = node;
    }

    /// Ends the drawing of a main node: returns its arrows and clears them.
    pub fn stop_node(&mut self) -> (r: Vec<(usize, usize)>)
        ensures
            r@ == old(self).arrow@,
            final(self).arrow@ == Seq::<(usize, usize)>::empty(),
            *final(self) == (CFGDrawer { arrow: final(self).arrow, ..*old(self) }),
    {
        let mut r: Vec<(usize, usize)> = Vec::new();
        std::mem::swap(&mut r, &mut self.arrow);
        r
    }

    /// The index of the shared object of kind `kind` and id `id`: the one
    /// given before, or the next fresh one.
    pub fn get_ind(&mut self, kind: Shared, id: usize) -> (r: usize)
        requires
            old(self).wf(),
            old(self).ptr_ind < usize::MAX,
        ensures
            final(self).wf(),
            (r, final(self).state()) == take_ptr(old(self).state(), (kind, id)),
            final(self).node_ind == old(self).node_ind,
            final(self).internal_node_ind == old(self).internal_node_ind,
            final(self).arrow == old(self).arrow,
    {
        broadcast use vstd::std_specs::hash::group_hash_axioms;
        proof { law_take_ptr(self.state(), (kind, id), (kind, id)); }
        let found: Option<usize> = match kind {
            Shared::Cell => match self.map.get(&id) {
                Some(i) => Some(*i),
                None => None,
            },
            Shared::Join => match self.join_map.get(&id) {
                Some(i) => Some(*i),
                None => None,
            },
            Shared::BigJoin => match self.big_join_map.get(&id) {
                Some(i) => Some(*i),
                None => None,
            },
        };
        match found {
            Some(ind) => {
                return ind;
            },
            None => {},
        }
        let ind = self.ptr_ind;
        self.ptr_ind = self.ptr_ind + 1;
        match kind {
            Shared::Cell => {
                self.map.insert(id, ind);
            },
            Shared::Join => {
                self.join_map.insert(id, ind);
            },
            Shared::BigJoin => {
                self.big_join_map.insert(id, ind);
            },
        }
        proof {
            assert(self.state().map =~= old(self).state().map.insert((kind, id), ind));
        }
        ind
    }

    /// The main node being drawn.
    pub fn get_node(&self) -> (r: usize)
        ensures
            r == self.node_ind,
    {
        self.node_ind
    }

    /// The next internal node index.
    pub fn get_node_ind(&mut self) -> (r: usize)
        requires
            old(self).internal_node_ind < usize::MAX,
        ensures
            r == old(self).internal_node_ind,
            *final(self) == (CFGDrawer { internal_node_ind: (r + 1) as usize, ..*old(self) }),
            (r, final(self).state()) == take_internal(old(self).state()),
    {
        let ind = self.internal_node_ind;
        self.internal_node_ind = self.internal_node_ind + 1;
        ind
    }

    /// Adds an arrow from the internal node `arr.0` of the current main node
    /// to the main node `arr.1`.
    pub fn add_arrow(&mut self, arr: (usize, usize))
        ensures
            final(self).arrow@ == old(self).arrow@.push(arr),
            *final(self) == (CFGDrawer { arrow: final(self).arrow, ..*old(self) }),
            final(self).state() == with_arrow(old(self).state(), arr),
    {
        self.arrow.push(arr);
    }
}

} // verus!


