//! Control nodes: jumps, pauses, choices and instantaneous loops.

use vstd::prelude::*;
use crate::value::{Value, ChoiceData, as_choice};
use crate::engine::{SubRuntime, Tasks, ids_below};
use crate::node::{Node, call_frame, keeps_ids, call_post, loop_post, loop_prefix, lemma_loop_compose, lemma_loop_extend, midpoint, turns, stepped};

verus! {

/// Node that schedules a main node for the current instant.
/// Signature: `() -> ()`.
pub struct NJump {
    /// The id of the main node this node points to.
    pub dest: usize,
}

/// Builds a node that jumps to `dest` when called.
pub fn njump(dest: usize) -> (r: NJump)
    ensures
        r.dest == dest,
{
    NJump { dest }
}

impl NJump {
    /// What a call of the node does, from the sub-runtime `s0` and the
    /// input `v` to the sub-runtime `s1` and the result `r`.
    pub open spec fn post<F: FnMut(Value) -> Value>(&self, s0: SubRuntime<F>, v: Value, s1: SubRuntime<F>, r: Value) -> bool {
        &&& r == Value::Unit
        &&& s1.tasks.current@ == s0.tasks.current@.push(self.dest)
        &&& s1 == (SubRuntime { tasks: Tasks { current: s1.tasks.current, ..s0.tasks }, ..s0 })
    }

    pub fn call<F: FnMut(Value) -> Value>(&self, sub: &mut SubRuntime<F>, val: Value) -> (r: Value)
        ensures
            keeps_ids(Node::NJump(*self), *old(sub), *final(sub)),
            self.post(*old(sub), val, *final(sub), r),
    {
        sub.add_current(self.dest);
        Value::Unit
    }

}

/// Node that schedules a main node for the next instant.
/// Signature: `() -> ()`.
pub struct NPause {
    /// The id of the main node this node points to.
    pub dest: usize,
}

/// Builds a node that schedules `pos` on the next instant.
pub fn npause(pos: usize) -> (r: NPause)
    ensures
        r.dest == pos,
{
    NPause { dest: pos }
}

impl NPause {
    /// What a call of the node does, from the sub-runtime `s0` and the
    /// input `v` to the sub-runtime `s1` and the result `r`.
    pub open spec fn post<F: FnMut(Value) -> Value>(&self, s0: SubRuntime<F>, v: Value, s1: SubRuntime<F>, r: Value) -> bool {
        &&& r == Value::Unit
        &&& s1.tasks.next@ == s0.tasks.next@.push(self.dest)
        &&& s1 == (SubRuntime { tasks: Tasks { next: s1.tasks.next, ..s0.tasks }, ..s0 })
    }

    pub fn call<F: FnMut(Value) -> Value>(&self, sub: &mut SubRuntime<F>, val: Value) -> (r: Value)
        ensures
            keeps_ids(Node::NPause(*self), *old(sub), *final(sub)),
            self.post(*old(sub), val, *final(sub), r),
    {
        sub.add_next(self.dest);
        Value::Unit
    }

}

/// Node that runs `nt` or `nf` depending on the branch its input selects
/// (see `as_choice`). Signature: `ChoiceData<T, F> -> O` when `nt: T -> O`
/// and `nf: F -> O`.
pub struct NChoice {
    pub nt: Box<Node>,
    pub nf: Box<Node>,
}

impl NChoice {
    pub fn call<F: FnMut(Value) -> Value>(&self, sub: &mut SubRuntime<F>, val: Value) -> (r: Value)
        requires
            old(sub).wf(),
        ensures
            keeps_ids(Node::NChoice(*self), *old(sub), *final(sub)),
            call_frame(*old(sub), *final(sub)),
            call_post(Node::NChoice(*self), *old(sub), val, *final(sub), r),
        decreases self,
    {
        match val.into_choice() {
            ChoiceData::True(t) => self.nt.call(sub, t),
            ChoiceData::False(f) => self.nf.call(sub, f),
        }
    }
}

/// Node that runs its body until it returns `False(x)`, then returns `x`;
/// on `True(y)` the body runs again with `y`.
/// Signature: `I -> O` when the body maps `I` to `ChoiceData<I, O>`.
///
/// Each turn of the loop counts as a step of the runtime; should the step
/// counter ever reach `usize::MAX`, the loop stops and returns its input.
pub struct LoopIm(pub Box<Node>);

impl LoopIm {
    pub fn call<F: FnMut(Value) -> Value>(&self, sub: &mut SubRuntime<F>, val: Value) -> (r: Value)
        requires
            old(sub).wf(),
        ensures
            keeps_ids(Node::LoopIm(*self), *old(sub), *final(sub)),
            call_frame(*old(sub), *final(sub)),
            call_post(Node::LoopIm(*self), *old(sub), val, *final(sub), r),
        decreases self,
    {
        let ghost v0 = val;
        let mut v = val;
        let ghost s0 = *sub;
        let ghost mut done: nat = 0;
        loop
            invariant
                sub.wf(),
                call_frame(s0, *sub),
                keeps_ids(Node::LoopIm(*self), s0, *sub),
                s0 == *old(sub),
                v0 == val,
                loop_prefix(*self.0, s0, v0, *sub, v, done),
            decreases usize::MAX - sub.steps,
        {
            if sub.steps == usize::MAX {
                proof {
                    assert(loop_post(*self.0, *sub, v, *sub, v, 0));
                    lemma_loop_compose(*self.0, s0, v0, *sub, v, *sub, v, done, 0);
                    assert(turns(done));
                }
                return v;
            }
            let ghost before = *sub;
            sub.steps = sub.steps + 1;
            let ghost s1 = *sub;
            proof { assert(s1 == stepped(before)); }
            let ghost vin = v;
            let out = self.0.call(sub, v);
            proof {
                assert forall|b: nat| Node::LoopIm(*self).targets_ok(b) && #[trigger] ids_below(s0, b)
                    implies ids_below(*sub, b) by {
                    assert(ids_below(before, b));
                    assert(ids_below(s1, b));
                }
            }
            let ghost o = out;
            let ghost after = *sub;
            match out.into_choice() {
                ChoiceData::True(t) => {
                    proof {
                        lemma_loop_extend(*self.0, s0, v0, before, vin, after, o, done);
                        done = done + 1;
                    }
                    v = t;
                },
                ChoiceData::False(f) => {
                    proof {
                        assert(midpoint(after, o));
                        assert(loop_post(*self.0, before, vin, after, f, 1));
                        lemma_loop_compose(*self.0, s0, v0, before, vin, after, f, done, 1);
                        assert(turns(done + 1));
                    }
                    return f;
                },
            }
        }
    }
}

} // verus!
