//! Main nodes guarded by control signals: a node that runs only while
//! some signals are present (`DoWhen`) and until others were emitted
//! (`DoUntil`).

use vstd::prelude::*;
use crate::value::Value;
use crate::engine::SubRuntime;
use crate::node::{Node, call_frame, keeps_ids, call_post};
use crate::signal::{SignalRuntimeRef, awaited_immediately, pre_set_at};

verus! {

/// A control exercised by a pure signal on a main node.
#[derive(Clone, Copy)]
pub enum ControlSignal {
    /// The node runs only at instants where the signal is present; at other
    /// instants it waits for the signal.
    DoWhen(SignalRuntimeRef),
    /// The node does not run at an instant that follows an emission of the
    /// signal.
    DoUntil(SignalRuntimeRef),
}

/// Whether the control `c` keeps the node from running in the state `s`.
pub open spec fn blocks<F>(c: ControlSignal, s: SubRuntime<F>) -> bool {
    match c {
        ControlSignal::DoWhen(sig) => !(sig.id < s.mem.signals@.len()
            && s.mem.signals@[sig.id as int].last_set == s.current_instant),
        ControlSignal::DoUntil(sig) => sig.id < s.mem.signals@.len()
            && pre_set_at(s.mem.signals@[sig.id as int], s.current_instant),
    }
}

/// The index of the first control of `cs` that blocks in the state `s`, or
/// the length of `cs` if none does.
pub open spec fn first_block<F>(cs: Seq<ControlSignal>, s: SubRuntime<F>) -> int
    decreases cs.len(),
{
    if cs.len() == 0 {
        0
    } else if blocks(cs[0], s) {
        0
    } else {
        1 + first_block(cs.drop_first(), s)
    }
}

/// The first blocking control is the first one that blocks.
proof fn lemma_first_block<F>(cs: Seq<ControlSignal>, s: SubRuntime<F>, i: int)
    requires
        0 <= i <= cs.len(),
        forall|j: int| 0 <= j < i ==> !blocks(#[trigger] cs[j], s),
        i < cs.len() ==> blocks(cs[i], s),
    ensures
        first_block(cs, s) == i,
    decreases cs.len(),
{
    if cs.len() > 0 && i > 0 {
        let t = cs.drop_first();
        assert(!blocks(cs[0], s));
        assert forall|j: int| 0 <= j < i - 1 implies !blocks(#[trigger] t[j], s) by {
            assert(t[j] == cs[j + 1]);
        }
        if i < cs.len() {
            assert(t[i - 1] == cs[i]);
        }
        lemma_first_block(t, s, i - 1);
    }
}

/// A main node of id `id` that runs `node` under the controls `control_sig`.
/// Signature: `() -> ()`.
pub struct ControlNode {
    pub id: usize,
    pub node: Box<Node>,
    pub control_sig: Vec<ControlSignal>,
}

impl ControlNode {
    /// Checks the controls in order: at the first `DoWhen` whose signal is
    /// absent, the node waits for the signal (it is scheduled again at the
    /// instant of its emission) and stops; at the first `DoUntil` whose
    /// signal was emitted at the previous instant, it stops. When no control
    /// blocks, the inner node runs.
    pub fn call<F: FnMut(Value) -> Value>(&self, sub: &mut SubRuntime<F>, val: Value) -> (r: Value)
        requires
            old(sub).wf(),
        ensures
            call_frame(*old(sub), *final(sub)),
            keeps_ids(Node::ControlNode(*self), *old(sub), *final(sub)),
            call_post(Node::ControlNode(*self), *old(sub), val, *final(sub), r),
            ({
                let cs = self.control_sig@;
                let k = first_block(cs, *old(sub));
                k < cs.len() ==> {
                    &&& r == Value::Unit
                    &&& match cs[k] {
                        ControlSignal::DoWhen(sig) => awaited_immediately(sig.id, self.id, *old(sub), *final(sub)),
                        ControlSignal::DoUntil(_) => *final(sub) == *old(sub),
                    }
                }
            }),
        decreases self,
    {
        let ghost s0 = *sub;
        let mut i: usize = 0;
        while i < self.control_sig.len()
            invariant
                i <= self.control_sig@.len(),
                *sub == s0,
                s0 == *old(sub),
                forall|j: int| 0 <= j < i ==> !blocks(#[trigger] self.control_sig@[j], s0),
            decreases self.control_sig@.len() - i,
        {
            match self.control_sig[i] {
                ControlSignal::DoWhen(signal) => {
                    if !signal.is_set(sub) {
                        proof { lemma_first_block(self.control_sig@, s0, i as int); }
                        signal.await_immediate(sub, self.id);
                        return Value::Unit;
                    }
                },
                ControlSignal::DoUntil(signal) => {
                    if signal.pre_set(sub) {
                        proof { lemma_first_block(self.control_sig@, s0, i as int); }
                        return Value::Unit;
                    }
                },
            }
            i = i + 1;
        }
        proof { lemma_first_block(self.control_sig@, s0, i as int); }
        self.node.call(sub, Value::Unit)
    }
}

} // verus!
