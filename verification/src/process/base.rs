//! Basic processes: nothing, constants, user functions, jumps and pauses.

use vstd::prelude::*;
use crate::value::Value;
use crate::graph::Graph;
use crate::node::{Node, Nothing, NValue, NFnMut, NFnOnce, NSeq};
use crate::node::control::{NJump, NPause};
use crate::node::mem_manip::{RCell, NStore, NLoad};
use crate::process::compilation::compiles;
use crate::process::{Process, Compiled, extends, compiled_ok};

verus! {

/// A process that does nothing: its input and output are `()`.
pub struct PNothing {}

impl PNothing {
    pub fn compile<F: FnMut(Value) -> Value>(self, g: &mut Graph<F>) -> (c: Compiled)
        requires
            old(g).wf(),
            old(g).closed(),
        ensures
            compiles(Process::<F>::PNothing(self), old(g)@, c, final(g)@),
            final(g).wf(),
            final(g).closed(),
            compiled_ok(*old(g), *final(g), c, true),
            *final(g) == *old(g),
            c == Compiled::Im(Node::Nothing(Nothing {})),
    {
        Compiled::Im(Node::Nothing(Nothing {}))
    }
}

/// Builds a process that does nothing.
pub fn nothing<F>() -> (r: Process<F>)
    ensures
        r == Process::<F>::PNothing(PNothing {}),
{
    Process::PNothing(PNothing {})
}

/// A process that always returns (a copy of) the same value.
pub struct PValue(pub Value);

impl PValue {
    pub fn compile<F: FnMut(Value) -> Value>(self, g: &mut Graph<F>) -> (c: Compiled)
        requires
            old(g).wf(),
            old(g).closed(),
        ensures
            compiles(Process::<F>::PValue(self), old(g)@, c, final(g)@),
            final(g).wf(),
            final(g).closed(),
            compiled_ok(*old(g), *final(g), c, true),
            *final(g) == *old(g),
            c == Compiled::Im(Node::NValue(NValue(self.0))),
    {
        Compiled::Im(Node::NValue(NValue(self.0)))
    }
}

/// Builds a process returning `value`.
pub fn value<F>(v: Value) -> (r: Process<F>)
    ensures
        r == Process::<F>::PValue(PValue(v)),
{
    Process::PValue(PValue(v))
}

/// An immediate process that calls a user function on its input.
pub struct PFnMut<F>(pub F);

impl<F: FnMut(Value) -> Value> PFnMut<F> {
    pub fn compile(self, g: &mut Graph<F>) -> (c: Compiled)
        requires
            old(g).wf(),
            old(g).closed(),
            forall|v: Value| call_requires(self.0, (v,)),
        ensures
            compiles(Process::<F>::PFnMut(self), old(g)@, c, final(g)@),
            final(g).wf(),
            final(g).closed(),
            compiled_ok(*old(g), *final(g), c, true),
            c == Compiled::Im(Node::NFnMut(NFnMut(old(g).fns@.len() as usize))),
            final(g).fns@ == old(g).fns@.push(self.0),
    {
        let fid = g.add_fn(self.0);
        Compiled::Im(Node::NFnMut(NFnMut(fid)))
    }
}

/// Builds a process calling `f` on its input.
pub fn fnmut2pro<F: FnMut(Value) -> Value>(f: F) -> (r: Process<F>)
    ensures
        r == Process::<F>::PFnMut(PFnMut(f)),
{
    Process::PFnMut(PFnMut(f))
}

/// An immediate process that calls a user function on its input, once:
/// a later run of the process returns `Unit` without calling it.
pub struct PFnOnce<F>(pub F);

impl<F: FnMut(Value) -> Value> PFnOnce<F> {
    pub fn compile(self, g: &mut Graph<F>) -> (c: Compiled)
        requires
            old(g).wf(),
            old(g).closed(),
            forall|v: Value| call_requires(self.0, (v,)),
        ensures
            compiles(Process::<F>::PFnOnce(self), old(g)@, c, final(g)@),
            final(g).wf(),
            final(g).closed(),
            compiled_ok(*old(g), *final(g), c, true),
            final(g).fns@ == old(g).fns@.push(self.0),
            c matches Compiled::Im(Node::NFnOnce(n)) && n.f == old(g).fns@.len()
                && n.armed.id == old(g).mem.cells@.len() && final(g).mem.cells@[n.armed.id as int] == Some(Value::Unit),
    {
        let fid = g.add_fn(self.0);
        let armed = RCell::new(&mut g.mem);
        armed.set(&mut g.mem, Value::Unit);
        proof {
            assert(g.mem.cells@ =~= old(g).mem.cells@.push(Some(Value::Unit)));
            assert(g@ == old(g)@.add_fn(self.0).new_cell_with(Value::Unit));
        }
        Compiled::Im(Node::NFnOnce(NFnOnce { f: fid, armed }))
    }
}

/// Builds a process calling `f` on its input, once.
pub fn fnonce2pro<F: FnMut(Value) -> Value>(f: F) -> (r: Process<F>)
    ensures
        r == Process::<F>::PFnOnce(PFnOnce(f)),
{
    Process::PFnOnce(PFnOnce(f))
}

/// A process that passes its input through, but through a jump to another
/// node: it breaks a long sequence of immediate processes into two main
/// nodes. It completes in the instant it starts.
pub struct PJump {}

impl PJump {
    pub fn compile<F: FnMut(Value) -> Value>(self, g: &mut Graph<F>) -> (c: Compiled)
        requires
            old(g).wf(),
            old(g).closed(),
        ensures
            compiles(Process::<F>::PJump(self), old(g)@, c, final(g)@),
            final(g).wf(),
            final(g).closed(),
            compiled_ok(*old(g), *final(g), c, false),
            c matches Compiled::NotIm(ni, out, no) && out == old(g).nodes@.len()
                && ni == Node::NSeq(NSeq {
                    n1: Box::new(Node::NStore(NStore(RCell { id: old(g).mem.cells@.len() as usize }))),
                    n2: Box::new(Node::NJump(NJump { dest: out })) })
                && no == Node::NLoad(NLoad(RCell { id: old(g).mem.cells@.len() as usize })),
    {
        let rc = RCell::new(&mut g.mem);
        let out = g.reserve();
        let ni = Node::NStore(NStore(rc)).nseq(Node::NJump(NJump { dest: out }));
        Compiled::NotIm(ni, out, Node::NLoad(NLoad(rc)))
    }
}

/// Builds a jump process.
pub fn jump<F>() -> (r: Process<F>)
    ensures
        r == Process::<F>::PJump(PJump {}),
{
    Process::PJump(PJump {})
}

/// The pause process: it waits for the next instant, passing its input
/// through.
pub struct Pause {}

impl Pause {
    pub fn compile<F: FnMut(Value) -> Value>(self, g: &mut Graph<F>) -> (c: Compiled)
        requires
            old(g).wf(),
            old(g).closed(),
        ensures
            compiles(Process::<F>::Pause(self), old(g)@, c, final(g)@),
            final(g).wf(),
            final(g).closed(),
            compiled_ok(*old(g), *final(g), c, false),
            c matches Compiled::NotIm(ni, out, no) && out == old(g).nodes@.len()
                && ni == Node::NSeq(NSeq {
                    n1: Box::new(Node::NStore(NStore(RCell { id: old(g).mem.cells@.len() as usize }))),
                    n2: Box::new(Node::NPause(NPause { dest: out })) })
                && no == Node::NLoad(NLoad(RCell { id: old(g).mem.cells@.len() as usize })),
    {
        let rc = RCell::new(&mut g.mem);
        let out = g.reserve();
        let ni = Node::NStore(NStore(rc)).nseq(Node::NPause(NPause { dest: out }));
        Compiled::NotIm(ni, out, Node::NLoad(NLoad(rc)))
    }
}

/// Builds a pause process.
pub fn pause<F>() -> (r: Process<F>)
    ensures
        r == Process::<F>::Pause(Pause {}),
{
    Process::Pause(Pause {})
}

} // verus!
