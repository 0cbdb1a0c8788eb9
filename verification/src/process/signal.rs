//! Processes that act on signals. A process whose name ends in `D` takes the
//! signal it acts on in its input value; one whose name ends in `S` holds it.

use vstd::prelude::*;
use crate::value::Value;
use crate::graph::Graph;
use crate::node::{Node, Nothing, NIdentity, lemma_targets_mono};
use crate::node::control::NJump;
use crate::node::mem_manip::{RCell, NStore, NLoad};
use crate::node::par::{GenP, Ignore2};
use crate::node::signal::{NEmitD, NEmitS, NEmitVecS, NEmitVS, NEmitVVecS, NGetD, NGetS, NGetSIn, NAwaitD,
    NAwaitS, NAwaitImmediateD, NAwaitImmediateS, NPresentD, NPresentS};
use crate::signal::SignalRuntimeRef;
use crate::process::compilation::{compiles, stage, place_link, present_link};
use crate::process::{Process, Compiled, extends, compiled_ok};

verus! {

/// Returns the value of the previous instant of the signal given in the
/// input. Signatures: `S -> V`; `(S, I) -> (V, I)` when `with_in`.
pub struct PreD {
    pub with_in: bool,
}

impl PreD {
    pub fn compile<F: FnMut(Value) -> Value>(self, g: &mut Graph<F>) -> (c: Compiled)
        requires
            old(g).wf(),
            old(g).closed(),
        ensures
            compiles(Process::<F>::PreD(self), old(g)@, c, final(g)@),
            *final(g) == *old(g),
            c == Compiled::Im(Node::NGetD(NGetD { with_in: self.with_in })),
            compiled_ok(*old(g), *final(g), c, true),
    {
        Compiled::Im(Node::NGetD(NGetD { with_in: self.with_in }))
    }
}

/// Builds a `PreD` of signature `S -> V`.
pub fn pre_d<F>() -> (r: Process<F>)
    ensures
        r == Process::<F>::PreD(PreD { with_in: false }),
{
    Process::PreD(PreD { with_in: false })
}

/// Builds a `PreD` of signature `(S, I) -> (V, I)`.
pub fn pre_d_in<F>() -> (r: Process<F>)
    ensures
        r == Process::<F>::PreD(PreD { with_in: true }),
{
    Process::PreD(PreD { with_in: true })
}

/// Returns the value of the previous instant of a fixed signal.
/// Signature: `() -> V`.
pub struct PreS(pub SignalRuntimeRef);

impl PreS {
    pub fn compile<F: FnMut(Value) -> Value>(self, g: &mut Graph<F>) -> (c: Compiled)
        requires
            old(g).wf(),
            old(g).closed(),
        ensures
            compiles(Process::<F>::PreS(self), old(g)@, c, final(g)@),
            *final(g) == *old(g),
            c == Compiled::Im(Node::NGetS(NGetS(self.0))),
            compiled_ok(*old(g), *final(g), c, true),
    {
        Compiled::Im(Node::NGetS(NGetS(self.0)))
    }
}

/// Builds a `PreS`.
pub fn pre_s<F>(signal: SignalRuntimeRef) -> (r: Process<F>)
    ensures
        r == Process::<F>::PreS(PreS(signal)),
{
    Process::PreS(PreS(signal))
}

/// Returns the value of the previous instant of a fixed signal, paired with
/// the input. Signature: `I -> (V, I)`.
pub struct PreSIn(pub SignalRuntimeRef);

impl PreSIn {
    pub fn compile<F: FnMut(Value) -> Value>(self, g: &mut Graph<F>) -> (c: Compiled)
        requires
            old(g).wf(),
            old(g).closed(),
        ensures
            compiles(Process::<F>::PreSIn(self), old(g)@, c, final(g)@),
            *final(g) == *old(g),
            c == Compiled::Im(Node::NGetSIn(NGetSIn(self.0))),
            compiled_ok(*old(g), *final(g), c, true),
    {
        Compiled::Im(Node::NGetSIn(NGetSIn(self.0)))
    }
}

/// Builds a `PreSIn`.
pub fn pre_s_in<F>(signal: SignalRuntimeRef) -> (r: Process<F>)
    ensures
        r == Process::<F>::PreSIn(PreSIn(signal)),
{
    Process::PreSIn(PreSIn(signal))
}

/// Emits signals given in the input.
///
/// Signatures: `(S, E) -> ()`; `((S, E), I) -> I` when `with_in`;
/// `Vec<(S, E)> -> ()` when `vec`; `(Vec<(S, E)>, I) -> I` when both.
pub struct EmitD {
    pub vec: bool,
    pub with_in: bool,
}

impl EmitD {
    pub fn compile<F: FnMut(Value) -> Value>(self, g: &mut Graph<F>) -> (c: Compiled)
        requires
            old(g).wf(),
            old(g).closed(),
        ensures
            compiles(Process::<F>::EmitD(self), old(g)@, c, final(g)@),
            *final(g) == *old(g),
            c == Compiled::Im(Node::NEmitD(NEmitD { vec: self.vec, with_in: self.with_in })),
            compiled_ok(*old(g), *final(g), c, true),
    {
        Compiled::Im(Node::NEmitD(NEmitD { vec: self.vec, with_in: self.with_in }))
    }
}

/// Builds an `EmitD` of signature `((S, E), I) -> I`.
pub fn emit_d_in<F>() -> (r: Process<F>)
    ensures
        r == Process::<F>::EmitD(EmitD { vec: false, with_in: true }),
{
    Process::EmitD(EmitD { vec: false, with_in: true })
}

/// Builds an `EmitD` of signature `(S, E) -> ()`.
pub fn emit_d<F>() -> (r: Process<F>)
    ensures
        r == Process::<F>::EmitD(EmitD { vec: false, with_in: false }),
{
    Process::EmitD(EmitD { vec: false, with_in: false })
}

/// Builds an `EmitD` of signature `(Vec<(S, E)>, I) -> I`.
pub fn emit_d_vec_in<F>() -> (r: Process<F>)
    ensures
        r == Process::<F>::EmitD(EmitD { vec: true, with_in: true }),
{
    Process::EmitD(EmitD { vec: true, with_in: true })
}

/// Builds an `EmitD` of signature `Vec<(S, E)> -> ()`.
pub fn emit_d_vec<F>() -> (r: Process<F>)
    ensures
        r == Process::<F>::EmitD(EmitD { vec: true, with_in: false }),
{
    Process::EmitD(EmitD { vec: true, with_in: false })
}

/// Emits the input on a fixed signal. Signature: `E -> ()`.
pub struct EmitS(pub SignalRuntimeRef);

impl EmitS {
    pub fn compile<F: FnMut(Value) -> Value>(self, g: &mut Graph<F>) -> (c: Compiled)
        requires
            old(g).wf(),
            old(g).closed(),
        ensures
            compiles(Process::<F>::EmitS(self), old(g)@, c, final(g)@),
            *final(g) == *old(g),
            c == Compiled::Im(Node::NEmitS(NEmitS { signal: self.0, with_in: false })),
            compiled_ok(*old(g), *final(g), c, true),
    {
        Compiled::Im(Node::NEmitS(NEmitS { signal: self.0, with_in: false }))
    }
}

/// Builds an `EmitS`.
pub fn emit_s<F>(signal_runtime: SignalRuntimeRef) -> (r: Process<F>)
    ensures
        r == Process::<F>::EmitS(EmitS(signal_runtime)),
{
    Process::EmitS(EmitS(signal_runtime))
}

/// Emits the first component of the input on a fixed signal and returns the
/// second one. Signature: `(E, I) -> I`.
pub struct EmitSIn(pub SignalRuntimeRef);

impl EmitSIn {
    pub fn compile<F: FnMut(Value) -> Value>(self, g: &mut Graph<F>) -> (c: Compiled)
        requires
            old(g).wf(),
            old(g).closed(),
        ensures
            compiles(Process::<F>::EmitSIn(self), old(g)@, c, final(g)@),
            *final(g) == *old(g),
            c == Compiled::Im(Node::NEmitS(NEmitS { signal: self.0, with_in: true })),
            compiled_ok(*old(g), *final(g), c, true),
    {
        Compiled::Im(Node::NEmitS(NEmitS { signal: self.0, with_in: true }))
    }
}

/// Builds an `EmitSIn`.
pub fn emit_s_in<F>(signal_runtime: SignalRuntimeRef) -> (r: Process<F>)
    ensures
        r == Process::<F>::EmitSIn(EmitSIn(signal_runtime)),
{
    Process::EmitSIn(EmitSIn(signal_runtime))
}

/// Emits the elements of the input list on fixed signals, the i-th on the
/// i-th signal. Signatures: `Vec<E> -> ()`; `(Vec<E>, I) -> I` when `with_in`.
pub struct EmitVecS {
    pub signals: Vec<SignalRuntimeRef>,
    pub with_in: bool,
}

impl EmitVecS {
    pub fn compile<F: FnMut(Value) -> Value>(self, g: &mut Graph<F>) -> (c: Compiled)
        requires
            old(g).wf(),
            old(g).closed(),
        ensures
            compiles(Process::<F>::EmitVecS(self), old(g)@, c, final(g)@),
            *final(g) == *old(g),
            c == Compiled::Im(Node::NEmitVecS(NEmitVecS { signals: self.signals, with_in: self.with_in })),
            compiled_ok(*old(g), *final(g), c, true),
    {
        Compiled::Im(Node::NEmitVecS(NEmitVecS { signals: self.signals, with_in: self.with_in }))
    }
}

/// Builds an `EmitVecS` of signature `Vec<E> -> ()`.
pub fn emit_vec_s<F>(signal_runtimes: Vec<SignalRuntimeRef>) -> (r: Process<F>)
    ensures
        r == Process::<F>::EmitVecS(EmitVecS { signals: signal_runtimes, with_in: false }),
{
    Process::EmitVecS(EmitVecS { signals: signal_runtimes, with_in: false })
}

/// Builds an `EmitVecS` of signature `(Vec<E>, I) -> I`.
pub fn emit_vec_s_in<F>(signal_runtimes: Vec<SignalRuntimeRef>) -> (r: Process<F>)
    ensures
        r == Process::<F>::EmitVecS(EmitVecS { signals: signal_runtimes, with_in: true }),
{
    Process::EmitVecS(EmitVecS { signals: signal_runtimes, with_in: true })
}

/// Emits a fixed value on a fixed signal. Signature: `I -> I`.
pub struct EmitVS(pub SignalRuntimeRef, pub Value);

impl EmitVS {
    pub fn compile<F: FnMut(Value) -> Value>(self, g: &mut Graph<F>) -> (c: Compiled)
        requires
            old(g).wf(),
            old(g).closed(),
        ensures
            compiles(Process::<F>::EmitVS(self), old(g)@, c, final(g)@),
            *final(g) == *old(g),
            c == Compiled::Im(Node::NEmitVS(NEmitVS { signal: self.0, value: self.1 })),
            compiled_ok(*old(g), *final(g), c, true),
    {
        Compiled::Im(Node::NEmitVS(NEmitVS { signal: self.0, value: self.1 }))
    }
}

/// Builds an `EmitVS`.
pub fn emit_vs<F>(signal_runtime: SignalRuntimeRef, value: Value) -> (r: Process<F>)
    ensures
        r == Process::<F>::EmitVS(EmitVS(signal_runtime, value)),
{
    Process::EmitVS(EmitVS(signal_runtime, value))
}

/// Emits fixed values on fixed signals, in order. Signature: `I -> I`.
pub struct EmitVVecS(pub Vec<(SignalRuntimeRef, Value)>);

impl EmitVVecS {
    pub fn compile<F: FnMut(Value) -> Value>(self, g: &mut Graph<F>) -> (c: Compiled)
        requires
            old(g).wf(),
            old(g).closed(),
        ensures
            compiles(Process::<F>::EmitVVecS(self), old(g)@, c, final(g)@),
            *final(g) == *old(g),
            c == Compiled::Im(Node::NEmitVVecS(NEmitVVecS(self.0))),
            compiled_ok(*old(g), *final(g), c, true),
    {
        Compiled::Im(Node::NEmitVVecS(NEmitVVecS(self.0)))
    }
}

/// Builds an `EmitVVecS`.
pub fn emit_vec_vs<F>(signal_values: Vec<(SignalRuntimeRef, Value)>) -> (r: Process<F>)
    ensures
        r == Process::<F>::EmitVVecS(EmitVVecS(signal_values)),
{
    Process::EmitVVecS(EmitVVecS(signal_values))
}

/// Awaits the emission of the signal given in the input and continues at
/// the next instant with the value the signal had at the instant of its
/// emission. Signatures: `S -> V`; `(S, I) -> (V, I)` when `with_in`.
pub struct AwaitD {
    pub with_in: bool,
}

impl AwaitD {
    pub fn compile<F: FnMut(Value) -> Value>(self, g: &mut Graph<F>) -> (c: Compiled)
        requires
            old(g).wf(),
            old(g).closed(),
        ensures
            compiles(Process::<F>::AwaitD(self), old(g)@, c, final(g)@),
            final(g).wf(),
            final(g).closed(),
            compiled_ok(*old(g), *final(g), c, false),
    {
        let out_id = g.reserve();
        let rc = RCell::new(&mut g.mem);
        let first = if self.with_in {
            Node::NAwaitD(NAwaitD(out_id)).njoin(Node::NIdentity(NIdentity {}))
        } else {
            Node::NAwaitD(NAwaitD(out_id))
        };
        let ni = first.nseq(Node::NStore(NStore(rc)));
        let no = Node::NLoad(NLoad(rc)).nseq(Node::NGetD(NGetD { with_in: self.with_in }));
        Compiled::NotIm(ni, out_id, no)
    }
}

/// Builds an `AwaitD` of signature `S -> V`.
pub fn await_d<F>() -> (r: Process<F>)
    ensures
        r == Process::<F>::AwaitD(AwaitD { with_in: false }),
{
    Process::AwaitD(AwaitD { with_in: false })
}

/// Builds an `AwaitD` of signature `(S, I) -> (V, I)`.
pub fn await_d_in<F>() -> (r: Process<F>)
    ensures
        r == Process::<F>::AwaitD(AwaitD { with_in: true }),
{
    Process::AwaitD(AwaitD { with_in: true })
}

/// Awaits the emission of a fixed signal and continues at the next instant
/// with the value the signal had. Signature: `() -> V`.
pub struct AwaitS(pub SignalRuntimeRef);

impl AwaitS {
    pub fn compile<F: FnMut(Value) -> Value>(self, g: &mut Graph<F>) -> (c: Compiled)
        requires
            old(g).wf(),
            old(g).closed(),
        ensures
            compiles(Process::<F>::AwaitS(self), old(g)@, c, final(g)@),
            final(g).wf(),
            final(g).closed(),
            compiled_ok(*old(g), *final(g), c, false),
    {
        let out_id = g.reserve();
        Compiled::NotIm(Node::NAwaitS(NAwaitS(self.0, out_id)), out_id, Node::NGetS(NGetS(self.0)))
    }
}

/// Builds an `AwaitS`.
pub fn await_s<F>(signal_runtime: SignalRuntimeRef) -> (r: Process<F>)
    ensures
        r == Process::<F>::AwaitS(AwaitS(signal_runtime)),
{
    Process::AwaitS(AwaitS(signal_runtime))
}

/// Awaits the emission of a fixed signal and continues at the next instant
/// with the value the signal had, paired with the input.
/// Signature: `I -> (V, I)`.
pub struct AwaitSIn(pub SignalRuntimeRef);

impl AwaitSIn {
    pub fn compile<F: FnMut(Value) -> Value>(self, g: &mut Graph<F>) -> (c: Compiled)
        requires
            old(g).wf(),
            old(g).closed(),
        ensures
            compiles(Process::<F>::AwaitSIn(self), old(g)@, c, final(g)@),
            final(g).wf(),
            final(g).closed(),
            compiled_ok(*old(g), *final(g), c, false),
    {
        let out_id = g.reserve();
        let rc = RCell::new(&mut g.mem);
        let ni = Node::NStore(NStore(rc)).nseq(Node::NAwaitS(NAwaitS(self.0, out_id)));
        let no = Node::GenP(GenP {}).nseq(Node::NGetS(NGetS(self.0)).njoin(Node::NLoad(NLoad(rc))));
        Compiled::NotIm(ni, out_id, no)
    }
}

/// Builds an `AwaitSIn`.
pub fn await_s_in<F>(signal_runtime: SignalRuntimeRef) -> (r: Process<F>)
    ensures
        r == Process::<F>::AwaitSIn(AwaitSIn(signal_runtime)),
{
    Process::AwaitSIn(AwaitSIn(signal_runtime))
}

/// Awaits the emission of the signal given in the input and continues in
/// the instant of the emission. Signatures: `S -> ()`; `(S, I) -> I` when
/// `with_in`.
pub struct AwaitImmediateD {
    pub with_in: bool,
}

impl AwaitImmediateD {
    pub fn compile<F: FnMut(Value) -> Value>(self, g: &mut Graph<F>) -> (c: Compiled)
        requires
            old(g).wf(),
            old(g).closed(),
        ensures
            compiles(Process::<F>::AwaitImmediateD(self), old(g)@, c, final(g)@),
            final(g).wf(),
            final(g).closed(),
            compiled_ok(*old(g), *final(g), c, false),
    {
        let out_id = g.reserve();
        if self.with_in {
            let rc = RCell::new(&mut g.mem);
            let ni = Node::NIdentity(NIdentity {}).njoin(Node::NStore(NStore(rc)))
                .nseq(Node::Ignore2(Ignore2 {}))
                .nseq(Node::NAwaitImmediateD(NAwaitImmediateD(out_id)));
            Compiled::NotIm(ni, out_id, Node::NLoad(NLoad(rc)))
        } else {
            Compiled::NotIm(Node::NAwaitImmediateD(NAwaitImmediateD(out_id)), out_id, Node::Nothing(Nothing {}))
        }
    }
}

/// Builds an `AwaitImmediateD` of signature `S -> ()`.
pub fn await_immediate_d<F>() -> (r: Process<F>)
    ensures
        r == Process::<F>::AwaitImmediateD(AwaitImmediateD { with_in: false }),
{
    Process::AwaitImmediateD(AwaitImmediateD { with_in: false })
}

/// Builds an `AwaitImmediateD` of signature `(S, I) -> I`.
pub fn await_immediate_d_in<F>() -> (r: Process<F>)
    ensures
        r == Process::<F>::AwaitImmediateD(AwaitImmediateD { with_in: true }),
{
    Process::AwaitImmediateD(AwaitImmediateD { with_in: true })
}

/// Awaits the emission of a fixed signal and continues in the instant of the
/// emission, passing the input through. Signature: `I -> I`.
pub struct AwaitImmediateS(pub SignalRuntimeRef);

impl AwaitImmediateS {
    pub fn compile<F: FnMut(Value) -> Value>(self, g: &mut Graph<F>) -> (c: Compiled)
        requires
            old(g).wf(),
            old(g).closed(),
        ensures
            compiles(Process::<F>::AwaitImmediateS(self), old(g)@, c, final(g)@),
            final(g).wf(),
            final(g).closed(),
            compiled_ok(*old(g), *final(g), c, false),
    {
        let out_id = g.reserve();
        let rc = RCell::new(&mut g.mem);
        let ni = Node::NStore(NStore(rc)).nseq(Node::NAwaitImmediateS(NAwaitImmediateS(self.0, out_id)));
        Compiled::NotIm(ni, out_id, Node::NLoad(NLoad(rc)))
    }
}

/// Builds an `AwaitImmediateS`.
pub fn await_immediate_s<F>(signal_runtime: SignalRuntimeRef) -> (r: Process<F>)
    ensures
        r == Process::<F>::AwaitImmediateS(AwaitImmediateS(signal_runtime)),
{
    Process::AwaitImmediateS(AwaitImmediateS(signal_runtime))
}

/// Places the two compiled branches of a presence test (`cf` compiled first
/// when `f_im` holds, `ct` first otherwise): each branch stores its output
/// in a new cell and jumps to a new hole. Returns the main nodes that start
/// the branches, the hole and the cell.
fn place_branches<F: FnMut(Value) -> Value>(ct: Compiled, cf: Compiled, f_im: bool, g: &mut Graph<F>,
    Ghost(g0): Ghost<Graph<F>>, Ghost(ga): Ghost<Graph<F>>) -> (r: (usize, usize, usize, RCell))
    requires
        old(g).wf(),
        old(g).closed(),
        f_im ==> compiled_ok(g0, ga, cf, true) && compiled_ok(ga, *old(g), ct, ct is Im),
        !f_im ==> compiled_ok(g0, ga, ct, ct is Im) && compiled_ok(ga, *old(g), cf, false),
    ensures
        final(g).wf(),
        final(g).closed(),
        extends(g0, *final(g), Some(r.2)),
        (r.0, r.1, r.2, r.3, final(g)@) == place_link(ct, cf, old(g)@),
        r.0 < final(g).nodes@.len(),
        r.1 < final(g).nodes@.len(),
{
    let ghost g2 = *g;
    let (t_im, t_a, t_hole, t_b) = match ct {
        Compiled::Im(n) => (true, n, 0usize, Node::Nothing(Nothing {})),
        Compiled::NotIm(ni, h, no) => (false, ni, h, no),
    };
    let (_fi, f_a, f_hole, f_b) = match cf {
        Compiled::Im(n) => (true, n, 0usize, Node::Nothing(Nothing {})),
        Compiled::NotIm(ni, h, no) => (false, ni, h, no),
    };
    let rc = RCell::new(&mut g.mem);
    let out = g.reserve();
    let ghost g3 = *g;
    let ghost b = (g2.nodes@.len() + 1) as nat;
    let ghost lt = if f_im { g2.nodes@.len() as nat } else { ga.nodes@.len() as nat };
    let ghost lf = if f_im { ga.nodes@.len() as nat } else { g2.nodes@.len() as nat };
    proof {
        // The holes of the two branches, and the nodes they returned.
        assert(!t_im ==> g0.nodes@.len() <= t_hole < g2.nodes@.len() && g2.nodes@[t_hole as int] is None);
        assert(!f_im ==> g0.nodes@.len() <= f_hole < g2.nodes@.len() && g2.nodes@[f_hole as int] is None);
        assert(!t_im && !f_im ==> t_hole != f_hole);
        assert(t_a.targets_ok(lt));
        assert(!t_im ==> t_b.targets_ok(lt));
        assert(f_a.targets_ok(lf));
        assert(!f_im ==> f_b.targets_ok(lf));
        assert forall|i: int| g0.nodes@.len() <= i < g2.nodes@.len() implies
            ((#[trigger] g2.nodes@[i]) is None <==> ((!t_im && i == t_hole) || (!f_im && i == f_hole))) by {
            if i < ga.nodes@.len() {
                assert(g2.nodes@[i] == ga.nodes@[i]);
            }
        }
        assert forall|i: int| 0 <= i < g0.nodes@.len() implies #[trigger] g2.nodes@[i] == g0.nodes@[i] by {
            assert(g2.nodes@[i] == ga.nodes@[i]);
        }
        if !t_im { lemma_targets_mono(t_b, lt, b); }
        if !f_im { lemma_targets_mono(f_b, lf, b); }
    }
    let ghost ta0 = t_a;
    let ghost fa0 = f_a;
    let mut t_a = Some(t_a);
    let mut f_a = Some(f_a);
    let mut f_id: usize = 0;
    let mut t_id: usize = 0;
    if f_im {
        let n = f_a.take().unwrap();
        proof { lemma_targets_mono(n, lf, (g.nodes@.len() + 1) as nat); }
        f_id = g.add(n.nseq(Node::NStore(NStore(rc))).nseq(Node::NJump(NJump { dest: out })));
    }
    if t_im {
        let n = t_a.take().unwrap();
        proof { lemma_targets_mono(n, lt, (g.nodes@.len() + 1) as nat); }
        t_id = g.add(n.nseq(Node::NStore(NStore(rc))).nseq(Node::NJump(NJump { dest: out })));
    } else {
        proof { lemma_targets_mono(t_b, b, g.nodes@.len() as nat); }
        g.set(t_hole, t_b.nseq(Node::NStore(NStore(rc))).nseq(Node::NJump(NJump { dest: out })));
    }
    if !f_im {
        proof { lemma_targets_mono(f_b, b, g.nodes@.len() as nat); }
        g.set(f_hole, f_b.nseq(Node::NStore(NStore(rc))).nseq(Node::NJump(NJump { dest: out })));
    }
    if !t_im {
        let n = t_a.take().unwrap();
        proof { lemma_targets_mono(n, lt, (g.nodes@.len() + 1) as nat); }
        t_id = g.add(n);
    }
    if !f_im {
        let n = f_a.take().unwrap();
        proof { lemma_targets_mono(n, lf, (g.nodes@.len() + 1) as nat); }
        f_id = g.add(n);
    }
    proof {
        assert forall|i: int| g0.nodes@.len() <= i < g.nodes@.len() implies
            ((#[trigger] g.nodes@[i]) is None <==> out == i) by {
            if i < g2.nodes@.len() {
                assert(g2.nodes@[i] is None <==> ((!t_im && i == t_hole) || (!f_im && i == f_hole)));
            }
        }
    }
    (t_id, f_id, out, rc)
}

/// Runs `pt` in the current instant if the signal given in the input is
/// present, and `pf` at the next instant otherwise. Signature: `S -> O`
/// when `pt` and `pf` map `()` to `O`.
pub struct PresentD<F> {
    pub pt: Box<Process<F>>,
    pub pf: Box<Process<F>>,
}

impl<F: FnMut(Value) -> Value> PresentD<F> {
    pub fn compile(self, g: &mut Graph<F>) -> (c: Compiled)
        requires
            old(g).wf(),
            old(g).closed(),
            self.pt.fns_ok(),
            self.pf.fns_ok(),
        ensures
            compiles(Process::<F>::PresentD(self), old(g)@, c, final(g)@),
            final(g).wf(),
            final(g).closed(),
            compiled_ok(*old(g), *final(g), c, false),
        decreases self,
    {
        let ghost g0 = *g;
        let PresentD { pt, pf } = self;
        let f_im = pf.is_immediate();
        let ghost ga: Graph<F>;
        let (ct, cf) = if f_im {
            let cf = (*pf).compile(g);
            proof { ga = *g; }
            let ct = (*pt).compile(g);
            (ct, cf)
        } else {
            let ct = (*pt).compile(g);
            proof { ga = *g; }
            let cf = (*pf).compile(g);
            (ct, cf)
        };
        let ghost gb = *g;
        proof {
            if f_im {
                assert(stage(ct, gb@) && stage(cf, ga@));
            } else {
                assert(stage(ct, ga@) && stage(cf, gb@));
            }
        }
        let ghost link = present_link(ct, cf, gb@, |t: usize, f: usize| Node::NPresentD(NPresentD { node_true: t, node_false: f }));
        let (t, f, out, rc) = place_branches(ct, cf, f_im, g, Ghost(g0), Ghost(ga));
        let r = Compiled::NotIm(Node::NPresentD(NPresentD { node_true: t, node_false: f }), out, Node::NLoad(NLoad(rc)));
        proof {
            assert(link == (r, g@));
        }
        r
    }
}

/// Runs `pt` in the current instant if a fixed signal is present, and `pf`
/// at the next instant otherwise. Signature: `() -> O` when `pt` and `pf`
/// map `()` to `O`.
pub struct PresentS<F> {
    pub pt: Box<Process<F>>,
    pub pf: Box<Process<F>>,
    pub signal_runtime: SignalRuntimeRef,
}

impl<F: FnMut(Value) -> Value> PresentS<F> {
    pub fn compile(self, g: &mut Graph<F>) -> (c: Compiled)
        requires
            old(g).wf(),
            old(g).closed(),
            self.pt.fns_ok(),
            self.pf.fns_ok(),
        ensures
            compiles(Process::<F>::PresentS(self), old(g)@, c, final(g)@),
            final(g).wf(),
            final(g).closed(),
            compiled_ok(*old(g), *final(g), c, false),
        decreases self,
    {
        let ghost g0 = *g;
        let PresentS { pt, pf, signal_runtime } = self;
        let f_im = pf.is_immediate();
        let ghost ga: Graph<F>;
        let (ct, cf) = if f_im {
            let cf = (*pf).compile(g);
            proof { ga = *g; }
            let ct = (*pt).compile(g);
            (ct, cf)
        } else {
            let ct = (*pt).compile(g);
            proof { ga = *g; }
            let cf = (*pf).compile(g);
            (ct, cf)
        };
        let ghost gb = *g;
        proof {
            if f_im {
                assert(stage(ct, gb@) && stage(cf, ga@));
            } else {
                assert(stage(ct, ga@) && stage(cf, gb@));
            }
        }
        let ghost link = present_link(ct, cf, gb@, |t: usize, f: usize|
            Node::NPresentS(NPresentS { node_true: t, node_false: f, signal_runtime: signal_runtime }));
        let (t, f, out, rc) = place_branches(ct, cf, f_im, g, Ghost(g0), Ghost(ga));
        let r = Compiled::NotIm(
            Node::NPresentS(NPresentS { node_true: t, node_false: f, signal_runtime }),
            out,
            Node::NLoad(NLoad(rc)),
        );
        proof {
            assert(link == (r, g@));
        }
        r
    }
}

impl<F: FnMut(Value) -> Value> Process<F> {
    /// `pt.present(pf)`: a presence test on the signal given in the input
    /// (see `PresentD`).
    pub fn present(self, process_false: Process<F>) -> (r: Process<F>)
        ensures
            r == Process::PresentD(PresentD { pt: Box::new(self), pf: Box::new(process_false) }),
    {
        Process::PresentD(PresentD { pt: Box::new(self), pf: Box::new(process_false) })
    }
}

} // verus!
