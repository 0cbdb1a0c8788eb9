//! Processes: reactive computations built from combinators.
//!
//! A process takes an input value and outputs a value. It may span several
//! instants. Entering a runtime, a process is compiled to a control-flow
//! graph of nodes. A process that compiles to a single node is immediate:
//! it always completes within one instant. Otherwise it compiles to an input
//! node, an output node, and nodes added to the graph; the output node must
//! be placed, after what follows the process, at a reserved id (the hole)
//! that the other nodes jump to when the process completes.

pub mod base;
pub mod seq;
pub mod control;
pub mod par;
pub mod signal;
pub mod dot;
pub mod compilation;
pub mod semantics;

use vstd::prelude::*;
use crate::value::Value;
use crate::graph::{Graph, GraphView};
use crate::node::{Node, NEnd, lemma_targets_mono};
use crate::signal::SignalRuntimeRef;
use crate::process::compilation::{compiles, stage, close_link};
use crate::process::base::{PNothing, PValue, PFnMut, PFnOnce, PJump, Pause};
use crate::process::seq::PSeq;
use crate::process::control::{PChoice, PLoop};
use crate::process::par::{Par, BigPar};
use crate::process::signal::{PreD, PreS, PreSIn, EmitD, EmitS, EmitSIn, EmitVecS, EmitVS, EmitVVecS, AwaitD,
    AwaitS, AwaitSIn, AwaitImmediateD, AwaitImmediateS, PresentD, PresentS};

verus! {

broadcast use vstd::std_specs::vec::group_vec_axioms;

/// A reactive process whose user functions have type `F`.
pub enum Process<F> {
    PNothing(PNothing),
    PValue(PValue),
    PFnMut(PFnMut<F>),
    PFnOnce(PFnOnce<F>),
    PJump(PJump),
    Pause(Pause),
    PSeq(PSeq<F>),
    PChoice(PChoice<F>),
    PLoop(PLoop<F>),
    Par(Par<F>),
    BigPar(BigPar<F>),
    PreD(PreD),
    PreS(PreS),
    PreSIn(PreSIn),
    EmitD(EmitD),
    EmitS(EmitS),
    EmitSIn(EmitSIn),
    EmitVecS(EmitVecS),
    EmitVS(EmitVS),
    EmitVVecS(EmitVVecS),
    AwaitD(AwaitD),
    AwaitS(AwaitS),
    AwaitSIn(AwaitSIn),
    AwaitImmediateD(AwaitImmediateD),
    AwaitImmediateS(AwaitImmediateS),
    PresentD(PresentD<F>),
    PresentS(PresentS<F>),
}

/// The result of the compilation of a process: a single node for an
/// immediate process; otherwise the input node, the reserved id for the
/// output node, and the output node.
pub enum Compiled {
    Im(Node),
    NotIm(Node, usize, Node),
}

/// `g1` extends `g0`: the nodes of `g0` are kept, the new ids are all set
/// but `hole`, which is new; the user functions of `g0` are kept, the
/// signals are unchanged and the other memory only grows.
pub open spec fn extends<F>(g0: Graph<F>, g1: Graph<F>, hole: Option<usize>) -> bool {
    &&& g0.nodes@.len() <= g1.nodes@.len()
    &&& forall|i: int| 0 <= i < g0.nodes@.len() ==> #[trigger] g1.nodes@[i] == g0.nodes@[i]
    &&& forall|i: int| g0.nodes@.len() <= i < g1.nodes@.len() ==>
            ((#[trigger] g1.nodes@[i]) is None <==> (hole is Some && hole->0 == i))
    &&& hole is Some ==> g0.nodes@.len() <= hole->0 < g1.nodes@.len()
    &&& g0.fns@.len() <= g1.fns@.len()
    &&& forall|i: int| 0 <= i < g0.fns@.len() ==> #[trigger] g1.fns@[i] == g0.fns@[i]
    &&& g1.mem.signals == g0.mem.signals
    &&& g0.mem.cells@.len() <= g1.mem.cells@.len()
    &&& g0.mem.joins@.len() <= g1.mem.joins@.len()
    &&& g0.mem.big_joins@.len() <= g1.mem.big_joins@.len()
}

/// What the compilation of a process guarantees, `im` telling whether the
/// process is immediate.
pub open spec fn compiled_ok<F>(g0: Graph<F>, g1: Graph<F>, c: Compiled, im: bool) -> bool {
    match c {
        Compiled::Im(n) => im && extends(g0, g1, None) && n.targets_ok(g1.nodes@.len() as nat),
        Compiled::NotIm(ni, hole, no) => !im && extends(g0, g1, Some(hole))
            && ni.targets_ok(g1.nodes@.len() as nat) && no.targets_ok(g1.nodes@.len() as nat),
    }
}

impl<F: FnMut(Value) -> Value> Process<F> {
    /// Every user function of the process accepts every value.
    pub open spec fn fns_ok(self) -> bool
        decreases self,
    {
        match self {
            Process::PFnMut(p) => forall|v: Value| call_requires(p.0, (v,)),
            Process::PFnOnce(p) => forall|v: Value| call_requires(p.0, (v,)),
            Process::PSeq(p) => p.0.fns_ok() && p.1.fns_ok(),
            Process::PChoice(p) => p.0.fns_ok() && p.1.fns_ok(),
            Process::PLoop(p) => p.0.fns_ok(),
            Process::Par(p) => p.0.fns_ok() && p.1.fns_ok(),
            Process::BigPar(p) => forall|i: int| 0 <= i < p.0@.len() ==> (#[trigger] p.0[i]).fns_ok(),
            Process::PresentD(p) => p.pt.fns_ok() && p.pf.fns_ok(),
            Process::PresentS(p) => p.pt.fns_ok() && p.pf.fns_ok(),
            _ => true,
        }
    }

    /// Whether the process is immediate.
    pub open spec fn is_im(self) -> bool
        decreases self,
    {
        match self {
            Process::PNothing(_) => true,
            Process::PValue(_) => true,
            Process::PFnMut(_) => true,
            Process::PFnOnce(_) => true,
            Process::PSeq(p) => p.0.is_im() && p.1.is_im(),
            Process::PChoice(p) => p.0.is_im() && p.1.is_im(),
            Process::PLoop(p) => p.0.is_im(),
            Process::Par(p) => p.0.is_im() && p.1.is_im(),
            Process::PreD(_) => true,
            Process::PreS(_) => true,
            Process::PreSIn(_) => true,
            Process::EmitD(_) => true,
            Process::EmitS(_) => true,
            Process::EmitSIn(_) => true,
            Process::EmitVecS(_) => true,
            Process::EmitVS(_) => true,
            Process::EmitVVecS(_) => true,
            _ => false,
        }
    }

    /// Whether the process is immediate.
    pub fn is_immediate(&self) -> (r: bool)
        ensures
            r == self.is_im(),
        decreases self,
    {
        match self {
            Process::PNothing(_) => true,
            Process::PValue(_) => true,
            Process::PFnMut(_) => true,
            Process::PFnOnce(_) => true,
            Process::PSeq(p) => p.0.is_immediate() && p.1.is_immediate(),
            Process::PChoice(p) => p.0.is_immediate() && p.1.is_immediate(),
            Process::PLoop(p) => p.0.is_immediate(),
            Process::Par(p) => p.0.is_immediate() && p.1.is_immediate(),
            Process::PreD(_) => true,
            Process::PreS(_) => true,
            Process::PreSIn(_) => true,
            Process::EmitD(_) => true,
            Process::EmitS(_) => true,
            Process::EmitSIn(_) => true,
            Process::EmitVecS(_) => true,
            Process::EmitVS(_) => true,
            Process::EmitVVecS(_) => true,
            _ => false,
        }
    }

    /// Compiles the process into the complete graph `g`, followed by the end
    /// of the whole process; returns the completed graph and the id of the
    /// node that starts the process.
    pub fn compile_to_graph(self, g: Graph<F>) -> (r: (Graph<F>, usize))
        requires
            g.wf(),
            g.closed(),
            g.complete(),
            self.fns_ok(),
        ensures
            r.0.wf(),
            r.0.closed(),
            r.0.complete(),
            r.1 < r.0.nodes@.len(),
            r.0.mem.signals == g.mem.signals,
            r.0.fns@.len() >= g.fns@.len(),
            forall|i: int| 0 <= i < g.fns@.len() ==> #[trigger] r.0.fns@[i] == g.fns@[i],
            forall|i: int| 0 <= i < g.nodes@.len() ==> #[trigger] r.0.nodes@[i] == g.nodes@[i],
            exists|c: Compiled, v: GraphView<F>| #[trigger] stage(c, v) && compiles(self, g@, c, v)
                && (r.0@, r.1) == close_link(c, v),
    {
        let mut g = g;
        let ghost g0 = g;
        let c = self.compile(&mut g);
        let ghost g1 = g;
        proof {
            assert(stage(c, g1@));
        }
        let ghost link = close_link(c, g1@);
        let end = Node::NEnd(NEnd {});
        match c {
            Compiled::Im(pnio) => {
                proof { lemma_targets_mono(pnio, g1.nodes@.len() as nat, g1.nodes@.len() + 1); }
                let start = g.add(pnio.nseq(end));
                proof {
                    assert forall|i: int| 0 <= i < g.nodes@.len() implies (#[trigger] g.nodes@[i]) is Some by {
                        if i < g1.nodes@.len() {
                            assert(g.nodes@[i] == g1.nodes@[i]);
                            if i < g0.nodes@.len() {
                                assert(g1.nodes@[i] == g0.nodes@[i]);
                            }
                        }
                    }
                }
                proof { assert(link == (g@, start)); }
                (g, start)
            },
            Compiled::NotIm(pni, pind, pno) => {
                g.set(pind, pno.nseq(end));
                proof { lemma_targets_mono(pni, g1.nodes@.len() as nat, g1.nodes@.len() + 1); }
                let start = g.add(pni);
                proof {
                    assert forall|i: int| 0 <= i < g.nodes@.len() implies (#[trigger] g.nodes@[i]) is Some by {
                        if i < g1.nodes@.len() && i != pind {
                            assert(g.nodes@[i] == g1.nodes@[i]);
                            if i < g0.nodes@.len() {
                                assert(g1.nodes@[i] == g0.nodes@[i]);
                            }
                        }
                    }
                }
                proof { assert(link == (g@, start)); }
                (g, start)
            },
        }
    }

    /// Compiles the process into `g`.
    pub fn compile(self, g: &mut Graph<F>) -> (c: Compiled)
        requires
            old(g).wf(),
            old(g).closed(),
            self.fns_ok(),
        ensures
            final(g).wf(),
            final(g).closed(),
            compiled_ok(*old(g), *final(g), c, self.is_im()),
            compiles(self, old(g)@, c, final(g)@),
        decreases self,
    {
        match self {
            Process::PNothing(p) => p.compile(g),
            Process::PValue(p) => p.compile(g),
            Process::PFnMut(p) => p.compile(g),
            Process::PFnOnce(p) => p.compile(g),
            Process::PJump(p) => p.compile(g),
            Process::Pause(p) => p.compile(g),
            Process::PSeq(p) => p.compile(g),
            Process::PChoice(p) => p.compile(g),
            Process::PLoop(p) => p.compile(g),
            Process::Par(p) => p.compile(g),
            Process::BigPar(p) => p.compile(g),
            Process::PreD(p) => p.compile(g),
            Process::PreS(p) => p.compile(g),
            Process::PreSIn(p) => p.compile(g),
            Process::EmitD(p) => p.compile(g),
            Process::EmitS(p) => p.compile(g),
            Process::EmitSIn(p) => p.compile(g),
            Process::EmitVecS(p) => p.compile(g),
            Process::EmitVS(p) => p.compile(g),
            Process::EmitVVecS(p) => p.compile(g),
            Process::AwaitD(p) => p.compile(g),
            Process::AwaitS(p) => p.compile(g),
            Process::AwaitSIn(p) => p.compile(g),
            Process::AwaitImmediateD(p) => p.compile(g),
            Process::AwaitImmediateS(p) => p.compile(g),
            Process::PresentD(p) => p.compile(g),
            Process::PresentS(p) => p.compile(g),
        }
    }
}

} // verus!
