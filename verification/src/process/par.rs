//! Parallel composition: `p.join(q)` and `big_join`.

use vstd::prelude::*;
use crate::value::Value;
use crate::graph::Graph;
use crate::node::{Node, Nothing, lemma_targets_mono};
use crate::node::mem_manip::{RCell, NStore, NLoad, NLoadCopy};
use crate::node::par::{Ignore, GenP, NSetVar1, NSetVar2, NMerge, NBigPar, NBigMerge, Rcjp, Rcbjp, BigJoinPoint};
use crate::process::compilation::{compiles, stage, list_stage, par_link, big_step, big_par_compiles, big_par_result};
use crate::process::{Process, Compiled, extends, compiled_ok};

verus! {

broadcast use vstd::std_specs::vec::group_vec_axioms;

/// `p.join(q)`: runs `p` on the first component of the input pair and `q`
/// on the second one, and returns the pair of their outputs when both are
/// done.
pub struct Par<F>(pub Box<Process<F>>, pub Box<Process<F>>);

impl<F: FnMut(Value) -> Value> Par<F> {
    pub fn compile(self, g: &mut Graph<F>) -> (c: Compiled)
        requires
            old(g).wf(),
            old(g).closed(),
            self.0.fns_ok(),
            self.1.fns_ok(),
        ensures
            compiles(Process::<F>::Par(self), old(g)@, c, final(g)@),
            final(g).wf(),
            final(g).closed(),
            compiled_ok(*old(g), *final(g), c, self.0.is_im() && self.1.is_im()),
        decreases self,
    {
        let ghost g0 = *g;
        let Par(p, q) = self;
        let cp = (*p).compile(g);
        let ghost g1 = *g;
        let cq = (*q).compile(g);
        let ghost g2 = *g;
        let ghost b1 = g1.nodes@.len() as nat;
        let ghost b2 = g2.nodes@.len() as nat;
        proof {
            assert forall|i: int| 0 <= i < g1.nodes@.len() implies #[trigger] g2.nodes@[i] == g1.nodes@[i] by {}
            assert(stage(cp, g1@) && stage(cq, g2@));
        }
        let ghost link = par_link(cp, cq, g2@);
        match (cp, cq) {
            (Compiled::NotIm(pni, pind, pno), Compiled::NotIm(qni, qind, qno)) => {
                let out_ind = g.reserve();
                let rc = Rcjp::new(&mut g.mem);
                let ghost b = g.nodes@.len() as nat;
                proof {
                    lemma_targets_mono(pni, b1, b);
                    lemma_targets_mono(pno, b1, b);
                    lemma_targets_mono(qni, b2, b);
                    lemma_targets_mono(qno, b2, b);
                }
                g.set(pind, pno.nseq(Node::NSetVar1(NSetVar1 { rc, dest: out_ind })));
                g.set(qind, qno.nseq(Node::NSetVar2(NSetVar2 { rc, dest: out_ind })));
                proof {
                    assert forall|i: int| g0.nodes@.len() <= i < g.nodes@.len() implies
                        ((#[trigger] g.nodes@[i]) is None <==> out_ind == i) by {
                        if i < g1.nodes@.len() {
                            assert(g2.nodes@[i] == g1.nodes@[i]);
                        }
                    }
                }
                let r = Compiled::NotIm(pni.njoin(qni).nseq(Node::Ignore(Ignore {})), out_ind, Node::NMerge(NMerge { rc }));
                proof {
                    assert(link == (r, g@));
                }
                r
            },
            (Compiled::Im(pnio), Compiled::NotIm(qni, qind, qno)) => {
                let rc = RCell::new(&mut g.mem);
                proof {
                    lemma_targets_mono(pnio, b1, b2);
                    assert forall|i: int| g0.nodes@.len() <= i < g.nodes@.len() implies
                        ((#[trigger] g.nodes@[i]) is None <==> qind == i) by {
                        if i < g1.nodes@.len() {
                            assert(g2.nodes@[i] == g1.nodes@[i]);
                        }
                    }
                }
                let ni = pnio.nseq(Node::NStore(NStore(rc))).njoin(qni).nseq(Node::Ignore(Ignore {}));
                let no = Node::GenP(GenP {}).nseq(Node::NLoad(NLoad(rc)).njoin(qno));
                Compiled::NotIm(ni, qind, no)
            },
            (Compiled::NotIm(pni, pind, pno), Compiled::Im(qnio)) => {
                let rc = RCell::new(&mut g.mem);
                proof {
                    lemma_targets_mono(pni, b1, b2);
                    lemma_targets_mono(pno, b1, b2);
                    assert forall|i: int| g0.nodes@.len() <= i < g.nodes@.len() implies
                        ((#[trigger] g.nodes@[i]) is None <==> pind == i) by {
                        if i < g1.nodes@.len() {
                            assert(g2.nodes@[i] == g1.nodes@[i]);
                        }
                    }
                }
                let ni = pni.njoin(qnio.nseq(Node::NStore(NStore(rc)))).nseq(Node::Ignore(Ignore {}));
                let no = Node::GenP(GenP {}).nseq(pno.njoin(Node::NLoad(NLoad(rc))));
                Compiled::NotIm(ni, pind, no)
            },
            (Compiled::Im(pnio), Compiled::Im(qnio)) => {
                proof { lemma_targets_mono(pnio, b1, b2); }
                Compiled::Im(pnio.njoin(qnio))
            },
        }
    }
}

/// Puts many processes in parallel: each one runs on a copy of the input,
/// and the construct returns `()` when all of them are done.
pub struct BigPar<F>(pub Vec<Process<F>>);

impl<F: FnMut(Value) -> Value> BigPar<F> {
    pub fn compile(self, g: &mut Graph<F>) -> (c: Compiled)
        requires
            old(g).wf(),
            old(g).closed(),
            forall|i: int| 0 <= i < self.0@.len() ==> (#[trigger] self.0[i]).fns_ok(),
        ensures
            compiles(Process::<F>::BigPar(self), old(g)@, c, final(g)@),
            final(g).wf(),
            final(g).closed(),
            compiled_ok(*old(g), *final(g), c, false),
        decreases self,
    {
        let ghost g0 = *g;
        let ghost orig = self.0@;
        let ghost whole = Process::<F>::BigPar(self);
        proof {
            assert forall|j: int| 0 <= j < orig.len() implies decreases_to!(self => #[trigger] orig[j]) by {
                assert(decreases_to!(self => self.0));
                assert(decreases_to!(self.0 => self.0[j]));
            }
        }
        let ghost procs0 = self.0;
        let BigPar(procs) = self;
        let mut procs = procs;
        let end_point = g.reserve();
        let rcbjp = Rcbjp::new(&mut g.mem, procs.len(), end_point);
        let rcin = RCell::new(&mut g.mem);
        let ghost vc = g@;
        let mut dests: Vec<usize> = Vec::new();
        let mut i: usize = 0;
        proof {
            assert(g.closed());
        }
        while i < procs.len()
            invariant
                g.wf(),
                g.closed(),
                i <= procs@.len(),
                procs@.len() == orig.len(),
                forall|j: int| i <= j < procs@.len() ==> procs@[j] == orig[j],
                forall|j: int| 0 <= j < orig.len() ==> (#[trigger] orig[j]).fns_ok(),
                forall|j: int| 0 <= j < orig.len() ==> decreases_to!(self => #[trigger] orig[j]),
                extends(g0, *g, Some(end_point)),
                end_point < g.nodes@.len(),
                rcbjp.id < g.mem.big_joins@.len(),
                forall|j: int| 0 <= j < dests@.len() ==> #[trigger] dests@[j] < g.nodes@.len(),
                whole == Process::<F>::BigPar(BigPar(procs0)),
                procs0@ == orig,
                big_par_compiles(whole, i as nat, rcbjp, rcin, vc, dests@, g@),
            decreases procs@.len() - i,
        {
            let mut p = Process::PNothing(crate::process::base::PNothing {});
            std::mem::swap(&mut p, &mut procs[i]);
            proof {
                assert(p == orig[i as int]);
            }
            let ghost gi = *g;
            let ghost d0 = dests@;
            let cp = p.compile(g);
            let ghost gj = *g;
            let ghost c0 = cp;
            match cp {
                Compiled::NotIm(pni, pind, pno) => {
                    proof {
                        lemma_targets_mono(pni, gj.nodes@.len() as nat, gj.nodes@.len() + 1);
                    }
                    g.set(pind, pno.nseq(Node::NBigMerge(NBigMerge { rc: rcbjp })));
                    let d = g.add(Node::NLoadCopy(NLoadCopy(rcin)).nseq(pni));
                    dests.push(d);
                },
                Compiled::Im(pnio) => {
                    proof {
                        lemma_targets_mono(pnio, gj.nodes@.len() as nat, gj.nodes@.len() + 1);
                    }
                    let n = Node::NLoadCopy(NLoadCopy(rcin)).nseq(pnio).nseq(Node::NBigMerge(NBigMerge { rc: rcbjp }));
                    let d = g.add(n);
                    dests.push(d);
                },
            }
            proof {
                assert forall|j: int| g0.nodes@.len() <= j < g.nodes@.len() implies
                    ((#[trigger] g.nodes@[j]) is None <==> Some(end_point) == Some(j as usize)) by {
                    if j < gi.nodes@.len() {
                        assert(gj.nodes@[j] == gi.nodes@[j]);
                    }
                }
                assert(procs0[i as int] == orig[i as int]);
                assert(dests@ == d0.push(big_step(c0, rcbjp, rcin, gj@).0));
                assert(g@ == big_step(c0, rcbjp, rcin, gj@).1);
                assert(list_stage(d0, gi@) && stage(c0, gj@));
            }
            i = i + 1;
        }
        let ghost ds = dests@;
        let ni = Node::NStore(NStore(rcin)).nseq(Node::NBigPar(NBigPar { dests }));
        let r = Compiled::NotIm(ni, end_point, Node::Nothing(Nothing {}));
        proof {
            assert(list_stage(ds, g@));
            assert(big_par_result(r, end_point, rcin, ds));
        }
        r
    }
}

/// Puts processes in parallel (see `BigPar`).
pub fn big_join<F>(vp: Vec<Process<F>>) -> (r: Process<F>)
    ensures
        r == Process::BigPar(BigPar(vp)),
{
    Process::BigPar(BigPar(vp))
}

impl<F: FnMut(Value) -> Value> Process<F> {
    /// `p.join(q)` runs `p` and `q` in parallel (see `Par`).
    pub fn join(self, q: Process<F>) -> (r: Process<F>)
        ensures
            r == Process::Par(Par(Box::new(self), Box::new(q))),
    {
        Process::Par(Par(Box::new(self), Box::new(q)))
    }
}

} // verus!
