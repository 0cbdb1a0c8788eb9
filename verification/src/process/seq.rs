//! Sequence: `p.seq(q)` runs `p`, then `q` on the output of `p`.

use vstd::prelude::*;
use crate::value::Value;
use crate::graph::Graph;
use crate::node::{Node, lemma_targets_mono};
use crate::process::compilation::{compiles, stage, seq_link};
use crate::process::{Process, Compiled, extends, compiled_ok};

verus! {

/// The sequence of two processes.
pub struct PSeq<F>(pub Box<Process<F>>, pub Box<Process<F>>);

impl<F: FnMut(Value) -> Value> PSeq<F> {
    pub fn compile(self, g: &mut Graph<F>) -> (c: Compiled)
        requires
            old(g).wf(),
            old(g).closed(),
            self.0.fns_ok(),
            self.1.fns_ok(),
        ensures
            compiles(Process::<F>::PSeq(self), old(g)@, c, final(g)@),
            final(g).wf(),
            final(g).closed(),
            compiled_ok(*old(g), *final(g), c, self.0.is_im() && self.1.is_im()),
        decreases self,
    {
        let ghost g0 = *g;
        let PSeq(p, q) = self;
        let cp = (*p).compile(g);
        let ghost g1 = *g;
        let cq = (*q).compile(g);
        let ghost g2 = *g;
        let ghost b1 = g1.nodes@.len() as nat;
        let ghost b2 = g2.nodes@.len() as nat;
        proof {
            assert(stage(cp, g1@) && stage(cq, g2@));
        }
        let ghost link = seq_link(cp, cq, g2@);
        match cp {
            Compiled::NotIm(pni, pind, pno) => {
                proof {
                    lemma_targets_mono(pni, b1, b2);
                    lemma_targets_mono(pno, b1, b2);
                }
                match cq {
                    Compiled::NotIm(qni, qind, qno) => {
                        let n = pno.nseq(qni);
                        g.set(pind, n);
                        proof {
                            assert forall|i: int| g0.nodes@.len() <= i < g.nodes@.len() implies
                                ((#[trigger] g.nodes@[i]) is None <==> qind == i) by {
                                if i < g1.nodes@.len() {
                                    assert(g2.nodes@[i] == g1.nodes@[i]);
                                }
                            }
                        }
                        proof { assert(link == (Compiled::NotIm(pni, qind, qno), g@)); }
                        Compiled::NotIm(pni, qind, qno)
                    },
                    Compiled::Im(qnio) => {
                        proof {
                            assert forall|i: int| g0.nodes@.len() <= i < g.nodes@.len() implies
                                ((#[trigger] g.nodes@[i]) is None <==> pind == i) by {
                                if i < g1.nodes@.len() {
                                    assert(g2.nodes@[i] == g1.nodes@[i]);
                                } else {
                                    assert(g2.nodes@[i] is Some);
                                }
                            }
                        }
                        Compiled::NotIm(pni, pind, pno.nseq(qnio))
                    },
                }
            },
            Compiled::Im(pnio) => {
                proof {
                    lemma_targets_mono(pnio, b1, b2);
                }
                match cq {
                    Compiled::NotIm(qni, qind, qno) => {
                        proof {
                            assert forall|i: int| g0.nodes@.len() <= i < g.nodes@.len() implies
                                ((#[trigger] g.nodes@[i]) is None <==> qind == i) by {
                                if i < g1.nodes@.len() {
                                    assert(g2.nodes@[i] == g1.nodes@[i]);
                                }
                            }
                        }
                        Compiled::NotIm(pnio.nseq(qni), qind, qno)
                    },
                    Compiled::Im(qnio) => {
                        proof {
                            assert forall|i: int| g0.nodes@.len() <= i < g.nodes@.len() implies
                                ((#[trigger] g.nodes@[i]) is None <==> false) by {
                                if i < g1.nodes@.len() {
                                    assert(g2.nodes@[i] == g1.nodes@[i]);
                                }
                            }
                        }
                        Compiled::Im(pnio.nseq(qnio))
                    },
                }
            },
        }
    }
}

impl<F: FnMut(Value) -> Value> Process<F> {
    /// `p.seq(q)` runs `p`, then `q` on the output of `p`.
    pub fn seq(self, q: Process<F>) -> (r: Process<F>)
        ensures
            r == Process::PSeq(PSeq(Box::new(self), Box::new(q))),
    {
        Process::PSeq(PSeq(Box::new(self), Box::new(q)))
    }
}

} // verus!
