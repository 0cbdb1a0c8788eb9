//! Control structures: `choice` and `loop`.

use vstd::prelude::*;
use crate::value::Value;
use crate::graph::Graph;
use crate::node::{Node, lemma_targets_mono};
use crate::node::control::{NJump, LoopIm};
use crate::node::mem_manip::{RCell, NStore, NLoad};
use crate::process::compilation::{compiles, stage, choice_link, loop_link};
use crate::process::{Process, Compiled, extends, compiled_ok};

verus! {

/// `p.choice(q)`: runs `p` on `x` when the input is `True(x)`, `q` on `x`
/// when it is `False(x)`; both return the output of the construct.
pub struct PChoice<F>(pub Box<Process<F>>, pub Box<Process<F>>);

impl<F: FnMut(Value) -> Value> PChoice<F> {
    pub fn compile(self, g: &mut Graph<F>) -> (c: Compiled)
        requires
            old(g).wf(),
            old(g).closed(),
            self.0.fns_ok(),
            self.1.fns_ok(),
        ensures
            compiles(Process::<F>::PChoice(self), old(g)@, c, final(g)@),
            final(g).wf(),
            final(g).closed(),
            compiled_ok(*old(g), *final(g), c, self.0.is_im() && self.1.is_im()),
        decreases self,
    {
        let ghost g0 = *g;
        let PChoice(pt, pf) = self;
        let ct = (*pt).compile(g);
        let ghost g1 = *g;
        let cf = (*pf).compile(g);
        let ghost g2 = *g;
        proof {
            assert forall|i: int| 0 <= i < g1.nodes@.len() implies #[trigger] g2.nodes@[i] == g1.nodes@[i] by {}
            assert(stage(ct, g1@) && stage(cf, g2@));
        }
        let ghost link = choice_link(ct, cf, g2@);
        match (ct, cf) {
            (Compiled::Im(ptnio), Compiled::Im(pfnio)) => {
                proof { lemma_targets_mono(ptnio, g1.nodes@.len() as nat, g2.nodes@.len() as nat); }
                Compiled::Im(ptnio.alter(pfnio))
            },
            (ct, cf) => {
                let rc = RCell::new(&mut g.mem);
                let out = g.reserve();
                let ghost g3 = *g;
                let ghost b = g3.nodes@.len() as nat;
                let tbranch = match ct {
                    Compiled::NotIm(ptni, ptind, ptno) => {
                        proof {
                            lemma_targets_mono(ptni, g1.nodes@.len() as nat, b);
                            lemma_targets_mono(ptno, g1.nodes@.len() as nat, b);
                        }
                        let n = ptno.nseq(Node::NStore(NStore(rc))).nseq(Node::NJump(NJump { dest: out }));
                        g.set(ptind, n);
                        ptni
                    },
                    Compiled::Im(ptnio) => {
                        proof { lemma_targets_mono(ptnio, g1.nodes@.len() as nat, b); }
                        ptnio.nseq(Node::NStore(NStore(rc))).nseq(Node::NJump(NJump { dest: out }))
                    },
                };
                let ghost g4 = *g;
                let fbranch = match cf {
                    Compiled::NotIm(pfni, pfind, pfno) => {
                        proof {
                            lemma_targets_mono(pfni, g2.nodes@.len() as nat, b);
                            lemma_targets_mono(pfno, g2.nodes@.len() as nat, b);
                        }
                        let n = pfno.nseq(Node::NStore(NStore(rc))).nseq(Node::NJump(NJump { dest: out }));
                        g.set(pfind, n);
                        pfni
                    },
                    Compiled::Im(pfnio) => {
                        proof { lemma_targets_mono(pfnio, g2.nodes@.len() as nat, b); }
                        pfnio.nseq(Node::NStore(NStore(rc))).nseq(Node::NJump(NJump { dest: out }))
                    },
                };
                proof {
                    assert forall|i: int| g0.nodes@.len() <= i < g.nodes@.len() implies
                        ((#[trigger] g.nodes@[i]) is None <==> out == i) by {
                        if i < g1.nodes@.len() {
                            assert(g2.nodes@[i] == g1.nodes@[i]);
                        }
                    }
                }
                let r = Compiled::NotIm(tbranch.alter(fbranch), out, Node::NLoad(NLoad(rc)));
                proof {
                    assert(link == (r, g@));
                }
                r
            },
        }
    }
}

/// `p.ploop()`: runs `p`; when `p` returns `True(x)` it runs again on `x`,
/// when it returns `False(x)` the construct returns `x`.
pub struct PLoop<F>(pub Box<Process<F>>);

impl<F: FnMut(Value) -> Value> PLoop<F> {
    pub fn compile(self, g: &mut Graph<F>) -> (c: Compiled)
        requires
            old(g).wf(),
            old(g).closed(),
            self.0.fns_ok(),
        ensures
            compiles(Process::<F>::PLoop(self), old(g)@, c, final(g)@),
            final(g).wf(),
            final(g).closed(),
            compiled_ok(*old(g), *final(g), c, self.0.is_im()),
        decreases self,
    {
        let ghost g0 = *g;
        let PLoop(p) = self;
        let cp = (*p).compile(g);
        let ghost g1 = *g;
        proof {
            assert(stage(cp, g1@));
        }
        let ghost link = loop_link(cp, g1@);
        match cp {
            Compiled::Im(pnio) => {
                Compiled::Im(Node::LoopIm(LoopIm(Box::new(pnio))))
            },
            Compiled::NotIm(pni, pind, pno) => {
                let rcin = RCell::new(&mut g.mem);
                let rcout = RCell::new(&mut g.mem);
                proof { lemma_targets_mono(pni, g1.nodes@.len() as nat, g1.nodes@.len() + 1); }
                let in_id = g.add(Node::NLoad(NLoad(rcin)).nseq(pni));
                let out_id = g.reserve();
                let ghost b = g.nodes@.len() as nat;
                proof { lemma_targets_mono(pno, g1.nodes@.len() as nat, b); }
                let cont = Node::NStore(NStore(rcin)).nseq(Node::NJump(NJump { dest: in_id }));
                let stop = Node::NStore(NStore(rcout)).nseq(Node::NJump(NJump { dest: out_id }));
                g.set(pind, pno.nseq(cont.alter(stop)));
                proof {
                    assert forall|i: int| g0.nodes@.len() <= i < g.nodes@.len() implies
                        ((#[trigger] g.nodes@[i]) is None <==> out_id == i) by {
                        if i < g1.nodes@.len() {
                            assert(g1.nodes@[i] is None <==> pind == i);
                        }
                    }
                }
                let r = Compiled::NotIm(
                    Node::NStore(NStore(rcin)).nseq(Node::NJump(NJump { dest: in_id })),
                    out_id,
                    Node::NLoad(NLoad(rcout)),
                );
                proof {
                    assert(link == (r, g@));
                }
                r
            },
        }
    }
}

impl<F: FnMut(Value) -> Value> Process<F> {
    /// `p.choice(q)` runs `p` or `q` depending on the input (see `PChoice`).
    pub fn choice(self, q: Process<F>) -> (r: Process<F>)
        ensures
            r == Process::PChoice(PChoice(Box::new(self), Box::new(q))),
    {
        Process::PChoice(PChoice(Box::new(self), Box::new(q)))
    }

    /// `p.ploop()` runs `p` as long as it returns `True` (see `PLoop`).
    pub fn ploop(self) -> (r: Process<F>)
        ensures
            r == Process::PLoop(PLoop(Box::new(self))),
    {
        Process::PLoop(PLoop(Box::new(self)))
    }
}

} // verus!
