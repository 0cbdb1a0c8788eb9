//! What the compilation of a process produces: the nodes it returns and
//! what it adds to the graph, construct by construct.

use vstd::prelude::*;
use crate::value::Value;
use crate::graph::GraphView;
use crate::node::{Node, NEnd, Nothing, NSeq, NIdentity, NValue, NFnMut, NFnOnce};
use crate::node::control::{NJump, NPause, NChoice, LoopIm};
use crate::node::mem_manip::{RCell, NStore, NLoad, NLoadCopy};
use crate::node::par::{Ignore, GenP, Ignore2, NPar, NSetVar1, NSetVar2, NMerge, NBigPar, NBigMerge, Rcjp, Rcbjp};
use crate::node::signal::{NEmitD, NEmitS, NEmitVecS, NEmitVS, NEmitVVecS, NGetD, NGetS, NGetSIn, NAwaitD,
    NAwaitS, NAwaitImmediateD, NAwaitImmediateS, NPresentD, NPresentS};
use crate::process::{Process, Compiled};
use crate::process::base::{PFnMut, PFnOnce};
use crate::process::signal::{PreD, PreS, PreSIn, EmitD, EmitS, EmitSIn, EmitVecS, EmitVS, EmitVVecS, AwaitD,
    AwaitS, AwaitSIn, AwaitImmediateD, AwaitImmediateS};

verus! {

/// A trigger marker, always true, for an intermediate result of a
/// compilation in the existential quantifiers of `compiles`, whose recursive
/// calls cannot serve as triggers; a proof that provides a witness asserts
/// the marker on it.
pub open spec fn stage<F>(c: Compiled, v: GraphView<F>) -> bool {
    true
}

/// A trigger marker, always true, for the state of a compilation of many
/// processes in `compiles` and `big_par_compiles` (see `stage`).
pub open spec fn list_stage<F>(ds: Seq<usize>, v: GraphView<F>) -> bool {
    true
}

/// The node running `a`, then `b` on its output.
pub open spec fn seq_node(a: Node, b: Node) -> Node {
    Node::NSeq(NSeq { n1: Box::new(a), n2: Box::new(b) })
}

/// The node running `t` or `f` depending on its input.
pub open spec fn choice_node(t: Node, f: Node) -> Node {
    Node::NChoice(NChoice { nt: Box::new(t), nf: Box::new(f) })
}

/// The node running `a` and `b` on the components of its input.
pub open spec fn par_node(a: Node, b: Node) -> Node {
    Node::NPar(NPar { n1: Box::new(a), n2: Box::new(b) })
}

/// The node running `n`, storing its output in `rc` and jumping to `out`.
pub open spec fn branch_end(n: Node, rc: RCell, out: usize) -> Node {
    seq_node(seq_node(n, Node::NStore(NStore(rc))), Node::NJump(NJump { dest: out }))
}

/// The sequence of two compiled processes, from the graph `v` after both.
pub open spec fn seq_link<F>(ca: Compiled, cb: Compiled, v: GraphView<F>) -> (Compiled, GraphView<F>) {
    match (ca, cb) {
        (Compiled::NotIm(pni, pind, pno), Compiled::NotIm(qni, qind, qno)) =>
            (Compiled::NotIm(pni, qind, qno), v.set(pind, seq_node(pno, qni))),
        (Compiled::NotIm(pni, pind, pno), Compiled::Im(qnio)) =>
            (Compiled::NotIm(pni, pind, seq_node(pno, qnio)), v),
        (Compiled::Im(pnio), Compiled::NotIm(qni, qind, qno)) =>
            (Compiled::NotIm(seq_node(pnio, qni), qind, qno), v),
        (Compiled::Im(pnio), Compiled::Im(qnio)) =>
            (Compiled::Im(seq_node(pnio, qnio)), v),
    }
}

/// The branch of a choice that starts at `c`: its first node, and the graph
/// where its output node, if any, stores into `rc` and jumps to `out`.
pub open spec fn choice_branch<F>(c: Compiled, rc: RCell, out: usize, v: GraphView<F>) -> (Node, GraphView<F>) {
    match c {
        Compiled::NotIm(ni, h, no) => (ni, v.set(h, branch_end(no, rc, out))),
        Compiled::Im(n) => (branch_end(n, rc, out), v),
    }
}

/// The choice between two compiled processes, from the graph `v` after both.
pub open spec fn choice_link<F>(ct: Compiled, cf: Compiled, v: GraphView<F>) -> (Compiled, GraphView<F>) {
    match (ct, cf) {
        (Compiled::Im(t), Compiled::Im(f)) => (Compiled::Im(choice_node(t, f)), v),
        _ => {
            let rc = v.next_cell();
            let v1 = v.new_cell();
            let out = v1.next_id();
            let v2 = v1.reserve();
            let (tb, v3) = choice_branch(ct, rc, out, v2);
            let (fb, v4) = choice_branch(cf, rc, out, v3);
            (Compiled::NotIm(choice_node(tb, fb), out, Node::NLoad(NLoad(rc))), v4)
        },
    }
}

/// The loop of a compiled process, from the graph `v` after it.
pub open spec fn loop_link<F>(c: Compiled, v: GraphView<F>) -> (Compiled, GraphView<F>) {
    match c {
        Compiled::Im(n) => (Compiled::Im(Node::LoopIm(LoopIm(Box::new(n)))), v),
        Compiled::NotIm(pni, pind, pno) => {
            let rcin = v.next_cell();
            let v1 = v.new_cell();
            let rcout = v1.next_cell();
            let v2 = v1.new_cell();
            let in_id = v2.next_id();
            let v3 = v2.add(seq_node(Node::NLoad(NLoad(rcin)), pni));
            let out_id = v3.next_id();
            let v4 = v3.reserve();
            let cont = seq_node(Node::NStore(NStore(rcin)), Node::NJump(NJump { dest: in_id }));
            let stop = seq_node(Node::NStore(NStore(rcout)), Node::NJump(NJump { dest: out_id }));
            (Compiled::NotIm(cont, out_id, Node::NLoad(NLoad(rcout))), v4.set(pind, seq_node(pno, choice_node(cont, stop))))
        },
    }
}

/// Two compiled processes in parallel, from the graph `v` after both.
pub open spec fn par_link<F>(ca: Compiled, cb: Compiled, v: GraphView<F>) -> (Compiled, GraphView<F>) {
    match (ca, cb) {
        (Compiled::NotIm(pni, pind, pno), Compiled::NotIm(qni, qind, qno)) => {
            let out = v.next_id();
            let v1 = v.reserve();
            let rc = Rcjp { id: v1.joins.len() as usize };
            let v2 = v1.new_join();
            let v3 = v2.set(pind, seq_node(pno, Node::NSetVar1(NSetVar1 { rc, dest: out })));
            let v4 = v3.set(qind, seq_node(qno, Node::NSetVar2(NSetVar2 { rc, dest: out })));
            (Compiled::NotIm(seq_node(par_node(pni, qni), Node::Ignore(Ignore {})), out, Node::NMerge(NMerge { rc })), v4)
        },
        (Compiled::Im(pnio), Compiled::NotIm(qni, qind, qno)) => {
            let rc = v.next_cell();
            let ni = seq_node(par_node(seq_node(pnio, Node::NStore(NStore(rc))), qni), Node::Ignore(Ignore {}));
            let no = seq_node(Node::GenP(GenP {}), par_node(Node::NLoad(NLoad(rc)), qno));
            (Compiled::NotIm(ni, qind, no), v.new_cell())
        },
        (Compiled::NotIm(pni, pind, pno), Compiled::Im(qnio)) => {
            let rc = v.next_cell();
            let ni = seq_node(par_node(pni, seq_node(qnio, Node::NStore(NStore(rc)))), Node::Ignore(Ignore {}));
            let no = seq_node(Node::GenP(GenP {}), par_node(pno, Node::NLoad(NLoad(rc))));
            (Compiled::NotIm(ni, pind, no), v.new_cell())
        },
        (Compiled::Im(pnio), Compiled::Im(qnio)) => (Compiled::Im(par_node(pnio, qnio)), v),
    }
}

/// One process of a `big_join` placed in the graph `v` after its
/// compilation `c`: the id of its first main node, and the graph.
pub open spec fn big_step<F>(c: Compiled, rcb: Rcbjp, rcin: RCell, v: GraphView<F>) -> (usize, GraphView<F>) {
    match c {
        Compiled::NotIm(pni, pind, pno) => {
            let v1 = v.set(pind, seq_node(pno, Node::NBigMerge(NBigMerge { rc: rcb })));
            (v1.next_id(), v1.add(seq_node(Node::NLoadCopy(NLoadCopy(rcin)), pni)))
        },
        Compiled::Im(n) => (v.next_id(), v.add(seq_node(seq_node(Node::NLoadCopy(NLoadCopy(rcin)), n),
            Node::NBigMerge(NBigMerge { rc: rcb })))),
    }
}

/// The two compiled branches of a presence test placed in the graph `v`
/// after both: each stores its output in a fresh cell and jumps to a fresh
/// reserved id. Gives the main nodes that start the branches, that id, the
/// cell and the graph.
pub open spec fn place_link<F>(ct: Compiled, cf: Compiled, v: GraphView<F>) -> (usize, usize, usize, RCell, GraphView<F>) {
    let rc = v.next_cell();
    let v1 = v.new_cell();
    let out = v1.next_id();
    let v2 = v1.reserve();
    let (f0, v3) = match cf {
        Compiled::Im(n) => (v2.next_id(), v2.add(branch_end(n, rc, out))),
        Compiled::NotIm(_, _, _) => (0usize, v2),
    };
    let (t0, v4) = match ct {
        Compiled::Im(n) => (v3.next_id(), v3.add(branch_end(n, rc, out))),
        Compiled::NotIm(_, h, no) => (0usize, v3.set(h, branch_end(no, rc, out))),
    };
    let v5 = match cf {
        Compiled::NotIm(_, h, no) => v4.set(h, branch_end(no, rc, out)),
        Compiled::Im(_) => v4,
    };
    let (t, v6) = match ct {
        Compiled::NotIm(ni, _, _) => (v5.next_id(), v5.add(ni)),
        Compiled::Im(_) => (t0, v5),
    };
    let (f, v7) = match cf {
        Compiled::NotIm(ni, _, _) => (v6.next_id(), v6.add(ni)),
        Compiled::Im(_) => (f0, v6),
    };
    (t, f, out, rc, v7)
}

/// The compilation of a presence test: the test node built by `test` from
/// the main nodes that start the branches.
pub open spec fn present_link<F>(ct: Compiled, cf: Compiled, v: GraphView<F>, test: spec_fn(usize, usize) -> Node)
    -> (Compiled, GraphView<F>) {
    let (t, f, out, rc, v1) = place_link(ct, cf, v);
    (Compiled::NotIm(test(t, f), out, Node::NLoad(NLoad(rc))), v1)
}

/// What the compilation of an immediate process that adds nothing to the
/// graph returns.
pub open spec fn leaf_node<F>(p: Process<F>) -> Node {
    match p {
        Process::PValue(q) => Node::NValue(NValue(q.0)),
        Process::PreD(q) => Node::NGetD(NGetD { with_in: q.with_in }),
        Process::PreS(q) => Node::NGetS(NGetS(q.0)),
        Process::PreSIn(q) => Node::NGetSIn(NGetSIn(q.0)),
        Process::EmitD(q) => Node::NEmitD(NEmitD { vec: q.vec, with_in: q.with_in }),
        Process::EmitS(q) => Node::NEmitS(NEmitS { signal: q.0, with_in: false }),
        Process::EmitSIn(q) => Node::NEmitS(NEmitS { signal: q.0, with_in: true }),
        Process::EmitVecS(q) => Node::NEmitVecS(NEmitVecS { signals: q.signals, with_in: q.with_in }),
        Process::EmitVS(q) => Node::NEmitVS(NEmitVS { signal: q.0, value: q.1 }),
        Process::EmitVVecS(q) => Node::NEmitVVecS(NEmitVVecS(q.0)),
        _ => Node::Nothing(Nothing {}),
    }
}

/// What the compilation of a process that waits for a signal returns, and
/// the graph it leaves, from the graph `v0`.
pub open spec fn await_compiled<F>(p: Process<F>, v0: GraphView<F>) -> (Compiled, GraphView<F>) {
    let out = v0.next_id();
    let v1 = v0.reserve();
    let rc = v1.next_cell();
    let v2 = v1.new_cell();
    match p {
        Process::AwaitD(q) => {
            let first = if q.with_in {
                par_node(Node::NAwaitD(NAwaitD(out)), Node::NIdentity(NIdentity {}))
            } else {
                Node::NAwaitD(NAwaitD(out))
            };
            (Compiled::NotIm(seq_node(first, Node::NStore(NStore(rc))), out,
                seq_node(Node::NLoad(NLoad(rc)), Node::NGetD(NGetD { with_in: q.with_in }))), v2)
        },
        Process::AwaitS(q) => (Compiled::NotIm(Node::NAwaitS(NAwaitS(q.0, out)), out, Node::NGetS(NGetS(q.0))), v1),
        Process::AwaitSIn(q) => (Compiled::NotIm(seq_node(Node::NStore(NStore(rc)), Node::NAwaitS(NAwaitS(q.0, out))), out,
            seq_node(Node::GenP(GenP {}), par_node(Node::NGetS(NGetS(q.0)), Node::NLoad(NLoad(rc))))), v2),
        Process::AwaitImmediateD(q) => if q.with_in {
            (Compiled::NotIm(seq_node(seq_node(par_node(Node::NIdentity(NIdentity {}), Node::NStore(NStore(rc))),
                Node::Ignore2(Ignore2 {})), Node::NAwaitImmediateD(NAwaitImmediateD(out))), out, Node::NLoad(NLoad(rc))), v2)
        } else {
            (Compiled::NotIm(Node::NAwaitImmediateD(NAwaitImmediateD(out)), out, Node::Nothing(Nothing {})), v1)
        },
        Process::AwaitImmediateS(q) => (Compiled::NotIm(seq_node(Node::NStore(NStore(rc)),
            Node::NAwaitImmediateS(NAwaitImmediateS(q.0, out))), out, Node::NLoad(NLoad(rc))), v2),
        _ => (Compiled::Im(Node::Nothing(Nothing {})), v0),
    }
}

/// A compiled process followed by the end of the whole process, from the
/// graph `v` after its compilation: the complete graph, and the id of the
/// node that starts the process.
pub open spec fn close_link<F>(c: Compiled, v: GraphView<F>) -> (GraphView<F>, usize) {
    match c {
        Compiled::Im(n) => (v.add(seq_node(n, Node::NEnd(NEnd {}))), v.next_id()),
        Compiled::NotIm(ni, h, no) => {
            let v1 = v.set(h, seq_node(no, Node::NEnd(NEnd {})));
            (v1.add(ni), v1.next_id())
        },
    }
}

/// What the compilation of a `big_join` returns: it stores its input in
/// `rcin` and starts the main nodes `ds`; it ends at `ep`, with `()`.
pub open spec fn big_par_result(c: Compiled, ep: usize, rcin: RCell, ds: Seq<usize>) -> bool {
    match c {
        Compiled::NotIm(Node::NSeq(s), h, no) => h == ep && no == Node::Nothing(Nothing {})
            && *s.n1 == Node::NStore(NStore(rcin))
            && match *s.n2 {
                Node::NBigPar(b) => b.dests@ == ds,
                _ => false,
            },
        _ => false,
    }
}

/// Compiling the process `p` in the graph `v0` returns `c` and leaves the
/// graph `v1`.
pub open spec fn compiles<F: FnMut(Value) -> Value>(p: Process<F>, v0: GraphView<F>, c: Compiled, v1: GraphView<F>) -> bool
    decreases p, 1nat, 0nat,
{
    match p {
        Process::PNothing(_) => c == Compiled::Im(Node::Nothing(Nothing {})) && v1 == v0,
        Process::PFnMut(q) => c == Compiled::Im(Node::NFnMut(NFnMut(v0.fns.len() as usize))) && v1 == v0.add_fn(q.0),
        Process::PFnOnce(q) => c == Compiled::Im(Node::NFnOnce(NFnOnce { f: v0.fns.len() as usize, armed: v0.next_cell() }))
            && v1 == v0.add_fn(q.0).new_cell_with(Value::Unit),
        Process::PJump(_) => {
            let rc = v0.next_cell();
            let va = v0.new_cell();
            let out = va.next_id();
            c == Compiled::NotIm(seq_node(Node::NStore(NStore(rc)), Node::NJump(NJump { dest: out })), out, Node::NLoad(NLoad(rc)))
                && v1 == va.reserve()
        },
        Process::Pause(_) => {
            let rc = v0.next_cell();
            let va = v0.new_cell();
            let out = va.next_id();
            c == Compiled::NotIm(seq_node(Node::NStore(NStore(rc)), Node::NPause(NPause { dest: out })), out, Node::NLoad(NLoad(rc)))
                && v1 == va.reserve()
        },
        Process::PSeq(q) => exists|ca: Compiled, va: GraphView<F>, cb: Compiled, vb: GraphView<F>|
            #[trigger] stage(ca, va) && #[trigger] stage(cb, vb)
            && compiles(*q.0, v0, ca, va) && compiles(*q.1, va, cb, vb) && (c, v1) == seq_link(ca, cb, vb),
        Process::PChoice(q) => exists|ca: Compiled, va: GraphView<F>, cb: Compiled, vb: GraphView<F>|
            #[trigger] stage(ca, va) && #[trigger] stage(cb, vb)
            && compiles(*q.0, v0, ca, va) && compiles(*q.1, va, cb, vb) && (c, v1) == choice_link(ca, cb, vb),
        Process::PLoop(q) => exists|ca: Compiled, va: GraphView<F>|
            #[trigger] stage(ca, va) && compiles(*q.0, v0, ca, va) && (c, v1) == loop_link(ca, va),
        Process::Par(q) => exists|ca: Compiled, va: GraphView<F>, cb: Compiled, vb: GraphView<F>|
            #[trigger] stage(ca, va) && #[trigger] stage(cb, vb)
            && compiles(*q.0, v0, ca, va) && compiles(*q.1, va, cb, vb) && (c, v1) == par_link(ca, cb, vb),
        Process::BigPar(q) => {
            let ep = v0.next_id();
            let va = v0.reserve();
            let rcb = Rcbjp { id: va.big_joins.len() as usize };
            let vb = va.new_big_join(q.0@.len() as usize, ep);
            let rcin = vb.next_cell();
            let vc = vb.new_cell();
            exists|ds: Seq<usize>, vd: GraphView<F>| #[trigger] list_stage(ds, vd)
                && big_par_compiles(p, q.0@.len() as nat, rcb, rcin, vc, ds, vd)
                && v1 == vd && big_par_result(c, ep, rcin, ds)
        },
        Process::AwaitD(_) | Process::AwaitS(_) | Process::AwaitSIn(_) | Process::AwaitImmediateD(_)
            | Process::AwaitImmediateS(_) => (c, v1) == await_compiled(p, v0),
        Process::PresentD(q) => exists|ct: Compiled, vt: GraphView<F>, cf: Compiled, vf: GraphView<F>|
            #[trigger] stage(ct, vt) && #[trigger] stage(cf, vf)
            && if q.pf.is_im() {
                compiles(*q.pf, v0, cf, vf) && compiles(*q.pt, vf, ct, vt)
                    && (c, v1) == present_link(ct, cf, vt, |t: usize, f: usize| Node::NPresentD(NPresentD { node_true: t, node_false: f }))
            } else {
                compiles(*q.pt, v0, ct, vt) && compiles(*q.pf, vt, cf, vf)
                    && (c, v1) == present_link(ct, cf, vf, |t: usize, f: usize| Node::NPresentD(NPresentD { node_true: t, node_false: f }))
            },
        Process::PresentS(q) => exists|ct: Compiled, vt: GraphView<F>, cf: Compiled, vf: GraphView<F>|
            #[trigger] stage(ct, vt) && #[trigger] stage(cf, vf)
            && if q.pf.is_im() {
                compiles(*q.pf, v0, cf, vf) && compiles(*q.pt, vf, ct, vt)
                    && (c, v1) == present_link(ct, cf, vt, |t: usize, f: usize|
                        Node::NPresentS(NPresentS { node_true: t, node_false: f, signal_runtime: q.signal_runtime }))
            } else {
                compiles(*q.pt, v0, ct, vt) && compiles(*q.pf, vt, cf, vf)
                    && (c, v1) == present_link(ct, cf, vf, |t: usize, f: usize|
                        Node::NPresentS(NPresentS { node_true: t, node_false: f, signal_runtime: q.signal_runtime }))
            },
        _ => c == Compiled::Im(leaf_node(p)) && v1 == v0,
    }
}

/// Compiling the first `k` processes of the `big_join` `p` in turn, from
/// the graph `v0`, each placed with `big_step`, gives the ids `ds` of their
/// first main nodes and leaves the graph `v1`.
pub open spec fn big_par_compiles<F: FnMut(Value) -> Value>(p: Process<F>, k: nat, rcb: Rcbjp, rcin: RCell,
    v0: GraphView<F>, ds: Seq<usize>, v1: GraphView<F>) -> bool
    decreases p, 0nat, k,
{
    match p {
        Process::BigPar(q) => {
            if k == 0 || k > q.0@.len() {
                k == 0 && ds.len() == 0 && v1 == v0
            } else {
                proof {
                    assert(decreases_to!(p => q));
                    assert(decreases_to!(q => q.0));
                    assert(decreases_to!(q.0 => q.0[k - 1]));
                }
                exists|dp: Seq<usize>, vp: GraphView<F>, c: Compiled, va: GraphView<F>|
                    #[trigger] list_stage(dp, vp) && #[trigger] stage(c, va)
                    && big_par_compiles(p, (k - 1) as nat, rcb, rcin, v0, dp, vp)
                    && compiles(q.0[k - 1], vp, c, va)
                    && ds == dp.push(big_step(c, rcb, rcin, va).0)
                    && v1 == big_step(c, rcb, rcin, va).1
            }
        },
        _ => false,
    }
}

} // verus!
