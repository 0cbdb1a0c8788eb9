//! What compiled processes do when they run: laws that relate the nodes a
//! compilation returns to what a call of the nodes of its parts does
//! (`call_post`).

use vstd::prelude::*;
use crate::value::{Value, ChoiceData, fst, snd, as_choice, same_value};
use crate::engine::SubRuntime;
use crate::graph::GraphView;
use crate::node::{Node, call_post, midpoint, loop_post, turns};
use crate::node::control::{LoopIm, NJump};
use crate::process::{Process, Compiled};
use crate::process::control::{PChoice, PLoop};
use crate::process::par::{Par, BigPar};
use crate::process::compilation::{compiles, stage, list_stage, par_link, par_node, choice_link, choice_node, loop_link,
    seq_link, big_par_compiles, big_par_result, big_step, present_link, place_link, branch_end, seq_node};
use crate::node::mem_manip::{RCell, NStore, NLoad, NLoadCopy};
use crate::node::par::{Rcbjp, Rcjp, NBigMerge, NSetVar1, NSetVar2, NMerge};
use crate::node::signal::{NPresentD, NPresentS};
use crate::process::signal::{PresentD, PresentS};
use crate::signal::SignalRuntimeRef;

verus! {

/// The node a compiled process starts with: its single node when it is
/// immediate, its input node otherwise.
pub open spec fn entry(c: Compiled) -> Node {
    match c {
        Compiled::Im(n) => n,
        Compiled::NotIm(ni, _, _) => ni,
    }
}

/// The pair `(a, b)`.
pub open spec fn pair(a: Value, b: Value) -> Value {
    Value::Pair(Box::new(a), Box::new(b))
}

/// `True(x)`.
pub open spec fn ctrue(x: Value) -> Value {
    Value::Choice(Box::new(ChoiceData::True(x)))
}

/// `False(x)`.
pub open spec fn cfalse(x: Value) -> Value {
    Value::Choice(Box::new(ChoiceData::False(x)))
}

/// The witnesses of the compilation of two parts in turn.
pub open spec fn two_parts<F: FnMut(Value) -> Value>(p: Process<F>, q: Process<F>, v0: GraphView<F>,
    cp: Compiled, vp: GraphView<F>, cq: Compiled, vq: GraphView<F>) -> bool {
    compiles(p, v0, cp, vp) && compiles(q, vp, cq, vq)
}

/// `p.join(q)` of two immediate processes compiles to a node that, on the
/// pair `(a, b)`, runs the compiled `p` on `a`, then the compiled `q` on
/// `b`, and returns the pair of their outputs, in that order: every such
/// run of the parts is a run of the node.
pub proof fn law_join_immediate<F: FnMut(Value) -> Value>(p: Process<F>, q: Process<F>, v0: GraphView<F>,
    c: Compiled, v1: GraphView<F>)
    requires
        compiles(Process::Par(Par(Box::new(p), Box::new(q))), v0, c, v1),
        c is Im,
    ensures
        exists|cp: Compiled, vp: GraphView<F>, cq: Compiled, vq: GraphView<F>|
            #[trigger] two_parts(p, q, v0, cp, vp, cq, vq) && cp is Im && cq is Im
            && forall|s0: SubRuntime<F>, a: Value, sm: SubRuntime<F>, r1: Value, b: Value, s1: SubRuntime<F>, r2: Value|
                #[trigger] call_post(entry(cp), s0, a, sm, r1) && #[trigger] call_post(entry(cq), sm, b, s1, r2)
                ==> call_post(entry(c), s0, pair(a, b), s1, pair(r1, r2)),
{
    assert(exists|ca: Compiled, va: GraphView<F>, cb: Compiled, vb: GraphView<F>|
        #[trigger] stage(ca, va) && #[trigger] stage(cb, vb)
        && compiles(p, v0, ca, va) && compiles(q, va, cb, vb)
        && (c, v1) == par_link(ca, cb, vb));
    let (cp, vp, cq, vq) = choose|ca: Compiled, va: GraphView<F>, cb: Compiled, vb: GraphView<F>|
        #[trigger] stage(ca, va) && #[trigger] stage(cb, vb)
        && compiles(p, v0, ca, va) && compiles(q, va, cb, vb)
        && (c, v1) == par_link(ca, cb, vb);
    assert forall|s0: SubRuntime<F>, a: Value, sm: SubRuntime<F>, r1: Value, b: Value, s1: SubRuntime<F>, r2: Value|
        #[trigger] call_post(entry(cp), s0, a, sm, r1) && #[trigger] call_post(entry(cq), sm, b, s1, r2)
        implies call_post(entry(c), s0, pair(a, b), s1, pair(r1, r2)) by {
        assert(entry(c) == par_node(entry(cp), entry(cq)));
        assert(fst(pair(a, b)) == a);
        assert(snd(pair(a, b)) == b);
        assert(midpoint(sm, r1) && midpoint(sm, r2));
    }
    assert(two_parts(p, q, v0, cp, vp, cq, vq));
}

/// `p.choice(q)` of two immediate processes compiles to a node that, on
/// `True(x)`, does what the compiled `p` does on `x`, and on `False(x)`,
/// what the compiled `q` does on `x`.
pub proof fn law_choice_immediate<F: FnMut(Value) -> Value>(p: Process<F>, q: Process<F>, v0: GraphView<F>,
    c: Compiled, v1: GraphView<F>)
    requires
        compiles(Process::PChoice(PChoice(Box::new(p), Box::new(q))), v0, c, v1),
        c is Im,
    ensures
        exists|cp: Compiled, vp: GraphView<F>, cq: Compiled, vq: GraphView<F>|
            #[trigger] two_parts(p, q, v0, cp, vp, cq, vq) && cp is Im && cq is Im
            && forall|s0: SubRuntime<F>, x: Value, s1: SubRuntime<F>, r: Value|
                (#[trigger] call_post(entry(c), s0, ctrue(x), s1, r) <==> call_post(entry(cp), s0, x, s1, r))
                && (#[trigger] call_post(entry(c), s0, cfalse(x), s1, r) <==> call_post(entry(cq), s0, x, s1, r)),
{
    assert(exists|ca: Compiled, va: GraphView<F>, cb: Compiled, vb: GraphView<F>|
        #[trigger] stage(ca, va) && #[trigger] stage(cb, vb)
        && compiles(p, v0, ca, va) && compiles(q, va, cb, vb)
        && (c, v1) == choice_link(ca, cb, vb));
    let (cp, vp, cq, vq) = choose|ca: Compiled, va: GraphView<F>, cb: Compiled, vb: GraphView<F>|
        #[trigger] stage(ca, va) && #[trigger] stage(cb, vb)
        && compiles(p, v0, ca, va) && compiles(q, va, cb, vb)
        && (c, v1) == choice_link(ca, cb, vb);
    assert(cp is Im && cq is Im);
    assert forall|s0: SubRuntime<F>, x: Value, s1: SubRuntime<F>, r: Value|
        (#[trigger] call_post(entry(c), s0, ctrue(x), s1, r) <==> call_post(entry(cp), s0, x, s1, r))
        && (#[trigger] call_post(entry(c), s0, cfalse(x), s1, r) <==> call_post(entry(cq), s0, x, s1, r)) by {
        assert(entry(c) == choice_node(entry(cp), entry(cq)));
        assert(as_choice(ctrue(x)) == ChoiceData::<Value, Value>::True(x));
        assert(as_choice(cfalse(x)) == ChoiceData::<Value, Value>::False(x));
    }
    assert(two_parts(p, q, v0, cp, vp, cq, vq));
}

/// `p.ploop()` of an immediate process compiles to a node that runs the
/// compiled `p` again on `y` each time it returns `True(y)`, and returns
/// `x` when it returns `False(x)`: every run of the body in turns, as
/// `loop_post` describes it, is a run of the node.
pub proof fn law_loop_immediate<F: FnMut(Value) -> Value>(p: Process<F>, v0: GraphView<F>, c: Compiled, v1: GraphView<F>)
    requires
        compiles(Process::PLoop(PLoop(Box::new(p))), v0, c, v1),
        c is Im,
    ensures
        exists|cp: Compiled, vp: GraphView<F>|
            #[trigger] compiles(p, v0, cp, vp) && cp is Im
            && forall|s0: SubRuntime<F>, v: Value, s1: SubRuntime<F>, r: Value, k: nat|
                #[trigger] loop_post(entry(cp), s0, v, s1, r, k) ==> call_post(entry(c), s0, v, s1, r),
{
    assert(exists|ca: Compiled, va: GraphView<F>|
        #[trigger] stage(ca, va) && compiles(p, v0, ca, va) && (c, v1) == loop_link(ca, va));
    let (cp, vp) = choose|ca: Compiled, va: GraphView<F>|
        #[trigger] stage(ca, va) && compiles(p, v0, ca, va) && (c, v1) == loop_link(ca, va);
    assert(cp is Im);
    assert forall|s0: SubRuntime<F>, v: Value, s1: SubRuntime<F>, r: Value, k: nat|
        #[trigger] loop_post(entry(cp), s0, v, s1, r, k) implies call_post(entry(c), s0, v, s1, r) by {
        assert(entry(c) == Node::LoopIm(LoopIm(Box::new(entry(cp)))));
        assert(turns(k));
    }
    assert(compiles(p, v0, cp, vp));
}

} // verus!

verus! {

/// The hole of a compiled process, if it has one, is below `len`.
pub open spec fn hole_below(c: Compiled, len: int) -> bool {
    match c {
        Compiled::NotIm(_, h, _) => h < len,
        Compiled::Im(_) => true,
    }
}

/// The hole of a compiled process, if it has one, is at least `len`.
pub open spec fn hole_from(c: Compiled, len: int) -> bool {
    match c {
        Compiled::NotIm(_, h, _) => len <= h,
        Compiled::Im(_) => true,
    }
}

/// A compilation only adds nodes, and the hole it returns is an id of the
/// graph it leaves, and (when the ids fit in a `usize`) a new one.
pub proof fn lemma_compiles_len<F: FnMut(Value) -> Value>(p: Process<F>, v0: GraphView<F>, c: Compiled, v1: GraphView<F>)
    requires
        compiles(p, v0, c, v1),
    ensures
        v0.nodes.len() <= v1.nodes.len(),
        hole_below(c, v1.nodes.len() as int),
        v1.nodes.len() <= usize::MAX ==> hole_from(c, v0.nodes.len() as int),
    decreases p, 1nat, 0nat,
{
    match p {
        Process::PSeq(q) => {
            let (ca, va, cb, vb) = choose|ca: Compiled, va: GraphView<F>, cb: Compiled, vb: GraphView<F>|
                #[trigger] stage(ca, va) && #[trigger] stage(cb, vb)
                && compiles(*q.0, v0, ca, va) && compiles(*q.1, va, cb, vb) && (c, v1) == seq_link(ca, cb, vb);
            lemma_compiles_len(*q.0, v0, ca, va);
            lemma_compiles_len(*q.1, va, cb, vb);
        },
        Process::PChoice(q) => {
            let (ca, va, cb, vb) = choose|ca: Compiled, va: GraphView<F>, cb: Compiled, vb: GraphView<F>|
                #[trigger] stage(ca, va) && #[trigger] stage(cb, vb)
                && compiles(*q.0, v0, ca, va) && compiles(*q.1, va, cb, vb) && (c, v1) == choice_link(ca, cb, vb);
            lemma_compiles_len(*q.0, v0, ca, va);
            lemma_compiles_len(*q.1, va, cb, vb);
        },
        Process::PLoop(q) => {
            let (ca, va) = choose|ca: Compiled, va: GraphView<F>|
                #[trigger] stage(ca, va) && compiles(*q.0, v0, ca, va) && (c, v1) == loop_link(ca, va);
            lemma_compiles_len(*q.0, v0, ca, va);
        },
        Process::Par(q) => {
            let (ca, va, cb, vb) = choose|ca: Compiled, va: GraphView<F>, cb: Compiled, vb: GraphView<F>|
                #[trigger] stage(ca, va) && #[trigger] stage(cb, vb)
                && compiles(*q.0, v0, ca, va) && compiles(*q.1, va, cb, vb) && (c, v1) == par_link(ca, cb, vb);
            lemma_compiles_len(*q.0, v0, ca, va);
            lemma_compiles_len(*q.1, va, cb, vb);
        },
        Process::BigPar(q) => {
            let ep = v0.next_id();
            let va = v0.reserve();
            let rcb = Rcbjp { id: va.big_joins.len() as usize };
            let vb = va.new_big_join(q.0@.len() as usize, ep);
            let rcin = vb.next_cell();
            let vc = vb.new_cell();
            let (ds, vd) = choose|ds: Seq<usize>, vd: GraphView<F>| #[trigger] list_stage(ds, vd)
                && big_par_compiles(p, q.0@.len() as nat, rcb, rcin, vc, ds, vd)
                && v1 == vd && big_par_result(c, ep, rcin, ds);
            lemma_big_par_len(p, q.0@.len() as nat, rcb, rcin, vc, ds, vd);
        },
        Process::PresentD(q) => {
            let (ct, vt, cf, vf) = choose|ct: Compiled, vt: GraphView<F>, cf: Compiled, vf: GraphView<F>|
                #[trigger] stage(ct, vt) && #[trigger] stage(cf, vf)
                && if q.pf.is_im() {
                    compiles(*q.pf, v0, cf, vf) && compiles(*q.pt, vf, ct, vt)
                        && (c, v1) == present_link(ct, cf, vt, |t: usize, f: usize| Node::NPresentD(NPresentD { node_true: t, node_false: f }))
                } else {
                    compiles(*q.pt, v0, ct, vt) && compiles(*q.pf, vt, cf, vf)
                        && (c, v1) == present_link(ct, cf, vf, |t: usize, f: usize| Node::NPresentD(NPresentD { node_true: t, node_false: f }))
                };
            if q.pf.is_im() {
                lemma_compiles_len(*q.pf, v0, cf, vf);
                lemma_compiles_len(*q.pt, vf, ct, vt);
            } else {
                lemma_compiles_len(*q.pt, v0, ct, vt);
                lemma_compiles_len(*q.pf, vt, cf, vf);
            }
        },
        Process::PresentS(q) => {
            let (ct, vt, cf, vf) = choose|ct: Compiled, vt: GraphView<F>, cf: Compiled, vf: GraphView<F>|
                #[trigger] stage(ct, vt) && #[trigger] stage(cf, vf)
                && if q.pf.is_im() {
                    compiles(*q.pf, v0, cf, vf) && compiles(*q.pt, vf, ct, vt)
                        && (c, v1) == present_link(ct, cf, vt, |t: usize, f: usize|
                            Node::NPresentS(NPresentS { node_true: t, node_false: f, signal_runtime: q.signal_runtime }))
                } else {
                    compiles(*q.pt, v0, ct, vt) && compiles(*q.pf, vt, cf, vf)
                        && (c, v1) == present_link(ct, cf, vf, |t: usize, f: usize|
                            Node::NPresentS(NPresentS { node_true: t, node_false: f, signal_runtime: q.signal_runtime }))
                };
            if q.pf.is_im() {
                lemma_compiles_len(*q.pf, v0, cf, vf);
                lemma_compiles_len(*q.pt, vf, ct, vt);
            } else {
                lemma_compiles_len(*q.pt, v0, ct, vt);
                lemma_compiles_len(*q.pf, vt, cf, vf);
            }
        },
        _ => {},
    }
}

/// Compiling the processes of a `big_join` in turn only adds nodes.
pub proof fn lemma_big_par_len<F: FnMut(Value) -> Value>(p: Process<F>, k: nat, rcb: Rcbjp, rcin: RCell,
    v0: GraphView<F>, ds: Seq<usize>, v1: GraphView<F>)
    requires
        big_par_compiles(p, k, rcb, rcin, v0, ds, v1),
    ensures
        v0.nodes.len() <= v1.nodes.len(),
    decreases p, 0nat, k,
{
    match p {
        Process::BigPar(q) => {
            if k > 0 && k <= q.0@.len() {
                assert(decreases_to!(p => q));
                assert(decreases_to!(q => q.0));
                assert(decreases_to!(q.0 => q.0[k - 1]));
                let (dp, vp, c, va) = choose|dp: Seq<usize>, vp: GraphView<F>, c: Compiled, va: GraphView<F>|
                    #[trigger] list_stage(dp, vp) && #[trigger] stage(c, va)
                    && big_par_compiles(p, (k - 1) as nat, rcb, rcin, v0, dp, vp)
                    && compiles(q.0[k - 1], vp, c, va)
                    && ds == dp.push(big_step(c, rcb, rcin, va).0)
                    && v1 == big_step(c, rcb, rcin, va).1;
                lemma_big_par_len(p, (k - 1) as nat, rcb, rcin, v0, dp, vp);
                lemma_compiles_len(q.0[k - 1], vp, c, va);
            }
        },
        _ => {},
    }
}

} // verus!

verus! {

/// The node `n` starts by running `e`: it is `e`, or a sequence whose first
/// part starts by running `e`.
pub open spec fn begins_with(n: Node, e: Node) -> bool
    decreases n,
{
    n == e || match n {
        Node::NSeq(x) => begins_with(*x.n1, e),
        _ => false,
    }
}

/// A branch that ends by storing its output and jumping starts by running
/// the branch.
proof fn lemma_branch_end_begins(n: Node, rc: RCell, out: usize)
    ensures
        begins_with(branch_end(n, rc, out), n),
{
    let m = seq_node(n, Node::NStore(NStore(rc)));
    assert(begins_with(n, n));
    assert(begins_with(m, n));
}

/// Where the two branches of a presence test are placed: the test's true
/// id holds a main node that starts by running the compiled true branch,
/// and its false id one that starts by running the compiled false branch.
proof fn lemma_place_link<F>(ct: Compiled, cf: Compiled, v: GraphView<F>)
    requires
        hole_below(ct, v.nodes.len() as int),
        hole_below(cf, v.nodes.len() as int),
        place_link(ct, cf, v).4.nodes.len() <= usize::MAX,
    ensures
        ({
            let (t, f, out, rc, v1) = place_link(ct, cf, v);
            &&& v.nodes.len() <= v1.nodes.len()
            &&& t < v1.nodes.len() && v1.nodes[t as int] is Some && begins_with(v1.nodes[t as int]->0, entry(ct))
            &&& f < v1.nodes.len() && v1.nodes[f as int] is Some && begins_with(v1.nodes[f as int]->0, entry(cf))
        }),
{
    let (t, f, out, rc, v7) = place_link(ct, cf, v);
    let v1 = v.new_cell();
    let v2 = v1.reserve();
    match ct {
        Compiled::Im(n) => lemma_branch_end_begins(n, rc, out),
        Compiled::NotIm(ni, _, _) => assert(begins_with(ni, ni)),
    }
    match cf {
        Compiled::Im(n) => lemma_branch_end_begins(n, rc, out),
        Compiled::NotIm(ni, _, _) => assert(begins_with(ni, ni)),
    }
    assert(v2.nodes.len() == v.nodes.len() + 1);
}

/// The two branches of a presence test compiled in turn: the one that is
/// immediate (`pf` when it is) first.
pub open spec fn present_parts<F: FnMut(Value) -> Value>(pt: Process<F>, pf: Process<F>, v0: GraphView<F>,
    ct: Compiled, vt: GraphView<F>, cf: Compiled, vf: GraphView<F>) -> bool {
    if pf.is_im() {
        compiles(pf, v0, cf, vf) && compiles(pt, vf, ct, vt)
    } else {
        compiles(pt, v0, ct, vt) && compiles(pf, vt, cf, vf)
    }
}

/// The presence test `pt.present(pf)` on the signal of its input compiles
/// to a test whose true id is a main node that starts by running the
/// compiled `pt`, and whose false id one that starts by running the
/// compiled `pf`.
pub proof fn law_present_d_branches<F: FnMut(Value) -> Value>(pt: Process<F>, pf: Process<F>, v0: GraphView<F>,
    c: Compiled, v1: GraphView<F>)
    requires
        compiles(Process::PresentD(PresentD { pt: Box::new(pt), pf: Box::new(pf) }), v0, c, v1),
        v1.nodes.len() <= usize::MAX,
    ensures
        exists|ct: Compiled, vt: GraphView<F>, cf: Compiled, vf: GraphView<F>|
            #[trigger] present_parts(pt, pf, v0, ct, vt, cf, vf)
            && match c {
                Compiled::NotIm(Node::NPresentD(n), _, _) => {
                    &&& n.node_true < v1.nodes.len() && v1.nodes[n.node_true as int] is Some
                    &&& begins_with(v1.nodes[n.node_true as int]->0, entry(ct))
                    &&& n.node_false < v1.nodes.len() && v1.nodes[n.node_false as int] is Some
                    &&& begins_with(v1.nodes[n.node_false as int]->0, entry(cf))
                },
                _ => false,
            },
{
    let (ct, vt, cf, vf) = choose|ct: Compiled, vt: GraphView<F>, cf: Compiled, vf: GraphView<F>|
        #[trigger] stage(ct, vt) && #[trigger] stage(cf, vf)
        && if pf.is_im() {
            compiles(pf, v0, cf, vf) && compiles(pt, vf, ct, vt)
                && (c, v1) == present_link(ct, cf, vt, |t: usize, f: usize| Node::NPresentD(NPresentD { node_true: t, node_false: f }))
        } else {
            compiles(pt, v0, ct, vt) && compiles(pf, vt, cf, vf)
                && (c, v1) == present_link(ct, cf, vf, |t: usize, f: usize| Node::NPresentD(NPresentD { node_true: t, node_false: f }))
        };
    let v = if pf.is_im() { vt } else { vf };
    if pf.is_im() {
        lemma_compiles_len(pf, v0, cf, vf);
        lemma_compiles_len(pt, vf, ct, vt);
    } else {
        lemma_compiles_len(pt, v0, ct, vt);
        lemma_compiles_len(pf, vt, cf, vf);
    }
    lemma_place_link(ct, cf, v);
    assert(present_parts(pt, pf, v0, ct, vt, cf, vf));
}

/// The presence test `pt.present(pf)` on a fixed signal compiles to a test
/// whose true id is a main node that starts by running the compiled `pt`,
/// and whose false id one that starts by running the compiled `pf`.
pub proof fn law_present_s_branches<F: FnMut(Value) -> Value>(pt: Process<F>, pf: Process<F>, sig: SignalRuntimeRef,
    v0: GraphView<F>, c: Compiled, v1: GraphView<F>)
    requires
        compiles(Process::PresentS(PresentS { pt: Box::new(pt), pf: Box::new(pf), signal_runtime: sig }), v0, c, v1),
        v1.nodes.len() <= usize::MAX,
    ensures
        exists|ct: Compiled, vt: GraphView<F>, cf: Compiled, vf: GraphView<F>|
            #[trigger] present_parts(pt, pf, v0, ct, vt, cf, vf)
            && match c {
                Compiled::NotIm(Node::NPresentS(n), _, _) => {
                    &&& n.signal_runtime == sig
                    &&& n.node_true < v1.nodes.len() && v1.nodes[n.node_true as int] is Some
                    &&& begins_with(v1.nodes[n.node_true as int]->0, entry(ct))
                    &&& n.node_false < v1.nodes.len() && v1.nodes[n.node_false as int] is Some
                    &&& begins_with(v1.nodes[n.node_false as int]->0, entry(cf))
                },
                _ => false,
            },
{
    let (ct, vt, cf, vf) = choose|ct: Compiled, vt: GraphView<F>, cf: Compiled, vf: GraphView<F>|
        #[trigger] stage(ct, vt) && #[trigger] stage(cf, vf)
        && if pf.is_im() {
            compiles(pf, v0, cf, vf) && compiles(pt, vf, ct, vt)
                && (c, v1) == present_link(ct, cf, vt, |t: usize, f: usize|
                    Node::NPresentS(NPresentS { node_true: t, node_false: f, signal_runtime: sig }))
        } else {
            compiles(pt, v0, ct, vt) && compiles(pf, vt, cf, vf)
                && (c, v1) == present_link(ct, cf, vf, |t: usize, f: usize|
                    Node::NPresentS(NPresentS { node_true: t, node_false: f, signal_runtime: sig }))
        };
    let v = if pf.is_im() { vt } else { vf };
    if pf.is_im() {
        lemma_compiles_len(pf, v0, cf, vf);
        lemma_compiles_len(pt, vf, ct, vt);
    } else {
        lemma_compiles_len(pt, v0, ct, vt);
        lemma_compiles_len(pf, vt, cf, vf);
    }
    lemma_place_link(ct, cf, v);
    assert(present_parts(pt, pf, v0, ct, vt, cf, vf));
}

} // verus!

verus! {

/// The cell `rc` of `s` holds a value.
pub open spec fn holds<F>(s: SubRuntime<F>, rc: RCell) -> bool {
    rc.id < s.mem.cells@.len() && s.mem.cells@[rc.id as int] is Some
}

/// A process of a `big_join`, compiled to `c` and placed in the graph `v`
/// (see `big_step`), gets a main node that starts it on a copy of the input
/// of the construct, kept in the cell `rcin`: whatever the node is called
/// on, every run of the compiled process on a copy of the value in `rcin`
/// (followed, for an immediate process, by the arrival at the join point
/// `rcb`) is a run of the node.
pub proof fn law_big_join_branch_gets_input<F: FnMut(Value) -> Value>(c: Compiled, rcb: Rcbjp, rcin: RCell, v: GraphView<F>)
    requires
        hole_below(c, v.nodes.len() as int),
        big_step(c, rcb, rcin, v).1.nodes.len() <= usize::MAX,
    ensures
        ({
            let (d, v1) = big_step(c, rcb, rcin, v);
            &&& d < v1.nodes.len() && v1.nodes[d as int] is Some
            &&& forall|s0: SubRuntime<F>, a: Value, sm: SubRuntime<F>, y: Value, u: Value, s1: SubRuntime<F>, r: Value|
                holds(s0, rcin) && same_value(a, s0.mem.cells@[rcin.id as int]->0)
                && #[trigger] call_post(entry(c), s0, a, sm, y)
                && (c is NotIm ==> s1 == sm && r == y)
                && (c is Im ==> call_post(Node::NBigMerge(NBigMerge { rc: rcb }), sm, y, s1, r))
                ==> #[trigger] call_post(v1.nodes[d as int]->0, s0, u, s1, r)
        }),
{
    let (d, v1) = big_step(c, rcb, rcin, v);
    assert forall|s0: SubRuntime<F>, a: Value, sm: SubRuntime<F>, y: Value, u: Value, s1: SubRuntime<F>, r: Value|
        holds(s0, rcin) && same_value(a, s0.mem.cells@[rcin.id as int]->0)
        && #[trigger] call_post(entry(c), s0, a, sm, y)
        && (c is NotIm ==> s1 == sm && r == y)
        && (c is Im ==> call_post(Node::NBigMerge(NBigMerge { rc: rcb }), sm, y, s1, r))
        implies #[trigger] call_post(v1.nodes[d as int]->0, s0, u, s1, r) by {
        let load = Node::NLoadCopy(NLoadCopy(rcin));
        assert(call_post(load, s0, u, s0, a));
        assert(midpoint(s0, a));
        match c {
            Compiled::NotIm(pni, _, _) => {
                assert(v1.nodes[d as int]->0 == seq_node(load, pni));
            },
            Compiled::Im(n) => {
                assert(v1.nodes[d as int]->0 == seq_node(seq_node(load, n), Node::NBigMerge(NBigMerge { rc: rcb })));
                assert(call_post(seq_node(load, n), s0, u, sm, y));
                assert(midpoint(sm, y));
            },
        }
    }
}

/// The compiled `big_join` starts by storing its input in the cell `rcin`
/// from which each of its processes, compiled in turn, is placed to start
/// on a copy (see `law_big_join_branch_gets_input`).
pub proof fn law_big_join_stores_input<F: FnMut(Value) -> Value>(ps: Vec<Process<F>>, v0: GraphView<F>, c: Compiled, v1: GraphView<F>)
    requires
        compiles(Process::BigPar(BigPar(ps)), v0, c, v1),
    ensures
        exists|rcb: Rcbjp, rcin: RCell, ds: Seq<usize>, vc: GraphView<F>|
            #[trigger] big_par_compiles(Process::BigPar(BigPar(ps)), ps@.len() as nat, rcb, rcin, vc, ds, v1)
            && begins_with(entry(c), Node::NStore(NStore(rcin))),
{
    let p = Process::BigPar(BigPar(ps));
    let ep = v0.next_id();
    let va = v0.reserve();
    let rcb = Rcbjp { id: va.big_joins.len() as usize };
    let vb = va.new_big_join(ps@.len() as usize, ep);
    let rcin = vb.next_cell();
    let vc = vb.new_cell();
    let (ds, vd) = choose|ds: Seq<usize>, vd: GraphView<F>| #[trigger] list_stage(ds, vd)
        && big_par_compiles(p, ps@.len() as nat, rcb, rcin, vc, ds, vd)
        && v1 == vd && big_par_result(c, ep, rcin, ds);
    match entry(c) {
        Node::NSeq(x) => {
            assert(begins_with(*x.n1, Node::NStore(NStore(rcin))));
        },
        _ => {},
    }
    assert(big_par_compiles(p, ps@.len() as nat, rcb, rcin, vc, ds, v1));
}

} // verus!

verus! {

/// The node `n` starts with a parallel node that runs a node starting with
/// `e1` on the first component of its input and one starting with `e2` on
/// the second.
pub open spec fn splits(n: Node, e1: Node, e2: Node) -> bool
    decreases n,
{
    match n {
        Node::NPar(x) => begins_with(*x.n1, e1) && begins_with(*x.n2, e2),
        Node::NSeq(x) => splits(*x.n1, e1, e2),
        _ => false,
    }
}

/// The node `n` is a choice whose `True` branch starts with `e1` and whose
/// `False` branch starts with `e2`.
pub open spec fn chooses(n: Node, e1: Node, e2: Node) -> bool {
    match n {
        Node::NChoice(x) => begins_with(*x.nt, e1) && begins_with(*x.nf, e2),
        _ => false,
    }
}

/// Whatever the parts, `p.join(q)` compiles to a node that starts by
/// running, in parallel, the compiled `p` on the first component of its
/// input and the compiled `q` on the second.
pub proof fn law_join_splits<F: FnMut(Value) -> Value>(p: Process<F>, q: Process<F>, v0: GraphView<F>,
    c: Compiled, v1: GraphView<F>)
    requires
        compiles(Process::Par(Par(Box::new(p), Box::new(q))), v0, c, v1),
    ensures
        exists|cp: Compiled, vp: GraphView<F>, cq: Compiled, vq: GraphView<F>|
            #[trigger] two_parts(p, q, v0, cp, vp, cq, vq) && splits(entry(c), entry(cp), entry(cq)),
{
    let (cp, vp, cq, vq) = choose|ca: Compiled, va: GraphView<F>, cb: Compiled, vb: GraphView<F>|
        #[trigger] stage(ca, va) && #[trigger] stage(cb, vb)
        && compiles(p, v0, ca, va) && compiles(q, va, cb, vb)
        && (c, v1) == par_link(ca, cb, vb);
    let rc = vq.next_cell();
    let st = Node::NStore(NStore(rc));
    assert(begins_with(entry(cp), entry(cp)));
    assert(begins_with(entry(cq), entry(cq)));
    assert(begins_with(seq_node(entry(cp), st), entry(cp)));
    assert(begins_with(seq_node(entry(cq), st), entry(cq)));
    match c {
        Compiled::NotIm(Node::NSeq(x), _, _) => {
            assert(splits(*x.n1, entry(cp), entry(cq)));
        },
        _ => {},
    }
    assert(two_parts(p, q, v0, cp, vp, cq, vq));
}

/// Whatever the parts, `p.choice(q)` compiles to a choice whose `True`
/// branch starts by running the compiled `p` and whose `False` branch
/// starts by running the compiled `q`, each on the value its variant
/// carries.
pub proof fn law_choice_branches<F: FnMut(Value) -> Value>(p: Process<F>, q: Process<F>, v0: GraphView<F>,
    c: Compiled, v1: GraphView<F>)
    requires
        compiles(Process::PChoice(PChoice(Box::new(p), Box::new(q))), v0, c, v1),
    ensures
        exists|cp: Compiled, vp: GraphView<F>, cq: Compiled, vq: GraphView<F>|
            #[trigger] two_parts(p, q, v0, cp, vp, cq, vq) && chooses(entry(c), entry(cp), entry(cq)),
{
    let (cp, vp, cq, vq) = choose|ca: Compiled, va: GraphView<F>, cb: Compiled, vb: GraphView<F>|
        #[trigger] stage(ca, va) && #[trigger] stage(cb, vb)
        && compiles(p, v0, ca, va) && compiles(q, va, cb, vb)
        && (c, v1) == choice_link(ca, cb, vb);
    let rc = vq.next_cell();
    let out = vq.new_cell().next_id();
    assert(begins_with(entry(cp), entry(cp)));
    assert(begins_with(entry(cq), entry(cq)));
    lemma_branch_end_begins(entry(cp), rc, out);
    lemma_branch_end_begins(entry(cq), rc, out);
    assert(two_parts(p, q, v0, cp, vp, cq, vq));
}

} // verus!

verus! {

/// How a loop is wired around the compiled body `(pni, pind, pno)`: the
/// loop starts with `ni` and ends at `out` with `no`, in the graph `v1`.
pub open spec fn loop_wiring<F>(pni: Node, pind: usize, pno: Node, ni: Node, out: usize, no: Node, v1: GraphView<F>,
    rcin: RCell, rcout: RCell, in_id: usize) -> bool {
    let again = seq_node(Node::NStore(NStore(rcin)), Node::NJump(NJump { dest: in_id }));
    let stop = seq_node(Node::NStore(NStore(rcout)), Node::NJump(NJump { dest: out }));
    &&& in_id < v1.nodes.len() && v1.nodes[in_id as int] == Some(seq_node(Node::NLoad(NLoad(rcin)), pni))
    &&& pind < v1.nodes.len() && v1.nodes[pind as int] == Some(seq_node(pno, choice_node(again, stop)))
    &&& ni == again
    &&& no == Node::NLoad(NLoad(rcout))
}

/// How a parallel composition is wired around two compiled parts that are
/// not immediate, with holes `hp` and `hq` and output nodes `pno` and
/// `qno`: it ends at `out` with `no`, in the graph `v1`.
pub open spec fn join_wiring<F>(hp: usize, pno: Node, hq: usize, qno: Node, out: usize, no: Node, v1: GraphView<F>,
    rc: Rcjp) -> bool {
    &&& hp < v1.nodes.len() && v1.nodes[hp as int] == Some(seq_node(pno, Node::NSetVar1(NSetVar1 { rc, dest: out })))
    &&& hq < v1.nodes.len() && v1.nodes[hq as int] == Some(seq_node(qno, Node::NSetVar2(NSetVar2 { rc, dest: out })))
    &&& no == Node::NMerge(NMerge { rc })
}

/// `p.ploop()` of a process that is not immediate: when the compiled `p`
/// completes with `True(y)`, `y` is stored in the cell that the main node
/// starting `p` again loads its input from, and control jumps to that node;
/// with `False(x)`, `x` is stored in the cell that the output node of the
/// loop loads from, and control jumps to the loop's hole. The loop starts
/// the same way as a `True` turn.
pub proof fn law_loop_turns<F: FnMut(Value) -> Value>(p: Process<F>, v0: GraphView<F>, c: Compiled, v1: GraphView<F>)
    requires
        compiles(Process::PLoop(PLoop(Box::new(p))), v0, c, v1),
        c is NotIm,
        v1.nodes.len() <= usize::MAX,
    ensures
        exists|cp: Compiled, vp: GraphView<F>| #[trigger] compiles(p, v0, cp, vp) && match (cp, c) {
            (Compiled::NotIm(pni, pind, pno), Compiled::NotIm(ni, out, no)) => exists|rcin: RCell, rcout: RCell, in_id: usize|
                #[trigger] loop_wiring(pni, pind, pno, ni, out, no, v1, rcin, rcout, in_id),
            _ => false,
        },
{
    let (cp, vp) = choose|ca: Compiled, va: GraphView<F>|
        #[trigger] stage(ca, va) && compiles(p, v0, ca, va) && (c, v1) == loop_link(ca, va);
    lemma_compiles_len(p, v0, cp, vp);
    match cp {
        Compiled::NotIm(pni, pind, pno) => {
            let rcin = vp.next_cell();
            let w1 = vp.new_cell();
            let rcout = w1.next_cell();
            let w2 = w1.new_cell();
            let in_id = w2.next_id();
            assert(v1.nodes[in_id as int] == Some(seq_node(Node::NLoad(NLoad(rcin)), pni)));
            assert(pind < v1.nodes.len());
            let w3 = w2.add(seq_node(Node::NLoad(NLoad(rcin)), pni));
            let o = w3.next_id();
            assert(entry(c) == seq_node(Node::NStore(NStore(rcin)), Node::NJump(NJump { dest: in_id })));
            assert(c->NotIm_1 == o);
            match c {
                Compiled::NotIm(ni, o, no) => assert(loop_wiring(pni, pind, pno, ni, o, no, v1, rcin, rcout, in_id)),
                _ => {},
            }
        },
        _ => {},
    }
    assert(compiles(p, v0, cp, vp));
}

/// `p.join(q)` of two processes that are not immediate: the output node of
/// the compiled `p` puts its result as the first one of a join point, that
/// of `q` as the second one, both continuing to the construct's hole, and
/// the construct's output node merges the two results of that join point,
/// in that order.
pub proof fn law_join_outputs<F: FnMut(Value) -> Value>(p: Process<F>, q: Process<F>, v0: GraphView<F>,
    c: Compiled, v1: GraphView<F>)
    requires
        compiles(Process::Par(Par(Box::new(p), Box::new(q))), v0, c, v1),
        v1.nodes.len() <= usize::MAX,
    ensures
        exists|cp: Compiled, vp: GraphView<F>, cq: Compiled, vq: GraphView<F>|
            #[trigger] two_parts(p, q, v0, cp, vp, cq, vq) && match (cp, cq, c) {
                (Compiled::NotIm(_, hp, pno), Compiled::NotIm(_, hq, qno), Compiled::NotIm(_, out, no)) =>
                    exists|rc: Rcjp| #[trigger] join_wiring(hp, pno, hq, qno, out, no, v1, rc),
                _ => true,
            },
{
    let (cp, vp, cq, vq) = choose|ca: Compiled, va: GraphView<F>, cb: Compiled, vb: GraphView<F>|
        #[trigger] stage(ca, va) && #[trigger] stage(cb, vb)
        && compiles(p, v0, ca, va) && compiles(q, va, cb, vb)
        && (c, v1) == par_link(ca, cb, vb);
    lemma_compiles_len(p, v0, cp, vp);
    lemma_compiles_len(q, vp, cq, vq);
    match (cp, cq) {
        (Compiled::NotIm(_, hp, pno), Compiled::NotIm(_, hq, qno)) => {
            let out = vq.next_id();
            let w1 = vq.reserve();
            let rc = Rcjp { id: w1.joins.len() as usize };
            assert(hp != hq);
            assert(v1.nodes[hp as int] == Some(seq_node(pno, Node::NSetVar1(NSetVar1 { rc, dest: out }))));
            match c {
                Compiled::NotIm(_, o, no) => assert(join_wiring(hp, pno, hq, qno, o, no, v1, rc)),
                _ => {},
            }
        },
        _ => {},
    }
    assert(two_parts(p, q, v0, cp, vp, cq, vq));
}

} // verus!
