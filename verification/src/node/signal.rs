//! Nodes that act on signals. A node whose name ends in `D` takes the signal
//! it acts on in its input value; one whose name ends in `S` holds it.

use vstd::prelude::*;
use crate::value::{Value, fst, snd, list_of, same_value, lemma_same_value_refl};
use crate::engine::{SubRuntime, Memory, ids_kept, ids_below};
use crate::node::{Node, call_frame, keeps_ids, midpoint};
use crate::signal::{SignalRuntimeRef, emitted, emitted_value, awaited, awaited_immediately, presented, pre_read, lemma_sub_ids};

verus! {

/// The signal a value designates, if it is one.
pub open spec fn signal_of(v: Value) -> Option<SignalRuntimeRef> {
    match v {
        Value::Signal(id) => Some(SignalRuntimeRef { id }),
        _ => None,
    }
}

/// The signal a value designates, if it is one.
pub fn as_signal(v: &Value) -> (r: Option<SignalRuntimeRef>)
    ensures
        r == signal_of(*v),
{
    match v {
        Value::Signal(id) => Some(SignalRuntimeRef { id: *id }),
        _ => None,
    }
}

/// One emission of a sequence: of a copy of `e` on the signal of id `sig`,
/// if there is one; otherwise nothing changes.
pub open spec fn emission_step<F: FnMut(Value) -> Value>(sig: Option<usize>, e: Value, s0: SubRuntime<F>, s1: SubRuntime<F>) -> bool {
    match sig {
        Some(id) => emitted(id, s0, s1) && exists|d: Value| #[trigger] same_value(d, e) && emitted_value(id, d, s0, s1),
        None => s1 == s0,
    }
}

/// The emissions `es` (a signal id, if any, and a value), in order, lead
/// from `s0` to `s1`.
pub open spec fn emitted_all<F: FnMut(Value) -> Value>(es: Seq<(Option<usize>, Value)>, s0: SubRuntime<F>, s1: SubRuntime<F>) -> bool
    decreases es.len(),
{
    if es.len() == 0 {
        s1 == s0
    } else {
        exists|sm: SubRuntime<F>| #[trigger] midpoint(sm, es.last().1)
            && emitted_all(es.drop_last(), s0, sm) && emission_step(es.last().0, es.last().1, sm, s1)
    }
}

/// The emissions a list of `(signal, value)` pairs stands for.
pub open spec fn list_emissions(l: Seq<Value>) -> Seq<(Option<usize>, Value)> {
    Seq::new(l.len(), |i: int| (
        match signal_of(fst(l[i])) {
            Some(sr) => Some(sr.id),
            None => None,
        },
        snd(l[i]),
    ))
}

/// Extends a sequence of emissions by one step.
proof fn lemma_emitted_all_push<F: FnMut(Value) -> Value>(es: Seq<(Option<usize>, Value)>, k: int,
    s0: SubRuntime<F>, sm: SubRuntime<F>, s1: SubRuntime<F>)
    requires
        0 <= k < es.len(),
        emitted_all(es.take(k), s0, sm),
        emission_step(es[k].0, es[k].1, sm, s1),
    ensures
        emitted_all(es.take(k + 1), s0, s1),
{
    let t = es.take(k + 1);
    assert(t.drop_last() =~= es.take(k));
    assert(t.last() == es[k]);
    assert(midpoint(sm, t.last().1));
}

proof fn lemma_emitted_frame<F: FnMut(Value) -> Value>(id: usize, s0: SubRuntime<F>, s1: SubRuntime<F>)
    requires
        emitted(id, s0, s1),
    ensures
        call_frame(s0, s1),
        ids_kept(s0, s1),
{
    assert forall|b: nat| #[trigger] ids_below(s0, b) implies ids_below(s1, b) by {
        lemma_sub_ids(s0, s1, id, 0, 0, Value::Unit, b);
    }
}

proof fn lemma_pre_read_frame<F: FnMut(Value) -> Value>(id: usize, r: Value, s0: SubRuntime<F>, s1: SubRuntime<F>)
    requires
        pre_read(id, r, s0, s1),
    ensures
        call_frame(s0, s1),
        ids_kept(s0, s1),
{
    assert forall|b: nat| #[trigger] ids_below(s0, b) implies ids_below(s1, b) by {
        lemma_sub_ids(s0, s1, id, 0, 0, r, b);
    }
}

proof fn lemma_presented_ids<F: FnMut(Value) -> Value>(id: usize, node_true: usize, node_false: usize,
    s0: SubRuntime<F>, s1: SubRuntime<F>)
    requires
        presented(id, node_true, node_false, s0, s1),
    ensures
        forall|b: nat| node_true < b && node_false < b && #[trigger] ids_below(s0, b) ==> ids_below(s1, b),
{
    assert forall|b: nat| node_true < b && node_false < b && #[trigger] ids_below(s0, b) implies ids_below(s1, b) by {
        lemma_sub_ids(s0, s1, id, node_true, node_false, Value::Unit, b);
    }
}

/// Emits the value on the signal if `s` designates one.
fn emit_on<F: FnMut(Value) -> Value>(s: Value, e: Value, sub: &mut SubRuntime<F>)
    requires
        old(sub).wf(),
    ensures
        signal_of(s) is Some ==> emitted(signal_of(s)->0.id, *old(sub), *final(sub)),
        signal_of(s) is Some ==> emitted_value(signal_of(s)->0.id, e, *old(sub), *final(sub)),
        signal_of(s) is None ==> *final(sub) == *old(sub),
        call_frame(*old(sub), *final(sub)),
        ids_kept(*old(sub), *final(sub)),
{
    match as_signal(&s) {
        Some(sr) => {
            sr.emit(e, sub);
            proof { lemma_emitted_frame(sr.id, *old(sub), *sub); }
        },
        None => {},
    }
}

/// Emits every `(signal, value)` pair of a list, in order.
fn emit_list<F: FnMut(Value) -> Value>(l: Vec<Value>, sub: &mut SubRuntime<F>)
    requires
        old(sub).wf(),
    ensures
        emitted_all(list_emissions(l@), *old(sub), *final(sub)),
        call_frame(*old(sub), *final(sub)),
        ids_kept(*old(sub), *final(sub)),
{
    let ghost s0 = *sub;
    let ghost l0 = l@;
    let ghost es = list_emissions(l0);
    let mut l = l;
    let mut i: usize = 0;
    proof {
        assert(es.take(0).len() == 0);
    }
    while i < l.len()
        invariant
            sub.wf(),
            call_frame(s0, *sub),
            ids_kept(s0, *sub),
            s0 == *old(sub),
            l@.len() == l0.len(),
            i <= l0.len(),
            forall|j: int| i <= j < l0.len() ==> l@[j] == l0[j],
            es == list_emissions(l0),
            emitted_all(es.take(i as int), s0, *sub),
        decreases l.len() - i,
    {
        let mut item = Value::Unit;
        std::mem::swap(&mut item, &mut l[i]);
        let (s, e) = item.split();
        let ghost sm = *sub;
        emit_on(s, e, sub);
        proof {
            if signal_of(s) is Some {
                lemma_same_value_refl(e);
            }
            lemma_emitted_all_push(es, i as int, s0, sm, *sub);
        }
        i = i + 1;
    }
    proof {
        assert(es.take(i as int) =~= es);
    }
}

/// Node emitting signals given in its input.
///
/// Signatures: `(S, E) -> ()`; `((S, E), I) -> I` when `with_in`;
/// `Vec<(S, E)> -> ()` when `vec`; `(Vec<(S, E)>, I) -> I` when both.
pub struct NEmitD {
    pub vec: bool,
    pub with_in: bool,
}

impl NEmitD {
    /// What a call of the node does, from the sub-runtime `s0` and the
    /// input `v` to the sub-runtime `s1` and the result `r`.
    pub open spec fn post<F: FnMut(Value) -> Value>(&self, s0: SubRuntime<F>, v: Value, s1: SubRuntime<F>, r: Value) -> bool {
        &&& self.with_in ==> r == snd(v)
        &&& !self.with_in ==> r == Value::Unit
        &&& !self.vec ==> {
            let pair = if self.with_in { fst(v) } else { v };
            &&& signal_of(fst(pair)) is Some ==> emitted(signal_of(fst(pair))->0.id, s0, s1)
            &&& signal_of(fst(pair)) is None ==> s1 == s0
        }
        &&& self.vec ==> emitted_all(list_emissions(list_of(if self.with_in { fst(v) } else { v })), s0, s1)
    }

    pub fn call<F: FnMut(Value) -> Value>(&self, sub: &mut SubRuntime<F>, val: Value) -> (r: Value)
        requires
            old(sub).wf(),
        ensures
            keeps_ids(Node::NEmitD(*self), *old(sub), *final(sub)),
            call_frame(*old(sub), *final(sub)),
            self.post(*old(sub), val, *final(sub), r),
    {
        let (emission, rest) = if self.with_in { val.split() } else { (val, Value::Unit) };
        if self.vec {
            emit_list(emission.into_list(), sub);
        } else {
            let (s, e) = emission.split();
            emit_on(s, e, sub);
        }
        rest
    }
}

/// The emissions of the i-th value of `vs` on the i-th signal of `sigs`.
pub open spec fn zip_emissions(sigs: Seq<SignalRuntimeRef>, vs: Seq<Value>) -> Seq<(Option<usize>, Value)> {
    Seq::new(sigs.len(), |i: int| (Some(sigs[i].id), vs[i]))
}

/// Node emitting its input on a fixed signal.
/// Signatures: `E -> ()`; `(E, I) -> I` when `with_in`.
pub struct NEmitS {
    pub signal: SignalRuntimeRef,
    pub with_in: bool,
}

impl NEmitS {
    /// What a call of the node does, from the sub-runtime `s0` and the
    /// input `v` to the sub-runtime `s1` and the result `r`.
    pub open spec fn post<F: FnMut(Value) -> Value>(&self, s0: SubRuntime<F>, v: Value, s1: SubRuntime<F>, r: Value) -> bool {
        &&& emitted(self.signal.id, s0, s1)
        &&& self.with_in ==> r == snd(v)
        &&& !self.with_in ==> r == Value::Unit
    }

    pub fn call<F: FnMut(Value) -> Value>(&self, sub: &mut SubRuntime<F>, val: Value) -> (r: Value)
        requires
            old(sub).wf(),
        ensures
            keeps_ids(Node::NEmitS(*self), *old(sub), *final(sub)),
            call_frame(*old(sub), *final(sub)),
            self.post(*old(sub), val, *final(sub), r),
    {
        let (e, rest) = if self.with_in { val.split() } else { (val, Value::Unit) };
        self.signal.emit(e, sub);
        proof { lemma_emitted_frame(self.signal.id, *old(sub), *sub); }
        rest
    }
}

/// Node emitting the elements of its input list on fixed signals, the i-th
/// element on the i-th signal. When the list and the signals do not have
/// the same length, it refuses (see `SubRuntime::refused`) and emits
/// nothing.
/// Signatures: `Vec<E> -> ()`; `(Vec<E>, I) -> I` when `with_in`.
pub struct NEmitVecS {
    pub signals: Vec<SignalRuntimeRef>,
    pub with_in: bool,
}

impl NEmitVecS {
    /// What a call of the node does, from the sub-runtime `s0` and the
    /// input `v` to the sub-runtime `s1` and the result `r`.
    pub open spec fn post<F: FnMut(Value) -> Value>(&self, s0: SubRuntime<F>, v: Value, s1: SubRuntime<F>, r: Value) -> bool {
        &&& self.with_in ==> r == snd(v)
        &&& !self.with_in ==> r == Value::Unit
        &&& list_of(if self.with_in { fst(v) } else { v }).len() != self.signals@.len() ==>
            s1 == (SubRuntime { refused: true, ..s0 })
        &&& list_of(if self.with_in { fst(v) } else { v }).len() == self.signals@.len() ==>
            emitted_all(zip_emissions(self.signals@, list_of(if self.with_in { fst(v) } else { v })), s0, s1)
    }

    pub fn call<F: FnMut(Value) -> Value>(&self, sub: &mut SubRuntime<F>, val: Value) -> (r: Value)
        requires
            old(sub).wf(),
        ensures
            keeps_ids(Node::NEmitVecS(*self), *old(sub), *final(sub)),
            call_frame(*old(sub), *final(sub)),
            self.post(*old(sub), val, *final(sub), r),
    {
        let (emission, rest) = if self.with_in { val.split() } else { (val, Value::Unit) };
        let mut values = emission.into_list();
        if values.len() == self.signals.len() {
            let ghost s0 = *sub;
            let ghost v0 = values@;
            let ghost es = zip_emissions(self.signals@, v0);
            let mut i: usize = 0;
            proof {
                assert(es.take(0).len() == 0);
            }
            while i < self.signals.len()
                invariant
                    sub.wf(),
                    call_frame(s0, *sub),
                    ids_kept(s0, *sub),
                    s0 == *old(sub),
                    values@.len() == self.signals@.len(),
                    v0.len() == values@.len(),
                    i <= v0.len(),
                    forall|j: int| i <= j < v0.len() ==> values@[j] == v0[j],
                    es == zip_emissions(self.signals@, v0),
                    emitted_all(es.take(i as int), s0, *sub),
                decreases self.signals.len() - i,
            {
                let mut e = Value::Unit;
                std::mem::swap(&mut e, &mut values[i]);
                let sr = self.signals[i];
                let ghost s1 = *sub;
                sr.emit(e, sub);
                proof {
                    lemma_emitted_frame(sr.id, s1, *sub);
                    lemma_same_value_refl(e);
                    lemma_emitted_all_push(es, i as int, s0, s1, *sub);
                }
                i = i + 1;
            }
            proof {
                assert(es.take(i as int) =~= es);
            }
        } else {
            sub.refuse();
        }
        rest
    }
}

/// Node emitting a fixed value on a fixed signal. Signature: `I -> I`.
pub struct NEmitVS {
    pub signal: SignalRuntimeRef,
    pub value: Value,
}

impl NEmitVS {
    /// What a call of the node does, from the sub-runtime `s0` and the
    /// input `v` to the sub-runtime `s1` and the result `r`.
    pub open spec fn post<F: FnMut(Value) -> Value>(&self, s0: SubRuntime<F>, v: Value, s1: SubRuntime<F>, r: Value) -> bool {
        &&& emitted(self.signal.id, s0, s1)
        &&& r == v
    }

    pub fn call<F: FnMut(Value) -> Value>(&self, sub: &mut SubRuntime<F>, val: Value) -> (r: Value)
        requires
            old(sub).wf(),
        ensures
            keeps_ids(Node::NEmitVS(*self), *old(sub), *final(sub)),
            call_frame(*old(sub), *final(sub)),
            self.post(*old(sub), val, *final(sub), r),
    {
        let e = self.value.duplicate();
        self.signal.emit(e, sub);
        proof { lemma_emitted_frame(self.signal.id, *old(sub), *sub); }
        val
    }
}

/// The emissions of fixed values on fixed signals.
pub open spec fn pair_emissions(ps: Seq<(SignalRuntimeRef, Value)>) -> Seq<(Option<usize>, Value)> {
    Seq::new(ps.len(), |i: int| (Some(ps[i].0.id), ps[i].1))
}

/// Node emitting fixed values on fixed signals, in order. Signature: `I -> I`.
pub struct NEmitVVecS(pub Vec<(SignalRuntimeRef, Value)>);

impl NEmitVVecS {
    /// What a call of the node does, from the sub-runtime `s0` and the
    /// input `v` to the sub-runtime `s1` and the result `r`.
    pub open spec fn post<F: FnMut(Value) -> Value>(&self, s0: SubRuntime<F>, v: Value, s1: SubRuntime<F>, r: Value) -> bool {
        &&& r == v
        &&& emitted_all(pair_emissions(self.0@), s0, s1)
    }

    pub fn call<F: FnMut(Value) -> Value>(&self, sub: &mut SubRuntime<F>, val: Value) -> (r: Value)
        requires
            old(sub).wf(),
        ensures
            keeps_ids(Node::NEmitVVecS(*self), *old(sub), *final(sub)),
            call_frame(*old(sub), *final(sub)),
            self.post(*old(sub), val, *final(sub), r),
    {
        let ghost s0 = *sub;
        let ghost es = pair_emissions(self.0@);
        let mut i: usize = 0;
        proof {
            assert(es.take(0).len() == 0);
        }
        while i < self.0.len()
            invariant
                sub.wf(),
                call_frame(s0, *sub),
                ids_kept(s0, *sub),
                s0 == *old(sub),
                i <= self.0@.len(),
                es == pair_emissions(self.0@),
                emitted_all(es.take(i as int), s0, *sub),
            decreases self.0.len() - i,
        {
            let sr = self.0[i].0;
            let e = self.0[i].1.duplicate();
            let ghost s1 = *sub;
            sr.emit(e, sub);
            proof {
                lemma_emitted_frame(sr.id, s1, *sub);
                assert(same_value(e, es[i as int].1));
                lemma_emitted_all_push(es, i as int, s0, s1, *sub);
            }
            i = i + 1;
        }
        proof {
            assert(es.take(i as int) =~= es);
        }
        val
    }
}

/// Node reading the value of the previous instant of the signal given in
/// its input. Signatures: `S -> V`; `(S, I) -> (V, I)` when `with_in`.
/// A value that is not a signal reads as `Unit`.
pub struct NGetD {
    pub with_in: bool,
}

impl NGetD {
    /// What a call of the node does, from the sub-runtime `s0` and the
    /// input `v` to the sub-runtime `s1` and the result `r`.
    pub open spec fn post<F: FnMut(Value) -> Value>(&self, s0: SubRuntime<F>, v: Value, s1: SubRuntime<F>, r: Value) -> bool {
        &&& ({
            let s = if self.with_in { fst(v) } else { v };
            let v = if self.with_in { fst(r) } else { r };
            &&& signal_of(s) is Some ==> pre_read(signal_of(s)->0.id, v, s0, s1)
            &&& signal_of(s) is None ==> s1 == s0 && v == Value::Unit
        })
        &&& self.with_in ==> snd(r) == snd(v) && r is Pair
    }

    pub fn call<F: FnMut(Value) -> Value>(&self, sub: &mut SubRuntime<F>, val: Value) -> (r: Value)
        requires
            old(sub).wf(),
        ensures
            keeps_ids(Node::NGetD(*self), *old(sub), *final(sub)),
            call_frame(*old(sub), *final(sub)),
            self.post(*old(sub), val, *final(sub), r),
    {
        let (s, rest) = if self.with_in { val.split() } else { (val, Value::Unit) };
        let v = match as_signal(&s) {
            Some(sr) => {
                let v = sr.get_pre_value(sub);
                proof { lemma_pre_read_frame(sr.id, v, *old(sub), *sub); }
                v
            },
            None => Value::Unit,
        };
        if self.with_in { Value::pair(v, rest) } else { v }
    }
}

/// Node reading the value of the previous instant of a fixed signal.
/// Signature: `() -> V`.
pub struct NGetS(pub SignalRuntimeRef);

impl NGetS {
    /// What a call of the node does, from the sub-runtime `s0` and the
    /// input `v` to the sub-runtime `s1` and the result `r`.
    pub open spec fn post<F: FnMut(Value) -> Value>(&self, s0: SubRuntime<F>, v: Value, s1: SubRuntime<F>, r: Value) -> bool {
        &&& pre_read(self.0.id, r, s0, s1)
    }

    pub fn call<F: FnMut(Value) -> Value>(&self, sub: &mut SubRuntime<F>, val: Value) -> (r: Value)
        requires
            old(sub).wf(),
        ensures
            keeps_ids(Node::NGetS(*self), *old(sub), *final(sub)),
            call_frame(*old(sub), *final(sub)),
            self.post(*old(sub), val, *final(sub), r),
    {
        let v = self.0.get_pre_value(sub);
        proof { lemma_pre_read_frame(self.0.id, v, *old(sub), *sub); }
        v
    }
}

/// Node reading the value of the previous instant of a fixed signal, and
/// pairing it with its input. Signature: `I -> (V, I)`.
pub struct NGetSIn(pub SignalRuntimeRef);

impl NGetSIn {
    /// What a call of the node does, from the sub-runtime `s0` and the
    /// input `v` to the sub-runtime `s1` and the result `r`.
    pub open spec fn post<F: FnMut(Value) -> Value>(&self, s0: SubRuntime<F>, v: Value, s1: SubRuntime<F>, r: Value) -> bool {
        &&& pre_read(self.0.id, fst(r), s0, s1)
        &&& snd(r) == v
        &&& r is Pair
    }

    pub fn call<F: FnMut(Value) -> Value>(&self, sub: &mut SubRuntime<F>, val: Value) -> (r: Value)
        requires
            old(sub).wf(),
        ensures
            keeps_ids(Node::NGetSIn(*self), *old(sub), *final(sub)),
            call_frame(*old(sub), *final(sub)),
            self.post(*old(sub), val, *final(sub), r),
    {
        let v = self.0.get_pre_value(sub);
        proof { lemma_pre_read_frame(self.0.id, v, *old(sub), *sub); }
        Value::pair(v, val)
    }
}

/// Node awaiting the signal given in its input, and continuing in node
/// `self.0` at the instant following its emission. It returns its input.
/// Signature: `S -> S`.
pub struct NAwaitD(pub usize);

impl NAwaitD {
    /// What a call of the node does, from the sub-runtime `s0` and the
    /// input `v` to the sub-runtime `s1` and the result `r`.
    pub open spec fn post<F: FnMut(Value) -> Value>(&self, s0: SubRuntime<F>, v: Value, s1: SubRuntime<F>, r: Value) -> bool {
        &&& signal_of(v) is Some ==> awaited(signal_of(v)->0.id, self.0, s0, s1)
        &&& signal_of(v) is None ==> s1 == s0
        &&& r == v
    }

    pub fn call<F: FnMut(Value) -> Value>(&self, sub: &mut SubRuntime<F>, val: Value) -> (r: Value)
        ensures
            keeps_ids(Node::NAwaitD(*self), *old(sub), *final(sub)),
            self.post(*old(sub), val, *final(sub), r),
    {
        match as_signal(&val) {
            Some(sr) => sr.await_signal(sub, self.0),
            None => {},
        }
        val
    }
}

/// Node awaiting a fixed signal, and continuing in node `self.1` at the
/// instant following its emission. Signature: `() -> ()`.
pub struct NAwaitS(pub SignalRuntimeRef, pub usize);

impl NAwaitS {
    /// What a call of the node does, from the sub-runtime `s0` and the
    /// input `v` to the sub-runtime `s1` and the result `r`.
    pub open spec fn post<F: FnMut(Value) -> Value>(&self, s0: SubRuntime<F>, v: Value, s1: SubRuntime<F>, r: Value) -> bool {
        &&& awaited(self.0.id, self.1, s0, s1)
        &&& r == Value::Unit
    }

    pub fn call<F: FnMut(Value) -> Value>(&self, sub: &mut SubRuntime<F>, val: Value) -> (r: Value)
        ensures
            keeps_ids(Node::NAwaitS(*self), *old(sub), *final(sub)),
            self.post(*old(sub), val, *final(sub), r),
    {
        self.0.await_signal(sub, self.1);
        Value::Unit
    }
}

/// Node awaiting the signal given in its input, and continuing in node
/// `self.0` at the instant of its emission. Signature: `S -> ()`.
pub struct NAwaitImmediateD(pub usize);

impl NAwaitImmediateD {
    /// What a call of the node does, from the sub-runtime `s0` and the
    /// input `v` to the sub-runtime `s1` and the result `r`.
    pub open spec fn post<F: FnMut(Value) -> Value>(&self, s0: SubRuntime<F>, v: Value, s1: SubRuntime<F>, r: Value) -> bool {
        &&& signal_of(v) is Some ==> awaited_immediately(signal_of(v)->0.id, self.0, s0, s1)
        &&& signal_of(v) is None ==> s1 == s0
        &&& r == Value::Unit
    }

    pub fn call<F: FnMut(Value) -> Value>(&self, sub: &mut SubRuntime<F>, val: Value) -> (r: Value)
        ensures
            keeps_ids(Node::NAwaitImmediateD(*self), *old(sub), *final(sub)),
            self.post(*old(sub), val, *final(sub), r),
    {
        match as_signal(&val) {
            Some(sr) => sr.await_immediate(sub, self.0),
            None => {},
        }
        Value::Unit
    }
}

/// Node awaiting a fixed signal, and continuing in node `self.1` at the
/// instant of its emission. Signature: `() -> ()`.
pub struct NAwaitImmediateS(pub SignalRuntimeRef, pub usize);

impl NAwaitImmediateS {
    /// What a call of the node does, from the sub-runtime `s0` and the
    /// input `v` to the sub-runtime `s1` and the result `r`.
    pub open spec fn post<F: FnMut(Value) -> Value>(&self, s0: SubRuntime<F>, v: Value, s1: SubRuntime<F>, r: Value) -> bool {
        &&& awaited_immediately(self.0.id, self.1, s0, s1)
        &&& r == Value::Unit
    }

    pub fn call<F: FnMut(Value) -> Value>(&self, sub: &mut SubRuntime<F>, val: Value) -> (r: Value)
        ensures
            keeps_ids(Node::NAwaitImmediateS(*self), *old(sub), *final(sub)),
            self.post(*old(sub), val, *final(sub), r),
    {
        self.0.await_immediate(sub, self.1);
        Value::Unit
    }
}

/// Node continuing in `node_true` during this instant if the signal given in
/// its input is present, and in `node_false` at the next instant otherwise.
/// Signature: `S -> ()`.
pub struct NPresentD {
    pub node_true: usize,
    pub node_false: usize,
}

impl NPresentD {
    /// What a call of the node does, from the sub-runtime `s0` and the
    /// input `v` to the sub-runtime `s1` and the result `r`.
    pub open spec fn post<F: FnMut(Value) -> Value>(&self, s0: SubRuntime<F>, v: Value, s1: SubRuntime<F>, r: Value) -> bool {
        &&& signal_of(v) is Some ==> presented(signal_of(v)->0.id, self.node_true, self.node_false, s0, s1)
        &&& signal_of(v) is None ==> s1 == s0
        &&& r == Value::Unit
    }

    pub fn call<F: FnMut(Value) -> Value>(&self, sub: &mut SubRuntime<F>, val: Value) -> (r: Value)
        ensures
            keeps_ids(Node::NPresentD(*self), *old(sub), *final(sub)),
            self.post(*old(sub), val, *final(sub), r),
    {
        match as_signal(&val) {
            Some(sr) => {
                sr.present(sub, self.node_true, self.node_false);
                proof { lemma_presented_ids(sr.id, self.node_true, self.node_false, *old(sub), *sub); }
            },
            None => {},
        }
        Value::Unit
    }
}

/// Node continuing in `node_true` during this instant if a fixed signal is
/// present, and in `node_false` at the next instant otherwise.
/// Signature: `() -> ()`.
pub struct NPresentS {
    pub node_true: usize,
    pub node_false: usize,
    pub signal_runtime: SignalRuntimeRef,
}

impl NPresentS {
    /// What a call of the node does, from the sub-runtime `s0` and the
    /// input `v` to the sub-runtime `s1` and the result `r`.
    pub open spec fn post<F: FnMut(Value) -> Value>(&self, s0: SubRuntime<F>, v: Value, s1: SubRuntime<F>, r: Value) -> bool {
        &&& presented(self.signal_runtime.id, self.node_true, self.node_false, s0, s1)
        &&& r == Value::Unit
    }

    pub fn call<F: FnMut(Value) -> Value>(&self, sub: &mut SubRuntime<F>, val: Value) -> (r: Value)
        ensures
            keeps_ids(Node::NPresentS(*self), *old(sub), *final(sub)),
            self.post(*old(sub), val, *final(sub), r),
    {
        self.signal_runtime.present(sub, self.node_true, self.node_false);
        proof { lemma_presented_ids(self.signal_runtime.id, self.node_true, self.node_false, *old(sub), *sub); }
        Value::Unit
    }
}

} // verus!
