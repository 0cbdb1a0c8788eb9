//! Signals: the communication primitive of the reactive model.
//!
//! A signal is present at an instant when it has been emitted during that
//! instant. Processes can wait for a signal (`await`, `await_immediate`), test
//! its presence (`present`) and read the value it carried at the previous
//! instant (`get_pre_value`). A signal with values gathers all the values
//! emitted during an instant with a gather function.

use vstd::prelude::*;
use crate::value::{Value, same_value, lemma_same_value_trans, lemma_same_value_refl};
use crate::engine::{Tasks, Memory, SubRuntime, seq_below, tasks_below, ids_below, lemma_seq_below_add};
use crate::graph::Graph;
use crate::utility::{take, push_all, push_all_pairs, firsts, seconds};

verus! {

/// Every user function of the table accepts every value.
pub open spec fn fns_total<F: FnMut(Value) -> Value>(fns: Seq<F>) -> bool {
    forall|i: int, v: Value| 0 <= i < fns.len() ==> #[trigger] call_requires(fns[i], (v,))
}

/// `c1` is the result of gathering the emitted value `e` into the current
/// value `c0`: what the gather function of index `g` in `fns` returns on the
/// pair `(e, c0)`; without such a function, `c0` itself.
pub open spec fn gathered<F: FnMut(Value) -> Value>(fns: Seq<F>, g: Option<usize>, e: Value, c0: Value, c1: Value) -> bool {
    if g is Some && g->0 < fns.len() {
        call_ensures(fns[g->0 as int], (Value::Pair(Box::new(e), Box::new(c0)),), c1)
    } else {
        c1 == c0
    }
}

/// The values stored in a signal runtime.
pub trait SignalValue: Sized {
    /// The value of the previous instant.
    spec fn pre(&self) -> Value;

    /// The value gathered so far during the current instant.
    spec fn cur(&self) -> Value;

    /// The value a signal holds at an instant where it is not emitted.
    spec fn dflt(&self) -> Value;

    /// The user function that gathers an emitted value, if any.
    spec fn gather_fn(&self) -> Option<usize>;

    /// Gets the value of the signal of the last instant.
    fn get_pre_value(&self) -> (r: Value)
        ensures
            same_value(r, self.pre()),
    ;

    /// Gathers an emitted value into the current value.
    ///
    /// The current value becomes what the gather function returns on the pair
    /// `(emitted value, current value)`.
    fn gather<F: FnMut(Value) -> Value>(&mut self, emit_value: Value, fns: &mut Vec<F>)
        requires
            fns_total(old(fns)@),
        ensures
            final(fns)@ == old(fns)@,
            final(self).pre() == old(self).pre(),
            final(self).dflt() == old(self).dflt(),
            final(self).gather_fn() == old(self).gather_fn(),
            gathered(old(fns)@, old(self).gather_fn(), emit_value, old(self).cur(), final(self).cur()),
    ;

    /// Stores the current value as the last instant value, and resets the
    /// current value to the default one.
    fn reset_value(&mut self)
        ensures
            final(self).pre() == old(self).cur(),
            same_value(final(self).cur(), old(self).dflt()),
            final(self).dflt() == old(self).dflt(),
            final(self).gather_fn() == old(self).gather_fn(),
    ;
}

/// The values of a pure signal: there are none.
pub struct PureSignalValue {}

impl PureSignalValue {
    pub fn new() -> (r: Self) {
        PureSignalValue {}
    }
}

impl SignalValue for PureSignalValue {
    open spec fn pre(&self) -> Value { Value::Unit }
    open spec fn cur(&self) -> Value { Value::Unit }
    open spec fn dflt(&self) -> Value { Value::Unit }
    open spec fn gather_fn(&self) -> Option<usize> { None }

    fn get_pre_value(&self) -> (r: Value) {
        Value::Unit
    }

    fn gather<F: FnMut(Value) -> Value>(&mut self, emit_value: Value, fns: &mut Vec<F>) {
    }

    fn reset_value(&mut self) {
    }
}

/// The values of a multi-consumer signal.
pub struct MCSignalValue {
    /// The value of the signal at an instant where it is not emitted.
    pub default_value: Value,
    /// The value gathered during the current instant.
    pub current_value: Value,
    /// The value of the signal at the last instant.
    pub pre_value: Value,
    /// The index of the gather function in the user function table.
    pub gather: usize,
}

impl MCSignalValue {
    /// Creates the values of a multi-consumer signal from a default value and
    /// the index of a gather function.
    pub fn new(default_value: Value, gather: usize) -> (r: Self)
        ensures
            same_value(r.default_value, default_value),
            same_value(r.current_value, default_value),
            r.pre_value == default_value,
            r.gather == gather,
    {
        let d1 = default_value.duplicate();
        let d2 = default_value.duplicate();
        MCSignalValue { default_value: d1, current_value: d2, pre_value: default_value, gather }
    }
}

impl SignalValue for MCSignalValue {
    open spec fn pre(&self) -> Value { self.pre_value }
    open spec fn cur(&self) -> Value { self.current_value }
    open spec fn dflt(&self) -> Value { self.default_value }
    open spec fn gather_fn(&self) -> Option<usize> { Some(self.gather) }

    fn get_pre_value(&self) -> (r: Value) {
        self.pre_value.duplicate()
    }

    fn gather<F: FnMut(Value) -> Value>(&mut self, emit_value: Value, fns: &mut Vec<F>) {
        if self.gather < fns.len() {
            let mut cur = Value::Unit;
            std::mem::swap(&mut cur, &mut self.current_value);
            let arg = Value::pair(emit_value, cur);
            let g = self.gather;
            let r = (fns[g])(arg);
            self.current_value = r;
        }
    }

    fn reset_value(&mut self) {
        std::mem::swap(&mut self.pre_value, &mut self.current_value);
        self.current_value = self.default_value.duplicate();
    }
}

} // verus!

verus! {

/// The values of a signal: none for a pure signal, gathered ones otherwise.
pub enum SignalValues {
    Pure(PureSignalValue),
    MC(MCSignalValue),
}

impl SignalValue for SignalValues {
    open spec fn pre(&self) -> Value {
        match self {
            SignalValues::Pure(p) => p.pre(),
            SignalValues::MC(m) => m.pre(),
        }
    }
    open spec fn cur(&self) -> Value {
        match self {
            SignalValues::Pure(p) => p.cur(),
            SignalValues::MC(m) => m.cur(),
        }
    }
    open spec fn dflt(&self) -> Value {
        match self {
            SignalValues::Pure(p) => p.dflt(),
            SignalValues::MC(m) => m.dflt(),
        }
    }
    open spec fn gather_fn(&self) -> Option<usize> {
        match self {
            SignalValues::Pure(p) => p.gather_fn(),
            SignalValues::MC(m) => m.gather_fn(),
        }
    }

    fn get_pre_value(&self) -> (r: Value) {
        match self {
            SignalValues::Pure(p) => p.get_pre_value(),
            SignalValues::MC(m) => m.get_pre_value(),
        }
    }

    fn gather<F: FnMut(Value) -> Value>(&mut self, emit_value: Value, fns: &mut Vec<F>) {
        match self {
            SignalValues::Pure(p) => p.gather(emit_value, fns),
            SignalValues::MC(m) => m.gather(emit_value, fns),
        }
    }

    fn reset_value(&mut self) {
        match self {
            SignalValues::Pure(p) => p.reset_value(),
            SignalValues::MC(m) => m.reset_value(),
        }
    }
}


/// The state of a signal during the execution of a runtime.
pub struct SignalRuntime {
    /// The last instant where the signal was set.
    pub last_set: usize,
    /// The instant where the signal was set before `last_set`.
    pub pre_last_set: usize,
    /// The last instant where the values were updated.
    pub last_update: usize,
    /// The nodes that await the signal.
    pub pending_await: Vec<usize>,
    /// The nodes that await the signal immediately.
    pub pending_await_immediate: Vec<usize>,
    /// The pending presence tests, as pairs of the `true` and `false` nodes.
    pub pending_present: Vec<(usize, usize)>,
    /// The values of the signal.
    pub values: SignalValues,
}

/// The effect of `await_signal` at instant `ci` on a signal and the tasks.
pub open spec fn await_post(s0: SignalRuntime, s1: SignalRuntime, t0: Tasks, t1: Tasks, ci: usize, node: usize) -> bool {
    if s0.last_set == ci {
        &&& t1.next@ == t0.next@.push(node)
        &&& t1.current == t0.current
        &&& s1 == s0
    } else {
        &&& t1 == t0
        &&& s1.pending_await@ == s0.pending_await@.push(node)
        &&& s1 == (SignalRuntime { pending_await: s1.pending_await, ..s0 })
    }
}

/// The effect of `await_immediate` at instant `ci` on a signal and the tasks.
pub open spec fn await_immediate_post(s0: SignalRuntime, s1: SignalRuntime, t0: Tasks, t1: Tasks, ci: usize, node: usize) -> bool {
    if s0.last_set == ci {
        &&& t1.current@ == t0.current@.push(node)
        &&& t1.next == t0.next
        &&& s1 == s0
    } else {
        &&& t1 == t0
        &&& s1.pending_await_immediate@ == s0.pending_await_immediate@.push(node)
        &&& s1 == (SignalRuntime { pending_await_immediate: s1.pending_await_immediate, ..s0 })
    }
}

/// The effect of `present` at instant `ci` on a signal and the tasks;
/// `first` tells whether the test became the only pending one.
pub open spec fn present_post(s0: SignalRuntime, s1: SignalRuntime, t0: Tasks, t1: Tasks, ci: usize, node_true: usize, node_false: usize, first: bool) -> bool {
    if s0.last_set == ci {
        &&& t1.current@ == t0.current@.push(node_true)
        &&& t1.next == t0.next
        &&& s1 == s0
        &&& !first
    } else {
        &&& t1 == t0
        &&& s1.pending_present@ == s0.pending_present@.push((node_true, node_false))
        &&& s1 == (SignalRuntime { pending_present: s1.pending_present, ..s0 })
        &&& first == (s0.pending_present@.len() == 0)
    }
}

/// The effect of the end of an instant on a signal and the tasks.
pub open spec fn end_of_instant_post(s0: SignalRuntime, s1: SignalRuntime, t0: Tasks, t1: Tasks) -> bool {
    &&& t1.current@ == t0.current@ + seconds(s0.pending_present@)
    &&& t1.next == t0.next
    &&& s1.pending_present@ == Seq::<(usize, usize)>::empty()
    &&& s1 == (SignalRuntime { pending_present: s1.pending_present, ..s0 })
}

/// The effect of bringing the values of a signal up to date with instant `ci`.
pub open spec fn update_post(s0: SignalRuntime, s1: SignalRuntime, ci: usize) -> bool {
    &&& s0.last_update + 1 < ci ==> {
        &&& same_value(s1.values.pre(), s0.values.dflt())
        &&& same_value(s1.values.cur(), s0.values.dflt())
        &&& s1.last_update == ci
    }
    &&& s0.last_update + 1 == ci ==> {
        &&& s1.values.pre() == s0.values.cur()
        &&& same_value(s1.values.cur(), s0.values.dflt())
        &&& s1.last_update == ci
    }
    &&& ci <= s0.last_update ==> s1 == s0
    &&& s1.values.dflt() == s0.values.dflt()
    &&& s1.values.gather_fn() == s0.values.gather_fn()
    &&& s1.last_set == s0.last_set
    &&& s1.pre_last_set == s0.pre_last_set
    &&& s1.pending_await == s0.pending_await
    &&& s1.pending_await_immediate == s0.pending_await_immediate
    &&& s1.pending_present == s0.pending_present
}

/// The effect of an emission at instant `ci` on a signal and the tasks.
pub open spec fn emit_post(s0: SignalRuntime, s1: SignalRuntime, t0: Tasks, t1: Tasks, ci: usize) -> bool {
    &&& s1.last_set == ci
    &&& s1.values.dflt() == s0.values.dflt()
    &&& s1.values.gather_fn() == s0.values.gather_fn()
    &&& s0.last_set == ci ==> {
        &&& t1 == t0
        &&& s1.pre_last_set == s0.pre_last_set
        &&& s1.last_update == s0.last_update
        &&& s1.values.pre() == s0.values.pre()
        &&& s1.pending_await == s0.pending_await
        &&& s1.pending_await_immediate == s0.pending_await_immediate
        &&& s1.pending_present == s0.pending_present
    }
    &&& s0.last_set != ci ==> {
        &&& s1.pre_last_set == s0.last_set
        &&& t1.current@ == t0.current@ + s0.pending_await_immediate@ + firsts(s0.pending_present@)
        &&& t1.next@ == t0.next@ + s0.pending_await@
        &&& s1.pending_await@ == Seq::<usize>::empty()
        &&& s1.pending_await_immediate@ == Seq::<usize>::empty()
        &&& s1.pending_present@ == Seq::<(usize, usize)>::empty()
        &&& s0.last_update < ci ==> s1.last_update == ci
        &&& s0.last_update + 1 < ci ==> same_value(s1.values.pre(), s0.values.dflt())
        &&& s0.last_update + 1 == ci ==> s1.values.pre() == s0.values.cur()
        &&& ci <= s0.last_update ==> s1.values.pre() == s0.values.pre() && s1.last_update == s0.last_update
    }
}

/// `c` is the current value an emission at instant `ci` gathers into: the
/// one of the signal if it was already emitted at `ci` or is up to date
/// with `ci`, otherwise (a fresh instant) a copy of the default value.
pub open spec fn emit_base(s0: SignalRuntime, ci: usize, c: Value) -> bool {
    if s0.last_set == ci || ci <= s0.last_update {
        c == s0.values.cur()
    } else {
        same_value(c, s0.values.dflt())
    }
}

/// The value `get_pre_value` at instant `ci` reads on a signal.
pub open spec fn pre_value_at(s: SignalRuntime, ci: usize) -> Value {
    if s.last_update + 1 < ci {
        s.values.dflt()
    } else if s.last_update + 1 == ci {
        s.values.cur()
    } else {
        s.values.pre()
    }
}

/// Whether the signal was set at the instant before `ci`.
pub open spec fn pre_set_at(s: SignalRuntime, ci: usize) -> bool {
    if s.last_set == ci {
        s.pre_last_set + 1 == ci
    } else {
        s.last_set + 1 == ci
    }
}

impl SignalRuntime {
    /// `self` is a fresh signal runtime with the given values.
    pub open spec fn is_fresh(self, signal_value: SignalValues) -> bool {
        &&& self.last_set == 0
        &&& self.pre_last_set == 0
        &&& self.last_update == 2
        &&& self.pending_await@ == Seq::<usize>::empty()
        &&& self.pending_await_immediate@ == Seq::<usize>::empty()
        &&& self.pending_present@ == Seq::<(usize, usize)>::empty()
        &&& self.values == signal_value
    }

    /// Creates a signal runtime, given its values.
    pub fn new(signal_value: SignalValues) -> (r: Self)
        ensures
            r.last_set == 0,
            r.pre_last_set == 0,
            r.last_update == 2,
            r.pending_await@ == Seq::<usize>::empty(),
            r.pending_await_immediate@ == Seq::<usize>::empty(),
            r.pending_present@ == Seq::<(usize, usize)>::empty(),
            r.values == signal_value,
    {
        SignalRuntime {
            last_set: 0,
            pre_last_set: 0,
            last_update: 2,
            pending_await: Vec::new(),
            pending_await_immediate: Vec::new(),
            pending_present: Vec::new(),
            values: signal_value,
        }
    }

    /// Creates the runtime of a pure signal.
    pub fn new_pure() -> (r: Self)
        ensures
            r.last_set == 0,
            r.pre_last_set == 0,
            r.last_update == 2,
            r.pending_await@ == Seq::<usize>::empty(),
            r.pending_await_immediate@ == Seq::<usize>::empty(),
            r.pending_present@ == Seq::<(usize, usize)>::empty(),
            r.values is Pure,
    {
        Self::new(SignalValues::Pure(PureSignalValue::new()))
    }

    /// Creates the runtime of a multi-consumer signal.
    pub fn new_mc(default_value: Value, gather: usize) -> (r: Self)
        ensures
            r.last_set == 0,
            r.pre_last_set == 0,
            r.last_update == 2,
            r.pending_await@ == Seq::<usize>::empty(),
            r.pending_await_immediate@ == Seq::<usize>::empty(),
            r.pending_present@ == Seq::<(usize, usize)>::empty(),
            r.values.pre() == default_value,
            same_value(r.values.cur(), default_value),
            same_value(r.values.dflt(), default_value),
            r.values.gather_fn() == Some(gather),
    {
        Self::new(SignalValues::MC(MCSignalValue::new(default_value, gather)))
    }

    /// Brings the values up to date with instant `current_instant`: the
    /// value of the last instant is the one gathered at `current_instant - 1`,
    /// or the default value if the signal was not emitted then.
    pub fn update_values(&mut self, current_instant: usize)
        ensures
            update_post(*old(self), *final(self), current_instant),
    {
        if self.last_update < current_instant && current_instant - self.last_update > 1 {
            self.values.reset_value();
            self.values.reset_value();
            self.last_update = current_instant;
        } else if self.last_update < current_instant {
            self.values.reset_value();
            self.last_update = current_instant;
        }
    }

    /// Whether the signal is set at instant `current_instant`.
    pub fn is_set(&self, current_instant: usize) -> (r: bool)
        ensures
            r == (self.last_set == current_instant),
    {
        self.last_set == current_instant
    }

    /// Whether the signal was set at the instant before `current_instant`.
    pub fn pre_set(&self, current_instant: usize) -> (r: bool)
        ensures
            r == pre_set_at(*self, current_instant),
    {
        if self.last_set == current_instant {
            self.pre_last_set as u128 + 1 == current_instant as u128
        } else {
            self.last_set as u128 + 1 == current_instant as u128
        }
    }

    /// Awaits the signal: the node is scheduled for the instant following
    /// the emission of the signal.
    pub fn await_signal(&mut self, tasks: &mut Tasks, current_instant: usize, node: usize)
        ensures
            await_post(*old(self), *final(self), *old(tasks), *final(tasks), current_instant, node),
    {
        if self.last_set == current_instant {
            tasks.next.push(node);
        } else {
            self.pending_await.push(node);
        }
    }

    /// Awaits the signal immediately: the node is scheduled for the instant
    /// of the emission of the signal.
    pub fn await_immediate(&mut self, tasks: &mut Tasks, current_instant: usize, node: usize)
        ensures
            await_immediate_post(*old(self), *final(self), *old(tasks), *final(tasks), current_instant, node),
    {
        if self.last_set == current_instant {
            tasks.current.push(node);
        } else {
            self.pending_await_immediate.push(node);
        }
    }

    /// Tests the presence of the signal: `node_true` runs during this instant
    /// if the signal is present, `node_false` runs at the next instant
    /// otherwise. Returns whether the test is the first pending one, in which
    /// case the signal must be registered for the end of the instant.
    pub fn present(&mut self, tasks: &mut Tasks, current_instant: usize, node_true: usize, node_false: usize) -> (first: bool)
        ensures
            present_post(*old(self), *final(self), *old(tasks), *final(tasks), current_instant, node_true, node_false, first),
    {
        if self.last_set == current_instant {
            tasks.current.push(node_true);
            false
        } else {
            self.pending_present.push((node_true, node_false));
            self.pending_present.len() == 1
        }
    }

    /// Emits a value on the signal at instant `current_instant`.
    ///
    /// The value is gathered. On the first emission of the instant, the
    /// nodes awaiting the signal immediately and the `true` branches of the
    /// pending presence tests are scheduled for the current instant, and the
    /// nodes awaiting the signal for the next one.
    pub fn emit<F: FnMut(Value) -> Value>(&mut self, emit_value: Value, tasks: &mut Tasks, current_instant: usize, fns: &mut Vec<F>)
        requires
            fns_total(old(fns)@),
        ensures
            final(fns)@ == old(fns)@,
            emit_post(*old(self), *final(self), *old(tasks), *final(tasks), current_instant),
            exists|c: Value| #[trigger] emit_base(*old(self), current_instant, c)
                && gathered(old(fns)@, old(self).values.gather_fn(), emit_value, c, final(self).values.cur()),
    {
        if self.last_set == current_instant {
            let ghost c = self.values.cur();
            self.values.gather(emit_value, fns);
            proof { assert(emit_base(*old(self), current_instant, c)); }
            return;
        }
        self.pre_last_set = self.last_set;
        self.last_set = current_instant;
        self.update_values(current_instant);
        let ghost c = self.values.cur();
        self.values.gather(emit_value, fns);
        proof { assert(emit_base(*old(self), current_instant, c)); }

        self.process_pending_await_immediate(tasks);
        self.process_pending_await(tasks);
        self.process_pending_present(tasks);
    }

    /// Schedules the nodes awaiting the signal for the next instant.
    fn process_pending_await(&mut self, tasks: &mut Tasks)
        ensures
            final(tasks).next@ == old(tasks).next@ + old(self).pending_await@,
            final(tasks).current == old(tasks).current,
            final(self).pending_await@ == Seq::<usize>::empty(),
            *final(self) == (SignalRuntime { pending_await: final(self).pending_await, ..*old(self) }),
    {
        let nodes = take(&mut self.pending_await);
        push_all(&mut tasks.next, &nodes);
    }

    /// Schedules the nodes awaiting the signal immediately for the current instant.
    fn process_pending_await_immediate(&mut self, tasks: &mut Tasks)
        ensures
            final(tasks).current@ == old(tasks).current@ + old(self).pending_await_immediate@,
            final(tasks).next == old(tasks).next,
            final(self).pending_await_immediate@ == Seq::<usize>::empty(),
            *final(self) == (SignalRuntime { pending_await_immediate: final(self).pending_await_immediate, ..*old(self) }),
    {
        let nodes = take(&mut self.pending_await_immediate);
        push_all(&mut tasks.current, &nodes);
    }

    /// Schedules the `true` branches of the pending presence tests for the
    /// current instant.
    fn process_pending_present(&mut self, tasks: &mut Tasks)
        ensures
            final(tasks).current@ == old(tasks).current@ + firsts(old(self).pending_present@),
            final(tasks).next == old(tasks).next,
            final(self).pending_present@ == Seq::<(usize, usize)>::empty(),
            *final(self) == (SignalRuntime { pending_present: final(self).pending_present, ..*old(self) }),
    {
        let nodes = take(&mut self.pending_present);
        push_all_pairs(&mut tasks.current, &nodes, false);
    }

    /// Returns the value of the signal at the instant before `current_instant`.
    pub fn get_pre_value(&mut self, current_instant: usize) -> (r: Value)
        ensures
            same_value(r, pre_value_at(*old(self), current_instant)),
            update_post(*old(self), *final(self), current_instant),
    {
        self.update_values(current_instant);
        let r = self.values.get_pre_value();
        proof {
            if old(self).last_update + 1 < current_instant {
                lemma_same_value_trans(r, self.values.pre(), old(self).values.dflt());
            }
        }
        r
    }

    /// At the end of an instant, the `false` branches of the pending presence
    /// tests are scheduled (for the instant that begins).
    pub fn on_end_of_instant(&mut self, tasks: &mut Tasks)
        ensures
            end_of_instant_post(*old(self), *final(self), *old(tasks), *final(tasks)),
    {
        let pres = take(&mut self.pending_present);
        push_all_pairs(&mut tasks.current, &pres, true);
    }
}

} // verus!

verus! {

/// The effect of `SignalRuntimeRef::emit` on the signal `id` and a sub-runtime.
pub open spec fn emitted<F>(id: usize, s0: SubRuntime<F>, s1: SubRuntime<F>) -> bool {
    &&& s1.fns@ == s0.fns@
    &&& id < s0.mem.signals@.len() ==> {
        &&& emit_post(s0.mem.signals@[id as int], s1.mem.signals@[id as int], s0.tasks, s1.tasks, s0.current_instant)
        &&& s1.mem.signals@ == s0.mem.signals@.update(id as int, s1.mem.signals@[id as int])
        &&& s1 == (SubRuntime { tasks: s1.tasks, mem: Memory { signals: s1.mem.signals, ..s0.mem }, fns: s1.fns, ..s0 })
    }
    &&& id >= s0.mem.signals@.len() ==> s1 == s0
}

/// The value the signal `id` holds after `SignalRuntimeRef::emit` of `e`
/// on a sub-runtime: `e` gathered into its current value (see `emit_base`).
pub open spec fn emitted_value<F: FnMut(Value) -> Value>(id: usize, e: Value, s0: SubRuntime<F>, s1: SubRuntime<F>) -> bool {
    id < s0.mem.signals@.len() ==> exists|c: Value| #[trigger] emit_base(s0.mem.signals@[id as int], s0.current_instant, c)
        && gathered(s0.fns@, s0.mem.signals@[id as int].values.gather_fn(), e, c, s1.mem.signals@[id as int].values.cur())
}

/// The effect of `SignalRuntimeRef::await_signal` on the signal `id` and a sub-runtime.
pub open spec fn awaited<F>(id: usize, node: usize, s0: SubRuntime<F>, s1: SubRuntime<F>) -> bool {
    &&& id < s0.mem.signals@.len() ==> {
        &&& await_post(s0.mem.signals@[id as int], s1.mem.signals@[id as int], s0.tasks, s1.tasks, s0.current_instant, node)
        &&& s1.mem.signals@ == s0.mem.signals@.update(id as int, s1.mem.signals@[id as int])
        &&& s1 == (SubRuntime { tasks: s1.tasks, mem: Memory { signals: s1.mem.signals, ..s0.mem }, ..s0 })
    }
    &&& id >= s0.mem.signals@.len() ==> s1 == s0
}

/// The effect of `SignalRuntimeRef::await_immediate` on the signal `id` and a sub-runtime.
pub open spec fn awaited_immediately<F>(id: usize, node: usize, s0: SubRuntime<F>, s1: SubRuntime<F>) -> bool {
    &&& id < s0.mem.signals@.len() ==> {
        &&& await_immediate_post(s0.mem.signals@[id as int], s1.mem.signals@[id as int], s0.tasks, s1.tasks, s0.current_instant, node)
        &&& s1.mem.signals@ == s0.mem.signals@.update(id as int, s1.mem.signals@[id as int])
        &&& s1 == (SubRuntime { tasks: s1.tasks, mem: Memory { signals: s1.mem.signals, ..s0.mem }, ..s0 })
    }
    &&& id >= s0.mem.signals@.len() ==> s1 == s0
}

/// The effect of `SignalRuntimeRef::present` on the signal `id` and a sub-runtime.
pub open spec fn presented<F>(id: usize, node_true: usize, node_false: usize, s0: SubRuntime<F>, s1: SubRuntime<F>) -> bool {
    &&& id < s0.mem.signals@.len() ==> exists|first: bool| {
        &&& #[trigger] present_post(s0.mem.signals@[id as int], s1.mem.signals@[id as int], s0.tasks, s1.tasks,
                s0.current_instant, node_true, node_false, first)
        &&& s1.mem.signals@ == s0.mem.signals@.update(id as int, s1.mem.signals@[id as int])
        &&& s1.eoi.pending@ == (if first { s0.eoi.pending@.push(id) } else { s0.eoi.pending@ })
        &&& s1 == (SubRuntime { tasks: s1.tasks, eoi: s1.eoi, mem: Memory { signals: s1.mem.signals, ..s0.mem }, ..s0 })
    }
    &&& id >= s0.mem.signals@.len() ==> s1 == s0
}

/// The effect of `SignalRuntimeRef::get_pre_value` on the signal `id` and a
/// sub-runtime, `r` being the value read.
pub open spec fn pre_read<F>(id: usize, r: Value, s0: SubRuntime<F>, s1: SubRuntime<F>) -> bool {
    &&& id < s0.mem.signals@.len() ==> {
        &&& same_value(r, pre_value_at(s0.mem.signals@[id as int], s0.current_instant))
        &&& update_post(s0.mem.signals@[id as int], s1.mem.signals@[id as int], s0.current_instant)
        &&& s1.mem.signals@ == s0.mem.signals@.update(id as int, s1.mem.signals@[id as int])
        &&& s1 == (SubRuntime { mem: Memory { signals: s1.mem.signals, ..s0.mem }, ..s0 })
    }
    &&& id >= s0.mem.signals@.len() ==> s1 == s0 && r == Value::Unit
}

/// The effect of `SignalRuntimeRef::on_end_of_instant` on the signal `id` and a sub-runtime.
pub open spec fn ended_instant<F>(id: usize, s0: SubRuntime<F>, s1: SubRuntime<F>) -> bool {
    &&& id < s0.mem.signals@.len() ==> {
        &&& end_of_instant_post(s0.mem.signals@[id as int], s1.mem.signals@[id as int], s0.tasks, s1.tasks)
        &&& s1.mem.signals@ == s0.mem.signals@.update(id as int, s1.mem.signals@[id as int])
        &&& s1 == (SubRuntime { tasks: s1.tasks, mem: Memory { signals: s1.mem.signals, ..s0.mem }, ..s0 })
    }
    &&& id >= s0.mem.signals@.len() ==> s1 == s0
}

/// A signal, designated by its index in the memory of a graph or runtime.
#[derive(Clone, Copy, Debug)]
pub struct SignalRuntimeRef {
    pub id: usize,
}

impl SignalRuntimeRef {
    /// Creates a signal in `g` with the given values.
    pub fn new<F: FnMut(Value) -> Value>(g: &mut Graph<F>, signal_value: SignalValues) -> (r: Self)
        ensures
            r.id == old(g).mem.signals@.len(),
            final(g).mem.signals@.len() == old(g).mem.signals@.len() + 1,
            final(g).mem.signals@.drop_last() == old(g).mem.signals@,
            final(g).mem.signals@.last().is_fresh(signal_value),
            final(g).nodes == old(g).nodes,
            final(g).fns == old(g).fns,
            final(g).mem == (Memory { signals: final(g).mem.signals, ..old(g).mem }),
    {
        let id = g.mem.signals.len();
        g.mem.signals.push(SignalRuntime::new(signal_value));
        proof { assert(g.mem.signals@.drop_last() =~= old(g).mem.signals@); }
        SignalRuntimeRef { id }
    }

    /// Creates a pure signal in `g`.
    pub fn new_pure<F: FnMut(Value) -> Value>(g: &mut Graph<F>) -> (r: Self)
        ensures
            r.id == old(g).mem.signals@.len(),
            final(g).mem.signals@.len() == old(g).mem.signals@.len() + 1,
            final(g).mem.signals@.drop_last() == old(g).mem.signals@,
            final(g).mem.signals@.last().is_fresh(SignalValues::Pure(PureSignalValue {})),
            final(g).nodes == old(g).nodes,
            final(g).fns == old(g).fns,
            final(g).mem == (Memory { signals: final(g).mem.signals, ..old(g).mem }),
    {
        Self::new(g, SignalValues::Pure(PureSignalValue::new()))
    }

    /// Creates a multi-consumer signal in `g`, whose value is `default_value`
    /// at an instant where it is not emitted, and `gather` folds the
    /// emitted values: on the pair `(emitted value, value so far)` it returns
    /// the new value.
    pub fn new_mc<F: FnMut(Value) -> Value>(g: &mut Graph<F>, default_value: Value, gather: F) -> (r: Self)
        requires
            old(g).wf(),
            forall|v: Value| call_requires(gather, (v,)),
        ensures
            final(g).wf(),
            r.id == old(g).mem.signals@.len(),
            final(g).fns@ == old(g).fns@.push(gather),
            final(g).mem.signals@.len() == old(g).mem.signals@.len() + 1,
            final(g).mem.signals@.drop_last() == old(g).mem.signals@,
            ({
                let s = final(g).mem.signals@.last();
                &&& s.last_set == 0
                &&& s.pre_last_set == 0
                &&& s.last_update == 2
                &&& s.pending_await@.len() == 0
                &&& s.pending_await_immediate@.len() == 0
                &&& s.pending_present@.len() == 0
                &&& s.values.pre() == default_value
                &&& same_value(s.values.cur(), default_value)
                &&& same_value(s.values.dflt(), default_value)
                &&& s.values.gather_fn() == Some(old(g).fns@.len() as usize)
            }),
            final(g).nodes == old(g).nodes,
            final(g).mem == (Memory { signals: final(g).mem.signals, ..old(g).mem }),
    {
        let fid = g.add_fn(gather);
        let id = g.mem.signals.len();
        g.mem.signals.push(SignalRuntime::new_mc(default_value, fid));
        proof { assert(g.mem.signals@.drop_last() =~= old(g).mem.signals@); }
        SignalRuntimeRef { id }
    }

    /// Emits a value on the signal (see `SignalRuntime::emit`).
    pub fn emit<F: FnMut(Value) -> Value>(&self, emit_value: Value, sub: &mut SubRuntime<F>)
        requires
            old(sub).wf(),
        ensures
            emitted(self.id, *old(sub), *final(sub)),
            emitted_value(self.id, emit_value, *old(sub), *final(sub)),
    {
        if self.id < sub.mem.signals.len() {
            let ci = sub.current_instant;
            sub.mem.signals[self.id].emit(emit_value, &mut sub.tasks, ci, &mut sub.fns);
        }
    }

    /// Awaits the signal (see `SignalRuntime::await_signal`).
    pub fn await_signal<F: FnMut(Value) -> Value>(&self, sub: &mut SubRuntime<F>, node: usize)
        ensures
            awaited(self.id, node, *old(sub), *final(sub)),
    {
        if self.id < sub.mem.signals.len() {
            let ci = sub.current_instant;
            sub.mem.signals[self.id].await_signal(&mut sub.tasks, ci, node);
        }
    }

    /// Awaits the signal immediately (see `SignalRuntime::await_immediate`).
    pub fn await_immediate<F: FnMut(Value) -> Value>(&self, sub: &mut SubRuntime<F>, node: usize)
        ensures
            awaited_immediately(self.id, node, *old(sub), *final(sub)),
    {
        if self.id < sub.mem.signals.len() {
            let ci = sub.current_instant;
            sub.mem.signals[self.id].await_immediate(&mut sub.tasks, ci, node);
        }
    }

    /// Tests the presence of the signal (see `SignalRuntime::present`); when
    /// the test is the first pending one, the signal is registered for the
    /// end of the instant.
    pub fn present<F: FnMut(Value) -> Value>(&self, sub: &mut SubRuntime<F>, node_true: usize, node_false: usize)
        ensures
            presented(self.id, node_true, node_false, *old(sub), *final(sub)),
    {
        if self.id < sub.mem.signals.len() {
            let ci = sub.current_instant;
            let first = sub.mem.signals[self.id].present(&mut sub.tasks, ci, node_true, node_false);
            if first {
                sub.eoi.pending.push(self.id);
            }
        }
    }

    /// Whether the signal was set at the previous instant.
    pub fn pre_set<F: FnMut(Value) -> Value>(&self, sub: &SubRuntime<F>) -> (r: bool)
        ensures
            r == (self.id < sub.mem.signals@.len() && pre_set_at(sub.mem.signals@[self.id as int], sub.current_instant)),
    {
        if self.id < sub.mem.signals.len() {
            sub.mem.signals[self.id].pre_set(sub.current_instant)
        } else {
            false
        }
    }

    /// Whether the signal is set at the current instant.
    pub fn is_set<F: FnMut(Value) -> Value>(&self, sub: &SubRuntime<F>) -> (r: bool)
        ensures
            r == (self.id < sub.mem.signals@.len() && sub.mem.signals@[self.id as int].last_set == sub.current_instant),
    {
        if self.id < sub.mem.signals.len() {
            sub.mem.signals[self.id].is_set(sub.current_instant)
        } else {
            false
        }
    }

    /// The value of the signal at the previous instant (`Unit` for an unknown signal).
    pub fn get_pre_value<F: FnMut(Value) -> Value>(&self, sub: &mut SubRuntime<F>) -> (r: Value)
        ensures
            pre_read(self.id, r, *old(sub), *final(sub)),
    {
        if self.id < sub.mem.signals.len() {
            let ci = sub.current_instant;
            sub.mem.signals[self.id].get_pre_value(ci)
        } else {
            Value::Unit
        }
    }

    /// Runs the end-of-instant work of the signal (see `SignalRuntime::on_end_of_instant`).
    pub fn on_end_of_instant<F: FnMut(Value) -> Value>(&self, sub: &mut SubRuntime<F>)
        ensures
            ended_instant(self.id, *old(sub), *final(sub)),
    {
        if self.id < sub.mem.signals.len() {
            sub.mem.signals[self.id].on_end_of_instant(&mut sub.tasks);
        }
    }
}

} // verus!

verus! {

impl SignalRuntime {
    /// The last emission is not after the last update of the values.
    pub open spec fn wf(&self) -> bool {
        self.last_set <= self.last_update
    }
}

/// A fresh signal runtime is well formed, and every operation on a signal
/// keeps it well formed.
pub proof fn law_signal_wf(s0: SignalRuntime, s1: SignalRuntime, t0: Tasks, t1: Tasks, ci: usize,
    node: usize, node_false: usize, first: bool, v: SignalValues)
    ensures
        s0.is_fresh(v) ==> s0.wf(),
        s0.wf() && await_post(s0, s1, t0, t1, ci, node) ==> s1.wf(),
        s0.wf() && await_immediate_post(s0, s1, t0, t1, ci, node) ==> s1.wf(),
        s0.wf() && present_post(s0, s1, t0, t1, ci, node, node_false, first) ==> s1.wf(),
        s0.wf() && end_of_instant_post(s0, s1, t0, t1) ==> s1.wf(),
        s0.wf() && update_post(s0, s1, ci) ==> s1.wf(),
        s0.wf() && emit_post(s0, s1, t0, t1, ci) ==> s1.wf(),
{
}

/// An emitted signal is present at the instant of its emission, and was
/// present at the previous instant when seen from the next one.
pub proof fn law_emit_present(s0: SignalRuntime, s1: SignalRuntime, t0: Tasks, t1: Tasks, ci: usize)
    requires
        emit_post(s0, s1, t0, t1, ci),
        ci < usize::MAX,
    ensures
        s1.last_set == ci,
        pre_set_at(s1, (ci + 1) as usize),
{
}

/// The value read at the instant after an emission is the value gathered
/// at the instant of the emission.
pub proof fn law_pre_value_after_emit(s0: SignalRuntime, s1: SignalRuntime, t0: Tasks, t1: Tasks, ci: usize)
    requires
        s0.wf(),
        s0.last_update <= ci < usize::MAX,
        emit_post(s0, s1, t0, t1, ci),
    ensures
        pre_value_at(s1, (ci + 1) as usize) == s1.values.cur(),
{
}

/// `c` is the result of gathering the emitted values `es`, in order, into
/// the value `c0`.
pub open spec fn folded<F: FnMut(Value) -> Value>(fns: Seq<F>, g: Option<usize>, es: Seq<Value>, c0: Value, c: Value) -> bool
    decreases es.len(),
{
    if es.len() == 0 {
        c == c0
    } else {
        exists|cm: Value| #[trigger] gathered(fns, g, es.last(), cm, c) && folded(fns, g, es.drop_last(), c0, cm)
    }
}

/// One emission of `e` at instant `ci`, from the signal `s0` to `s1`, as
/// `SignalRuntime::emit` states it.
pub open spec fn emission<F: FnMut(Value) -> Value>(fns: Seq<F>, e: Value, s0: SignalRuntime, s1: SignalRuntime,
    t0: Tasks, t1: Tasks, ci: usize) -> bool {
    &&& emit_post(s0, s1, t0, t1, ci)
    &&& exists|c: Value| #[trigger] emit_base(s0, ci, c) && gathered(fns, s0.values.gather_fn(), e, c, s1.values.cur())
}

/// The value read at the instant after the emissions `es` of an instant is
/// a copy of the default value into which all of them were gathered, in
/// order; with no emission, it is the default value. `ss` are the
/// successive states of the signal and `ts` of the tasks.
pub proof fn law_pre_value_folds<F: FnMut(Value) -> Value>(fns: Seq<F>, es: Seq<Value>, ss: Seq<SignalRuntime>,
    ts: Seq<Tasks>, ci: usize)
    requires
        ss.len() == es.len() + 1,
        ts.len() == ss.len(),
        ss[0].last_set != ci,
        ss[0].last_update < ci < usize::MAX,
        forall|i: int| 0 <= i < es.len() ==> emission(fns, #[trigger] es[i], ss[i], ss[i + 1], ts[i], ts[i + 1], ci),
    ensures
        es.len() == 0 ==> pre_value_at(ss[0], (ci + 1) as usize) == ss[0].values.dflt(),
        es.len() > 0 ==> exists|d: Value| #[trigger] same_value(d, ss[0].values.dflt())
            && folded(fns, ss[0].values.gather_fn(), es, d, pre_value_at(ss[es.len() as int], (ci + 1) as usize)),
{
    if es.len() > 0 {
        assert(emission(fns, es[0], ss[0], ss[1], ts[0], ts[1], ci));
        let d = choose|c: Value| #[trigger] emit_base(ss[0], ci, c)
            && gathered(fns, ss[0].values.gather_fn(), es[0], c, ss[1].values.cur());
        lemma_pre_value_folds(fns, es, ss, ts, ci, d, es.len() as int);
        assert(es.take(es.len() as int) =~= es);
    }
}

/// After the first `k` emissions of the instant, the signal holds the fold
/// of them into `d`, and is up to date and set at `ci`.
proof fn lemma_pre_value_folds<F: FnMut(Value) -> Value>(fns: Seq<F>, es: Seq<Value>, ss: Seq<SignalRuntime>,
    ts: Seq<Tasks>, ci: usize, d: Value, k: int)
    requires
        ss.len() == es.len() + 1,
        ts.len() == ss.len(),
        ss[0].last_set != ci,
        ss[0].last_update < ci < usize::MAX,
        forall|i: int| 0 <= i < es.len() ==> emission(fns, #[trigger] es[i], ss[i], ss[i + 1], ts[i], ts[i + 1], ci),
        1 <= k <= es.len(),
        emit_base(ss[0], ci, d),
        gathered(fns, ss[0].values.gather_fn(), es[0], d, ss[1].values.cur()),
    ensures
        same_value(d, ss[0].values.dflt()),
        folded(fns, ss[0].values.gather_fn(), es.take(k), d, ss[k].values.cur()),
        ss[k].last_set == ci,
        ss[k].last_update == ci,
        ss[k].values.gather_fn() == ss[0].values.gather_fn(),
        pre_value_at(ss[k], (ci + 1) as usize) == ss[k].values.cur(),
    decreases k,
{
    assert(emission(fns, es[0], ss[0], ss[1], ts[0], ts[1], ci));
    assert(!(ss[0].last_set == ci || ci <= ss[0].last_update));
    assert(same_value(d, ss[0].values.dflt()));
    let g = ss[0].values.gather_fn();
    if k == 1 {
        let t = es.take(1);
        assert(t.drop_last().len() == 0);
        assert(t.last() == es[0]);
        assert(folded(fns, g, t.drop_last(), d, d));
        assert(gathered(fns, g, t.last(), d, ss[1].values.cur()));
        assert(folded(fns, g, t, d, ss[1].values.cur()));
    } else {
        lemma_pre_value_folds(fns, es, ss, ts, ci, d, k - 1);
        assert(emission(fns, es[k - 1], ss[k - 1], ss[k], ts[k - 1], ts[k], ci));
        let c = choose|c: Value| #[trigger] emit_base(ss[k - 1], ci, c)
            && gathered(fns, ss[k - 1].values.gather_fn(), es[k - 1], c, ss[k].values.cur());
        assert(c == ss[k - 1].values.cur());
        let t = es.take(k);
        assert(t.drop_last() =~= es.take(k - 1));
        assert(t.last() == es[k - 1]);
        assert(folded(fns, g, t.drop_last(), d, ss[k - 1].values.cur()));
        assert(gathered(fns, g, t.last(), ss[k - 1].values.cur(), ss[k].values.cur()));
        assert(folded(fns, g, t, d, ss[k].values.cur()));
    }
}

/// A node that awaits a signal immediately runs during the instant the
/// signal is emitted.
pub proof fn law_await_immediate_then_emit(s0: SignalRuntime, s1: SignalRuntime, s2: SignalRuntime,
    t0: Tasks, t1: Tasks, t2: Tasks, ci: usize, node: usize)
    requires
        await_immediate_post(s0, s1, t0, t1, ci, node),
        emit_post(s1, s2, t1, t2, ci),
    ensures
        t2.current@.contains(node),
{
    if s0.last_set == ci {
        assert(t2.current@[t0.current@.len() as int] == node);
    } else {
        let k: int = (t1.current@.len() + s0.pending_await_immediate@.len()) as int;
        assert(t2.current@[k] == node);
    }
}

/// A node that awaits a signal runs at the instant after the emission of
/// the signal: at the instant of the await, or at a later one where the
/// signal was not emitted yet.
pub proof fn law_await_then_emit(s0: SignalRuntime, s1: SignalRuntime, s2: SignalRuntime,
    t0: Tasks, t1: Tasks, t2: Tasks, ci: usize, ci2: usize, node: usize)
    requires
        await_post(s0, s1, t0, t1, ci, node),
        emit_post(s1, s2, t1, t2, ci2),
        ci2 == ci || s1.last_set != ci2,
    ensures
        t2.next@.contains(node),
{
    if s0.last_set == ci {
        assert(t1.next@[t0.next@.len() as int] == node);
        if s1.last_set == ci2 {
            assert(t2.next@[t0.next@.len() as int] == node);
        } else {
            assert(t2.next@[t0.next@.len() as int] == node);
        }
    } else {
        let k: int = (t1.next@.len() + s0.pending_await@.len()) as int;
        assert(t2.next@[k] == node);
    }
}

/// A presence test followed by an emission during the same instant
/// continues in its `true` branch during that instant.
pub proof fn law_present_then_emit(s0: SignalRuntime, s1: SignalRuntime, s2: SignalRuntime,
    t0: Tasks, t1: Tasks, t2: Tasks, ci: usize, node_true: usize, node_false: usize, first: bool)
    requires
        present_post(s0, s1, t0, t1, ci, node_true, node_false, first),
        emit_post(s1, s2, t1, t2, ci),
    ensures
        t2.current@.contains(node_true),
{
    if s0.last_set == ci {
        assert(t2.current@[t0.current@.len() as int] == node_true);
    } else {
        let k: int = (t1.current@.len() + s1.pending_await_immediate@.len() + s0.pending_present@.len()) as int;
        assert(firsts(s1.pending_present@)[s0.pending_present@.len() as int] == node_true);
        assert(t2.current@[k] == node_true);
    }
}

/// A presence test of an absent signal that stays absent until the end of
/// the instant continues in its `false` branch, scheduled at the end of
/// the instant (for the instant that begins).
pub proof fn law_present_then_end(s0: SignalRuntime, s1: SignalRuntime, s2: SignalRuntime,
    t0: Tasks, t1: Tasks, t2: Tasks, ci: usize, node_true: usize, node_false: usize, first: bool)
    requires
        present_post(s0, s1, t0, t1, ci, node_true, node_false, first),
        s0.last_set != ci,
        end_of_instant_post(s1, s2, t1, t2),
    ensures
        t2.current@.contains(node_false),
{
    let k: int = (t1.current@.len() + s0.pending_present@.len()) as int;
    assert(seconds(s1.pending_present@)[s0.pending_present@.len() as int] == node_false);
    assert(t2.current@[k] == node_false);
}

} // verus!

verus! {

impl SignalRuntime {
    /// Every node id the signal keeps waiting is below `b`.
    pub open spec fn ids_below(&self, b: nat) -> bool {
        &&& seq_below(self.pending_await@, b)
        &&& seq_below(self.pending_await_immediate@, b)
        &&& seq_below(firsts(self.pending_present@), b)
        &&& seq_below(seconds(self.pending_present@), b)
    }
}

/// The operations on a signal only schedule, or keep waiting, the node ids
/// they are given or that the signal already kept waiting.
pub proof fn lemma_signal_ids(s0: SignalRuntime, s1: SignalRuntime, t0: Tasks, t1: Tasks, ci: usize,
    node: usize, node_false: usize, first: bool, b: nat)
    requires
        s0.ids_below(b),
        tasks_below(t0, b),
    ensures
        node < b && await_post(s0, s1, t0, t1, ci, node) ==> s1.ids_below(b) && tasks_below(t1, b),
        node < b && await_immediate_post(s0, s1, t0, t1, ci, node) ==> s1.ids_below(b) && tasks_below(t1, b),
        node < b && node_false < b && present_post(s0, s1, t0, t1, ci, node, node_false, first)
            ==> s1.ids_below(b) && tasks_below(t1, b),
        end_of_instant_post(s0, s1, t0, t1) ==> s1.ids_below(b) && tasks_below(t1, b),
        emit_post(s0, s1, t0, t1, ci) ==> s1.ids_below(b) && tasks_below(t1, b),
        update_post(s0, s1, ci) ==> s1.ids_below(b),
{
    if node < b && node_false < b && present_post(s0, s1, t0, t1, ci, node, node_false, first) && s0.last_set != ci {
        let p0 = s0.pending_present@;
        let p1 = s1.pending_present@;
        assert forall|i: int| 0 <= i < p1.len() implies #[trigger] firsts(p1)[i] < b by {
            if i < p0.len() {
                assert(firsts(p0)[i] == p1[i].0);
            }
        }
        assert forall|i: int| 0 <= i < p1.len() implies #[trigger] seconds(p1)[i] < b by {
            if i < p0.len() {
                assert(seconds(p0)[i] == p1[i].1);
            }
        }
    }
    if end_of_instant_post(s0, s1, t0, t1) {
        lemma_seq_below_add(t0.current@, seconds(s0.pending_present@), b);
        assert(firsts(s1.pending_present@) =~= Seq::<usize>::empty());
        assert(seconds(s1.pending_present@) =~= Seq::<usize>::empty());
    }
    if emit_post(s0, s1, t0, t1, ci) && s0.last_set != ci {
        lemma_seq_below_add(t0.current@, s0.pending_await_immediate@, b);
        lemma_seq_below_add(t0.current@ + s0.pending_await_immediate@, firsts(s0.pending_present@), b);
        lemma_seq_below_add(t0.next@, s0.pending_await@, b);
        assert(firsts(s1.pending_present@) =~= Seq::<usize>::empty());
        assert(seconds(s1.pending_present@) =~= Seq::<usize>::empty());
    }
}


/// The operations of `SignalRuntimeRef` on a sub-runtime keep every node id
/// it holds below a bound that the node ids they are given are below.
pub proof fn lemma_sub_ids<F: FnMut(Value) -> Value>(s0: SubRuntime<F>, s1: SubRuntime<F>, id: usize, node: usize,
    node_false: usize, r: Value, b: nat)
    requires
        ids_below(s0, b),
    ensures
        emitted(id, s0, s1) ==> ids_below(s1, b),
        node < b && awaited(id, node, s0, s1) ==> ids_below(s1, b),
        node < b && awaited_immediately(id, node, s0, s1) ==> ids_below(s1, b),
        node < b && node_false < b && presented(id, node, node_false, s0, s1) ==> ids_below(s1, b),
        pre_read(id, r, s0, s1) ==> ids_below(s1, b),
        ended_instant(id, s0, s1) ==> ids_below(s1, b),
{
    if id < s0.mem.signals@.len() {
        let g0 = s0.mem.signals@[id as int];
        let g1 = s1.mem.signals@[id as int];
        assert(g0.ids_below(b));
        lemma_signal_ids(g0, g1, s0.tasks, s1.tasks, s0.current_instant, node, node_false, false, b);
        lemma_signal_ids(g0, g1, s0.tasks, s1.tasks, s0.current_instant, node, node_false, true, b);
        if node < b && node_false < b && presented(id, node, node_false, s0, s1) {
            let first = choose|first: bool| #[trigger] present_post(s0.mem.signals@[id as int], s1.mem.signals@[id as int],
                s0.tasks, s1.tasks, s0.current_instant, node, node_false, first)
                && s1.mem.signals@ == s0.mem.signals@.update(id as int, s1.mem.signals@[id as int])
                && s1.eoi.pending@ == (if first { s0.eoi.pending@.push(id) } else { s0.eoi.pending@ })
                && s1 == (SubRuntime { tasks: s1.tasks, eoi: s1.eoi, mem: Memory { signals: s1.mem.signals, ..s0.mem }, ..s0 });
            assert(present_post(g0, g1, s0.tasks, s1.tasks, s0.current_instant, node, node_false, first));
        }
        if emitted(id, s0, s1) || (node < b && awaited(id, node, s0, s1)) || (node < b && awaited_immediately(id, node, s0, s1))
            || (node < b && node_false < b && presented(id, node, node_false, s0, s1)) || pre_read(id, r, s0, s1)
            || ended_instant(id, s0, s1) {
            assert forall|k: int| 0 <= k < s1.mem.signals@.len() implies (#[trigger] s1.mem.signals@[k]).ids_below(b) by {
                if k != id {
                    assert(s1.mem.signals@[k] == s0.mem.signals@[k]);
                }
            }
        }
    }
}

/// A bound on the node ids a signal keeps waiting stays a bound when it grows.
pub proof fn lemma_signal_ids_mono(s: SignalRuntime, b0: nat, b1: nat)
    requires
        s.ids_below(b0),
        b0 <= b1,
    ensures
        s.ids_below(b1),
{
    assert(forall|i: int| 0 <= i < firsts(s.pending_present@).len() ==> #[trigger] firsts(s.pending_present@)[i] < b1);
    assert(forall|i: int| 0 <= i < seconds(s.pending_present@).len() ==> #[trigger] seconds(s.pending_present@)[i] < b1);
}

} // verus!
