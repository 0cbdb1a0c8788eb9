//! Nodes of the parallel constructs: splitting a pair between two nodes,
//! joining two branches, and joining many branches.

use vstd::prelude::*;
use crate::value::{Value, fst, snd};
use crate::engine::{SubRuntime, Memory, Tasks, ids_below, lemma_seq_below_add};
use crate::utility::push_all;
use crate::node::{Node, CFGDrawer, call_frame, keeps_ids, call_post, midpoint};
use crate::node::dot::{take_ptr, join_key, big_join_key, Shared};

verus! {

/// Node that ignores its input. Signature: `I -> ()`.
pub struct Ignore {}

impl Ignore {
    /// What a call of the node does, from the sub-runtime `s0` and the
    /// input `v` to the sub-runtime `s1` and the result `r`.
    pub open spec fn post<F: FnMut(Value) -> Value>(&self, s0: SubRuntime<F>, v: Value, s1: SubRuntime<F>, r: Value) -> bool {
        &&& r == Value::Unit
        &&& s1 == s0
    }

    pub fn call(&self, val: Value) -> (r: Value)
        ensures
            r == Value::Unit,
    {
        Value::Unit
    }
}

/// Node that generates a pair of units. Signature: `() -> ((), ())`.
pub struct GenP {}

impl GenP {
    /// What a call of the node does, from the sub-runtime `s0` and the
    /// input `v` to the sub-runtime `s1` and the result `r`.
    pub open spec fn post<F: FnMut(Value) -> Value>(&self, s0: SubRuntime<F>, v: Value, s1: SubRuntime<F>, r: Value) -> bool {
        &&& r == Value::Pair(Box::new(Value::Unit), Box::new(Value::Unit))
        &&& s1 == s0
    }

    pub fn call(&self, val: Value) -> (r: Value)
        ensures
            r == Value::Pair(Box::new(Value::Unit), Box::new(Value::Unit)),
    {
        Value::pair(Value::Unit, Value::Unit)
    }
}

/// Node that keeps the second component of a pair. Signature: `(I1, I2) -> I2`.
pub struct Ignore1 {}

impl Ignore1 {
    /// What a call of the node does, from the sub-runtime `s0` and the
    /// input `v` to the sub-runtime `s1` and the result `r`.
    pub open spec fn post<F: FnMut(Value) -> Value>(&self, s0: SubRuntime<F>, v: Value, s1: SubRuntime<F>, r: Value) -> bool {
        &&& r == snd(v)
        &&& s1 == s0
    }

    pub fn call(&self, val: Value) -> (r: Value)
        ensures
            r == snd(val),
    {
        let (_a, b) = val.split();
        b
    }
}

/// Node that keeps the first component of a pair. Signature: `(I1, I2) -> I1`.
pub struct Ignore2 {}

impl Ignore2 {
    /// What a call of the node does, from the sub-runtime `s0` and the
    /// input `v` to the sub-runtime `s1` and the result `r`.
    pub open spec fn post<F: FnMut(Value) -> Value>(&self, s0: SubRuntime<F>, v: Value, s1: SubRuntime<F>, r: Value) -> bool {
        &&& r == fst(v)
        &&& s1 == s0
    }

    pub fn call(&self, val: Value) -> (r: Value)
        ensures
            r == fst(val),
    {
        let (a, _b) = val.split();
        a
    }
}

/// Node that runs `n1` on the first component of its input, then `n2` on the
/// second one, and returns the pair of results.
/// Signature: `(I1, I2) -> (O1, O2)` when `n1: I1 -> O1` and `n2: I2 -> O2`.
pub struct NPar {
    pub n1: Box<Node>,
    pub n2: Box<Node>,
}

/// The meeting point of the two branches of a parallel construct: each branch
/// stores its result, and the branch that completes the pair continues.
pub struct JoinPoint<T1, T2> {
    pub o1: Option<T1>,
    pub o2: Option<T2>,
}

/// The effect of the arrival of the first branch, with result `t`, at a
/// join point: `r` tells whether the second one is already there.
pub open spec fn set1_post<T1, T2>(j0: JoinPoint<T1, T2>, j1: JoinPoint<T1, T2>, t: T1, r: bool) -> bool {
    &&& j1.o1 == Some(t)
    &&& j1.o2 == j0.o2
    &&& r == j0.o2 is Some
}

/// The effect of the arrival of the second branch, with result `t`, at a
/// join point: `r` tells whether the first one is already there.
pub open spec fn set2_post<T1, T2>(j0: JoinPoint<T1, T2>, j1: JoinPoint<T1, T2>, t: T2, r: bool) -> bool {
    &&& j1.o2 == Some(t)
    &&& j1.o1 == j0.o1
    &&& r == j0.o1 is Some
}

impl<T1, T2> JoinPoint<T1, T2> {
    /// An empty join point.
    pub fn default() -> (r: Self)
        ensures
            r == (JoinPoint::<T1, T2> { o1: None, o2: None }),
    {
        JoinPoint { o1: None, o2: None }
    }

    /// Stores the result of the first branch; returns whether the second
    /// one is already there.
    pub fn set1(&mut self, t: T1) -> (r: bool)
        ensures
            set1_post(*old(self), *final(self), t, r),
    {
        self.o1 = Some(t);
        self.o2.is_some()
    }

    /// Stores the result of the second branch; returns whether the first
    /// one is already there.
    pub fn set2(&mut self, t: T2) -> (r: bool)
        ensures
            set2_post(*old(self), *final(self), t, r),
    {
        self.o2 = Some(t);
        self.o1.is_some()
    }

    /// The pair of stored results.
    pub fn get(self) -> (r: (T1, T2))
        requires
            self.o1 is Some,
            self.o2 is Some,
        ensures
            r == (self.o1->0, self.o2->0),
    {
        (self.o1.unwrap(), self.o2.unwrap())
    }
}

/// A join point of the memory, designated by its index.
#[derive(Clone, Copy)]
pub struct Rcjp {
    pub id: usize,
}

impl Rcjp {
    /// Allocates a new empty join point in `mem`.
    pub fn new(mem: &mut Memory) -> (r: Self)
        ensures
            r.id == old(mem).joins@.len(),
            final(mem).joins@ == old(mem).joins@.push(JoinPoint { o1: None, o2: None }),
            final(mem).cells == old(mem).cells,
            final(mem).big_joins == old(mem).big_joins,
            final(mem).signals == old(mem).signals,
    {
        let id = mem.joins.len();
        mem.joins.push(JoinPoint::default());
        Rcjp { id }
    }

    /// Stores the result of the first branch; returns whether the pair is complete.
    pub fn set1(&self, mem: &mut Memory, t: Value) -> (r: bool)
        requires
            self.id < old(mem).joins@.len(),
        ensures
            final(mem).joins@ == old(mem).joins@.update(self.id as int,
                JoinPoint { o1: Some(t), o2: old(mem).joins@[self.id as int].o2 }),
            r == old(mem).joins@[self.id as int].o2 is Some,
            *final(mem) == (Memory { joins: final(mem).joins, ..*old(mem) }),
    {
        let mut jp = JoinPoint::default();
        std::mem::swap(&mut jp, &mut mem.joins[self.id]);
        let r = jp.set1(t);
        mem.joins.set(self.id, jp);
        r
    }

    /// Stores the result of the second branch; returns whether the pair is complete.
    pub fn set2(&self, mem: &mut Memory, t: Value) -> (r: bool)
        requires
            self.id < old(mem).joins@.len(),
        ensures
            final(mem).joins@ == old(mem).joins@.update(self.id as int,
                JoinPoint { o1: old(mem).joins@[self.id as int].o1, o2: Some(t) }),
            r == old(mem).joins@[self.id as int].o1 is Some,
            *final(mem) == (Memory { joins: final(mem).joins, ..*old(mem) }),
    {
        let mut jp = JoinPoint::default();
        std::mem::swap(&mut jp, &mut mem.joins[self.id]);
        let r = jp.set2(t);
        mem.joins.set(self.id, jp);
        r
    }

    /// Takes the pair of results and empties the join point.
    pub fn get(&self, mem: &mut Memory) -> (r: (Value, Value))
        requires
            self.id < old(mem).joins@.len(),
            old(mem).joins@[self.id as int].o1 is Some,
            old(mem).joins@[self.id as int].o2 is Some,
        ensures
            r == (old(mem).joins@[self.id as int].o1->0, old(mem).joins@[self.id as int].o2->0),
            final(mem).joins@ == old(mem).joins@.update(self.id as int, JoinPoint { o1: None, o2: None }),
            *final(mem) == (Memory { joins: final(mem).joins, ..*old(mem) }),
    {
        let mut jp = JoinPoint::default();
        std::mem::swap(&mut jp, &mut mem.joins[self.id]);
        jp.get()
    }

    /// The drawing index of this join point.
    pub fn get_ind(&self, cfgd: &mut CFGDrawer) -> (r: usize)
        requires
            old(cfgd).wf(),
            old(cfgd).ptr_ind < usize::MAX,
        ensures
            final(cfgd).wf(),
            (r, final(cfgd).state()) == take_ptr(old(cfgd).state(), join_key(self.id)),
            final(cfgd).node_ind == old(cfgd).node_ind,
    {
        cfgd.get_ind(Shared::Join, self.id)
    }
}

/// The meeting point of many branches: after `total` arrivals, `dest`
/// continues and the counter restarts.
pub struct BigJoinPoint {
    pub nb: usize,
    pub total: usize,
    pub dest: usize,
}

/// The effect of an arrival at a many-branch join point: the arrival that
/// completes `total` ones returns the destination and restarts the count.
pub open spec fn incr_post(b0: BigJoinPoint, b1: BigJoinPoint, r: Option<usize>) -> bool {
    &&& b0.nb + 1 == b0.total ==> r == Some(b0.dest) && b1.nb == 0
    &&& b0.nb + 1 != b0.total ==> r is None && b1.nb == b0.nb + 1
    &&& b1.total == b0.total
    &&& b1.dest == b0.dest
}

impl BigJoinPoint {
    /// A join point for `total` branches, continuing in `dest`.
    pub fn new(total: usize, dest: usize) -> (r: Self)
        ensures
            r.nb == 0,
            r.total == total,
            r.dest == dest,
    {
        BigJoinPoint { nb: 0, total, dest }
    }

    /// Records an arrival; returns the destination when all branches arrived.
    pub fn incr(&mut self) -> (r: Option<usize>)
        requires
            old(self).nb < usize::MAX,
        ensures
            incr_post(*old(self), *final(self), r),
    {
        let val = self.nb + 1;
        if val == self.total {
            self.nb = 0;
            return Some(self.dest);
        } else {
            self.nb = val;
        }
        None
    }
}

/// A many-branch join point of the memory, designated by its index.
#[derive(Clone, Copy)]
pub struct Rcbjp {
    pub id: usize,
}

impl Rcbjp {
    /// Allocates a new join point for `total` branches in `mem`.
    pub fn new(mem: &mut Memory, total: usize, dest: usize) -> (r: Self)
        ensures
            r.id == old(mem).big_joins@.len(),
            final(mem).big_joins@ == old(mem).big_joins@.push(BigJoinPoint { nb: 0, total, dest }),
            final(mem).cells == old(mem).cells,
            final(mem).joins == old(mem).joins,
            final(mem).signals == old(mem).signals,
    {
        let id = mem.big_joins.len();
        mem.big_joins.push(BigJoinPoint::new(total, dest));
        Rcbjp { id }
    }

    /// Records an arrival (see `BigJoinPoint::incr`).
    pub fn incr(&self, mem: &mut Memory) -> (r: Option<usize>)
        requires
            self.id < old(mem).big_joins@.len(),
            old(mem).big_joins@[self.id as int].nb < usize::MAX,
        ensures
            ({
                let b = old(mem).big_joins@[self.id as int];
                &&& b.nb + 1 == b.total ==> r == Some(b.dest)
                    && final(mem).big_joins@ == old(mem).big_joins@.update(self.id as int, BigJoinPoint { nb: 0, ..b })
                &&& b.nb + 1 != b.total ==> r is None
                    && final(mem).big_joins@ == old(mem).big_joins@.update(self.id as int, BigJoinPoint { nb: (b.nb + 1) as usize, ..b })
            }),
            *final(mem) == (Memory { big_joins: final(mem).big_joins, ..*old(mem) }),
            final(mem).big_joins@.len() == old(mem).big_joins@.len(),
            incr_post(old(mem).big_joins@[self.id as int], final(mem).big_joins@[self.id as int], r),
    {
        let mut b = BigJoinPoint::new(0, 0);
        std::mem::swap(&mut b, &mut mem.big_joins[self.id]);
        let r = b.incr();
        mem.big_joins.set(self.id, b);
        r
    }

    /// The drawing index of this join point.
    pub fn get_ind(&self, cfgd: &mut CFGDrawer) -> (r: usize)
        requires
            old(cfgd).wf(),
            old(cfgd).ptr_ind < usize::MAX,
        ensures
            final(cfgd).wf(),
            (r, final(cfgd).state()) == take_ptr(old(cfgd).state(), big_join_key(self.id)),
            final(cfgd).node_ind == old(cfgd).node_ind,
    {
        cfgd.get_ind(Shared::BigJoin, self.id)
    }
}

} // verus!

verus! {

impl NPar {
    pub fn call<F: FnMut(Value) -> Value>(&self, sub: &mut SubRuntime<F>, val: Value) -> (r: Value)
        requires
            old(sub).wf(),
        ensures
            keeps_ids(Node::NPar(*self), *old(sub), *final(sub)),
            call_frame(*old(sub), *final(sub)),
            call_post(Node::NPar(*self), *old(sub), val, *final(sub), r),
            r is Pair,
        decreases self,
    {
        let (v1, v2) = val.split();
        let o1 = self.n1.call(sub, v1);
        let ghost sm = *sub;
        let o2 = self.n2.call(sub, v2);
        proof {
            assert(midpoint(sm, o1));
            assert(midpoint(sm, o2));
        }
        Value::pair(o1, o2)
    }
}

/// Node that stores its input as the first result of a join point and, when
/// the pair is complete, schedules `dest` for the current instant.
/// Signature: `T1 -> ()`.
pub struct NSetVar1 {
    pub rc: Rcjp,
    pub dest: usize,
}

/// Builds a node storing the first result into `rc`, then continuing in `dest`.
pub fn set1(rc: Rcjp, dest: usize) -> (r: NSetVar1)
    ensures
        r.rc == rc,
        r.dest == dest,
{
    NSetVar1 { rc, dest }
}

impl NSetVar1 {
    /// What a call of the node does, from the sub-runtime `s0` and the
    /// input `v` to the sub-runtime `s1` and the result `r`.
    pub open spec fn post<F: FnMut(Value) -> Value>(&self, s0: SubRuntime<F>, v: Value, s1: SubRuntime<F>, r: Value) -> bool {
        &&& r == Value::Unit
        &&& self.rc.id < s0.mem.joins@.len() ==> {
            let jp = s0.mem.joins@[self.rc.id as int];
            &&& s1.mem.joins@ == s0.mem.joins@.update(self.rc.id as int, JoinPoint { o1: Some(v), o2: jp.o2 })
            &&& s1.tasks.current@ == (if jp.o2 is Some { s0.tasks.current@.push(self.dest) } else { s0.tasks.current@ })
        }
        &&& self.rc.id >= s0.mem.joins@.len() ==> s1 == s0
        &&& s1 == (SubRuntime {
            tasks: Tasks { current: s1.tasks.current, ..s0.tasks },
            mem: Memory { joins: s1.mem.joins, ..s0.mem },
            ..s0
        })
    }

    pub fn call<F: FnMut(Value) -> Value>(&self, sub: &mut SubRuntime<F>, val: Value) -> (r: Value)
        ensures
            keeps_ids(Node::NSetVar1(*self), *old(sub), *final(sub)),
            self.post(*old(sub), val, *final(sub), r),
    {
        if self.rc.id < sub.mem.joins.len() {
            if self.rc.set1(&mut sub.mem, val) {
                sub.add_current(self.dest);
            }
        }
        Value::Unit
    }
}

/// Node that stores its input as the second result of a join point and, when
/// the pair is complete, schedules `dest` for the current instant.
/// Signature: `T2 -> ()`.
pub struct NSetVar2 {
    pub rc: Rcjp,
    pub dest: usize,
}

/// Builds a node storing the second result into `rc`, then continuing in `dest`.
pub fn set2(rc: Rcjp, dest: usize) -> (r: NSetVar2)
    ensures
        r.rc == rc,
        r.dest == dest,
{
    NSetVar2 { rc, dest }
}

impl NSetVar2 {
    /// What a call of the node does, from the sub-runtime `s0` and the
    /// input `v` to the sub-runtime `s1` and the result `r`.
    pub open spec fn post<F: FnMut(Value) -> Value>(&self, s0: SubRuntime<F>, v: Value, s1: SubRuntime<F>, r: Value) -> bool {
        &&& r == Value::Unit
        &&& self.rc.id < s0.mem.joins@.len() ==> {
            let jp = s0.mem.joins@[self.rc.id as int];
            &&& s1.mem.joins@ == s0.mem.joins@.update(self.rc.id as int, JoinPoint { o1: jp.o1, o2: Some(v) })
            &&& s1.tasks.current@ == (if jp.o1 is Some { s0.tasks.current@.push(self.dest) } else { s0.tasks.current@ })
        }
        &&& self.rc.id >= s0.mem.joins@.len() ==> s1 == s0
        &&& s1 == (SubRuntime {
            tasks: Tasks { current: s1.tasks.current, ..s0.tasks },
            mem: Memory { joins: s1.mem.joins, ..s0.mem },
            ..s0
        })
    }

    pub fn call<F: FnMut(Value) -> Value>(&self, sub: &mut SubRuntime<F>, val: Value) -> (r: Value)
        ensures
            keeps_ids(Node::NSetVar2(*self), *old(sub), *final(sub)),
            self.post(*old(sub), val, *final(sub), r),
    {
        if self.rc.id < sub.mem.joins.len() {
            if self.rc.set2(&mut sub.mem, val) {
                sub.add_current(self.dest);
            }
        }
        Value::Unit
    }
}

/// Node that takes the pair of results of a join point and empties it; a
/// missing result reads as `Unit`. Signature: `() -> (T1, T2)`.
pub struct NMerge {
    pub rc: Rcjp,
}

/// Builds a node merging the results stored in `rc`.
pub fn merge(rc: Rcjp) -> (r: NMerge)
    ensures
        r.rc == rc,
{
    NMerge { rc }
}

/// The content of an optional value, `Unit` when there is none.
pub open spec fn or_unit(o: Option<Value>) -> Value {
    match o {
        Some(v) => v,
        None => Value::Unit,
    }
}

impl NMerge {
    /// What a call of the node does, from the sub-runtime `s0` and the
    /// input `v` to the sub-runtime `s1` and the result `r`.
    pub open spec fn post<F: FnMut(Value) -> Value>(&self, s0: SubRuntime<F>, v: Value, s1: SubRuntime<F>, r: Value) -> bool {
        &&& self.rc.id < s0.mem.joins@.len() ==> {
            let jp = s0.mem.joins@[self.rc.id as int];
            &&& s1.mem.joins@ == s0.mem.joins@.update(self.rc.id as int, JoinPoint { o1: None, o2: None })
            &&& fst(r) == or_unit(jp.o1)
            &&& snd(r) == or_unit(jp.o2)
        }
        &&& self.rc.id >= s0.mem.joins@.len() ==> s1 == s0
        &&& r is Pair
        &&& s1 == (SubRuntime { mem: Memory { joins: s1.mem.joins, ..s0.mem }, ..s0 })
    }

    pub fn call<F: FnMut(Value) -> Value>(&self, sub: &mut SubRuntime<F>, val: Value) -> (r: Value)
        ensures
            keeps_ids(Node::NMerge(*self), *old(sub), *final(sub)),
            self.post(*old(sub), val, *final(sub), r),
    {
        if self.rc.id < sub.mem.joins.len() {
            let mut jp = JoinPoint::default();
            std::mem::swap(&mut jp, &mut sub.mem.joins[self.rc.id]);
            let a = match jp.o1 { Some(v) => v, None => Value::Unit };
            let b = match jp.o2 { Some(v) => v, None => Value::Unit };
            Value::pair(a, b)
        } else {
            Value::pair(Value::Unit, Value::Unit)
        }
    }
}

/// Node that schedules all its destinations for the current instant, in
/// order. Signature: `() -> ()`.
pub struct NBigPar {
    pub dests: Vec<usize>,
}

impl NBigPar {
    /// What a call of the node does, from the sub-runtime `s0` and the
    /// input `v` to the sub-runtime `s1` and the result `r`.
    pub open spec fn post<F: FnMut(Value) -> Value>(&self, s0: SubRuntime<F>, v: Value, s1: SubRuntime<F>, r: Value) -> bool {
        &&& r == Value::Unit
        &&& s1.tasks.current@ == s0.tasks.current@ + self.dests@
        &&& s1 == (SubRuntime { tasks: Tasks { current: s1.tasks.current, ..s0.tasks }, ..s0 })
    }

    pub fn call<F: FnMut(Value) -> Value>(&self, sub: &mut SubRuntime<F>, val: Value) -> (r: Value)
        ensures
            keeps_ids(Node::NBigPar(*self), *old(sub), *final(sub)),
            self.post(*old(sub), val, *final(sub), r),
    {
        push_all(&mut sub.tasks.current, &self.dests);
        proof {
            assert forall|b: nat| Node::NBigPar(*self).targets_ok(b) && #[trigger] ids_below(*old(sub), b)
                implies ids_below(*sub, b) by {
                let n = Node::NBigPar(*self);
                assert(n matches Node::NBigPar(m) && m.dests@ == self.dests@);
                assert(forall|i: int| 0 <= i < self.dests@.len() ==> #[trigger] self.dests@[i] < b);
                lemma_seq_below_add(old(sub).tasks.current@, self.dests@, b);
            }
        }
        Value::Unit
    }
}

/// Node that records the arrival of a branch at a many-branch join point,
/// and schedules its destination when all branches arrived.
/// Signature: `() -> ()`.
pub struct NBigMerge {
    pub rc: Rcbjp,
}

/// Builds a node recording arrivals at `rc`.
pub fn big_merge(rc: Rcbjp) -> (r: NBigMerge)
    ensures
        r.rc == rc,
{
    NBigMerge { rc }
}

impl NBigMerge {
    /// What a call of the node does, from the sub-runtime `s0` and the
    /// input `v` to the sub-runtime `s1` and the result `r`.
    pub open spec fn post<F: FnMut(Value) -> Value>(&self, s0: SubRuntime<F>, v: Value, s1: SubRuntime<F>, r: Value) -> bool {
        &&& r == Value::Unit
        &&& self.rc.id < s0.mem.big_joins@.len() && s0.mem.big_joins@[self.rc.id as int].nb < usize::MAX ==> {
            let b = s0.mem.big_joins@[self.rc.id as int];
            &&& b.nb + 1 == b.total ==> {
                &&& s1.mem.big_joins@ == s0.mem.big_joins@.update(self.rc.id as int, BigJoinPoint { nb: 0, ..b })
                &&& s1.tasks.current@ == s0.tasks.current@.push(b.dest)
            }
            &&& b.nb + 1 != b.total ==> {
                &&& s1.mem.big_joins@ == s0.mem.big_joins@.update(self.rc.id as int, BigJoinPoint { nb: (b.nb + 1) as usize, ..b })
                &&& s1.tasks.current == s0.tasks.current
            }
        }
        &&& !(self.rc.id < s0.mem.big_joins@.len() && s0.mem.big_joins@[self.rc.id as int].nb < usize::MAX) ==>
            s1 == s0
        &&& s1 == (SubRuntime {
            tasks: Tasks { current: s1.tasks.current, ..s0.tasks },
            mem: Memory { big_joins: s1.mem.big_joins, ..s0.mem },
            ..s0
        })
    }

    pub fn call<F: FnMut(Value) -> Value>(&self, sub: &mut SubRuntime<F>, val: Value) -> (r: Value)
        ensures
            keeps_ids(Node::NBigMerge(*self), *old(sub), *final(sub)),
            self.post(*old(sub), val, *final(sub), r),
    {
        if self.rc.id < sub.mem.big_joins.len() && sub.mem.big_joins[self.rc.id].nb < usize::MAX {
            match self.rc.incr(&mut sub.mem) {
                Some(ind) => sub.add_current(ind),
                None => {},
            }
        }
        Value::Unit
    }
}

} // verus!

verus! {

/// Of the two branches that meet at an empty join point, in either order,
/// the first to arrive stops and the second continues; the join point
/// then holds the pair of their results.
pub proof fn law_join_second_continues<T1, T2>(j0: JoinPoint<T1, T2>, j1: JoinPoint<T1, T2>, j2: JoinPoint<T1, T2>,
    t1: T1, t2: T2, r1: bool, r2: bool, first_is_1: bool)
    requires
        j0.o1 is None,
        j0.o2 is None,
        first_is_1 ==> set1_post(j0, j1, t1, r1) && set2_post(j1, j2, t2, r2),
        !first_is_1 ==> set2_post(j0, j1, t2, r1) && set1_post(j1, j2, t1, r2),
    ensures
        !r1,
        r2,
        j2.o1 == Some(t1),
        j2.o2 == Some(t2),
{
}

/// From a join point with no arrival yet, for `total` branches, the first
/// `total - 1` arrivals stop, the last one continues to the destination,
/// and the count is back to zero: `bs` are the successive states and `rs`
/// what each arrival returned.
pub proof fn law_big_join_fires_after_total(bs: Seq<BigJoinPoint>, rs: Seq<Option<usize>>)
    requires
        bs.len() == rs.len() + 1,
        bs[0].nb == 0,
        bs[0].total > 0,
        rs.len() == bs[0].total,
        forall|i: int| 0 <= i < rs.len() ==> incr_post(#[trigger] bs[i], bs[i + 1], rs[i]),
    ensures
        forall|i: int| 0 <= i < rs.len() - 1 ==> (#[trigger] rs[i]) is None,
        rs[rs.len() - 1] == Some(bs[0].dest),
        bs[bs.len() - 1].nb == 0,
        bs[bs.len() - 1].total == bs[0].total,
        bs[bs.len() - 1].dest == bs[0].dest,
{
    lemma_big_join_prefix(bs, rs, rs.len() - 1);
    assert(incr_post(bs[rs.len() - 1], bs[rs.len() as int], rs[rs.len() - 1]));
}

/// After `k` arrivals short of the total, the count is `k`.
proof fn lemma_big_join_prefix(bs: Seq<BigJoinPoint>, rs: Seq<Option<usize>>, k: int)
    requires
        bs.len() == rs.len() + 1,
        bs[0].nb == 0,
        rs.len() == bs[0].total,
        0 <= k < rs.len(),
        forall|i: int| 0 <= i < rs.len() ==> incr_post(#[trigger] bs[i], bs[i + 1], rs[i]),
    ensures
        bs[k].nb == k,
        bs[k].total == bs[0].total,
        bs[k].dest == bs[0].dest,
        forall|i: int| 0 <= i < k ==> (#[trigger] rs[i]) is None,
    decreases k,
{
    if k > 0 {
        lemma_big_join_prefix(bs, rs, k - 1);
        assert(incr_post(bs[k - 1], bs[k], rs[k - 1]));
    }
}

/// Arrivals at a many-branch join point are counted modulo its total: from
/// a join point with no arrival yet, after `k` arrivals the count is
/// `k % total`, and the `k`-th arrival continues to the destination exactly
/// when `k` is a multiple of `total`; with a total of zero no arrival ever
/// continues. `bs` are the successive states and `rs` what each arrival
/// returned.
pub proof fn law_big_join_periodic(bs: Seq<BigJoinPoint>, rs: Seq<Option<usize>>)
    requires
        bs.len() == rs.len() + 1,
        bs[0].nb == 0,
        forall|i: int| 0 <= i < rs.len() ==> incr_post(#[trigger] bs[i], bs[i + 1], rs[i]),
    ensures
        forall|k: int| 0 <= k < bs.len() ==> (#[trigger] bs[k]).total == bs[0].total && bs[k].dest == bs[0].dest,
        bs[0].total > 0 ==> forall|k: int| 0 <= k < bs.len() ==> (#[trigger] bs[k]).nb == k % (bs[0].total as int),
        bs[0].total > 0 ==> forall|k: int| 1 <= k <= rs.len() ==>
            (#[trigger] rs[k - 1]) == (if k % (bs[0].total as int) == 0 { Some(bs[0].dest) } else { None }),
        bs[0].total == 0 ==> forall|k: int| 0 <= k < rs.len() ==> (#[trigger] rs[k]) is None,
{
    let t = bs[0].total as int;
    assert forall|k: int| 0 <= k < bs.len() implies (#[trigger] bs[k]).total == bs[0].total && bs[k].dest == bs[0].dest
        && (t > 0 ==> bs[k].nb == k % t) by {
        lemma_big_join_count(bs, rs, k);
    }
    if t > 0 {
        assert forall|k: int| 1 <= k <= rs.len() implies
            (#[trigger] rs[k - 1]) == (if k % t == 0 { Some(bs[0].dest) } else { None }) by {
            lemma_big_join_count(bs, rs, k - 1);
            assert(incr_post(bs[k - 1], bs[k], rs[k - 1]));
            lemma_mod_step(k - 1, t);
        }
    } else {
        assert forall|k: int| 0 <= k < rs.len() implies (#[trigger] rs[k]) is None by {
            lemma_big_join_count(bs, rs, k);
            assert(incr_post(bs[k], bs[k + 1], rs[k]));
        }
    }
}

/// One more arrival: `(k + 1) % t` is zero when `k % t` is `t - 1`, and
/// `k % t + 1` otherwise.
proof fn lemma_mod_step(k: int, t: int)
    requires
        0 <= k,
        0 < t,
    ensures
        k % t + 1 == t ==> (k + 1) % t == 0,
        k % t + 1 != t ==> (k + 1) % t == k % t + 1,
        0 <= k % t < t,
{
    vstd::arithmetic::div_mod::lemma_fundamental_div_mod(k, t);
    vstd::arithmetic::div_mod::lemma_fundamental_div_mod(k + 1, t);
    vstd::arithmetic::div_mod::lemma_mod_bound(k, t);
    vstd::arithmetic::div_mod::lemma_mod_bound(k + 1, t);
    let q = k / t;
    assert((q + 1) * t == t * q + t) by (nonlinear_arith);
    assert(q * t == t * q) by (nonlinear_arith);
    if k % t + 1 == t {
        vstd::arithmetic::div_mod::lemma_fundamental_div_mod_converse(k + 1, t, k / t + 1, 0);
    } else {
        vstd::arithmetic::div_mod::lemma_fundamental_div_mod_converse(k + 1, t, k / t, k % t + 1);
    }
}

/// After `k` arrivals, the total and destination are kept and the count is
/// `k % total`.
proof fn lemma_big_join_count(bs: Seq<BigJoinPoint>, rs: Seq<Option<usize>>, k: int)
    requires
        bs.len() == rs.len() + 1,
        bs[0].nb == 0,
        0 <= k < bs.len(),
        forall|i: int| 0 <= i < rs.len() ==> incr_post(#[trigger] bs[i], bs[i + 1], rs[i]),
    ensures
        bs[k].total == bs[0].total,
        bs[k].dest == bs[0].dest,
        bs[0].total > 0 ==> bs[k].nb == k % (bs[0].total as int),
    decreases k,
{
    if k > 0 {
        lemma_big_join_count(bs, rs, k - 1);
        assert(incr_post(bs[k - 1], bs[k], rs[k - 1]));
        if bs[0].total > 0 {
            lemma_mod_step(k - 1, bs[0].total as int);
        }
    } else {
        if bs[0].total > 0 {
            vstd::arithmetic::div_mod::lemma_small_mod(0nat, bs[0].total as nat);
        }
    }
}

/// Copies of a many-branch join point handle share one counter: when the
/// arrivals go through handles `hs` of one join point (copies of `h`), in
/// the memories `ms`, the `k`-th arrival continues to the destination
/// exactly when `k` is a multiple of the total, whichever handle it used.
pub proof fn law_rcbjp_periodic(h: Rcbjp, hs: Seq<Rcbjp>, ms: Seq<Memory>, rs: Seq<Option<usize>>)
    requires
        ms.len() == rs.len() + 1,
        hs.len() == rs.len(),
        h.id < ms[0].big_joins@.len(),
        ms[0].big_joins@[h.id as int].nb == 0,
        ms[0].big_joins@[h.id as int].total > 0,
        forall|i: int| 0 <= i < hs.len() ==> (#[trigger] hs[i]).id == h.id,
        forall|i: int| 0 <= i < rs.len() ==> ms[i + 1].big_joins@.len() == (#[trigger] ms[i]).big_joins@.len()
            && incr_post(ms[i].big_joins@[hs[i].id as int], ms[i + 1].big_joins@[hs[i].id as int], rs[i]),
    ensures
        forall|k: int| 1 <= k <= rs.len() ==> (#[trigger] rs[k - 1]) == (if k % (ms[0].big_joins@[h.id as int].total as int) == 0 {
            Some(ms[0].big_joins@[h.id as int].dest)
        } else {
            None
        }),
{
    let bs = Seq::new(ms.len(), |k: int| ms[k].big_joins@[h.id as int]);
    assert forall|i: int| 0 <= i < rs.len() implies incr_post(#[trigger] bs[i], bs[i + 1], rs[i]) by {
        assert(hs[i].id == h.id);
        assert(incr_post(ms[i].big_joins@[hs[i].id as int], ms[i + 1].big_joins@[hs[i].id as int], rs[i]));
    }
    law_big_join_periodic(bs, rs);
}

} // verus!

