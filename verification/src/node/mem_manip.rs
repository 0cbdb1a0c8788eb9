//! Memory cells and the nodes that store into and load from them.

use vstd::prelude::*;
use crate::value::{Value, same_value, lemma_same_value_sym, lemma_same_value_trans};
use crate::engine::{SubRuntime, Memory};
use crate::node::{Node, CFGDrawer, keeps_ids};
use crate::node::dot::{take_ptr, cell_key, Shared};

verus! {

/// A value cell of the memory, designated by its index.
#[derive(Clone, Copy, Debug)]
pub struct RCell {
    pub id: usize,
}

impl RCell {
    /// Allocates a new empty cell in `mem`.
    pub fn new(mem: &mut Memory) -> (r: Self)
        ensures
            r.id == old(mem).cells@.len(),
            final(mem).cells@ == old(mem).cells@.push(None),
            *final(mem) == (Memory { cells: final(mem).cells, ..*old(mem) }),
    {
        let id = mem.cells.len();
        mem.cells.push(None);
        RCell { id }
    }

    /// Stores `t` in the cell.
    pub fn set(&self, mem: &mut Memory, t: Value)
        requires
            self.id < old(mem).cells@.len(),
        ensures
            final(mem).cells@ == old(mem).cells@.update(self.id as int, Some(t)),
            *final(mem) == (Memory { cells: final(mem).cells, ..*old(mem) }),
    {
        mem.cells.set(self.id, Some(t));
    }

    /// Takes the value out of the cell, which must hold one.
    pub fn get(&self, mem: &mut Memory) -> (r: Value)
        requires
            self.id < old(mem).cells@.len(),
            old(mem).cells@[self.id as int] is Some,
        ensures
            r == old(mem).cells@[self.id as int]->0,
            final(mem).cells@ == old(mem).cells@.update(self.id as int, None),
            *final(mem) == (Memory { cells: final(mem).cells, ..*old(mem) }),
    {
        let mut o: Option<Value> = None;
        std::mem::swap(&mut o, &mut mem.cells[self.id]);
        o.unwrap()
    }

    /// A copy of the value of the cell, which must hold one.
    pub fn get_copy(&self, mem: &Memory) -> (r: Value)
        requires
            self.id < mem.cells@.len(),
            mem.cells@[self.id as int] is Some,
        ensures
            same_value(r, mem.cells@[self.id as int]->0),
    {
        match &mem.cells[self.id] {
            Some(v) => v.duplicate(),
            None => Value::Unit,
        }
    }

    /// The drawing index of this cell.
    pub fn get_ind(&self, cfgd: &mut CFGDrawer) -> (r: usize)
        requires
            old(cfgd).wf(),
            old(cfgd).ptr_ind < usize::MAX,
        ensures
            final(cfgd).wf(),
            (r, final(cfgd).state()) == take_ptr(old(cfgd).state(), cell_key(self.id)),
            final(cfgd).node_ind == old(cfgd).node_ind,
    {
        cfgd.get_ind(Shared::Cell, self.id)
    }
}

/// Reading a copy leaves the cell as it was, so two reads of a cell that
/// holds a value give the same value, a copy of what the cell holds.
pub proof fn law_get_copy_repeats(c: RCell, mem: Memory, r1: Value, r2: Value)
    requires
        c.id < mem.cells@.len(),
        mem.cells@[c.id as int] is Some,
        same_value(r1, mem.cells@[c.id as int]->0),
        same_value(r2, mem.cells@[c.id as int]->0),
    ensures
        same_value(r1, r2),
{
    lemma_same_value_sym(r2, mem.cells@[c.id as int]->0);
    lemma_same_value_trans(r1, mem.cells@[c.id as int]->0, r2);
}

/// Allocates a new empty cell in `mem`.
pub fn new_rcell(mem: &mut Memory) -> (r: RCell)
    ensures
        r.id == old(mem).cells@.len(),
        final(mem).cells@ == old(mem).cells@.push(None),
        *final(mem) == (Memory { cells: final(mem).cells, ..*old(mem) }),
{
    RCell::new(mem)
}

/// Node that stores its input in a cell. Signature: `T -> ()`.
pub struct NStore(pub RCell);

/// Builds a node storing into `rc`.
pub fn store(rc: RCell) -> (r: NStore)
    ensures
        r.0 == rc,
{
    NStore(rc)
}

impl NStore {
    /// What a call of the node does, from the sub-runtime `s0` and the
    /// input `v` to the sub-runtime `s1` and the result `r`.
    pub open spec fn post<F: FnMut(Value) -> Value>(&self, s0: SubRuntime<F>, v: Value, s1: SubRuntime<F>, r: Value) -> bool {
        &&& r == Value::Unit
        &&& self.0.id < s0.mem.cells@.len() ==>
            s1.mem.cells@ == s0.mem.cells@.update(self.0.id as int, Some(v))
        &&& self.0.id >= s0.mem.cells@.len() ==> s1.mem.cells == s0.mem.cells
        &&& s1 == (SubRuntime { mem: Memory { cells: s1.mem.cells, ..s0.mem }, ..s0 })
    }

    pub fn call<F: FnMut(Value) -> Value>(&self, sub: &mut SubRuntime<F>, val: Value) -> (r: Value)
        ensures
            keeps_ids(Node::NStore(*self), *old(sub), *final(sub)),
            self.post(*old(sub), val, *final(sub), r),
    {
        if self.0.id < sub.mem.cells.len() {
            self.0.set(&mut sub.mem, val);
        }
        Value::Unit
    }
}

/// Node that takes the value out of a cell. On a cell that holds no value
/// it refuses (see `SubRuntime::refused`) and returns `Unit`.
/// Signature: `() -> T`.
pub struct NLoad(pub RCell);

/// Builds a node loading from `rc`.
pub fn load(rc: RCell) -> (r: NLoad)
    ensures
        r.0 == rc,
{
    NLoad(rc)
}

impl NLoad {
    /// What a call of the node does, from the sub-runtime `s0` and the
    /// input `v` to the sub-runtime `s1` and the result `r`: a load from a
    /// cell that holds no value is refused.
    pub open spec fn post<F: FnMut(Value) -> Value>(&self, s0: SubRuntime<F>, v: Value, s1: SubRuntime<F>, r: Value) -> bool {
        let held = self.0.id < s0.mem.cells@.len() && s0.mem.cells@[self.0.id as int] is Some;
        &&& self.0.id < s0.mem.cells@.len() ==> s1.mem.cells@ == s0.mem.cells@.update(self.0.id as int, None)
        &&& self.0.id >= s0.mem.cells@.len() ==> s1.mem.cells == s0.mem.cells
        &&& held ==> r == s0.mem.cells@[self.0.id as int]->0
        &&& !held ==> r == Value::Unit
        &&& s1 == (SubRuntime { mem: Memory { cells: s1.mem.cells, ..s0.mem }, refused: s0.refused || !held, ..s0 })
    }

    pub fn call<F: FnMut(Value) -> Value>(&self, sub: &mut SubRuntime<F>, val: Value) -> (r: Value)
        ensures
            keeps_ids(Node::NLoad(*self), *old(sub), *final(sub)),
            self.post(*old(sub), val, *final(sub), r),
    {
        if self.0.id < sub.mem.cells.len() {
            let mut o: Option<Value> = None;
            std::mem::swap(&mut o, &mut sub.mem.cells[self.0.id]);
            match o {
                Some(v) => v,
                None => {
                    sub.refuse();
                    Value::Unit
                },
            }
        } else {
            sub.refuse();
            Value::Unit
        }
    }
}

/// Node that returns a copy of the value of a cell, leaving it in place.
/// On a cell that holds no value it refuses (see `SubRuntime::refused`)
/// and returns `Unit`. Signature: `() -> T`.
pub struct NLoadCopy(pub RCell);

/// Builds a node copying from `rc`.
pub fn load_copy(rc: RCell) -> (r: NLoadCopy)
    ensures
        r.0 == rc,
{
    NLoadCopy(rc)
}

impl NLoadCopy {
    /// What a call of the node does, from the sub-runtime `s0` and the
    /// input `v` to the sub-runtime `s1` and the result `r`.
    pub open spec fn post<F: FnMut(Value) -> Value>(&self, s0: SubRuntime<F>, v: Value, s1: SubRuntime<F>, r: Value) -> bool {
        &&& self.0.id < s0.mem.cells@.len() && s0.mem.cells@[self.0.id as int] is Some ==>
            same_value(r, s0.mem.cells@[self.0.id as int]->0)
        &&& !(self.0.id < s0.mem.cells@.len() && s0.mem.cells@[self.0.id as int] is Some) ==> r == Value::Unit
        &&& s1 == (SubRuntime {
            refused: s0.refused || !(self.0.id < s0.mem.cells@.len() && s0.mem.cells@[self.0.id as int] is Some),
            ..s0
        })
    }

    pub fn call<F: FnMut(Value) -> Value>(&self, sub: &mut SubRuntime<F>, val: Value) -> (r: Value)
        ensures
            keeps_ids(Node::NLoadCopy(*self), *old(sub), *final(sub)),
            self.post(*old(sub), val, *final(sub), r),
    {
        let held = self.0.id < sub.mem.cells.len() && sub.mem.cells[self.0.id].is_some();
        if !held {
            sub.refuse();
            return Value::Unit;
        }
        match &sub.mem.cells[self.0.id] {
            Some(v) => v.duplicate(),
            None => Value::Unit,
        }
    }
}

} // verus!
