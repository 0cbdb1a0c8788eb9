//! A drawing of the control-flow graph in the dot language, at the node
//! level: each main node is a record whose label lists the parts of the
//! node; the parts that schedule another main node are fields, with an
//! arrow to that node. Shared objects (cells, join points) are numbered in
//! the order they are first met.

use vstd::prelude::*;
use crate::node::{Node, CFGDrawer};
use crate::node::control::{NJump, NPause};
use crate::node::mem_manip::{NStore, NLoad, NLoadCopy};
use crate::node::par::{NSetVar1, NSetVar2, NMerge};

verus! {

/// The name under which a node without parts of its own is drawn.
#[derive(Clone, Copy, Debug, PartialEq, Eq, Structural)]
pub enum NodeName {
    Nothing,
    NIdentity,
    NValue,
    FnMut,
    FnOnce,
    NEnd,
    LoopIm,
    Ignore,
    GenP,
    Ignore1,
    Ignore2,
    NBigPar,
    NBigMerge,
    NEmitD,
    NEmitS,
    NEmitVecS,
    NEmitVS,
    NEmitVVecS,
    NGetD,
    NGetS,
    NGetSIn,
    NAwaitD,
    NAwaitS,
    NAwaitImmediateD,
    NAwaitImmediateS,
    NPresentD,
    NPresentS,
    ControlNode,
}

/// A part that schedules a main node.
#[derive(Clone, Copy, Debug, PartialEq, Eq, Structural)]
pub enum FieldKind {
    Jump,
    Pause,
    Set1,
    Set2,
}

/// The kind of a shared object a drawing numbers.
#[derive(Clone, Copy, Debug, PartialEq, Eq, Structural)]
pub enum Shared {
    Cell,
    Join,
    BigJoin,
}

/// A part that acts on a shared object.
#[derive(Clone, Copy, Debug, PartialEq, Eq, Structural)]
pub enum PtrKind {
    Store,
    Load,
    LoadCopy,
    Merge,
}

/// A part of the label of a main node.
#[derive(Clone, Copy, Debug, PartialEq, Eq, Structural)]
pub enum LabelPart {
    /// A node drawn by its name.
    Name(NodeName),
    /// A field, with its internal index, its kind and the index of the
    /// shared object it acts on, if any.
    Field(usize, FieldKind, Option<usize>),
    /// An action on the shared object of the given index.
    Ptr(PtrKind, usize),
    /// The opening of a sequence.
    SeqOpen,
    /// The separation of the two nodes of a sequence.
    SeqMid,
    /// The closing of a sequence.
    SeqClose,
    /// The separation of the two branches of a choice.
    Or,
    /// The separation of the two branches of a parallel node.
    ParSep,
}

/// The state of a drawing: the index given to each shared object, the
/// next index to give, the next internal index, and the arrows of the
/// current main node.
pub struct DrawState {
    pub map: Map<(Shared, usize), usize>,
    pub ptr_ind: nat,
    pub internal: nat,
    pub arrow: Seq<(usize, usize)>,
}

impl CFGDrawer {
    /// The state of a fresh drawer.
    pub open spec fn new_state() -> DrawState {
        DrawState { map: Map::empty(), ptr_ind: 0, internal: 0, arrow: Seq::empty() }
    }

    /// The state of the drawing.
    pub open spec fn state(&self) -> DrawState {
        DrawState {
            map: shared_map(self.map@, self.join_map@, self.big_join_map@),
            ptr_ind: self.ptr_ind as nat, internal: self.internal_node_ind as nat, arrow: self.arrow@ }
    }
}

/// The indices of the shared objects of all kinds, from those of cells,
/// join points and many-branch join points, by id.
pub open spec fn shared_map(cells: Map<usize, usize>, joins: Map<usize, usize>, big_joins: Map<usize, usize>)
    -> Map<(Shared, usize), usize> {
    Map::new(
        |k: (Shared, usize)| match k.0 {
            Shared::Cell => cells.contains_key(k.1),
            Shared::Join => joins.contains_key(k.1),
            Shared::BigJoin => big_joins.contains_key(k.1),
        },
        |k: (Shared, usize)| match k.0 {
            Shared::Cell => cells[k.1],
            Shared::Join => joins[k.1],
            Shared::BigJoin => big_joins[k.1],
        },
    )
}

/// The index of the shared object of key `key`, and the state after it:
/// the index given before, or the next fresh one.
pub open spec fn take_ptr(st: DrawState, key: (Shared, usize)) -> (usize, DrawState) {
    if st.map.contains_key(key) {
        (st.map[key], st)
    } else {
        (st.ptr_ind as usize, DrawState { map: st.map.insert(key, st.ptr_ind as usize), ptr_ind: st.ptr_ind + 1, ..st })
    }
}

/// Every index given so far is below the next one to give, and distinct
/// keys have distinct indices.
pub open spec fn indices_ok(st: DrawState) -> bool {
    &&& forall|k: (Shared, usize)| st.map.contains_key(k) ==> #[trigger] st.map[k] < st.ptr_ind
    &&& forall|k1: (Shared, usize), k2: (Shared, usize)| st.map.contains_key(k1) && st.map.contains_key(k2) && k1 != k2
        ==> #[trigger] st.map[k1] != #[trigger] st.map[k2]
}

/// Indices of shared objects are given in order of first query: asking
/// for a key gives the same index each time, and distinct keys get
/// distinct indices.
pub proof fn law_take_ptr(st: DrawState, k1: (Shared, usize), k2: (Shared, usize))
    requires
        indices_ok(st),
        st.ptr_ind < usize::MAX,
    ensures
        indices_ok(take_ptr(st, k1).1),
        !st.map.contains_key(k1) ==> take_ptr(st, k1).0 == st.ptr_ind,
        take_ptr(take_ptr(st, k1).1, k1).0 == take_ptr(st, k1).0,
        k1 != k2 ==> take_ptr(take_ptr(st, k1).1, k2).0 != take_ptr(st, k1).0,
{
    let (i1, st1) = take_ptr(st, k1);
    assert(st1.map.contains_key(k1) && st1.map[k1] == i1);
    assert(indices_ok(st1)) by {
        if !st.map.contains_key(k1) {
            assert forall|a: (Shared, usize), b: (Shared, usize)| st1.map.contains_key(a) && st1.map.contains_key(b) && a != b
                implies #[trigger] st1.map[a] != #[trigger] st1.map[b] by {
                if a != k1 && b != k1 {
                    assert(st.map[a] != st.map[b]);
                }
            }
        }
    }
    if k1 != k2 {
        if st1.map.contains_key(k2) {
            assert(st1.map[k2] != st1.map[k1]);
        } else {
            assert(i1 < st1.ptr_ind);
        }
    }
}

/// The next internal index, and the state after it.
pub open spec fn take_internal(st: DrawState) -> (usize, DrawState) {
    (st.internal as usize, DrawState { internal: st.internal + 1, ..st })
}

/// The state after adding an arrow.
pub open spec fn with_arrow(st: DrawState, a: (usize, usize)) -> DrawState {
    DrawState { arrow: st.arrow.push(a), ..st }
}

/// The key of the cell `id`.
pub open spec fn cell_key(id: usize) -> (Shared, usize) {
    (Shared::Cell, id)
}

/// The key of the join point `id`.
pub open spec fn join_key(id: usize) -> (Shared, usize) {
    (Shared::Join, id)
}

/// The key of the many-branch join point `id`.
pub open spec fn big_join_key(id: usize) -> (Shared, usize) {
    (Shared::BigJoin, id)
}

/// Shared objects have distinct keys: two shared objects of one kind have
/// the same key only when they are the same, and objects of different
/// kinds never do. With `law_take_ptr`, copies of a handle get the same index
/// from a drawer, and distinct objects distinct ones.
pub proof fn law_shared_keys(a: usize, b: usize)
    ensures
        (cell_key(a) == cell_key(b)) == (a == b),
        (join_key(a) == join_key(b)) == (a == b),
        (big_join_key(a) == big_join_key(b)) == (a == b),
        cell_key(a) != join_key(b),
        cell_key(a) != big_join_key(b),
        join_key(a) != big_join_key(b),
{
}

impl Node {
    /// The name of a node drawn by its name.
    pub open spec fn name(self) -> NodeName {
        match self {
            Node::Nothing(_) => NodeName::Nothing,
            Node::NIdentity(_) => NodeName::NIdentity,
            Node::NValue(_) => NodeName::NValue,
            Node::NFnMut(_) => NodeName::FnMut,
            Node::NFnOnce(_) => NodeName::FnOnce,
            Node::NEnd(_) => NodeName::NEnd,
            Node::LoopIm(_) => NodeName::LoopIm,
            Node::Ignore(_) => NodeName::Ignore,
            Node::GenP(_) => NodeName::GenP,
            Node::Ignore1(_) => NodeName::Ignore1,
            Node::Ignore2(_) => NodeName::Ignore2,
            Node::NBigPar(_) => NodeName::NBigPar,
            Node::NBigMerge(_) => NodeName::NBigMerge,
            Node::NEmitD(_) => NodeName::NEmitD,
            Node::NEmitS(_) => NodeName::NEmitS,
            Node::NEmitVecS(_) => NodeName::NEmitVecS,
            Node::NEmitVS(_) => NodeName::NEmitVS,
            Node::NEmitVVecS(_) => NodeName::NEmitVVecS,
            Node::NGetD(_) => NodeName::NGetD,
            Node::NGetS(_) => NodeName::NGetS,
            Node::NGetSIn(_) => NodeName::NGetSIn,
            Node::NAwaitD(_) => NodeName::NAwaitD,
            Node::NAwaitS(_) => NodeName::NAwaitS,
            Node::NAwaitImmediateD(_) => NodeName::NAwaitImmediateD,
            Node::NAwaitImmediateS(_) => NodeName::NAwaitImmediateS,
            Node::NPresentD(_) => NodeName::NPresentD,
            Node::NPresentS(_) => NodeName::NPresentS,
            _ => NodeName::ControlNode,
        }
    }

    /// The number of elementary nodes in the node: each takes at most one
    /// internal index and one shared object index.
    pub open spec fn leaves(self) -> nat
        decreases self,
    {
        match self {
            Node::NSeq(n) => n.n1.leaves() + n.n2.leaves(),
            Node::NChoice(n) => n.nt.leaves() + n.nf.leaves(),
            Node::NPar(n) => n.n1.leaves() + n.n2.leaves(),
            _ => 1,
        }
    }

    /// The label parts of the node and the drawing state after it, from the
    /// state `st`.
    pub open spec fn draw(self, st: DrawState) -> (Seq<LabelPart>, DrawState)
        decreases self,
    {
        match self {
            Node::NSeq(n) => {
                let (l1, st1) = n.n1.draw(st);
                let (l2, st2) = n.n2.draw(st1);
                (seq![LabelPart::SeqOpen] + l1 + seq![LabelPart::SeqMid] + l2 + seq![LabelPart::SeqClose], st2)
            },
            Node::NChoice(n) => {
                let (l1, st1) = n.nt.draw(st);
                let (l2, st2) = n.nf.draw(st1);
                (l1 + seq![LabelPart::Or] + l2, st2)
            },
            Node::NPar(n) => {
                let (l1, st1) = n.n1.draw(st);
                let (l2, st2) = n.n2.draw(st1);
                (l1 + seq![LabelPart::ParSep] + l2, st2)
            },
            Node::NJump(n) => {
                let (i, st1) = take_internal(st);
                (seq![LabelPart::Field(i, FieldKind::Jump, None)], with_arrow(st1, (i, n.dest)))
            },
            Node::NPause(n) => {
                let (i, st1) = take_internal(st);
                (seq![LabelPart::Field(i, FieldKind::Pause, None)], with_arrow(st1, (i, n.dest)))
            },
            Node::NSetVar1(n) => {
                let (i, st1) = take_internal(st);
                let (p, st2) = take_ptr(st1, join_key(n.rc.id));
                (seq![LabelPart::Field(i, FieldKind::Set1, Some(p))], with_arrow(st2, (i, n.dest)))
            },
            Node::NSetVar2(n) => {
                let (i, st1) = take_internal(st);
                let (p, st2) = take_ptr(st1, join_key(n.rc.id));
                (seq![LabelPart::Field(i, FieldKind::Set2, Some(p))], with_arrow(st2, (i, n.dest)))
            },
            Node::NStore(n) => {
                let (p, st1) = take_ptr(st, cell_key(n.0.id));
                (seq![LabelPart::Ptr(PtrKind::Store, p)], st1)
            },
            Node::NLoad(n) => {
                let (p, st1) = take_ptr(st, cell_key(n.0.id));
                (seq![LabelPart::Ptr(PtrKind::Load, p)], st1)
            },
            Node::NLoadCopy(n) => {
                let (p, st1) = take_ptr(st, cell_key(n.0.id));
                (seq![LabelPart::Ptr(PtrKind::LoadCopy, p)], st1)
            },
            Node::NMerge(n) => {
                let (p, st1) = take_ptr(st, join_key(n.rc.id));
                (seq![LabelPart::Ptr(PtrKind::Merge, p)], st1)
            },
            _ => (seq![LabelPart::Name(self.name())], st),
        }
    }
}

/// Drawing a node takes at most one internal index and one shared object
/// index per elementary node.
pub proof fn lemma_draw_bounds(n: Node, st: DrawState)
    ensures
        n.leaves() >= 1,
        st.ptr_ind <= n.draw(st).1.ptr_ind <= st.ptr_ind + n.leaves(),
        st.internal <= n.draw(st).1.internal <= st.internal + n.leaves(),
    decreases n,
{
    match n {
        Node::NSeq(m) => {
            lemma_draw_bounds(*m.n1, st);
            lemma_draw_bounds(*m.n2, m.n1.draw(st).1);
        },
        Node::NChoice(m) => {
            lemma_draw_bounds(*m.nt, st);
            lemma_draw_bounds(*m.nf, m.nt.draw(st).1);
        },
        Node::NPar(m) => {
            lemma_draw_bounds(*m.n1, st);
            lemma_draw_bounds(*m.n2, m.n1.draw(st).1);
        },
        _ => {},
    }
}

} // verus!

verus! {

/// What drawing the node `n` does to a drawer and to the label parts.
pub open spec fn drawn(n: Node, c0: CFGDrawer, c1: CFGDrawer, out0: Seq<LabelPart>, out1: Seq<LabelPart>) -> bool {
    &&& c1.wf()
    &&& c1.state() == n.draw(c0.state()).1
    &&& out1 =~= out0 + n.draw(c0.state()).0
    &&& c1.node_ind == c0.node_ind
}

/// Room is left in the drawer to draw the node `n`.
pub open spec fn can_draw(n: Node, c: CFGDrawer) -> bool {
    &&& c.wf()
    &&& c.ptr_ind + n.leaves() <= usize::MAX
    &&& c.internal_node_ind + n.leaves() <= usize::MAX
}

impl NJump {
    /// Draws the node: a field with an arrow to `dest`.
    pub fn print_dot(&self, cfgd: &mut CFGDrawer, out: &mut Vec<LabelPart>)
        requires
            can_draw(Node::NJump(*self), *old(cfgd)),
        ensures
            drawn(Node::NJump(*self), *old(cfgd), *final(cfgd), old(out)@, final(out)@),
    {
        let ind = cfgd.get_node_ind();
        out.push(LabelPart::Field(ind, FieldKind::Jump, None));
        cfgd.add_arrow((ind, self.dest));
    }
}

impl NPause {
    /// Draws the node: a field with an arrow to `dest`.
    pub fn print_dot(&self, cfgd: &mut CFGDrawer, out: &mut Vec<LabelPart>)
        requires
            can_draw(Node::NPause(*self), *old(cfgd)),
        ensures
            drawn(Node::NPause(*self), *old(cfgd), *final(cfgd), old(out)@, final(out)@),
    {
        let ind = cfgd.get_node_ind();
        out.push(LabelPart::Field(ind, FieldKind::Pause, None));
        cfgd.add_arrow((ind, self.dest));
    }
}

impl NSetVar1 {
    /// Draws the node: a field naming its join point, with an arrow to `dest`.
    pub fn print_dot(&self, cfgd: &mut CFGDrawer, out: &mut Vec<LabelPart>)
        requires
            can_draw(Node::NSetVar1(*self), *old(cfgd)),
        ensures
            drawn(Node::NSetVar1(*self), *old(cfgd), *final(cfgd), old(out)@, final(out)@),
    {
        let ind = cfgd.get_node_ind();
        let p = self.rc.get_ind(cfgd);
        out.push(LabelPart::Field(ind, FieldKind::Set1, Some(p)));
        cfgd.add_arrow((ind, self.dest));
    }
}

impl NSetVar2 {
    /// Draws the node: a field naming its join point, with an arrow to `dest`.
    pub fn print_dot(&self, cfgd: &mut CFGDrawer, out: &mut Vec<LabelPart>)
        requires
            can_draw(Node::NSetVar2(*self), *old(cfgd)),
        ensures
            drawn(Node::NSetVar2(*self), *old(cfgd), *final(cfgd), old(out)@, final(out)@),
    {
        let ind = cfgd.get_node_ind();
        let p = self.rc.get_ind(cfgd);
        out.push(LabelPart::Field(ind, FieldKind::Set2, Some(p)));
        cfgd.add_arrow((ind, self.dest));
    }
}

impl NStore {
    /// Draws the node: a store into its cell.
    pub fn print_dot(&self, cfgd: &mut CFGDrawer, out: &mut Vec<LabelPart>)
        requires
            can_draw(Node::NStore(*self), *old(cfgd)),
        ensures
            drawn(Node::NStore(*self), *old(cfgd), *final(cfgd), old(out)@, final(out)@),
    {
        let p = self.0.get_ind(cfgd);
        out.push(LabelPart::Ptr(PtrKind::Store, p));
    }
}

impl NLoad {
    /// Draws the node: a load from its cell.
    pub fn print_dot(&self, cfgd: &mut CFGDrawer, out: &mut Vec<LabelPart>)
        requires
            can_draw(Node::NLoad(*self), *old(cfgd)),
        ensures
            drawn(Node::NLoad(*self), *old(cfgd), *final(cfgd), old(out)@, final(out)@),
    {
        let p = self.0.get_ind(cfgd);
        out.push(LabelPart::Ptr(PtrKind::Load, p));
    }
}

impl NLoadCopy {
    /// Draws the node: a copy from its cell.
    pub fn print_dot(&self, cfgd: &mut CFGDrawer, out: &mut Vec<LabelPart>)
        requires
            can_draw(Node::NLoadCopy(*self), *old(cfgd)),
        ensures
            drawn(Node::NLoadCopy(*self), *old(cfgd), *final(cfgd), old(out)@, final(out)@),
    {
        let p = self.0.get_ind(cfgd);
        out.push(LabelPart::Ptr(PtrKind::LoadCopy, p));
    }
}

impl NMerge {
    /// Draws the node: a merge of its join point.
    pub fn print_dot(&self, cfgd: &mut CFGDrawer, out: &mut Vec<LabelPart>)
        requires
            can_draw(Node::NMerge(*self), *old(cfgd)),
        ensures
            drawn(Node::NMerge(*self), *old(cfgd), *final(cfgd), old(out)@, final(out)@),
    {
        let p = self.rc.get_ind(cfgd);
        out.push(LabelPart::Ptr(PtrKind::Merge, p));
    }
}

impl Node {
    /// The name of a node drawn by its name.
    fn node_name(&self) -> (r: NodeName)
        ensures
            r == self.name(),
    {
        match self {
            Node::Nothing(_) => NodeName::Nothing,
            Node::NIdentity(_) => NodeName::NIdentity,
            Node::NValue(_) => NodeName::NValue,
            Node::NFnMut(_) => NodeName::FnMut,
            Node::NFnOnce(_) => NodeName::FnOnce,
            Node::NEnd(_) => NodeName::NEnd,
            Node::LoopIm(_) => NodeName::LoopIm,
            Node::Ignore(_) => NodeName::Ignore,
            Node::GenP(_) => NodeName::GenP,
            Node::Ignore1(_) => NodeName::Ignore1,
            Node::Ignore2(_) => NodeName::Ignore2,
            Node::NBigPar(_) => NodeName::NBigPar,
            Node::NBigMerge(_) => NodeName::NBigMerge,
            Node::NEmitD(_) => NodeName::NEmitD,
            Node::NEmitS(_) => NodeName::NEmitS,
            Node::NEmitVecS(_) => NodeName::NEmitVecS,
            Node::NEmitVS(_) => NodeName::NEmitVS,
            Node::NEmitVVecS(_) => NodeName::NEmitVVecS,
            Node::NGetD(_) => NodeName::NGetD,
            Node::NGetS(_) => NodeName::NGetS,
            Node::NGetSIn(_) => NodeName::NGetSIn,
            Node::NAwaitD(_) => NodeName::NAwaitD,
            Node::NAwaitS(_) => NodeName::NAwaitS,
            Node::NAwaitImmediateD(_) => NodeName::NAwaitImmediateD,
            Node::NAwaitImmediateS(_) => NodeName::NAwaitImmediateS,
            Node::NPresentD(_) => NodeName::NPresentD,
            Node::NPresentS(_) => NodeName::NPresentS,
            _ => NodeName::ControlNode,
        }
    }

    /// Appends the label parts of the node to `out`, taking the internal
    /// and shared object indices it needs from `cfgd` and adding its arrows
    /// there.
    pub fn print_dot(&self, cfgd: &mut CFGDrawer, out: &mut Vec<LabelPart>)
        requires
            can_draw(*self, *old(cfgd)),
        ensures
            drawn(*self, *old(cfgd), *final(cfgd), old(out)@, final(out)@),
        decreases self.leaves(), 1nat,
    {
        match self {
            Node::NSeq(n) => Self::print_pair(&n.n1, &n.n2, LabelPart::SeqOpen, LabelPart::SeqMid, LabelPart::SeqClose, true, cfgd, out),
            Node::NChoice(n) => Self::print_pair(&n.nt, &n.nf, LabelPart::Or, LabelPart::Or, LabelPart::Or, false, cfgd, out),
            Node::NPar(n) => Self::print_pair(&n.n1, &n.n2, LabelPart::ParSep, LabelPart::ParSep, LabelPart::ParSep, false, cfgd, out),
            Node::NJump(n) => n.print_dot(cfgd, out),
            Node::NPause(n) => n.print_dot(cfgd, out),
            Node::NSetVar1(n) => n.print_dot(cfgd, out),
            Node::NSetVar2(n) => n.print_dot(cfgd, out),
            Node::NStore(n) => n.print_dot(cfgd, out),
            Node::NLoad(n) => n.print_dot(cfgd, out),
            Node::NLoadCopy(n) => n.print_dot(cfgd, out),
            Node::NMerge(n) => n.print_dot(cfgd, out),
            _ => {
                let name = self.node_name();
                out.push(LabelPart::Name(name));
                proof { assert(out@ =~= old(out)@ + self.draw(old(cfgd).state()).0); }
            },
        }
    }

    /// Draws two nodes one after the other: with `wrap`, between `open`
    /// and `close` and separated by `mid`; otherwise separated by `open`.
    fn print_pair(n1: &Node, n2: &Node, open: LabelPart, mid: LabelPart, close: LabelPart, wrap: bool,
        cfgd: &mut CFGDrawer, out: &mut Vec<LabelPart>)
        requires
            can_draw(*n1, *old(cfgd)),
            old(cfgd).ptr_ind + n1.leaves() + n2.leaves() <= usize::MAX,
            old(cfgd).internal_node_ind + n1.leaves() + n2.leaves() <= usize::MAX,
        ensures
            ({
                let (l1, st1) = n1.draw(old(cfgd).state());
                let (l2, st2) = n2.draw(st1);
                &&& final(cfgd).wf()
                &&& final(cfgd).state() == st2
                &&& final(cfgd).node_ind == old(cfgd).node_ind
                &&& wrap ==> final(out)@ =~= old(out)@ + seq![open] + l1 + seq![mid] + l2 + seq![close]
                &&& !wrap ==> final(out)@ =~= old(out)@ + l1 + seq![open] + l2
            }),
        decreases n1.leaves() + n2.leaves(), 0nat,
    {
        proof {
            lemma_draw_bounds(*n1, old(cfgd).state());
            lemma_draw_bounds(*n2, n1.draw(old(cfgd).state()).1);
        }
        if wrap {
            out.push(open);
        }
        let ghost o1 = out@;
        n1.print_dot(cfgd, out);
        let ghost o2 = out@;
        if wrap {
            out.push(mid);
        } else {
            out.push(open);
        }
        let ghost o3 = out@;
        n2.print_dot(cfgd, out);
        if wrap {
            out.push(close);
        }
        proof {
            let (l1, st1) = n1.draw(old(cfgd).state());
            let (l2, st2) = n2.draw(st1);
            if wrap {
                assert(out@ =~= old(out)@ + seq![open] + l1 + seq![mid] + l2 + seq![close]);
            } else {
                assert(out@ =~= old(out)@ + l1 + seq![open] + l2);
            }
        }
    }
}

impl Node {
    /// The number of elementary nodes in the node, if it fits in a `usize`.
    pub fn leaves_count(&self) -> (r: Option<usize>)
        ensures
            r is Some <==> self.leaves() <= usize::MAX,
            r is Some ==> r->0 == self.leaves(),
        decreases self.leaves(), 1nat,
    {
        match self {
            Node::NSeq(n) => Self::sum_leaves(&n.n1, &n.n2),
            Node::NChoice(n) => Self::sum_leaves(&n.nt, &n.nf),
            Node::NPar(n) => Self::sum_leaves(&n.n1, &n.n2),
            _ => Some(1),
        }
    }

    /// The number of elementary nodes in two nodes, if it fits in a `usize`.
    fn sum_leaves(n1: &Node, n2: &Node) -> (r: Option<usize>)
        ensures
            r is Some <==> n1.leaves() + n2.leaves() <= usize::MAX,
            r is Some ==> r->0 == n1.leaves() + n2.leaves(),
        decreases n1.leaves() + n2.leaves(), 0nat,
    {
        proof {
            lemma_draw_bounds(*n1, CFGDrawer::new_state());
            lemma_draw_bounds(*n2, CFGDrawer::new_state());
        }
        match (n1.leaves_count(), n2.leaves_count()) {
            (Some(a), Some(b)) => a.checked_add(b),
            _ => None,
        }
    }
}

/// The drawing of a main node: its id, the parts of its label, and its
/// arrows, from the internal index of a field to a main node.
pub struct NodeDrawing {
    pub node: usize,
    pub label: Vec<LabelPart>,
    pub arrows: Vec<(usize, usize)>,
}

/// The label parts and arrows of the nodes `ns`, drawn in order from the
/// state `st` (whose arrows have been taken), and the state after them.
pub open spec fn draw_nodes(ns: Seq<Node>, st: DrawState) -> (Seq<(Seq<LabelPart>, Seq<(usize, usize)>)>, DrawState)
    decreases ns.len(),
{
    if ns.len() == 0 {
        (Seq::empty(), st)
    } else {
        let (r, st1) = draw_nodes(ns.drop_last(), st);
        let (l, st2) = ns.last().draw(st1);
        (r.push((l, st2.arrow)), DrawState { arrow: Seq::empty(), ..st2 })
    }
}

/// The number of elementary nodes in the nodes `ns`.
pub open spec fn total_leaves(ns: Seq<Node>) -> nat
    decreases ns.len(),
{
    if ns.len() == 0 {
        0
    } else {
        total_leaves(ns.drop_last()) + ns.last().leaves()
    }
}

/// Drawing nodes takes at most one internal index and one shared object
/// index per elementary node, and leaves no arrow behind.
pub proof fn lemma_draw_nodes_bounds(ns: Seq<Node>, st: DrawState)
    ensures
        st.ptr_ind <= draw_nodes(ns, st).1.ptr_ind <= st.ptr_ind + total_leaves(ns),
        st.internal <= draw_nodes(ns, st).1.internal <= st.internal + total_leaves(ns),
        draw_nodes(ns, st).0.len() == ns.len(),
        ns.len() > 0 ==> draw_nodes(ns, st).1.arrow == Seq::<(usize, usize)>::empty(),
    decreases ns.len(),
{
    if ns.len() > 0 {
        lemma_draw_nodes_bounds(ns.drop_last(), st);
        lemma_draw_bounds(ns.last(), draw_nodes(ns.drop_last(), st).1);
    }
}

impl CFGDrawer {
    /// Draws the main node `n` of id `ind`: returns the parts of its label
    /// and its arrows, which are taken from the drawer.
    pub fn print_node(&mut self, ind: usize, n: &Node) -> (r: (Vec<LabelPart>, Vec<(usize, usize)>))
        requires
            can_draw(*n, *old(self)),
        ensures
            final(self).wf(),
            final(self).node_ind == ind,
            ({
                let (l, st) = n.draw(old(self).state());
                &&& r.0@ == l
                &&& r.1@ == st.arrow
                &&& final(self).state() == DrawState { arrow: Seq::empty(), ..st }
            }),
    {
        self.start_node(ind);
        let mut label: Vec<LabelPart> = Vec::new();
        proof { assert(self.state() == old(self).state()); }
        n.print_dot(self, &mut label);
        let arrows = self.stop_node();
        proof {
            assert(label@ =~= n.draw(old(self).state()).0);
            assert(self.state().arrow =~= Seq::<(usize, usize)>::empty());
        }
        (label, arrows)
    }
}

} // verus!
