//! A drawing of a process in the dot language, at the process level: each
//! elementary process is a box, and the combinators add forks, joins and
//! tests around the drawings of their parts. The drawing is a list of
//! vertex and edge statements, numbered from a counter.

use vstd::prelude::*;
use crate::value::Value;
use crate::process::Process;
use crate::process::seq::PSeq;
use crate::process::control::{PChoice, PLoop};
use crate::process::par::Par;

verus! {

/// The name written in the box of an elementary process.
#[derive(Clone, Copy, Debug, PartialEq, Eq, Structural)]
pub enum BoxLabel {
    Nothing,
    Value,
    FnMut,
    FnOnce,
    Jump,
    Pause,
    BigPar,
    PreD,
    PreS,
    EmitD,
    EmitS,
    EmitVecS,
    AwaitD,
    AwaitS,
    AwaitImmediateD,
    AwaitImmediateS,
    PresentD,
}

/// The kind of a vertex of the drawing.
#[derive(Clone, Copy, Debug, PartialEq, Eq, Structural)]
pub enum VertexKind {
    /// A box holding the name of an elementary process.
    Box(BoxLabel),
    /// The fork of a parallel composition (a triangle).
    ParFork,
    /// The join of a parallel composition (an inverted triangle).
    ParJoin,
    /// The test of a choice (a diamond labelled "if").
    ChoiceTest,
    /// The point where the branches of a choice meet.
    ChoiceJoin,
    /// The head of a loop (labelled "loop").
    LoopHead,
    /// The test at the end of a loop body (a diamond).
    LoopTest,
}

/// The side of a vertex an edge leaves or reaches.
#[derive(Clone, Copy, Debug, PartialEq, Eq, Structural)]
pub enum Port {
    Any,
    N,
    S,
    E,
    W,
    NE,
    NW,
    SE,
    SW,
}

/// The label of an edge.
#[derive(Clone, Copy, Debug, PartialEq, Eq, Structural)]
pub enum EdgeLabel {
    Plain,
    True,
    False,
    Continue,
}

/// A statement of the drawing.
#[derive(Clone, Copy, Debug, PartialEq, Eq, Structural)]
pub enum DotStmt {
    Vertex { id: usize, kind: VertexKind },
    Edge { from: usize, from_port: Port, to: usize, to_port: Port, label: EdgeLabel },
}

/// A vertex statement.
pub open spec fn vertex(id: int, kind: VertexKind) -> DotStmt {
    DotStmt::Vertex { id: id as usize, kind }
}

/// An edge statement.
pub open spec fn edge(from: int, from_port: Port, to: int, to_port: Port, label: EdgeLabel) -> DotStmt {
    DotStmt::Edge { from: from as usize, from_port, to: to as usize, to_port, label }
}

impl<F: FnMut(Value) -> Value> Process<F> {
    /// The name in the box of an elementary process (`None` for a combinator).
    pub open spec fn box_label(self) -> Option<BoxLabel> {
        match self {
            Process::PNothing(_) => Some(BoxLabel::Nothing),
            Process::PValue(_) => Some(BoxLabel::Value),
            Process::PFnMut(_) => Some(BoxLabel::FnMut),
            Process::PFnOnce(_) => Some(BoxLabel::FnOnce),
            Process::PJump(_) => Some(BoxLabel::Jump),
            Process::Pause(_) => Some(BoxLabel::Pause),
            Process::BigPar(_) => Some(BoxLabel::BigPar),
            Process::PreD(_) => Some(BoxLabel::PreD),
            Process::PreS(_) => Some(BoxLabel::PreS),
            Process::PreSIn(_) => Some(BoxLabel::PreS),
            Process::EmitD(_) => Some(BoxLabel::EmitD),
            Process::EmitS(_) => Some(BoxLabel::EmitS),
            Process::EmitSIn(_) => Some(BoxLabel::EmitS),
            Process::EmitVecS(_) => Some(BoxLabel::EmitVecS),
            Process::EmitVS(_) => Some(BoxLabel::EmitVecS),
            Process::EmitVVecS(_) => Some(BoxLabel::EmitVecS),
            Process::AwaitD(_) => Some(BoxLabel::AwaitD),
            Process::AwaitS(_) => Some(BoxLabel::AwaitS),
            Process::AwaitSIn(_) => Some(BoxLabel::AwaitS),
            Process::AwaitImmediateD(_) => Some(BoxLabel::AwaitImmediateD),
            Process::AwaitImmediateS(_) => Some(BoxLabel::AwaitImmediateS),
            Process::PresentD(_) => Some(BoxLabel::PresentD),
            Process::PresentS(_) => Some(BoxLabel::PresentD),
            _ => None,
        }
    }

    /// The number of vertices of the drawing of the process.
    pub open spec fn dot_size(self) -> nat
        decreases self,
    {
        match self {
            Process::PSeq(p) => p.0.dot_size() + p.1.dot_size(),
            Process::PChoice(p) => p.0.dot_size() + p.1.dot_size() + 2,
            Process::PLoop(p) => p.0.dot_size() + 2,
            Process::Par(p) => p.0.dot_size() + p.1.dot_size() + 2,
            _ => 1,
        }
    }

    /// The first and last vertices of the drawing of the process, when its
    /// vertices are numbered from `n`.
    pub open spec fn dot_ends(self, n: int) -> (int, int)
        decreases self,
    {
        match self {
            Process::PSeq(p) => (p.0.dot_ends(n).0, p.1.dot_ends(n + p.0.dot_size()).1),
            Process::PChoice(p) => {
                let b = n + p.0.dot_size() + p.1.dot_size();
                (b, b + 1)
            },
            Process::PLoop(p) => {
                let b = n + p.0.dot_size();
                (b, b + 1)
            },
            Process::Par(p) => {
                let b = n + p.0.dot_size() + p.1.dot_size();
                (b, b + 1)
            },
            _ => (n, n),
        }
    }

    /// The statements of the drawing of the process, when its vertices are
    /// numbered from `n`.
    pub open spec fn dot_stmts(self, n: int) -> Seq<DotStmt>
        decreases self,
    {
        match self {
            Process::PSeq(p) => {
                let m = n + p.0.dot_size();
                p.0.dot_stmts(n) + p.1.dot_stmts(m)
                    + seq![edge(p.0.dot_ends(n).1, Port::Any, p.1.dot_ends(m).0, Port::Any, EdgeLabel::Plain)]
            },
            Process::PChoice(p) => {
                let m = n + p.0.dot_size();
                let b = m + p.1.dot_size();
                let (bt, et) = p.0.dot_ends(n);
                let (bf, ef) = p.1.dot_ends(m);
                p.0.dot_stmts(n) + p.1.dot_stmts(m) + seq![
                    vertex(b, VertexKind::ChoiceTest),
                    edge(b, Port::W, bt, Port::Any, EdgeLabel::True),
                    edge(b, Port::E, bf, Port::Any, EdgeLabel::False),
                    vertex(b + 1, VertexKind::ChoiceJoin),
                    edge(et, Port::Any, b + 1, Port::W, EdgeLabel::Plain),
                    edge(ef, Port::Any, b + 1, Port::E, EdgeLabel::Plain),
                ]
            },
            Process::PLoop(p) => {
                let b = n + p.0.dot_size();
                let (bb, eb) = p.0.dot_ends(n);
                p.0.dot_stmts(n) + seq![
                    vertex(b, VertexKind::LoopHead),
                    edge(b, Port::S, bb, Port::Any, EdgeLabel::Plain),
                    vertex(b + 1, VertexKind::LoopTest),
                    edge(eb, Port::Any, b + 1, Port::N, EdgeLabel::Plain),
                    edge(b + 1, Port::W, b, Port::W, EdgeLabel::Continue),
                ]
            },
            Process::Par(p) => {
                let m = n + p.0.dot_size();
                let b = m + p.1.dot_size();
                let (bp, ep) = p.0.dot_ends(n);
                let (bq, eq) = p.1.dot_ends(m);
                p.0.dot_stmts(n) + p.1.dot_stmts(m) + seq![
                    vertex(b, VertexKind::ParFork),
                    edge(b, Port::SW, bp, Port::N, EdgeLabel::Plain),
                    edge(b, Port::SE, bq, Port::N, EdgeLabel::Plain),
                    vertex(b + 1, VertexKind::ParJoin),
                    edge(ep, Port::S, b + 1, Port::NW, EdgeLabel::Plain),
                    edge(eq, Port::S, b + 1, Port::NE, EdgeLabel::Plain),
                ]
            },
            _ => seq![vertex(n, VertexKind::Box(self.box_label().unwrap()))],
        }
    }
}

/// The drawing of a process starts and ends inside the range of its vertices.
pub proof fn lemma_dot_ends<F: FnMut(Value) -> Value>(p: Process<F>, n: int)
    ensures
        p.dot_size() >= 1,
        n <= p.dot_ends(n).0 < n + p.dot_size(),
        n <= p.dot_ends(n).1 < n + p.dot_size(),
    decreases p,
{
    match p {
        Process::PSeq(q) => {
            lemma_dot_ends(*q.0, n);
            lemma_dot_ends(*q.1, n + q.0.dot_size());
        },
        Process::PChoice(q) => {
            lemma_dot_ends(*q.0, n);
            lemma_dot_ends(*q.1, n + q.0.dot_size());
        },
        Process::PLoop(q) => {
            lemma_dot_ends(*q.0, n);
        },
        Process::Par(q) => {
            lemma_dot_ends(*q.0, n);
            lemma_dot_ends(*q.1, n + q.0.dot_size());
        },
        _ => {},
    }
}

/// The drawing of an elementary process is its box.
proof fn lemma_box<F: FnMut(Value) -> Value>(p: Process<F>, n: int)
    requires
        p.box_label() is Some,
    ensures
        p.dot_size() == 1,
        p.dot_ends(n) == (n, n),
        p.dot_stmts(n) == seq![vertex(n, VertexKind::Box(p.box_label()->0))],
{
}

impl<F: FnMut(Value) -> Value> Process<F> {
    /// The name in the box of an elementary process.
    fn box_name(&self) -> (r: BoxLabel)
        requires
            self.box_label() is Some,
        ensures
            r == self.box_label()->0,
    {
        match self {
            Process::PNothing(_) => BoxLabel::Nothing,
            Process::PValue(_) => BoxLabel::Value,
            Process::PFnMut(_) => BoxLabel::FnMut,
            Process::PFnOnce(_) => BoxLabel::FnOnce,
            Process::PJump(_) => BoxLabel::Jump,
            Process::Pause(_) => BoxLabel::Pause,
            Process::BigPar(_) => BoxLabel::BigPar,
            Process::PreD(_) => BoxLabel::PreD,
            Process::PreS(_) => BoxLabel::PreS,
            Process::PreSIn(_) => BoxLabel::PreS,
            Process::EmitD(_) => BoxLabel::EmitD,
            Process::EmitS(_) => BoxLabel::EmitS,
            Process::EmitSIn(_) => BoxLabel::EmitS,
            Process::EmitVecS(_) => BoxLabel::EmitVecS,
            Process::EmitVS(_) => BoxLabel::EmitVecS,
            Process::EmitVVecS(_) => BoxLabel::EmitVecS,
            Process::AwaitD(_) => BoxLabel::AwaitD,
            Process::AwaitS(_) => BoxLabel::AwaitS,
            Process::AwaitSIn(_) => BoxLabel::AwaitS,
            Process::AwaitImmediateD(_) => BoxLabel::AwaitImmediateD,
            Process::AwaitImmediateS(_) => BoxLabel::AwaitImmediateS,
            Process::PresentD(_) => BoxLabel::PresentD,
            Process::PresentS(_) => BoxLabel::PresentD,
            _ => BoxLabel::Nothing,
        }
    }

    /// Appends the drawing of the process to `out`, numbering its vertices
    /// from `cur_num`, which moves past them; returns the first and last
    /// vertices of the drawing.
    pub fn print_dot(&self, cur_num: &mut usize, out: &mut Vec<DotStmt>) -> (r: (usize, usize))
        requires
            *old(cur_num) + self.dot_size() <= usize::MAX,
        ensures
            *final(cur_num) == *old(cur_num) + self.dot_size(),
            final(out)@ == old(out)@ + self.dot_stmts(*old(cur_num) as int),
            r.0 == self.dot_ends(*old(cur_num) as int).0,
            r.1 == self.dot_ends(*old(cur_num) as int).1,
        decreases self.dot_size(), 1nat,
    {
        match self {
            Process::PSeq(p) => Self::print_seq(&p.0, &p.1, cur_num, out),
            Process::PChoice(p) => Self::print_choice(&p.0, &p.1, cur_num, out),
            Process::PLoop(p) => Self::print_loop(&p.0, cur_num, out),
            Process::Par(p) => Self::print_par(&p.0, &p.1, cur_num, out),
            _ => self.print_box(cur_num, out),
        }
    }

    /// Draws an elementary process as a box.
    fn print_box(&self, cur_num: &mut usize, out: &mut Vec<DotStmt>) -> (r: (usize, usize))
        requires
            self.box_label() is Some,
            *old(cur_num) < usize::MAX,
        ensures
            *final(cur_num) == *old(cur_num) + self.dot_size(),
            final(out)@ == old(out)@ + self.dot_stmts(*old(cur_num) as int),
            r.0 == self.dot_ends(*old(cur_num) as int).0,
            r.1 == self.dot_ends(*old(cur_num) as int).1,
    {
        let num = *cur_num;
        *cur_num = *cur_num + 1;
        let label = self.box_name();
        out.push(DotStmt::Vertex { id: num, kind: VertexKind::Box(label) });
        proof {
            lemma_box(*self, num as int);
            assert(out@ =~= old(out)@ + self.dot_stmts(num as int));
        }
        (num, num)
    }

    /// Draws `p`, then `q`, and links the end of `p` to the start of `q`.
    fn print_seq(p: &Process<F>, q: &Process<F>, cur_num: &mut usize, out: &mut Vec<DotStmt>) -> (r: (usize, usize))
        requires
            *old(cur_num) + p.dot_size() + q.dot_size() <= usize::MAX,
        ensures
            ({
                let s = Process::PSeq(PSeq(Box::new(*p), Box::new(*q)));
                &&& *final(cur_num) == *old(cur_num) + s.dot_size()
                &&& final(out)@ == old(out)@ + s.dot_stmts(*old(cur_num) as int)
                &&& r.0 == s.dot_ends(*old(cur_num) as int).0
                &&& r.1 == s.dot_ends(*old(cur_num) as int).1
            }),
        decreases p.dot_size() + q.dot_size(), 0nat,
    {
        proof { lemma_dot_ends(*p, 0); lemma_dot_ends(*q, 0); }
        let (beg, midup) = p.print_dot(cur_num, out);
        let (middown, end) = q.print_dot(cur_num, out);
        out.push(DotStmt::Edge { from: midup, from_port: Port::Any, to: middown, to_port: Port::Any, label: EdgeLabel::Plain });
        proof {
            let s = Process::PSeq(PSeq(Box::new(*p), Box::new(*q)));
            assert(out@ =~= old(out)@ + s.dot_stmts(*old(cur_num) as int));
        }
        (beg, end)
    }

    /// Draws the two branches of a choice between a test and a join.
    fn print_choice(p: &Process<F>, q: &Process<F>, cur_num: &mut usize, out: &mut Vec<DotStmt>) -> (r: (usize, usize))
        requires
            *old(cur_num) + p.dot_size() + q.dot_size() + 2 <= usize::MAX,
        ensures
            ({
                let s = Process::PChoice(PChoice(Box::new(*p), Box::new(*q)));
                &&& *final(cur_num) == *old(cur_num) + s.dot_size()
                &&& final(out)@ == old(out)@ + s.dot_stmts(*old(cur_num) as int)
                &&& r.0 == s.dot_ends(*old(cur_num) as int).0
                &&& r.1 == s.dot_ends(*old(cur_num) as int).1
            }),
        decreases p.dot_size() + q.dot_size() + 2, 0nat,
    {
        proof { lemma_dot_ends(*p, 0); lemma_dot_ends(*q, 0); }
        let (begt, endt) = p.print_dot(cur_num, out);
        let (begf, endf) = q.print_dot(cur_num, out);
        let r = Self::push_fork(cur_num, out, VertexKind::ChoiceTest, VertexKind::ChoiceJoin,
            (begt, Port::W, Port::Any, EdgeLabel::True), (begf, Port::E, Port::Any, EdgeLabel::False),
            (endt, Port::Any, Port::W), (endf, Port::Any, Port::E));
        proof {
            let s = Process::PChoice(PChoice(Box::new(*p), Box::new(*q)));
            assert(out@ =~= old(out)@ + s.dot_stmts(*old(cur_num) as int));
        }
        r
    }

    /// Draws the body of a loop between its head and its test.
    fn print_loop(p: &Process<F>, cur_num: &mut usize, out: &mut Vec<DotStmt>) -> (r: (usize, usize))
        requires
            *old(cur_num) + p.dot_size() + 2 <= usize::MAX,
        ensures
            ({
                let s = Process::PLoop(PLoop(Box::new(*p)));
                &&& *final(cur_num) == *old(cur_num) + s.dot_size()
                &&& final(out)@ == old(out)@ + s.dot_stmts(*old(cur_num) as int)
                &&& r.0 == s.dot_ends(*old(cur_num) as int).0
                &&& r.1 == s.dot_ends(*old(cur_num) as int).1
            }),
        decreases p.dot_size() + 2, 0nat,
    {
        let (beg, end) = p.print_dot(cur_num, out);
        let numbeg = *cur_num;
        let numend = numbeg + 1;
        *cur_num = *cur_num + 2;
        out.push(DotStmt::Vertex { id: numbeg, kind: VertexKind::LoopHead });
        out.push(DotStmt::Edge { from: numbeg, from_port: Port::S, to: beg, to_port: Port::Any, label: EdgeLabel::Plain });
        out.push(DotStmt::Vertex { id: numend, kind: VertexKind::LoopTest });
        out.push(DotStmt::Edge { from: end, from_port: Port::Any, to: numend, to_port: Port::N, label: EdgeLabel::Plain });
        out.push(DotStmt::Edge { from: numend, from_port: Port::W, to: numbeg, to_port: Port::W, label: EdgeLabel::Continue });
        proof {
            let s = Process::PLoop(PLoop(Box::new(*p)));
            assert(out@ =~= old(out)@ + s.dot_stmts(*old(cur_num) as int));
        }
        (numbeg, numend)
    }

    /// Draws the two branches of a parallel composition between a fork and
    /// a join.
    fn print_par(p: &Process<F>, q: &Process<F>, cur_num: &mut usize, out: &mut Vec<DotStmt>) -> (r: (usize, usize))
        requires
            *old(cur_num) + p.dot_size() + q.dot_size() + 2 <= usize::MAX,
        ensures
            ({
                let s = Process::Par(Par(Box::new(*p), Box::new(*q)));
                &&& *final(cur_num) == *old(cur_num) + s.dot_size()
                &&& final(out)@ == old(out)@ + s.dot_stmts(*old(cur_num) as int)
                &&& r.0 == s.dot_ends(*old(cur_num) as int).0
                &&& r.1 == s.dot_ends(*old(cur_num) as int).1
            }),
        decreases p.dot_size() + q.dot_size() + 2, 0nat,
    {
        proof { lemma_dot_ends(*p, 0); lemma_dot_ends(*q, 0); }
        let (begp, endp) = p.print_dot(cur_num, out);
        let (begq, endq) = q.print_dot(cur_num, out);
        let r = Self::push_fork(cur_num, out, VertexKind::ParFork, VertexKind::ParJoin,
            (begp, Port::SW, Port::N, EdgeLabel::Plain), (begq, Port::SE, Port::N, EdgeLabel::Plain),
            (endp, Port::S, Port::NW), (endq, Port::S, Port::NE));
        proof {
            let s = Process::Par(Par(Box::new(*p), Box::new(*q)));
            assert(out@ =~= old(out)@ + s.dot_stmts(*old(cur_num) as int));
        }
        r
    }

    /// Appends a fork vertex, its edges to the two branch starts `a` and
    /// `b`, a join vertex and the edges from the two branch ends `c` and
    /// `d` to it; the two vertices take the next two numbers.
    fn push_fork(cur_num: &mut usize, out: &mut Vec<DotStmt>, fork: VertexKind, join: VertexKind,
        a: (usize, Port, Port, EdgeLabel), b: (usize, Port, Port, EdgeLabel),
        c: (usize, Port, Port), d: (usize, Port, Port)) -> (r: (usize, usize))
        requires
            *old(cur_num) + 2 <= usize::MAX,
        ensures
            r.0 == *old(cur_num),
            r.1 == *old(cur_num) + 1,
            *final(cur_num) == *old(cur_num) + 2,
            final(out)@ == old(out)@ + seq![
                vertex(r.0 as int, fork),
                edge(r.0 as int, a.1, a.0 as int, a.2, a.3),
                edge(r.0 as int, b.1, b.0 as int, b.2, b.3),
                vertex(r.1 as int, join),
                edge(c.0 as int, c.1, r.1 as int, c.2, EdgeLabel::Plain),
                edge(d.0 as int, d.1, r.1 as int, d.2, EdgeLabel::Plain),
            ],
    {
        let numbeg = *cur_num;
        let numend = numbeg + 1;
        *cur_num = *cur_num + 2;
        out.push(DotStmt::Vertex { id: numbeg, kind: fork });
        out.push(DotStmt::Edge { from: numbeg, from_port: a.1, to: a.0, to_port: a.2, label: a.3 });
        out.push(DotStmt::Edge { from: numbeg, from_port: b.1, to: b.0, to_port: b.2, label: b.3 });
        out.push(DotStmt::Vertex { id: numend, kind: join });
        out.push(DotStmt::Edge { from: c.0, from_port: c.1, to: numend, to_port: c.2, label: EdgeLabel::Plain });
        out.push(DotStmt::Edge { from: d.0, from_port: d.1, to: numend, to_port: d.2, label: EdgeLabel::Plain });
        proof { assert(out@ =~= old(out)@ + seq![
                vertex(numbeg as int, fork),
                edge(numbeg as int, a.1, a.0 as int, a.2, a.3),
                edge(numbeg as int, b.1, b.0 as int, b.2, b.3),
                vertex(numend as int, join),
                edge(c.0 as int, c.1, numend as int, c.2, EdgeLabel::Plain),
                edge(d.0 as int, d.1, numend as int, d.2, EdgeLabel::Plain),
            ]); }
        (numbeg, numend)
    }

    /// The number of vertices of the drawing of the process, if it fits in
    /// a `usize`.
    pub fn dot_count(&self) -> (r: Option<usize>)
        ensures
            r is Some <==> self.dot_size() <= usize::MAX,
            r is Some ==> r->0 == self.dot_size(),
        decreases self,
    {
        proof { lemma_dot_ends(*self, 0); }
        match self {
            Process::PSeq(p) => Self::add_counts(p.0.dot_count(), p.1.dot_count(), 0),
            Process::PChoice(p) => Self::add_counts(p.0.dot_count(), p.1.dot_count(), 2),
            Process::PLoop(p) => Self::add_counts(p.0.dot_count(), Some(0), 2),
            Process::Par(p) => Self::add_counts(p.0.dot_count(), p.1.dot_count(), 2),
            _ => Some(1),
        }
    }

    /// `a + b + c`, if it fits in a `usize` (`None` for a count that did not).
    fn add_counts(a: Option<usize>, b: Option<usize>, c: usize) -> (r: Option<usize>)
        requires
            c <= 2,
        ensures
            (a is Some && b is Some && a->0 + b->0 + c <= usize::MAX) <==> r is Some,
            r is Some ==> r->0 == a->0 + b->0 + c,
    {
        match (a, b) {
            (Some(x), Some(y)) => match x.checked_add(y) {
                Some(z) => z.checked_add(c),
                None => None,
            },
            _ => None,
        }
    }

    /// The drawing of the whole process, its vertices numbered from 0, if
    /// their count fits in a `usize`.
    pub fn dot_graph(&self) -> (r: Option<Vec<DotStmt>>)
        ensures
            r is Some <==> self.dot_size() <= usize::MAX,
            r is Some ==> r->0@ == self.dot_stmts(0),
    {
        match self.dot_count() {
            None => None,
            Some(_) => {
                let mut n: usize = 0;
                let mut out: Vec<DotStmt> = Vec::new();
                self.print_dot(&mut n, &mut out);
                proof { assert(out@ =~= Seq::<DotStmt>::empty() + self.dot_stmts(0)); }
                Some(out)
            },
        }
    }
}

} // verus!
