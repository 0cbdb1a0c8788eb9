use std::cell::Cell;

use reactive_rs2::value::Value;
use reactive_rs2::engine::{Runtime, Tasks};
use reactive_rs2::graph::Graph;
use reactive_rs2::node::{Node, NFnMut};
use reactive_rs2::node::control::NPause;
use reactive_rs2::node::par::{BigJoinPoint, JoinPoint};
use reactive_rs2::node::sig_control::{ControlNode, ControlSignal};
use reactive_rs2::node::dot::{FieldKind, LabelPart, NodeName, Shared};
use reactive_rs2::process::Process;
use reactive_rs2::process::base::{fnmut2pro, nothing, pause, value};
use reactive_rs2::process::dot::{BoxLabel, DotStmt, EdgeLabel, Port, VertexKind};
use reactive_rs2::signal::{MCSignalValue, SignalRuntime, SignalRuntimeRef, SignalValues};
use reactive_rs2::utility::swap3;

type BF<'a> = Box<dyn FnMut(Value) -> Value + 'a>;

fn bf<'a>(c: impl FnMut(Value) -> Value + 'a) -> BF<'a> {
    Box::new(c)
}

fn tasks() -> Tasks {
    Tasks { current: vec![], next: vec![] }
}

fn no_fns<'a>() -> Vec<BF<'a>> {
    vec![]
}

fn as_i64(v: &Value) -> i64 {
    match v {
        Value::Int(i) => *i,
        _ => panic!("not an integer: {:?}", v),
    }
}

#[test]
fn emitted_signal_is_present_now_and_set_before_next_instant() {
    let mut s = SignalRuntime::new_pure();
    let mut t = tasks();
    let mut fns = no_fns();
    assert!(!s.is_set(5));
    s.emit(Value::Unit, &mut t, 5, &mut fns);
    assert!(s.is_set(5));
    assert!(s.pre_set(6));
    assert!(!s.pre_set(7));
    assert!(!s.is_set(6));
}

#[test]
fn pre_set_after_two_emissions_in_a_row() {
    let mut s = SignalRuntime::new_pure();
    let mut t = tasks();
    let mut fns = no_fns();
    s.emit(Value::Unit, &mut t, 5, &mut fns);
    s.emit(Value::Unit, &mut t, 6, &mut fns);
    assert!(s.pre_set(6));
    assert!(s.pre_set(7));
}

#[test]
fn await_immediate_then_emit_runs_now() {
    let mut s = SignalRuntime::new_pure();
    let mut t = tasks();
    let mut fns = no_fns();
    s.await_immediate(&mut t, 4, 11);
    assert!(t.current.is_empty());
    s.emit(Value::Unit, &mut t, 4, &mut fns);
    assert_eq!(t.current, vec![11]);
    assert!(t.next.is_empty());
    assert!(s.pending_await_immediate.is_empty());
}

#[test]
fn await_immediate_on_present_signal_runs_at_once() {
    let mut s = SignalRuntime::new_pure();
    let mut t = tasks();
    let mut fns = no_fns();
    s.emit(Value::Unit, &mut t, 4, &mut fns);
    s.await_immediate(&mut t, 4, 12);
    assert_eq!(t.current, vec![12]);
}

#[test]
fn await_then_emit_runs_next_instant() {
    let mut s = SignalRuntime::new_pure();
    let mut t = tasks();
    let mut fns = no_fns();
    s.await_signal(&mut t, 4, 21);
    s.emit(Value::Unit, &mut t, 6, &mut fns);
    assert_eq!(t.next, vec![21]);
    assert!(t.current.is_empty());
    s.await_signal(&mut t, 6, 22);
    assert_eq!(t.next, vec![21, 22]);
}

#[test]
fn present_then_emit_takes_true_branch() {
    let mut s = SignalRuntime::new_pure();
    let mut t = tasks();
    let mut fns = no_fns();
    let first = s.present(&mut t, 4, 31, 32);
    assert!(first);
    s.emit(Value::Unit, &mut t, 4, &mut fns);
    assert_eq!(t.current, vec![31]);
}

#[test]
fn present_without_emission_takes_false_branch_at_end_of_instant() {
    let mut s = SignalRuntime::new_pure();
    let mut t = tasks();
    assert!(s.present(&mut t, 4, 31, 32));
    assert!(!s.present(&mut t, 4, 33, 34));
    s.on_end_of_instant(&mut t);
    assert_eq!(t.current, vec![32, 34]);
    assert!(s.pending_present.is_empty());
}

#[test]
fn multi_consumer_value_is_gathered_then_read_next_instant() {
    let mut fns: Vec<BF> = vec![bf(|p: Value| {
        let (e, v) = p.split();
        Value::Int(as_i64(&v) + as_i64(&e))
    })];
    let mut s = SignalRuntime::new_mc(Value::Int(100), 0);
    let mut t = tasks();
    s.emit(Value::Int(1), &mut t, 3, &mut fns);
    s.emit(Value::Int(2), &mut t, 3, &mut fns);
    assert_eq!(as_i64(&s.get_pre_value(4)), 103);
    // not emitted at instant 4: the default value is read at instant 5
    assert_eq!(as_i64(&s.get_pre_value(5)), 100);
    // not emitted for several instants
    assert_eq!(as_i64(&s.get_pre_value(9)), 100);
}

#[test]
fn multi_consumer_value_without_update_at_emission_instant() {
    let mut fns: Vec<BF> = vec![bf(|p: Value| {
        let (e, v) = p.split();
        Value::Int(as_i64(&v) * as_i64(&e))
    })];
    let mut s = SignalRuntime::new(SignalValues::MC(MCSignalValue::new(Value::Int(1), 0)));
    let mut t = tasks();
    s.emit(Value::Int(6), &mut t, 3, &mut fns);
    s.emit(Value::Int(7), &mut t, 4, &mut fns);
    assert_eq!(as_i64(&s.get_pre_value(5)), 7);
}

#[test]
fn join_point_second_arrival_continues() {
    let mut j: JoinPoint<i64, i64> = JoinPoint::default();
    assert!(!j.set2(2));
    assert!(j.set1(1));
    assert_eq!(j.get(), (1, 2));
    let mut k: JoinPoint<i64, i64> = JoinPoint::default();
    assert!(!k.set1(5));
    assert!(k.set2(6));
    assert_eq!(k.get(), (5, 6));
}

#[test]
fn big_join_point_fires_every_total_arrivals() {
    let mut b = BigJoinPoint::new(3, 17);
    assert_eq!(b.incr(), None);
    assert_eq!(b.incr(), None);
    assert_eq!(b.incr(), Some(17));
    assert_eq!(b.nb, 0);
    assert_eq!(b.incr(), None);
    assert_eq!(b.nb, 1);
}

#[test]
fn swap3_rotates_left() {
    let (mut x, mut y, mut z) = (1, 2, 3);
    swap3(&mut x, &mut y, &mut z);
    assert_eq!((x, y, z), (2, 3, 1));
}

#[test]
fn process_drawing_of_a_sequence() {
    let p: Process<BF> = value::<BF>(Value::Int(1)).seq(pause());
    assert_eq!(
        p.dot_graph().unwrap(),
        vec![
            DotStmt::Vertex { id: 0, kind: VertexKind::Box(BoxLabel::Value) },
            DotStmt::Vertex { id: 1, kind: VertexKind::Box(BoxLabel::Pause) },
            DotStmt::Edge { from: 0, from_port: Port::Any, to: 1, to_port: Port::Any, label: EdgeLabel::Plain },
        ]
    );
}

#[test]
fn process_drawing_of_a_parallel_composition() {
    let p: Process<BF> = nothing::<BF>().join(pause());
    let mut n: usize = 10;
    let mut out = vec![];
    let ends = p.print_dot(&mut n, &mut out);
    assert_eq!(ends, (12, 13));
    assert_eq!(n, 14);
    assert_eq!(
        out,
        vec![
            DotStmt::Vertex { id: 10, kind: VertexKind::Box(BoxLabel::Nothing) },
            DotStmt::Vertex { id: 11, kind: VertexKind::Box(BoxLabel::Pause) },
            DotStmt::Vertex { id: 12, kind: VertexKind::ParFork },
            DotStmt::Edge { from: 12, from_port: Port::SW, to: 10, to_port: Port::N, label: EdgeLabel::Plain },
            DotStmt::Edge { from: 12, from_port: Port::SE, to: 11, to_port: Port::N, label: EdgeLabel::Plain },
            DotStmt::Vertex { id: 13, kind: VertexKind::ParJoin },
            DotStmt::Edge { from: 10, from_port: Port::S, to: 13, to_port: Port::NW, label: EdgeLabel::Plain },
            DotStmt::Edge { from: 11, from_port: Port::S, to: 13, to_port: Port::NE, label: EdgeLabel::Plain },
        ]
    );
}

#[test]
fn process_drawing_of_a_loop_and_a_choice() {
    let p: Process<BF> = nothing::<BF>().choice(pause()).ploop();
    let out = p.dot_graph().unwrap();
    assert_eq!(out.len(), 13);
    assert_eq!(out[2], DotStmt::Vertex { id: 2, kind: VertexKind::ChoiceTest });
    assert_eq!(out[3], DotStmt::Edge { from: 2, from_port: Port::W, to: 0, to_port: Port::Any, label: EdgeLabel::True });
    assert_eq!(out[4], DotStmt::Edge { from: 2, from_port: Port::E, to: 1, to_port: Port::Any, label: EdgeLabel::False });
    assert_eq!(out[8], DotStmt::Vertex { id: 4, kind: VertexKind::LoopHead });
    assert_eq!(out[12], DotStmt::Edge { from: 5, from_port: Port::W, to: 4, to_port: Port::W, label: EdgeLabel::Continue });
}

#[test]
fn runtime_drawing_of_a_pause() {
    let r = Runtime::new(fnmut2pro(bf(|_| Value::Unit)).seq(pause()));
    let d = r.print_dot();
    assert_eq!(d.len(), r.nodes.len());
    let mut pauses = 0;
    for (i, nd) in d.iter().enumerate() {
        assert_eq!(nd.node, i);
        for part in nd.label.iter() {
            if let LabelPart::Field(ind, FieldKind::Pause, None) = part {
                pauses += 1;
                assert_eq!(nd.arrows.len(), 1);
                assert_eq!(nd.arrows[0].0, *ind);
                assert!(nd.arrows[0].1 < r.nodes.len());
            }
        }
    }
    assert_eq!(pauses, 1);
}

#[test]
fn runtime_drawing_numbers_fields_across_nodes() {
    let mut g: Graph<BF> = Graph::new();
    g.add(Node::NPause(NPause { dest: 1 }));
    g.add(Node::NPause(NPause { dest: 0 }));
    let r = Runtime::fromgraph(g);
    let d = r.print_dot();
    assert_eq!(d[0].label, vec![LabelPart::Field(0, FieldKind::Pause, None)]);
    assert_eq!(d[0].arrows, vec![(0, 1)]);
    assert_eq!(d[1].label, vec![LabelPart::Field(1, FieldKind::Pause, None)]);
    assert_eq!(d[1].arrows, vec![(1, 0)]);
}

#[test]
fn node_drawing_by_name() {
    let mut g: Graph<BF> = Graph::new();
    g.add(Node::NFnMut(NFnMut(0)));
    let r = Runtime::fromgraph(g);
    let d = r.print_dot();
    assert_eq!(d[0].label, vec![LabelPart::Name(NodeName::FnMut)]);
    assert!(d[0].arrows.is_empty());
}

/// A graph holding a pure signal and a counting node controlled by it.
fn controlled<'a>(count: &'a Cell<i64>, when: bool) -> (Runtime<BF<'a>>, SignalRuntimeRef) {
    let mut g: Graph<BF> = Graph::new();
    let s = SignalRuntimeRef::new_pure(&mut g);
    let fid = g.add_fn(bf(move |_| {
        count.set(count.get() + 1);
        Value::Unit
    }));
    let c = if when { ControlSignal::DoWhen(s) } else { ControlSignal::DoUntil(s) };
    g.add(Node::ControlNode(ControlNode { id: 0, node: Box::new(Node::NFnMut(NFnMut(fid))), control_sig: vec![c] }));
    (Runtime::fromgraph(g), s)
}

#[test]
fn do_when_waits_for_the_signal() {
    let count = Cell::new(0);
    let (mut r, s) = controlled(&count, true);
    r.sub_runtime.add_current(0);
    assert!(!r.instant());
    assert_eq!(count.get(), 0);
    s.emit(Value::Unit, &mut r.sub_runtime);
    assert_eq!(r.sub_runtime.tasks.current, vec![0]);
    r.instant();
    assert_eq!(count.get(), 1);
}

#[test]
fn do_until_stops_after_an_emission() {
    let count = Cell::new(0);
    let (mut r, s) = controlled(&count, false);
    r.sub_runtime.add_current(0);
    r.instant();
    assert_eq!(count.get(), 1);
    s.emit(Value::Unit, &mut r.sub_runtime);
    r.sub_runtime.add_current(0);
    r.instant();
    assert_eq!(count.get(), 2);
    r.sub_runtime.add_current(0);
    r.instant();
    assert_eq!(count.get(), 2);
}

#[test]
fn instant_ids_increase_by_one() {
    let mut r: Runtime<BF> = Runtime::new(pause::<BF>().seq(pause()));
    assert_eq!(r.sub_runtime.current_instant, 3);
    assert!(r.instant());
    assert_eq!(r.sub_runtime.current_instant, 4);
    assert!(r.instant());
    assert!(!r.instant());
    assert_eq!(r.sub_runtime.current_instant, 6);
    assert!(!r.refused());
}

#[test]
fn fn_once_in_a_loop_runs_once() {
    let calls = Cell::new(0);
    let turns = Cell::new(0);
    let body = reactive_rs2::process::base::fnonce2pro(bf(|v: Value| {
        calls.set(calls.get() + 1);
        v
    }))
    .seq(fnmut2pro(bf(|_| {
        turns.set(turns.get() + 1);
        if turns.get() < 3 { Value::ctrue(Value::Unit) } else { Value::cfalse(Value::Unit) }
    })));
    let mut r = Runtime::new(body.seq(pause()).ploop());
    r.execute();
    assert_eq!(turns.get(), 3);
    assert_eq!(calls.get(), 1);
    // The later turns call the once-function again: refused.
    assert!(r.refused());
}

#[test]
fn scheduled_ids_are_node_ids() {
    let mut g: Graph<BF> = Graph::new();
    let s = SignalRuntimeRef::new_pure(&mut g);
    let p = reactive_rs2::process::signal::await_s::<BF>(s)
        .join(reactive_rs2::process::signal::emit_vs(s, Value::Unit).seq(pause()))
        .seq(fnmut2pro(bf(|_| Value::Unit)));
    let mut r = Runtime::new_in(g, p);
    let n = r.nodes.len();
    loop {
        for id in r.sub_runtime.tasks.current.iter().chain(r.sub_runtime.tasks.next.iter()) {
            assert!(*id < n);
        }
        for sig in r.sub_runtime.mem.signals.iter() {
            for id in sig.pending_await.iter().chain(sig.pending_await_immediate.iter()) {
                assert!(*id < n);
            }
        }
        if !r.instant() {
            break;
        }
    }
    assert_eq!(r.sub_runtime.current_instant, 5);
}

#[test]
fn graph_readiness() {
    let mut g: Graph<BF> = Graph::new();
    assert!(g.ready());
    let s = SignalRuntimeRef::new_pure(&mut g);
    assert!(g.ready());
    let id = g.reserve();
    assert!(!g.ready());
    g.set(id, Node::NPause(NPause { dest: 0 }));
    assert!(g.ready());
    g.add(Node::NPause(NPause { dest: 5 }));
    assert!(!g.ready());
    let _ = s;
}

#[test]
fn compiled_sequence_of_pauses() {
    let g: Graph<BF> = Graph::new();
    let p: Process<BF> = pause().seq(pause());
    let (g, start) = p.compile_to_graph(g);
    assert_eq!(start, 2);
    assert_eq!(g.nodes.len(), 3);
    assert_eq!(g.mem.cells.len(), 2);
    match &g.nodes[2] {
        Some(Node::NSeq(s)) => {
            assert!(matches!(*s.n1, Node::NStore(ref st) if st.0.id == 0));
            assert!(matches!(*s.n2, Node::NPause(NPause { dest: 0 })));
        },
        _ => panic!("the start node stores the input and pauses"),
    }
    match &g.nodes[1] {
        Some(Node::NSeq(s)) => {
            assert!(matches!(*s.n1, Node::NLoad(ref ld) if ld.0.id == 1));
            assert!(matches!(*s.n2, Node::NEnd(_)));
        },
        _ => panic!("the second pause ends the process"),
    }
}

#[test]
fn fixed_emissions_reach_every_signal() {
    let mut g: Graph<BF> = Graph::new();
    let a = SignalRuntimeRef::new_pure(&mut g);
    let b = SignalRuntimeRef::new_pure(&mut g);
    let c = SignalRuntimeRef::new_pure(&mut g);
    g.add(Node::NEmitVVecS(reactive_rs2::node::signal::NEmitVVecS(vec![(a, Value::Unit), (c, Value::Unit)])));
    let mut r = Runtime::fromgraph(g);
    r.sub_runtime.add_current(0);
    let v = r.nodes[0].call(&mut r.sub_runtime, Value::Int(4));
    assert!(matches!(v, Value::Int(4)));
    assert!(a.is_set(&r.sub_runtime));
    assert!(!b.is_set(&r.sub_runtime));
    assert!(c.is_set(&r.sub_runtime));
}

#[test]
fn copies_of_a_join_handle_share_the_count() {
    let mut g: Graph<BF> = Graph::new();
    let h = reactive_rs2::node::par::Rcbjp::new(&mut g.mem, 2, 9);
    let h2 = h;
    let mut seen = vec![];
    for k in 1..=6 {
        let r = if k % 2 == 0 { h.incr(&mut g.mem) } else { h2.incr(&mut g.mem) };
        seen.push(r);
    }
    assert_eq!(seen, vec![None, Some(9), None, Some(9), None, Some(9)]);
}

#[test]
fn drawer_gives_indices_in_order_of_first_query() {
    let mut d = reactive_rs2::node::CFGDrawer::new();
    assert_eq!(d.get_ind(Shared::Cell, 30), 0);
    assert_eq!(d.get_ind(Shared::Join, 30), 1);
    assert_eq!(d.get_ind(Shared::Cell, 30), 0);
    assert_eq!(d.get_ind(Shared::BigJoin, usize::MAX), 2);
    assert_eq!(d.get_ind(Shared::Join, 30), 1);
    assert_eq!(d.ptr_ind, 3);
}

#[test]
fn mismatched_emission_list_is_refused() {
    let mut g: Graph<BF> = Graph::new();
    let a = SignalRuntimeRef::new_pure(&mut g);
    let b = SignalRuntimeRef::new_pure(&mut g);
    g.add(Node::NEmitVecS(reactive_rs2::node::signal::NEmitVecS { signals: vec![a, b], with_in: false }));
    let mut r = Runtime::fromgraph(g);
    let short = Value::List(vec![Value::Unit]);
    r.nodes[0].call(&mut r.sub_runtime, short);
    assert!(!a.is_set(&r.sub_runtime));
    assert!(!b.is_set(&r.sub_runtime));
    assert!(r.refused());
    let mut g2: Graph<BF> = Graph::new();
    let c = SignalRuntimeRef::new_pure(&mut g2);
    g2.add(Node::NEmitVecS(reactive_rs2::node::signal::NEmitVecS { signals: vec![c], with_in: false }));
    let mut r2 = Runtime::fromgraph(g2);
    r2.nodes[0].call(&mut r2.sub_runtime, Value::List(vec![Value::Unit]));
    assert!(c.is_set(&r2.sub_runtime));
    assert!(!r2.refused());
}

#[test]
fn load_from_an_empty_cell_is_refused() {
    let mut g: Graph<BF> = Graph::new();
    let rc = reactive_rs2::node::mem_manip::RCell::new(&mut g.mem);
    g.add(Node::NLoad(reactive_rs2::node::mem_manip::NLoad(rc)));
    let mut r = Runtime::fromgraph(g);
    let v = r.nodes[0].call(&mut r.sub_runtime, Value::Unit);
    assert!(matches!(v, Value::Unit));
    assert!(r.refused());
}
