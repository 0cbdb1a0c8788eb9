use std::cell::Cell;
use std::rc::Rc;
use std::cell::RefCell;

use reactive_rs2::value::Value;
use reactive_rs2::engine::Runtime;
use reactive_rs2::graph::Graph;
use reactive_rs2::process::Process;
use reactive_rs2::process::base::{fnmut2pro, fnonce2pro, pause};
use reactive_rs2::process::par::big_join;
use reactive_rs2::process::signal::{
    await_d, await_d_in, await_immediate_d, await_immediate_d_in, await_immediate_s, await_s,
    await_s_in, emit_d, emit_d_in, emit_d_vec, emit_d_vec_in, emit_s, emit_s_in, emit_vec_s,
    emit_vec_s_in, emit_vec_vs, emit_vs, pre_s, pre_s_in,
};
use reactive_rs2::signal::SignalRuntimeRef;

type BF<'a> = Box<dyn FnMut(Value) -> Value + 'a>;

fn f<'a>(c: impl FnMut(Value) -> Value + 'a) -> Process<BF<'a>> {
    fnmut2pro(Box::new(c) as BF<'a>)
}

fn bf<'a>(c: impl FnMut(Value) -> Value + 'a) -> BF<'a> {
    Box::new(c)
}

fn run(p: Process<BF<'_>>) {
    let mut r = Runtime::new(p);
    r.execute();
}

fn as_i64(v: &Value) -> i64 {
    match v {
        Value::Int(i) => *i,
        _ => panic!("not an integer: {:?}", v),
    }
}

fn pair(a: Value, b: Value) -> Value {
    Value::pair(a, b)
}

fn sig(s: &SignalRuntimeRef) -> Value {
    Value::Signal(s.id)
}

/// A signal whose value is the product of the emitted values and the
/// default one.
fn mul_signal<'a>(g: &mut Graph<BF<'a>>, default: i64) -> SignalRuntimeRef {
    SignalRuntimeRef::new_mc(g, Value::Int(default), bf(|p: Value| {
        let (e, v) = p.split();
        Value::Int(as_i64(&v) * as_i64(&e))
    }))
}

/// A signal whose value is the last emitted value.
fn last_signal<'a>(g: &mut Graph<BF<'a>>, default: i64) -> SignalRuntimeRef {
    SignalRuntimeRef::new_mc(g, Value::Int(default), bf(|p: Value| {
        let (e, _v) = p.split();
        e
    }))
}

fn counter_loop<'a>(limit: i64) -> Process<BF<'a>> {
    f(move |i: Value| {
        let i = as_i64(&i);
        if i < limit { Value::ctrue(Value::Int(i + 1)) } else { Value::cfalse(Value::Int(i)) }
    })
    .seq(pause())
    .ploop()
}

#[test]
fn instant_action() {
    let mut i = 0;
    {
        run(f(|_| {
            i += 42;
            Value::Unit
        }));
    }
    assert_eq!(i, 42);
}

#[test]
fn sequence() {
    let mut i = 0;
    run(f(|_| Value::Int(42)).seq(f(|v| {
        i = as_i64(&v);
        Value::Unit
    })));
    assert_eq!(i, 42);
}

#[test]
fn pauset() {
    let i = Cell::new(0);
    {
        let mut r = Runtime::new(f(|_| Value::Int(42)).seq(pause()).seq(f(|v| {
            i.set(as_i64(&v));
            Value::Unit
        })));
        r.instant();
        assert_eq!(i.get(), 0);
        r.instant();
    }
    assert_eq!(i.get(), 42);
}

#[test]
fn choice_im() {
    let mut i = 0;
    run(f(|_| Value::ctrue(Value::Int(42))).seq(
        f(|v| {
            i = as_i64(&v);
            Value::Unit
        })
        .choice(f(|_| unreachable!())),
    ));
    assert_eq!(i, 42);
}

#[test]
fn choice_pause() {
    let mut i = 0;
    run(f(|_| Value::ctrue(Value::Int(42))).seq(pause()).seq(
        pause()
            .seq(f(|v| {
                i = as_i64(&v);
                Value::Unit
            }))
            .choice(f(|_| unreachable!())),
    ));
    assert_eq!(i, 42);
}

#[test]
fn loop_test() {
    run(f(|_| Value::Int(0)).seq(counter_loop(42)).seq(f(|i| {
        assert_eq!(as_i64(&i), 42);
        Value::Unit
    })));
}

#[test]
fn emit_d_test() {
    let mut value = 0;
    {
        let mut g = Graph::new();
        let signal = mul_signal(&mut g, 21);
        let p = f(move |_| pair(sig(&signal), Value::Int(2)))
            .seq(emit_d())
            .seq(pause())
            .seq(pre_s(signal))
            .seq(f(|val| {
                value = as_i64(&val);
                Value::Unit
            }));
        Runtime::new_in(g, p).execute();
    }
    assert_eq!(value, 42);
}

#[test]
fn emit_d_in_test() {
    let mut value = 0;
    {
        let mut g = Graph::new();
        let signal = mul_signal(&mut g, 7);
        let p = f(move |_| pair(pair(sig(&signal), Value::Int(2)), Value::Int(3)))
            .seq(emit_d_in())
            .seq(pause())
            .seq(pre_s_in(signal))
            .seq(f(|v| {
                let (val, val2) = v.split();
                value = as_i64(&val) * as_i64(&val2);
                Value::Unit
            }));
        Runtime::new_in(g, p).execute();
    }
    assert_eq!(value, 42);
}

#[test]
fn emit_d_vec_test() {
    let mut value = 0;
    {
        let mut g = Graph::new();
        let signal = mul_signal(&mut g, 7);
        let p = f(move |_| {
            Value::List(vec![pair(sig(&signal), Value::Int(2)), pair(sig(&signal), Value::Int(3))])
        })
        .seq(emit_d_vec())
        .seq(pause())
        .seq(pre_s(signal))
        .seq(f(|val| {
            value = as_i64(&val);
            Value::Unit
        }));
        Runtime::new_in(g, p).execute();
    }
    assert_eq!(value, 42);
}

#[test]
fn emit_d_vec_in_test() {
    let mut value = 0;
    {
        let mut g = Graph::new();
        let signal = mul_signal(&mut g, 1);
        let p = f(move |_| {
            pair(
                Value::List(vec![pair(sig(&signal), Value::Int(2)), pair(sig(&signal), Value::Int(3))]),
                Value::Int(7),
            )
        })
        .seq(emit_d_vec_in())
        .seq(pause())
        .seq(pre_s_in(signal))
        .seq(f(|v| {
            let (val1, val2) = v.split();
            value = as_i64(&val1) * as_i64(&val2);
            Value::Unit
        }));
        Runtime::new_in(g, p).execute();
    }
    assert_eq!(value, 42);
}

#[test]
fn emit_s_test() {
    let mut value = 0;
    {
        let mut g = Graph::new();
        let signal = mul_signal(&mut g, 2);
        let p = f(|_| Value::Int(21))
            .seq(emit_s(signal))
            .seq(pause())
            .seq(pre_s(signal))
            .seq(f(|val| {
                value = as_i64(&val);
                Value::Unit
            }));
        Runtime::new_in(g, p).execute();
    }
    assert_eq!(value, 42);
}

#[test]
fn emit_s_in_test() {
    let mut value = 0;
    {
        let mut g = Graph::new();
        let signal = mul_signal(&mut g, 2);
        let p = f(|_| pair(Value::Int(7), Value::Int(3)))
            .seq(emit_s_in(signal))
            .seq(pause())
            .seq(pre_s_in(signal))
            .seq(f(|v| {
                let (val1, val2) = v.split();
                value = as_i64(&val1) * as_i64(&val2);
                Value::Unit
            }));
        Runtime::new_in(g, p).execute();
    }
    assert_eq!(value, 42);
}

#[test]
fn emit_vec_s_test() {
    let mut value = 0;
    {
        let mut g = Graph::new();
        let signal1 = mul_signal(&mut g, 1);
        let signal2 = mul_signal(&mut g, 1);
        let p = f(|_| Value::List(vec![Value::Int(2), Value::Int(14)]))
            .seq(emit_vec_s(vec![signal1, signal2]))
            .seq(pause())
            .seq(pre_s(signal1))
            .seq(pre_s_in(signal2))
            .seq(f(|v| {
                let (val1, val2) = v.split();
                value = 7 * as_i64(&val2) + 2 * as_i64(&val1);
                Value::Unit
            }));
        Runtime::new_in(g, p).execute();
    }
    assert_eq!(value, 42);
}

#[test]
fn emit_vec_s_in_test() {
    let mut value = 0;
    {
        let mut g = Graph::new();
        let signal1 = mul_signal(&mut g, 2);
        let signal2 = mul_signal(&mut g, 2);
        let p = f(|_| pair(Value::List(vec![Value::Int(2), Value::Int(14)]), Value::Int(2)))
            .seq(emit_vec_s_in(vec![signal1, signal2]))
            .seq(pause())
            .seq(pre_s_in(signal1))
            .seq(pre_s_in(signal2))
            .seq(f(|v| {
                let (val2, rest) = v.split();
                let (val1, val) = rest.split();
                value = (7 * as_i64(&val1) + 2 * as_i64(&val2)) / as_i64(&val);
                Value::Unit
            }));
        Runtime::new_in(g, p).execute();
    }
    assert_eq!(value, 42);
}

#[test]
fn emit_vs_test() {
    let mut value = 0;
    {
        let mut g = Graph::new();
        let signal1 = mul_signal(&mut g, 2);
        let p = f(|_| Value::Unit)
            .seq(emit_vs(signal1, Value::Int(21)))
            .seq(pause())
            .seq(pre_s(signal1))
            .seq(f(|val| {
                value = as_i64(&val);
                Value::Unit
            }));
        Runtime::new_in(g, p).execute();
    }
    assert_eq!(value, 42);
}

#[test]
fn emit_vec_vs_test() {
    let mut value = 0;
    {
        let mut g = Graph::new();
        let signal1 = mul_signal(&mut g, 1);
        let signal2 = mul_signal(&mut g, 1);
        let p = f(|_| Value::Int(7))
            .seq(emit_vec_vs(vec![(signal1, Value::Int(2)), (signal2, Value::Int(3))]))
            .seq(pause())
            .seq(pre_s_in(signal1))
            .seq(pre_s_in(signal2))
            .seq(f(|v| {
                let (val2, rest) = v.split();
                let (val1, val) = rest.split();
                value = as_i64(&val) * as_i64(&val1) * as_i64(&val2);
                Value::Unit
            }));
        Runtime::new_in(g, p).execute();
    }
    assert_eq!(value, 42);
}

#[test]
fn await_d_test() {
    let value = Cell::new(0);
    let mut g = Graph::new();
    let signal = mul_signal(&mut g, 2);
    {
        let p = f(move |_| sig(&signal))
            .seq(emit_vs(signal, Value::Int(21)))
            .seq(await_d())
            .seq(f(|val| {
                value.set(as_i64(&val));
                Value::Unit
            }));
        let mut rt = Runtime::new_in(g, p);
        rt.instant();
        assert_eq!(value.get(), 0);
        rt.instant();
        assert_eq!(value.get(), 42);
    }
}

#[test]
fn emitd_await() {
    let value = Cell::new(0);
    let mut g = Graph::new();
    let signal = last_signal(&mut g, 0);
    {
        let p = f(move |_| pair(pair(sig(&signal), Value::Int(42)), sig(&signal)))
            .seq(emit_d_in())
            .seq(await_d())
            .seq(f(|v| {
                value.set(as_i64(&v));
                Value::Unit
            }));
        let mut rt = Runtime::new_in(g, p);
        rt.instant();
        assert_eq!(value.get(), 0);
        rt.instant();
        assert_eq!(value.get(), 42);
    }
}

#[test]
fn non_await_d_test() {
    let value = Cell::new(0);
    let mut g = Graph::new();
    let signal = mul_signal(&mut g, 2);
    {
        let p = f(move |_| sig(&signal)).seq(await_d()).seq(f(|val| {
            value.set(as_i64(&val));
            Value::Unit
        }));
        let mut rt = Runtime::new_in(g, p);
        rt.instant();
        assert_eq!(value.get(), 0);
        rt.instant();
        assert_eq!(value.get(), 0);
    }
}

#[test]
fn await_d_in_test() {
    let value = Cell::new(0);
    let mut g = Graph::new();
    let signal = mul_signal(&mut g, 2);
    {
        let p = f(move |_| pair(sig(&signal), Value::Int(7)))
            .seq(emit_vs(signal, Value::Int(3)))
            .seq(await_d_in())
            .seq(f(|v| {
                let (val1, val2) = v.split();
                value.set(as_i64(&val1) * as_i64(&val2));
                Value::Unit
            }));
        let mut rt = Runtime::new_in(g, p);
        rt.instant();
        assert_eq!(value.get(), 0);
        rt.instant();
        assert_eq!(value.get(), 42);
    }
}

#[test]
fn non_await_d_in_test() {
    let value = Cell::new(0);
    let mut g = Graph::new();
    let signal = mul_signal(&mut g, 2);
    {
        let p = f(move |_| pair(sig(&signal), Value::Int(7))).seq(await_d_in()).seq(f(|v| {
            let (val1, val2) = v.split();
            value.set(as_i64(&val1) * as_i64(&val2));
            Value::Unit
        }));
        let mut rt = Runtime::new_in(g, p);
        rt.instant();
        assert_eq!(value.get(), 0);
        rt.instant();
        assert_eq!(value.get(), 0);
    }
}

#[test]
fn await_s_test() {
    let value = Cell::new(0);
    let mut g = Graph::new();
    let signal = mul_signal(&mut g, 2);
    {
        let p = f(|_| Value::Unit)
            .seq(emit_vs(signal, Value::Int(21)))
            .seq(await_s(signal))
            .seq(f(|val| {
                value.set(as_i64(&val));
                Value::Unit
            }));
        let mut rt = Runtime::new_in(g, p);
        rt.instant();
        assert_eq!(value.get(), 0);
        rt.instant();
        assert_eq!(value.get(), 42);
    }
}

#[test]
fn emit_await_immediate() {
    let value = Cell::new(0);
    let mut g = Graph::new();
    let signal = last_signal(&mut g, 0);
    {
        let p = f(move |_| pair(pair(sig(&signal), Value::Int(42)), sig(&signal)))
            .seq(emit_d_in())
            .seq(await_immediate_d())
            .seq(f(|_| {
                value.set(42);
                Value::Unit
            }));
        let mut rt = Runtime::new_in(g, p);
        rt.instant();
        assert_eq!(value.get(), 42);
    }
}

#[test]
fn non_await_s_test() {
    let value = Cell::new(0);
    let mut g = Graph::new();
    let signal = mul_signal(&mut g, 2);
    {
        let p = f(|_| Value::Unit).seq(await_s(signal)).seq(f(|val| {
            value.set(as_i64(&val));
            Value::Unit
        }));
        let mut rt = Runtime::new_in(g, p);
        rt.instant();
        assert_eq!(value.get(), 0);
        rt.instant();
        assert_eq!(value.get(), 0);
    }
}

#[test]
fn await_s_in_test() {
    let value = Cell::new(0);
    let mut g = Graph::new();
    let signal = mul_signal(&mut g, 2);
    {
        let p = f(|_| Value::Int(7))
            .seq(emit_vs(signal, Value::Int(3)))
            .seq(await_s_in(signal))
            .seq(f(|v| {
                let (val1, val2) = v.split();
                value.set(as_i64(&val1) * as_i64(&val2));
                Value::Unit
            }));
        let mut rt = Runtime::new_in(g, p);
        rt.instant();
        assert_eq!(value.get(), 0);
        rt.instant();
        assert_eq!(value.get(), 42);
    }
}

#[test]
fn non_await_s_in_test() {
    let value = Cell::new(0);
    let mut g = Graph::new();
    let signal = mul_signal(&mut g, 2);
    {
        let p = f(|_| Value::Int(7)).seq(await_s_in(signal)).seq(f(|v| {
            let (val1, val2) = v.split();
            value.set(as_i64(&val1) * as_i64(&val2));
            Value::Unit
        }));
        let mut rt = Runtime::new_in(g, p);
        rt.instant();
        assert_eq!(value.get(), 0);
        rt.instant();
        assert_eq!(value.get(), 0);
    }
}

#[test]
fn await_immediate_d_test() {
    let value = Cell::new(0);
    let mut g = Graph::new();
    let signal = mul_signal(&mut g, 2);
    {
        let p = f(move |_| sig(&signal))
            .seq(emit_vs(signal, Value::Int(21)))
            .seq(await_immediate_d())
            .seq(f(|_| {
                value.set(42);
                Value::Unit
            }));
        let mut rt = Runtime::new_in(g, p);
        rt.instant();
        assert_eq!(value.get(), 42);
    }
}

#[test]
fn non_await_immediate_d_test() {
    let value = Cell::new(0);
    let mut g = Graph::new();
    let signal = mul_signal(&mut g, 2);
    {
        let p = f(move |_| sig(&signal)).seq(await_immediate_d()).seq(f(|_| {
            value.set(42);
            Value::Unit
        }));
        let mut rt = Runtime::new_in(g, p);
        rt.instant();
        assert_eq!(value.get(), 0);
        rt.instant();
        assert_eq!(value.get(), 0);
    }
}

#[test]
fn await_immediate_d_in_test() {
    let value = Cell::new(0);
    let mut g = Graph::new();
    let signal = mul_signal(&mut g, 2);
    {
        let p = f(move |_| pair(sig(&signal), Value::Int(7)))
            .seq(emit_vs(signal, Value::Int(3)))
            .seq(await_immediate_d_in())
            .seq(f(|val| {
                value.set(6 * as_i64(&val));
                Value::Unit
            }));
        let mut rt = Runtime::new_in(g, p);
        rt.instant();
        assert_eq!(value.get(), 42);
    }
}

#[test]
fn non_await_immediate_d_in_test() {
    let value = Cell::new(0);
    let mut g = Graph::new();
    let signal = mul_signal(&mut g, 2);
    {
        let p = f(move |_| pair(sig(&signal), Value::Int(7))).seq(await_immediate_d_in()).seq(f(|val| {
            value.set(as_i64(&val));
            Value::Unit
        }));
        let mut rt = Runtime::new_in(g, p);
        rt.instant();
        assert_eq!(value.get(), 0);
        rt.instant();
        assert_eq!(value.get(), 0);
    }
}

#[test]
fn present_true() {
    let value = Cell::new(0);
    let mut g = Graph::new();
    let signal = SignalRuntimeRef::new_pure(&mut g);
    {
        let p = f(move |_| pair(pair(sig(&signal), Value::Unit), sig(&signal)))
            .seq(emit_d_in())
            .seq(
                f(|_| {
                    value.set(42);
                    Value::Unit
                })
                .present(f(|_| {
                    value.set(21);
                    Value::Unit
                })),
            );
        let mut rt = Runtime::new_in(g, p);
        rt.instant();
        assert_eq!(value.get(), 42);
    }
}

#[test]
fn await_immediate_s_test() {
    let value = Cell::new(0);
    let mut g = Graph::new();
    let signal = mul_signal(&mut g, 2);
    {
        let p = f(|_| Value::Int(7))
            .seq(emit_vs(signal, Value::Int(3)))
            .seq(await_immediate_s(signal))
            .seq(f(|val| {
                value.set(6 * as_i64(&val));
                Value::Unit
            }));
        let mut rt = Runtime::new_in(g, p);
        rt.instant();
        assert_eq!(value.get(), 42);
    }
}

#[test]
fn non_await_immediate_s_test() {
    let value = Cell::new(0);
    let mut g = Graph::new();
    let signal = mul_signal(&mut g, 2);
    {
        let p = f(|_| Value::Int(7)).seq(await_immediate_s(signal)).seq(f(|val| {
            value.set(as_i64(&val));
            Value::Unit
        }));
        let mut rt = Runtime::new_in(g, p);
        rt.instant();
        assert_eq!(value.get(), 0);
        rt.instant();
        assert_eq!(value.get(), 0);
    }
}

#[test]
fn par() {
    run(f(|_| pair(Value::Int(0), Value::Int(0)))
        .seq(counter_loop(21).join(counter_loop(21)))
        .seq(f(|v| {
            let (v1, v2) = v.split();
            Value::Int(as_i64(&v1) + as_i64(&v2))
        }))
        .seq(pause())
        .seq(f(|i| {
            assert_eq!(as_i64(&i), 42);
            Value::Unit
        })));
}

#[test]
fn par_half_im() {
    run(f(|_| pair(Value::Int(0), Value::Int(0)))
        .seq(counter_loop(21).join(f(|_| Value::Int(21))))
        .seq(f(|v| {
            let (v1, v2) = v.split();
            Value::Int(as_i64(&v1) + as_i64(&v2))
        }))
        .seq(pause())
        .seq(f(|i| {
            assert_eq!(as_i64(&i), 42);
            Value::Unit
        })));
}

#[test]
fn present_false() {
    let value = Cell::new(0);
    let mut g = Graph::new();
    let signal = SignalRuntimeRef::new_pure(&mut g);
    {
        let p = f(move |_| sig(&signal)).seq(
            f(|_| {
                value.set(42);
                Value::Unit
            })
            .present(f(|_| {
                value.set(21);
                Value::Unit
            })),
        );
        let mut rt = Runtime::new_in(g, p);
        rt.instant();
        assert_eq!(value.get(), 0);
        rt.instant();
        assert_eq!(value.get(), 21);
    }
}

#[test]
fn par_im() {
    run(f(|_| pair(Value::Int(0), Value::Int(0)))
        .seq(f(|_| Value::Int(21)).join(f(|_| Value::Int(21))))
        .seq(f(|v| {
            let (v1, v2) = v.split();
            Value::Int(as_i64(&v1) + as_i64(&v2))
        }))
        .seq(pause())
        .seq(f(|i| {
            assert_eq!(as_i64(&i), 42);
            Value::Unit
        })));
}

#[test]
fn lib_bigpar() {
    let value = Rc::new(RefCell::new(-3));
    {
        let mut processes = vec![];
        for i in 0..10 {
            let value2 = value.clone();
            processes.push(
                f(move |_| {
                    *value2.borrow_mut() += i;
                    Value::Unit
                })
                .seq(pause()),
            );
        }
        run(big_join(processes));
    }
    assert_eq!(*value.borrow(), 42);
}

#[test]
fn fnonce() {
    let mut value = -3;
    {
        run(fnonce2pro(bf(|_| Value::Int(42))).seq(f(|v| {
            value = as_i64(&v);
            Value::Unit
        })));
    }
    assert_eq!(value, 42);
}
