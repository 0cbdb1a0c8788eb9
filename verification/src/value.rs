//! The values that flow along the edges of a reactive process.
//!
//! Every edge of a compiled process carries a `Value`. Pairs are what the
//! parallel constructs split and merge, `Choice` drives `choice` and `loop`,
//! `List` carries the vectors of the multi-signal emissions and `Signal`
//! is a signal given at run time to the `*_d` constructs.

use vstd::prelude::*;

verus! {

broadcast use vstd::std_specs::vec::group_vec_axioms;

/// Branching data: `True` selects the first branch, `False` the second one.
#[derive(Debug)]
pub enum ChoiceData<T, F> {
    True(T),
    False(F),
}

/// A dynamically shaped value.
#[derive(Debug)]
pub enum Value {
    Unit,
    Int(i64),
    Pair(Box<Value>, Box<Value>),
    Choice(Box<ChoiceData<Value, Value>>),
    List(Vec<Value>),
    Signal(usize),
}

/// First component of a pair; any other value reads as `Unit`.
pub open spec fn fst(v: Value) -> Value {
    match v {
        Value::Pair(a, _) => *a,
        _ => Value::Unit,
    }
}

/// Second component of a pair; any other value reads as `Unit`.
pub open spec fn snd(v: Value) -> Value {
    match v {
        Value::Pair(_, b) => *b,
        _ => Value::Unit,
    }
}

/// The branch a value selects: a `Choice` selects what it holds, any other
/// value selects the `False` branch with the value itself.
pub open spec fn as_choice(v: Value) -> ChoiceData<Value, Value> {
    match v {
        Value::Choice(c) => *c,
        _ => ChoiceData::False(v),
    }
}

/// The elements of a list; any other value reads as the empty list.
pub open spec fn list_of(v: Value) -> Seq<Value> {
    match v {
        Value::List(l) => l@,
        _ => Seq::empty(),
    }
}

/// Equality of values where two lists are equal when they have the same
/// length and equal elements.
pub open spec fn same_value(a: Value, b: Value) -> bool
    decreases a,
{
    match a {
        Value::Pair(a1, a2) => match b {
            Value::Pair(b1, b2) => same_value(*a1, *b1) && same_value(*a2, *b2),
            _ => false,
        },
        Value::Choice(c) => match b {
            Value::Choice(d) => match *c {
                ChoiceData::True(x) => match *d {
                    ChoiceData::True(y) => same_value(x, y),
                    _ => false,
                },
                ChoiceData::False(x) => match *d {
                    ChoiceData::False(y) => same_value(x, y),
                    _ => false,
                },
            },
            _ => false,
        },
        Value::List(l) => match b {
            Value::List(m) => l@.len() == m@.len() && forall|i: int|
                #![trigger l[i]]
                0 <= i < l@.len() ==> same_value(l[i], m[i]),
            _ => false,
        },
        _ => a == b,
    }
}

/// `same_value` is reflexive.
pub proof fn lemma_same_value_refl(a: Value)
    ensures
        same_value(a, a),
    decreases a,
{
    match a {
        Value::Pair(a1, a2) => {
            lemma_same_value_refl(*a1);
            lemma_same_value_refl(*a2);
        },
        Value::Choice(c) => match *c {
            ChoiceData::True(x) => lemma_same_value_refl(x),
            ChoiceData::False(x) => lemma_same_value_refl(x),
        },
        Value::List(l) => {
            assert forall|i: int| 0 <= i < l@.len() implies same_value(#[trigger] l[i], l[i]) by {
                assert(decreases_to!(l => l[i]));
                lemma_same_value_refl(l[i]);
            }
        },
        _ => {},
    }
}

/// `same_value` is symmetric.
pub proof fn lemma_same_value_sym(a: Value, b: Value)
    requires
        same_value(a, b),
    ensures
        same_value(b, a),
    decreases a,
{
    match a {
        Value::Pair(a1, a2) => {
            lemma_same_value_sym(*a1, fst(b));
            lemma_same_value_sym(*a2, snd(b));
        },
        Value::Choice(ca) => {
            let cb = as_choice(b);
            match *ca {
                ChoiceData::True(x) => lemma_same_value_sym(x, cb->True_0),
                ChoiceData::False(x) => lemma_same_value_sym(x, cb->False_0),
            }
        },
        Value::List(l) => {
            let m = b->List_0;
            assert forall|i: int| 0 <= i < m@.len() implies same_value(#[trigger] m[i], l[i]) by {
                assert(decreases_to!(l => l[i]));
                assert(same_value(l[i], m[i]));
                lemma_same_value_sym(l[i], m[i]);
            }
        },
        _ => {},
    }
}

/// `same_value` is transitive.
pub proof fn lemma_same_value_trans(a: Value, b: Value, c: Value)
    requires
        same_value(a, b),
        same_value(b, c),
    ensures
        same_value(a, c),
    decreases a,
{
    match a {
        Value::Pair(a1, a2) => {
            let (b1, b2) = (fst(b), snd(b));
            lemma_same_value_trans(*a1, b1, fst(c));
            lemma_same_value_trans(*a2, b2, snd(c));
        },
        Value::Choice(ca) => {
            let cb = as_choice(b);
            let cc = as_choice(c);
            match *ca {
                ChoiceData::True(x) => {
                    lemma_same_value_trans(x, cb->True_0, cc->True_0);
                },
                ChoiceData::False(x) => {
                    lemma_same_value_trans(x, cb->False_0, cc->False_0);
                },
            }
        },
        Value::List(l) => {
            let m = b->List_0;
            let n = c->List_0;
            assert forall|i: int| 0 <= i < l@.len() implies same_value(#[trigger] l[i], n[i]) by {
                assert(decreases_to!(l => l[i]));
                assert(same_value(m[i], n[i]));
                lemma_same_value_trans(l[i], m[i], n[i]);
            }
        },
        _ => {},
    }
}

impl Value {
    /// Builds the pair `(a, b)`.
    pub fn pair(a: Value, b: Value) -> (r: Value)
        ensures
            r == Value::Pair(Box::new(a), Box::new(b)),
            fst(r) == a,
            snd(r) == b,
    {
        Value::Pair(Box::new(a), Box::new(b))
    }

    /// Builds `True(v)`.
    pub fn ctrue(v: Value) -> (r: Value)
        ensures
            r == Value::Choice(Box::new(ChoiceData::True(v))),
            as_choice(r) == ChoiceData::<Value, Value>::True(v),
    {
        Value::Choice(Box::new(ChoiceData::True(v)))
    }

    /// Builds `False(v)`.
    pub fn cfalse(v: Value) -> (r: Value)
        ensures
            r == Value::Choice(Box::new(ChoiceData::False(v))),
            as_choice(r) == ChoiceData::<Value, Value>::False(v),
    {
        Value::Choice(Box::new(ChoiceData::False(v)))
    }

    /// Splits a pair into its two components (see `fst` and `snd`).
    pub fn split(self) -> (r: (Value, Value))
        ensures
            r.0 == fst(self),
            r.1 == snd(self),
    {
        match self {
            Value::Pair(a, b) => (*a, *b),
            _ => (Value::Unit, Value::Unit),
        }
    }

    /// The branch this value selects (see `as_choice`).
    pub fn into_choice(self) -> (r: ChoiceData<Value, Value>)
        ensures
            r == as_choice(self),
    {
        match self {
            Value::Choice(c) => *c,
            other => ChoiceData::False(other),
        }
    }

    /// The elements of a list (see `list_of`).
    pub fn into_list(self) -> (r: Vec<Value>)
        ensures
            r@ == list_of(self),
    {
        match self {
            Value::List(l) => l,
            _ => Vec::new(),
        }
    }

    /// A deep copy of the value.
    pub fn duplicate(&self) -> (r: Value)
        ensures
            same_value(r, *self),
        decreases self,
    {
        match self {
            Value::Unit => Value::Unit,
            Value::Int(i) => Value::Int(*i),
            Value::Pair(a, b) => {
                let a2 = a.duplicate();
                let b2 = b.duplicate();
                Value::Pair(Box::new(a2), Box::new(b2))
            },
            Value::Choice(c) => {
                match &**c {
                    ChoiceData::True(t) => {
                        let t2 = t.duplicate();
                        Value::Choice(Box::new(ChoiceData::True(t2)))
                    },
                    ChoiceData::False(f) => {
                        let f2 = f.duplicate();
                        Value::Choice(Box::new(ChoiceData::False(f2)))
                    },
                }
            },
            Value::List(l) => {
                let mut out: Vec<Value> = Vec::new();
                let mut i: usize = 0;
                while i < l.len()
                    invariant
                        i <= l.len(),
                        *self is List,
                        self->List_0 == *l,
                        out@.len() == i,
                        forall|j: int| 0 <= j < i ==> same_value(#[trigger] out[j], l[j]),
                    decreases l.len() - i,
                {
                    proof {
                        assert(decreases_to!(*self => self->List_0));
                        assert(decreases_to!(l => l[i as int]));
                        assert(decreases_to!(*self => l[i as int]));
                    }
                    let e = l[i].duplicate();
                    out.push(e);
                    i = i + 1;
                }
                Value::List(out)
            },
            Value::Signal(s) => Value::Signal(*s),
        }
    }
}

/// Splitting a pair gives back the two values it was built from.
pub proof fn law_split_pair(a: Value, b: Value)
    ensures
        fst(Value::Pair(Box::new(a), Box::new(b))) == a,
        snd(Value::Pair(Box::new(a), Box::new(b))) == b,
{
}

/// A choice selects the branch it was built with, holding the value it was
/// built with; any other value selects `False` of itself.
pub proof fn law_choice_branch(v: Value)
    ensures
        as_choice(Value::Choice(Box::new(ChoiceData::True(v)))) == ChoiceData::<Value, Value>::True(v),
        as_choice(Value::Choice(Box::new(ChoiceData::False(v)))) == ChoiceData::<Value, Value>::False(v),
        !(v is Choice) ==> as_choice(v) == ChoiceData::<Value, Value>::False(v),
{
}

} // verus!
