//! Runtime values.
//!
//! The evaluator produces values; the dynamic typecheck only ever inspects
//! them structurally. A [`Value`] covers exactly what that inspection needs:
//! the four atoms and the three compound shapes. Its mathematical model is a
//! [`ValueView`].

use vstd::prelude::*;

verus! {

/// A runtime value, as far as the dynamic typecheck inspects it.
#[derive(Debug, PartialEq, Eq)]
pub enum Value {
    Null,
    Bool(bool),
    Int(i64),
    String(String),
    List(Vec<Value>),
    SetOf(Vec<Value>),
    /// A dict as a sequence of key-value entries.
    Dict(Vec<(Value, Value)>),
}

/// The mathematical model of a [`Value`].
pub enum ValueView {
    Null,
    Bool(bool),
    Int(i64),
    String(Seq<char>),
    List(Seq<ValueView>),
    SetOf(Seq<ValueView>),
    Dict(Seq<(ValueView, ValueView)>),
}

/// The model of a value.
pub open spec fn value_view(v: Value) -> ValueView
    decreases v,
{
    match v {
        Value::Null => ValueView::Null,
        Value::Bool(b) => ValueView::Bool(b),
        Value::Int(i) => ValueView::Int(i),
        Value::String(s) => ValueView::String(s@),
        Value::List(xs) => ValueView::List(
            Seq::new(
                xs@.len(),
                |i: int|
                    if 0 <= i < xs@.len() {
                        value_view(xs@[i])
                    } else {
                        ValueView::Null
                    },
            ),
        ),
        Value::SetOf(xs) => ValueView::SetOf(
            Seq::new(
                xs@.len(),
                |i: int|
                    if 0 <= i < xs@.len() {
                        value_view(xs@[i])
                    } else {
                        ValueView::Null
                    },
            ),
        ),
        Value::Dict(kvs) => ValueView::Dict(
            Seq::new(
                kvs@.len(),
                |i: int|
                    if 0 <= i < kvs@.len() {
                        (value_view(kvs@[i].0), value_view(kvs@[i].1))
                    } else {
                        (ValueView::Null, ValueView::Null)
                    },
            ),
        ),
    }
}

impl View for Value {
    type V = ValueView;

    open spec fn view(&self) -> ValueView {
        value_view(*self)
    }
}

impl Clone for Value {
    /// A deep copy; the copy has the same model as the original.
    fn clone(&self) -> (r: Self)
        ensures
            r@ == self@,
        decreases self,
    {
        match self {
            Value::Null => Value::Null,
            Value::Bool(b) => Value::Bool(*b),
            Value::Int(i) => Value::Int(*i),
            Value::String(s) => Value::String(s.clone()),
            Value::List(xs) => {
                let r = Value::List(clone_values(xs));
                proof {
                    assert(r@->List_0 =~= self@->List_0);
                }
                r
            },
            Value::SetOf(xs) => {
                let r = Value::SetOf(clone_values(xs));
                proof {
                    assert(r@->SetOf_0 =~= self@->SetOf_0);
                }
                r
            },
            Value::Dict(kvs) => {
                let r = Value::Dict(clone_entries(kvs));
                proof {
                    assert(r@->Dict_0 =~= self@->Dict_0);
                }
                r
            },
        }
    }
}

/// A deep copy of a vector of values, element for element.
#[verifier::loop_isolation(false)]
fn clone_values(xs: &Vec<Value>) -> (r: Vec<Value>)
    ensures
        r@.len() == xs@.len(),
        forall|i: int| 0 <= i < xs@.len() ==> r@[i]@ == xs@[i]@,
    decreases *xs,
{
    let mut r: Vec<Value> = Vec::new();
    for i in 0..xs.len()
        invariant
            r@.len() == i,
            forall|j: int| 0 <= j < i ==> r@[j]@ == xs@[j]@,
    {
        r.push(xs[i].clone());
    }
    r
}

/// A deep copy of a vector of dict entries, entry for entry.
#[verifier::loop_isolation(false)]
fn clone_entries(kvs: &Vec<(Value, Value)>) -> (r: Vec<(Value, Value)>)
    ensures
        r@.len() == kvs@.len(),
        forall|i: int| 0 <= i < kvs@.len() ==> r@[i].0@ == kvs@[i].0@ && r@[i].1@ == kvs@[i].1@,
    decreases *kvs,
{
    let mut r: Vec<(Value, Value)> = Vec::new();
    for i in 0..kvs.len()
        invariant
            r@.len() == i,
            forall|j: int| 0 <= j < i ==> r@[j].0@ == kvs@[j].0@ && r@[j].1@ == kvs@[j].1@,
    {
        let entry = &kvs[i];
        r.push((entry.0.clone(), entry.1.clone()));
    }
    r
}

} // verus!
