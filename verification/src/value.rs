//! The value model: constant values, and values that may hold variables.

use vstd::prelude::*;
use crate::name::{is_valid_name, Name};
use crate::number::{Number, NumberView};
use crate::text::reversed;

verus! {

/// The mathematical model of a value. A constant value is one that holds no
/// `Variable`.
pub enum ValueView {
    Variable(Seq<char>),
    Null,
    Number(NumberView),
    String(Seq<char>),
    Boolean(bool),
    Enum(Seq<char>),
    List(Seq<ValueView>),
    Object(Seq<EntryView>),
}

/// The mathematical model of one entry of an object.
pub struct EntryView {
    pub key: Seq<char>,
    pub value: ValueView,
}

/// Whether `v` holds no variable, at any depth.
pub open spec fn is_const(v: ValueView) -> bool
    decreases v,
{
    match v {
        ValueView::Variable(_) => false,
        ValueView::List(items) => forall|i: int|
            0 <= i < items.len() ==> is_const(#[trigger] items[i]),
        ValueView::Object(entries) => forall|i: int|
            0 <= i < entries.len() ==> is_const((#[trigger] entries[i]).value),
        _ => true,
    }
}

/// Whether every name in `v` follows the grammar of names: each variable,
/// each enum value and each key of an object, at any depth.
pub open spec fn names_valid(v: ValueView) -> bool
    decreases v,
{
    match v {
        ValueView::Variable(name) => is_valid_name(name),
        ValueView::Enum(name) => is_valid_name(name),
        ValueView::List(items) => forall|i: int|
            0 <= i < items.len() ==> names_valid(#[trigger] items[i]),
        ValueView::Object(entries) => forall|i: int|
            0 <= i < entries.len() ==> is_valid_name((#[trigger] entries[i]).key) && names_valid(
                entries[i].value,
            ),
        _ => true,
    }
}

/// A resolved value, for example `1` or `"Hello World!"`.
///
/// The entries of an object are kept in the order of their keys.
#[derive(Debug, PartialEq, Eq)]
pub enum ConstValue {
    /// `null`.
    Null,
    /// A number.
    Number(Number),
    /// A string.
    String(String),
    /// A boolean.
    Boolean(bool),
    /// An enum value, written as a bare name.
    Enum(Name),
    /// A list of values.
    List(Vec<ConstValue>),
    /// An object: keys with their values.
    Object(Vec<(Name, ConstValue)>),
}

/// A value as it stands in a query, for example `1`, `$name` or
/// `"Hello World!"`: a [`ConstValue`] that may hold variables.
#[derive(Debug, PartialEq, Eq)]
pub enum Value {
    /// A variable, without the `$`.
    Variable(Name),
    /// `null`.
    Null,
    /// A number.
    Number(Number),
    /// A string.
    String(String),
    /// A boolean.
    Boolean(bool),
    /// An enum value, written as a bare name.
    Enum(Name),
    /// A list of values.
    List(Vec<Value>),
    /// An object: keys with their values.
    Object(Vec<(Name, Value)>),
}

impl View for ConstValue {
    type V = ValueView;

    open spec fn view(&self) -> ValueView
        decreases self,
    {
        match self {
            ConstValue::Null => ValueView::Null,
            ConstValue::Number(n) => ValueView::Number(n@),
            ConstValue::String(s) => ValueView::String(s@),
            ConstValue::Boolean(b) => ValueView::Boolean(*b),
            ConstValue::Enum(name) => ValueView::Enum(name@),
            ConstValue::List(items) => ValueView::List(
                Seq::new(
                    items@.len(),
                    |i: int|
                        if 0 <= i < items@.len() {
                            items@[i]@
                        } else {
                            ValueView::Null
                        },
                ),
            ),
            ConstValue::Object(entries) => ValueView::Object(
                Seq::new(
                    entries@.len(),
                    |i: int|
                        if 0 <= i < entries@.len() {
                            EntryView { key: entries@[i].0@, value: entries@[i].1@ }
                        } else {
                            EntryView { key: Seq::empty(), value: ValueView::Null }
                        },
                ),
            ),
        }
    }
}

impl View for Value {
    type V = ValueView;

    open spec fn view(&self) -> ValueView
        decreases self,
    {
        match self {
            Value::Variable(name) => ValueView::Variable(name@),
            Value::Null => ValueView::Null,
            Value::Number(n) => ValueView::Number(n@),
            Value::String(s) => ValueView::String(s@),
            Value::Boolean(b) => ValueView::Boolean(*b),
            Value::Enum(name) => ValueView::Enum(name@),
            Value::List(items) => ValueView::List(
                Seq::new(
                    items@.len(),
                    |i: int|
                        if 0 <= i < items@.len() {
                            items@[i]@
                        } else {
                            ValueView::Null
                        },
                ),
            ),
            Value::Object(entries) => ValueView::Object(
                Seq::new(
                    entries@.len(),
                    |i: int|
                        if 0 <= i < entries@.len() {
                            EntryView { key: entries@[i].0@, value: entries@[i].1@ }
                        } else {
                            EntryView { key: Seq::empty(), value: ValueView::Null }
                        },
                ),
            ),
        }
    }
}

/// A constant value holds no variable.
pub proof fn lemma_const_value_is_const(v: ConstValue)
    ensures
        is_const(v@),
    decreases v,
{
    match v {
        ConstValue::List(items) => {
            assert forall|i: int| 0 <= i < items@.len() implies is_const(
                #[trigger] v@->List_0[i],
            ) by {
                lemma_const_value_is_const(items@[i]);
            }
        },
        ConstValue::Object(entries) => {
            assert forall|i: int| 0 <= i < entries@.len() implies is_const(
                (#[trigger] v@->Object_0[i]).value,
            ) by {
                lemma_const_value_is_const(entries@[i].1);
            }
        },
        _ => {},
    }
}

impl ConstValue {
    /// Converts the constant value into a [`Value`] with the same content.
    pub fn into_value(self) -> (r: Value)
        ensures
            r@ == self@,
        decreases self,
    {
        match self {
            ConstValue::Null => Value::Null,
            ConstValue::Number(n) => Value::Number(n),
            ConstValue::String(s) => Value::String(s),
            ConstValue::Boolean(b) => Value::Boolean(b),
            ConstValue::Enum(name) => Value::Enum(name),
            ConstValue::List(items) => {
                let ghost before = items@;
                let mut rest = reversed(items);
                let mut out: Vec<Value> = Vec::new();
                while rest.len() > 0
                    invariant
                        rest@.len() + out@.len() == before.len(),
                        forall|j: int|
                            0 <= j < rest@.len() ==> rest@[j] == before[before.len() - 1 - j],
                        forall|j: int| 0 <= j < out@.len() ==> out@[j]@ == before[j]@,
                        decreases_to!(self => before),
                    decreases rest@.len(),
                {
                    let item = rest.pop().unwrap();
                    assert(decreases_to!(before => before[out@.len() as int]));
                    out.push(item.into_value());
                }
                let r = Value::List(out);
                assert(r@->List_0 =~= self@->List_0);
                r
            },
            ConstValue::Object(entries) => {
                let ghost before = entries@;
                let mut rest = reversed(entries);
                let mut out: Vec<(Name, Value)> = Vec::new();
                while rest.len() > 0
                    invariant
                        rest@.len() + out@.len() == before.len(),
                        forall|j: int|
                            0 <= j < rest@.len() ==> rest@[j] == before[before.len() - 1 - j],
                        forall|j: int|
                            0 <= j < out@.len() ==> out@[j].0@ == before[j].0@ && out@[j].1@
                                == before[j].1@,
                        decreases_to!(self => before),
                    decreases rest@.len(),
                {
                    let (key, value) = rest.pop().unwrap();
                    assert(decreases_to!(before => before[out@.len() as int]));
                    assert(decreases_to!(before[out@.len() as int] => before[out@.len() as int].1));
                    out.push((key, value.into_value()));
                }
                let r = Value::Object(out);
                assert(r@->Object_0 =~= self@->Object_0);
                r
            },
        }
    }
}

impl Clone for ConstValue {
    fn clone(&self) -> (r: Self)
        ensures
            r@ == self@,
        decreases self,
    {
        match self {
            ConstValue::Null => ConstValue::Null,
            ConstValue::Number(n) => ConstValue::Number(n.clone()),
            ConstValue::String(s) => ConstValue::String(s.clone()),
            ConstValue::Boolean(b) => ConstValue::Boolean(*b),
            ConstValue::Enum(name) => ConstValue::Enum(name.clone()),
            ConstValue::List(items) => {
                let mut out: Vec<ConstValue> = Vec::new();
                let mut i: usize = 0;
                while i < items.len()
                    invariant
                        i <= items.len(),
                        out.len() == i,
                        forall|j: int| 0 <= j < i ==> out@[j]@ == items@[j]@,
                        decreases_to!(self => items),
                    decreases items.len() - i,
                {
                    out.push(items[i].clone());
                    i += 1;
                }
                let r = ConstValue::List(out);
                assert(r@->List_0 =~= self@->List_0);
                r
            },
            ConstValue::Object(entries) => {
                let mut out: Vec<(Name, ConstValue)> = Vec::new();
                let mut i: usize = 0;
                while i < entries.len()
                    invariant
                        i <= entries.len(),
                        out.len() == i,
                        forall|j: int|
                            0 <= j < i ==> out@[j].0@ == entries@[j].0@ && out@[j].1@
                                == entries@[j].1@,
                        decreases_to!(self => entries),
                    decreases entries.len() - i,
                {
                    let value = entries[i].1.clone();
                    out.push((entries[i].0.clone(), value));
                    i += 1;
                }
                let r = ConstValue::Object(out);
                assert(r@->Object_0 =~= self@->Object_0);
                r
            },
        }
    }
}

impl Clone for Value {
    fn clone(&self) -> (r: Self)
        ensures
            r@ == self@,
        decreases self,
    {
        match self {
            Value::Variable(name) => Value::Variable(name.clone()),
            Value::Null => Value::Null,
            Value::Number(n) => Value::Number(n.clone()),
            Value::String(s) => Value::String(s.clone()),
            Value::Boolean(b) => Value::Boolean(*b),
            Value::Enum(name) => Value::Enum(name.clone()),
            Value::List(items) => {
                let mut out: Vec<Value> = Vec::new();
                let mut i: usize = 0;
                while i < items.len()
                    invariant
                        i <= items.len(),
                        out.len() == i,
                        forall|j: int| 0 <= j < i ==> out@[j]@ == items@[j]@,
                        decreases_to!(self => items),
                    decreases items.len() - i,
                {
                    out.push(items[i].clone());
                    i += 1;
                }
                let r = Value::List(out);
                assert(r@->List_0 =~= self@->List_0);
                r
            },
            Value::Object(entries) => {
                let mut out: Vec<(Name, Value)> = Vec::new();
                let mut i: usize = 0;
                while i < entries.len()
                    invariant
                        i <= entries.len(),
                        out.len() == i,
                        forall|j: int|
                            0 <= j < i ==> out@[j].0@ == entries@[j].0@ && out@[j].1@
                                == entries@[j].1@,
                        decreases_to!(self => entries),
                    decreases entries.len() - i,
                {
                    let value = entries[i].1.clone();
                    out.push((entries[i].0.clone(), value));
                    i += 1;
                }
                let r = Value::Object(out);
                assert(r@->Object_0 =~= self@->Object_0);
                r
            },
        }
    }
}

impl Default for ConstValue {
    fn default() -> (r: Self)
        ensures
            r@ == ValueView::Null,
    {
        ConstValue::Null
    }
}

impl Default for Value {
    fn default() -> (r: Self)
        ensures
            r@ == ValueView::Null,
    {
        Value::Null
    }
}

} // verus!
