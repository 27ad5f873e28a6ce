//! Reading a value one level at a time, with variables replaced on demand.

use vstd::prelude::*;
use crate::name::Name;
use crate::number::Number;
use crate::text::{push_text, reversed};
use crate::value::{lemma_const_value_is_const, EntryView, Value, ValueView};
use crate::variables::VariableLookup;

verus! {

/// A value together with the source of its variables. A variable is looked
/// up only when the value that holds it is read.
pub struct ValueDeserializer<'a, L> {
    /// The value being read.
    pub value: Value,
    /// Where the values of variables come from.
    pub variables: &'a L,
}

/// What reading one level of a value shows.
pub enum Visit<'a, L> {
    /// `null`.
    Unit,
    /// A number.
    Number(Number),
    /// A string.
    String(String),
    /// A boolean.
    Bool(bool),
    /// An enum value.
    Enum(Name),
    /// A list; each item is read in turn.
    List(Vec<ValueDeserializer<'a, L>>),
    /// An object; each value is read in turn.
    Object(Vec<(Name, ValueDeserializer<'a, L>)>),
}

impl<'a, L> Visit<'a, L> {
    /// The value that was read, put together again.
    pub open spec fn shown(&self) -> ValueView {
        match self {
            Visit::Unit => ValueView::Null,
            Visit::Number(n) => ValueView::Number(n@),
            Visit::String(s) => ValueView::String(s@),
            Visit::Bool(b) => ValueView::Boolean(*b),
            Visit::Enum(name) => ValueView::Enum(name@),
            Visit::List(items) => ValueView::List(
                Seq::new(items@.len(), |i: int| items@[i].value@),
            ),
            Visit::Object(entries) => ValueView::Object(
                Seq::new(
                    entries@.len(),
                    |i: int| EntryView { key: entries@[i].0@, value: entries@[i].1.value@ },
                ),
            ),
        }
    }

    /// Whether every part that is still to be read takes its variables from
    /// `variables`.
    pub open spec fn reads_from(&self, variables: &'a L) -> bool {
        match self {
            Visit::List(items) => forall|i: int|
                0 <= i < items@.len() ==> (#[trigger] items@[i]).variables == variables,
            Visit::Object(entries) => forall|i: int|
                0 <= i < entries@.len() ==> (#[trigger] entries@[i]).1.variables == variables,
            _ => true,
        }
    }
}

/// The value that a reader of `v` is shown: `v` itself, or, where `v` is a
/// variable, the value bound to it. A variable that is not bound gives its
/// name.
pub open spec fn substituted<L: VariableLookup>(v: ValueView, lookup: &L) -> Result<
    ValueView,
    Seq<char>,
> {
    match v {
        ValueView::Variable(name) => match lookup.bound(name) {
            Some(value) => Ok(value),
            None => Err(name),
        },
        _ => Ok(v),
    }
}

/// The message for a variable that is not bound.
pub open spec fn undefined_variable_text(name: Seq<char>) -> Seq<char> {
    "variable "@ + name + " is not defined"@
}

/// The message for a variable that is not bound:
/// `variable <name> is not defined`.
pub fn undefined_variable_message(name: &Name) -> (r: String)
    ensures
        r@ == undefined_variable_text(name@),
{
    let mut out = String::new();
    push_text(&mut out, "variable ");
    push_text(&mut out, name.as_str());
    push_text(&mut out, " is not defined");
    assert(out@ =~= undefined_variable_text(name@));
    out
}

fn decompose<'a, L>(value: Value, variables: &'a L) -> (r: Visit<'a, L>)
    requires
        !(value is Variable),
    ensures
        r.shown() == value@,
        r.reads_from(variables),
{
    match value {
        Value::Variable(_) => Visit::Unit,
        Value::Null => Visit::Unit,
        Value::Number(n) => Visit::Number(n),
        Value::String(s) => Visit::String(s),
        Value::Boolean(b) => Visit::Bool(b),
        Value::Enum(name) => Visit::Enum(name),
        Value::List(items) => {
            let ghost before = items@;
            let mut rest = reversed(items);
            let mut out: Vec<ValueDeserializer<'a, L>> = Vec::new();
            while rest.len() > 0
                invariant
                    rest@.len() + out@.len() == before.len(),
                    forall|j: int|
                        0 <= j < rest@.len() ==> rest@[j] == before[before.len() - 1 - j],
                    forall|j: int|
                        0 <= j < out@.len() ==> (#[trigger] out@[j]).value == before[j]
                            && out@[j].variables == variables,
                decreases rest@.len(),
            {
                let item = rest.pop().unwrap();
                out.push(ValueDeserializer { value: item, variables });
            }
            let r = Visit::List(out);
            assert(r.shown()->List_0 =~= value@->List_0);
            r
        },
        Value::Object(entries) => {
            let ghost before = entries@;
            let mut rest = reversed(entries);
            let mut out: Vec<(Name, ValueDeserializer<'a, L>)> = Vec::new();
            while rest.len() > 0
                invariant
                    rest@.len() + out@.len() == before.len(),
                    forall|j: int|
                        0 <= j < rest@.len() ==> rest@[j] == before[before.len() - 1 - j],
                    forall|j: int|
                        0 <= j < out@.len() ==> (#[trigger] out@[j]).0 == before[j].0
                            && out@[j].1.value == before[j].1 && out@[j].1.variables
                            == variables,
                decreases rest@.len(),
            {
                let (key, value) = rest.pop().unwrap();
                out.push((key, ValueDeserializer { value, variables }));
            }
            let r = Visit::Object(out);
            assert(r.shown()->Object_0 =~= value@->Object_0);
            r
        },
    }
}

impl Value {
    /// A reader of the value that takes the values of variables from
    /// `variables`.
    pub fn deserializer<'a, L: VariableLookup>(self, variables: &'a L) -> (r: ValueDeserializer<
        'a,
        L,
    >)
        ensures
            r.value == self,
            r.variables == variables,
    {
        ValueDeserializer::new(self, variables)
    }
}

impl<'a, L: VariableLookup> ValueDeserializer<'a, L> {
    /// A reader of `value` that takes the values of variables from
    /// `variables`.
    pub fn new(value: Value, variables: &'a L) -> (r: Self)
        ensures
            r.value == value,
            r.variables == variables,
    {
        ValueDeserializer { value, variables }
    }

    /// Reads one level of the value.
    ///
    /// A variable is replaced by the value bound to it and that value is
    /// read; if nothing is bound to it, its name is returned as the error.
    /// The items of a list and the values of an object are not read yet:
    /// each comes as a reader of its own, over the same variables.
    pub fn deserialize_any(self) -> (r: Result<Visit<'a, L>, Name>)
        ensures
            match substituted(self.value@, self.variables) {
                Ok(v) => r is Ok && r->Ok_0.shown() == v && r->Ok_0.reads_from(self.variables),
                Err(name) => r is Err && r->Err_0@ == name,
            },
    {
        let variables = self.variables;
        match self.value {
            Value::Variable(name) => match variables.get(&name) {
                Some(value) => {
                    proof {
                        lemma_const_value_is_const(value);
                    }
                    Ok(decompose(value.into_value(), variables))
                },
                None => Err(name),
            },
            value => Ok(decompose(value, variables)),
        }
    }

    /// Reads the value as an optional one: `null` is none, and any other
    /// value comes as a reader of its own, over the same variables.
    ///
    /// A variable is replaced first by the value bound to it; if nothing is
    /// bound to it, its name is returned as the error.
    pub fn deserialize_option(self) -> (r: Result<Option<ValueDeserializer<'a, L>>, Name>)
        ensures
            match substituted(self.value@, self.variables) {
                Ok(v) => r is Ok && match r->Ok_0 {
                    None => v is Null,
                    Some(inner) => !(v is Null) && inner.value@ == v && inner.variables
                        == self.variables,
                },
                Err(name) => r is Err && r->Err_0@ == name,
            },
    {
        let variables = self.variables;
        match self.value {
            Value::Variable(name) => match variables.get(&name) {
                Some(value) => match value.into_value() {
                    Value::Null => Ok(None),
                    value => Ok(Some(ValueDeserializer { value, variables })),
                },
                None => Err(name),
            },
            Value::Null => Ok(None),
            value => Ok(Some(ValueDeserializer { value, variables })),
        }
    }
}

} // verus!
