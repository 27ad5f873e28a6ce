//! The syntax tree of an executable document, as execution reads it.

use vstd::prelude::*;
use crate::name::Name;
use crate::pos::Positioned;
use crate::text::reversed;
use crate::types::{OperationType, Type};
use crate::value::{ConstValue, Value, ValueView};

verus! {

/// The first of `arguments` whose name is `name`.
pub open spec fn first_named<V>(
    arguments: Seq<(Positioned<Name>, Positioned<V>)>,
    name: Seq<char>,
) -> Option<Positioned<V>>
    decreases arguments.len(),
{
    if arguments.len() == 0 {
        None
    } else if arguments[0].0.node@ == name {
        Some(arguments[0].1)
    } else {
        first_named(arguments.drop_first(), name)
    }
}

/// Finds the first of `arguments` whose name is `name`.
pub fn find_argument<'a, V>(
    arguments: &'a Vec<(Positioned<Name>, Positioned<V>)>,
    name: &str,
) -> (r: Option<&'a Positioned<V>>)
    ensures
        match first_named(arguments@, name@) {
            Some(argument) => r == Some(&argument),
            None => r is None,
        },
{
    let mut i: usize = 0;
    assert(arguments@.skip(0) =~= arguments@);
    while i < arguments.len()
        invariant
            i <= arguments.len(),
            first_named(arguments@, name@) == first_named(arguments@.skip(i as int), name@),
        decreases arguments.len() - i,
    {
        assert(arguments@.skip(i as int).drop_first() =~= arguments@.skip(i as int + 1));
        if arguments[i].0.node.eq_str(name) {
            return Some(&arguments[i].1);
        }
        i += 1;
    }
    None
}

/// A directive, such as `@skip(if: $hidden)`.
#[derive(Debug, PartialEq, Eq)]
pub struct Directive {
    /// The name of the directive.
    pub name: Positioned<Name>,
    /// The arguments of the directive, in the order of the text.
    pub arguments: Vec<(Positioned<Name>, Positioned<Value>)>,
}

impl Directive {
    /// The argument named `name`, if the directive has one.
    pub fn get_argument(&self, name: &str) -> (r: Option<&Positioned<Value>>)
        ensures
            match first_named(self.arguments@, name@) {
                Some(argument) => r == Some(&argument),
                None => r is None,
            },
    {
        find_argument(&self.arguments, name)
    }
}

/// A directive whose arguments hold no variables, such as
/// `@deprecated(reason: "Use the other field")`.
#[derive(Debug, PartialEq, Eq)]
pub struct ConstDirective {
    /// The name of the directive.
    pub name: Positioned<Name>,
    /// The arguments of the directive, in the order of the text.
    pub arguments: Vec<(Positioned<Name>, Positioned<ConstValue>)>,
}

impl ConstDirective {
    /// The same directive as a [`Directive`]: the name, and each argument
    /// with its name, its positions and its value.
    pub fn into_directive(self) -> (r: Directive)
        ensures
            r.name == self.name,
            r.arguments@.len() == self.arguments@.len(),
            forall|i: int|
                0 <= i < self.arguments@.len() ==> (#[trigger] r.arguments@[i]).0
                    == self.arguments@[i].0 && r.arguments@[i].1.pos == self.arguments@[i].1.pos
                    && r.arguments@[i].1.node@ == self.arguments@[i].1.node@,
    {
        let ghost before = self.arguments@;
        let mut rest = reversed(self.arguments);
        let mut out: Vec<(Positioned<Name>, Positioned<Value>)> = Vec::new();
        while rest.len() > 0
            invariant
                rest@.len() + out@.len() == before.len(),
                forall|j: int| 0 <= j < rest@.len() ==> rest@[j] == before[before.len() - 1 - j],
                forall|j: int|
                    0 <= j < out@.len() ==> (#[trigger] out@[j]).0 == before[j].0 && out@[j].1.pos
                        == before[j].1.pos && out@[j].1.node@ == before[j].1.node@,
            decreases rest@.len(),
        {
            let (name, value) = rest.pop().unwrap();
            out.push((name, Positioned { pos: value.pos, node: value.node.into_value() }));
        }
        Directive { name: self.name, arguments: out }
    }

    /// The argument named `name`, if the directive has one.
    pub fn get_argument(&self, name: &str) -> (r: Option<&Positioned<ConstValue>>)
        ensures
            match first_named(self.arguments@, name@) {
                Some(argument) => r == Some(&argument),
                None => r is None,
            },
    {
        find_argument(&self.arguments, name)
    }
}

/// A field of a selection set, with its arguments, its directives and the
/// selection set below it.
#[derive(Debug, PartialEq, Eq)]
pub struct Field {
    /// The alias of the field, if it has one.
    pub alias: Option<Positioned<Name>>,
    /// The name of the field.
    pub name: Positioned<Name>,
    /// The arguments of the field, in the order of the text.
    pub arguments: Vec<(Positioned<Name>, Positioned<Value>)>,
    /// The directives of the field, in the order of the text.
    pub directives: Vec<Positioned<Directive>>,
    /// What is selected below the field.
    pub selection_set: Positioned<SelectionSet>,
}

impl Field {
    /// The key under which the result of the field stands in the response.
    pub open spec fn key(&self) -> Positioned<Name> {
        match self.alias {
            Some(alias) => alias,
            None => self.name,
        }
    }

    /// The key under which the result of the field stands in the response:
    /// the alias if the field has one, else the name.
    pub fn response_key(&self) -> (r: &Positioned<Name>)
        ensures
            *r == self.key(),
    {
        match &self.alias {
            Some(alias) => alias,
            None => &self.name,
        }
    }

    /// The argument named `name`, if the field has one.
    pub fn get_argument(&self, name: &str) -> (r: Option<&Positioned<Value>>)
        ensures
            match first_named(self.arguments@, name@) {
                Some(argument) => r == Some(&argument),
                None => r is None,
            },
    {
        find_argument(&self.arguments, name)
    }
}

/// A selection set: what is selected at one level of a query, in the order
/// of the text.
#[derive(Debug, PartialEq, Eq)]
pub struct SelectionSet {
    /// The selections.
    pub items: Vec<Positioned<Selection>>,
}

/// One selection of a selection set.
#[derive(Debug, PartialEq, Eq)]
pub enum Selection {
    /// A field.
    Field(Positioned<Field>),
    /// A fragment, named.
    FragmentSpread(Positioned<FragmentSpread>),
    /// A fragment, written in place.
    InlineFragment(Positioned<InlineFragment>),
}

/// The type that a fragment applies to.
#[derive(Debug, PartialEq, Eq)]
pub struct TypeCondition {
    /// The name of the type.
    pub on: Positioned<Name>,
}

/// A fragment that is named where it is used, such as `...Details`.
#[derive(Debug, PartialEq, Eq)]
pub struct FragmentSpread {
    /// The name of the fragment.
    pub fragment_name: Positioned<Name>,
    /// The directives, in the order of the text.
    pub directives: Vec<Positioned<Directive>>,
}

/// A fragment that is written where it is used, such as `... { a b }`.
#[derive(Debug, PartialEq, Eq)]
pub struct InlineFragment {
    /// The type that the fragment applies to, if it names one.
    pub type_condition: Option<Positioned<TypeCondition>>,
    /// The directives, in the order of the text.
    pub directives: Vec<Positioned<Directive>>,
    /// What the fragment selects.
    pub selection_set: Positioned<SelectionSet>,
}

/// The definition of a named fragment.
#[derive(Debug, PartialEq, Eq)]
pub struct FragmentDefinition {
    /// The type that the fragment applies to.
    pub type_condition: Positioned<TypeCondition>,
    /// The directives, in the order of the text.
    pub directives: Vec<Positioned<Directive>>,
    /// What the fragment selects.
    pub selection_set: Positioned<SelectionSet>,
}

/// The definition of a variable of an operation.
#[derive(Debug, PartialEq, Eq)]
pub struct VariableDefinition {
    /// The name of the variable.
    pub name: Positioned<Name>,
    /// The type of the variable.
    pub var_type: Positioned<Type>,
    /// The value that the variable has when the request gives none.
    pub default_value: Option<Positioned<ConstValue>>,
}

impl VariableDefinition {
    /// The value that the variable has when the request gives none: the
    /// declared default, or null where none is declared and the type is
    /// nullable.
    pub open spec fn default_view(&self) -> Option<ValueView> {
        match self.default_value {
            Some(value) => Some(value.node@),
            None => if self.var_type.node.nullable {
                Some(ValueView::Null)
            } else {
                None
            },
        }
    }

    /// The value that the variable has when the request gives none.
    pub fn default_value(&self) -> (r: Option<ConstValue>)
        ensures
            match self.default_view() {
                Some(v) => r is Some && r->Some_0@ == v,
                None => r is None,
            },
    {
        match &self.default_value {
            Some(value) => Some(value.node.clone()),
            None => if self.var_type.node.nullable {
                Some(ConstValue::Null)
            } else {
                None
            },
        }
    }
}

/// The definition of an operation.
#[derive(Debug, PartialEq, Eq)]
pub struct OperationDefinition {
    /// Whether the operation is a query, a mutation or a subscription.
    pub ty: OperationType,
    /// The variables that the operation declares, in the order of the text.
    pub variable_definitions: Vec<Positioned<VariableDefinition>>,
    /// The directives, in the order of the text.
    pub directives: Vec<Positioned<Directive>>,
    /// What the operation selects.
    pub selection_set: Positioned<SelectionSet>,
}

} // verus!
