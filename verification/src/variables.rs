//! Variables of a query, and the substitution of variables in values.

use vstd::prelude::*;
use crate::json::{from_json, Json};
use crate::name::Name;
use crate::render::render;
use crate::text::{push_char, push_text, reversed};
use crate::value::{ConstValue, EntryView, Value, ValueView};

verus! {

/// The value of the first entry of `entries` whose key is `key`.
pub open spec fn entry_of(entries: Seq<EntryView>, key: Seq<char>) -> Option<ValueView>
    decreases entries.len(),
{
    if entries.len() == 0 {
        None
    } else if entries[0].key == key {
        Some(entries[0].value)
    } else {
        entry_of(entries.drop_first(), key)
    }
}

/// A source of values for the variables of a query.
pub trait VariableLookup {
    /// The value bound to the variable `name`, if there is one.
    spec fn bound(&self, name: Seq<char>) -> Option<ValueView>;

    /// Looks up the variable `name`.
    fn get(&self, name: &Name) -> (r: Option<ConstValue>)
        ensures
            match self.bound(name@) {
                Some(v) => r is Some && r->Some_0@ == v,
                None => r is None,
            },
    ;
}

/// The variables of a query: names with their values, in the order of the
/// names.
#[derive(Debug, PartialEq, Eq)]
pub struct Variables(pub Vec<(Name, ConstValue)>);

impl View for Variables {
    type V = Seq<EntryView>;

    open spec fn view(&self) -> Seq<EntryView> {
        ConstValue::Object(self.0)@->Object_0
    }
}

impl Clone for Variables {
    fn clone(&self) -> (r: Self)
        ensures
            r@ == self@,
    {
        let mut out: Vec<(Name, ConstValue)> = Vec::new();
        let mut i: usize = 0;
        while i < self.0.len()
            invariant
                i <= self.0.len(),
                out.len() == i,
                forall|j: int|
                    0 <= j < i ==> out@[j].0@ == self.0@[j].0@ && out@[j].1@ == self.0@[j].1@,
            decreases self.0.len() - i,
        {
            out.push((self.0[i].0.clone(), self.0[i].1.clone()));
            i += 1;
        }
        let r = Variables(out);
        assert(r@ =~= self@);
        r
    }
}

impl Variables {
    /// No variables.
    pub fn new() -> (r: Self)
        ensures
            r@ == Seq::<EntryView>::empty(),
    {
        let r = Variables(Vec::new());
        assert(r@ =~= Seq::<EntryView>::empty());
        r
    }

    /// The variables that `value` holds: the entries of an object, none for
    /// any other value.
    pub fn from_value(value: ConstValue) -> (r: Self)
        ensures
            r@ == match value@ {
                ValueView::Object(entries) => entries,
                _ => Seq::<EntryView>::empty(),
            },
    {
        match value {
            ConstValue::Object(entries) => Variables(entries),
            _ => Variables::new(),
        }
    }

    /// The variables that `json` holds: the members of an object whose keys
    /// are all names, at every depth; none for any other JSON.
    pub fn from_json(json: Json) -> (r: Self)
        ensures
            r@ == match from_json(json@) {
                Some(ValueView::Object(entries)) => entries,
                _ => Seq::<EntryView>::empty(),
            },
    {
        match ConstValue::from_json(json) {
            Ok(value) => Variables::from_value(value),
            Err(_) => Variables::new(),
        }
    }

    /// The variables as one object.
    pub fn into_value(self) -> (r: ConstValue)
        ensures
            r@ == ValueView::Object(self@),
    {
        ConstValue::Object(self.0)
    }
}

/// The entries of `entries` as `name: value`, joined by a comma and a
/// space.
pub open spec fn listed(entries: Seq<EntryView>) -> Seq<char>
    decreases entries.len(),
{
    if entries.len() == 0 {
        Seq::empty()
    } else if entries.len() == 1 {
        entries[0].key + seq![':', ' '] + render(entries[0].value)
    } else {
        listed(entries.drop_last()) + seq![',', ' '] + entries.last().key + seq![':', ' ']
            + render(entries.last().value)
    }
}

/// The text of the variables: `{a: 1, b: "x"}`.
pub open spec fn variables_text(entries: Seq<EntryView>) -> Seq<char> {
    seq!['{'] + listed(entries) + seq!['}']
}

impl Variables {
    /// The text of the variables: each as `name: value`, joined by a comma
    /// and a space, in braces.
    pub fn to_string(&self) -> (r: String)
        ensures
            r@ == variables_text(self@),
    {
        let mut out = String::new();
        push_char(&mut out, '{');
        let mut i: usize = 0;
        assert(self@.take(0) =~= Seq::<EntryView>::empty());
        while i < self.0.len()
            invariant
                i <= self.0.len(),
                self@.len() == self.0@.len(),
                forall|j: int|
                    0 <= j < self.0@.len() ==> self@[j] == (EntryView {
                        key: self.0@[j].0@,
                        value: self.0@[j].1@,
                    }),
                out@ == seq!['{'] + listed(self@.take(i as int)),
            decreases self.0.len() - i,
        {
            if i > 0 {
                push_char(&mut out, ',');
                push_char(&mut out, ' ');
            }
            push_text(&mut out, self.0[i].0.as_str());
            push_char(&mut out, ':');
            push_char(&mut out, ' ');
            self.0[i].1.write_to(&mut out);
            proof {
                let now = self@.take(i as int + 1);
                assert(now.drop_last() =~= self@.take(i as int));
                assert(now.last() == self@[i as int]);
                assert(now[0] == self@[0]);
                assert(out@ =~= seq!['{'] + listed(now));
            }
            i += 1;
        }
        push_char(&mut out, '}');
        assert(self@.take(i as int) =~= self@);
        assert(out@ =~= variables_text(self@));
        out
    }
}

impl VariableLookup for Variables {
    open spec fn bound(&self, name: Seq<char>) -> Option<ValueView> {
        entry_of(self@, name)
    }

    fn get(&self, name: &Name) -> (r: Option<ConstValue>) {
        let mut i: usize = 0;
        assert(self@.skip(0) =~= self@);
        while i < self.0.len()
            invariant
                i <= self.0.len(),
                self@.len() == self.0@.len(),
                forall|j: int|
                    0 <= j < self.0@.len() ==> self@[j] == (EntryView {
                        key: self.0@[j].0@,
                        value: self.0@[j].1@,
                    }),
                entry_of(self@, name@) == entry_of(self@.skip(i as int), name@),
            decreases self.0.len() - i,
        {
            assert(self@.skip(i as int).drop_first() =~= self@.skip(i as int + 1));
            if self.0[i].0.eq_str(name.as_str()) {
                return Some(self.0[i].1.clone());
            }
            i += 1;
        }
        None
    }
}

/// The value `v` with each variable replaced by what `lookup` binds to it,
/// or the name of the first variable, in the order of the text, that
/// `lookup` does not bind.
pub open spec fn resolved<L: VariableLookup>(v: ValueView, lookup: &L) -> Result<
    ValueView,
    Seq<char>,
>
    decreases v,
{
    match v {
        ValueView::Variable(name) => match lookup.bound(name) {
            Some(value) => Ok(value),
            None => Err(name),
        },
        ValueView::List(items) => match resolved_items(items, lookup) {
            Ok(items) => Ok(ValueView::List(items)),
            Err(name) => Err(name),
        },
        ValueView::Object(entries) => match resolved_entries(entries, lookup) {
            Ok(entries) => Ok(ValueView::Object(entries)),
            Err(name) => Err(name),
        },
        _ => Ok(v),
    }
}

/// A variable resolves to the value that is bound to it, and a variable
/// that is bound to nothing fails with its name.
pub proof fn lemma_variable_resolves(variables: Variables, name: Seq<char>, value: ValueView)
    ensures
        variables@ == seq![EntryView { key: name, value }] ==> resolved(
            ValueView::Variable(name),
            &variables,
        ) == Ok::<ValueView, Seq<char>>(value),
        variables@.len() == 0 ==> resolved(ValueView::Variable(name), &variables) == Err::<
            ValueView,
            Seq<char>,
        >(name),
{
}

/// [`resolved`] for the items of a list, from the first to the last.
pub open spec fn resolved_items<L: VariableLookup>(items: Seq<ValueView>, lookup: &L) -> Result<
    Seq<ValueView>,
    Seq<char>,
>
    decreases items,
{
    if items.len() == 0 {
        Ok(Seq::empty())
    } else {
        match resolved_items(items.drop_last(), lookup) {
            Err(name) => Err(name),
            Ok(front) => match resolved(items.last(), lookup) {
                Err(name) => Err(name),
                Ok(value) => Ok(front.push(value)),
            },
        }
    }
}

/// [`resolved`] for the entries of an object, from the first to the last.
pub open spec fn resolved_entries<L: VariableLookup>(
    entries: Seq<EntryView>,
    lookup: &L,
) -> Result<Seq<EntryView>, Seq<char>>
    decreases entries,
{
    if entries.len() == 0 {
        Ok(Seq::empty())
    } else {
        match resolved_entries(entries.drop_last(), lookup) {
            Err(name) => Err(name),
            Ok(front) => match resolved(entries.last().value, lookup) {
                Err(name) => Err(name),
                Ok(value) => Ok(front.push(EntryView { key: entries.last().key, value })),
            },
        }
    }
}

proof fn lemma_resolved_items_step<L: VariableLookup>(items: Seq<ValueView>, lookup: &L, k: int)
    requires
        0 <= k < items.len(),
    ensures
        resolved_items(items.take(k + 1), lookup) == match resolved_items(items.take(k), lookup) {
            Err(name) => Err(name),
            Ok(front) => match resolved(items[k], lookup) {
                Err(name) => Err(name),
                Ok(value) => Ok(front.push(value)),
            },
        },
{
    assert(items.take(k + 1).drop_last() =~= items.take(k));
}

proof fn lemma_resolved_items_err<L: VariableLookup>(items: Seq<ValueView>, lookup: &L, k: int)
    requires
        0 <= k <= items.len(),
        resolved_items(items.take(k), lookup) is Err,
    ensures
        resolved_items(items, lookup) == resolved_items(items.take(k), lookup),
    decreases items.len() - k,
{
    if k < items.len() {
        lemma_resolved_items_step(items, lookup, k);
        lemma_resolved_items_err(items, lookup, k + 1);
    } else {
        assert(items.take(k) =~= items);
    }
}

proof fn lemma_resolved_entries_step<L: VariableLookup>(
    entries: Seq<EntryView>,
    lookup: &L,
    k: int,
)
    requires
        0 <= k < entries.len(),
    ensures
        resolved_entries(entries.take(k + 1), lookup) == match resolved_entries(
            entries.take(k),
            lookup,
        ) {
            Err(name) => Err(name),
            Ok(front) => match resolved(entries[k].value, lookup) {
                Err(name) => Err(name),
                Ok(value) => Ok(front.push(EntryView { key: entries[k].key, value })),
            },
        },
{
    assert(entries.take(k + 1).drop_last() =~= entries.take(k));
}

proof fn lemma_resolved_entries_err<L: VariableLookup>(
    entries: Seq<EntryView>,
    lookup: &L,
    k: int,
)
    requires
        0 <= k <= entries.len(),
        resolved_entries(entries.take(k), lookup) is Err,
    ensures
        resolved_entries(entries, lookup) == resolved_entries(entries.take(k), lookup),
    decreases entries.len() - k,
{
    if k < entries.len() {
        lemma_resolved_entries_step(entries, lookup, k);
        lemma_resolved_entries_err(entries, lookup, k + 1);
    } else {
        assert(entries.take(k) =~= entries);
    }
}

impl Value {
    /// Replaces each variable by the value that `lookup` binds to it.
    ///
    /// Fails with the name of the first variable, in the order of the text,
    /// that `lookup` does not bind.
    pub fn into_const_with<L: VariableLookup>(self, lookup: &L) -> (r: Result<ConstValue, Name>)
        ensures
            match resolved(self@, lookup) {
                Ok(v) => r is Ok && r->Ok_0@ == v,
                Err(name) => r is Err && r->Err_0@ == name,
            },
        decreases self,
    {
        match self {
            Value::Variable(name) => match lookup.get(&name) {
                Some(value) => Ok(value),
                None => Err(name),
            },
            Value::Null => Ok(ConstValue::Null),
            Value::Number(n) => Ok(ConstValue::Number(n)),
            Value::String(s) => Ok(ConstValue::String(s)),
            Value::Boolean(b) => Ok(ConstValue::Boolean(b)),
            Value::Enum(name) => Ok(ConstValue::Enum(name)),
            Value::List(items) => {
                let ghost before = items@;
                let ghost model = self@->List_0;
                let mut rest = reversed(items);
                let mut out: Vec<ConstValue> = Vec::new();
                assert(model.take(0) =~= Seq::<ValueView>::empty());
                assert(ConstValue::List(out)@->List_0 =~= Seq::<ValueView>::empty());
                while rest.len() > 0
                    invariant
                        self@ == ValueView::List(model),
                        model.len() == before.len(),
                        forall|j: int| 0 <= j < before.len() ==> model[j] == before[j]@,
                        rest@.len() + out@.len() == before.len(),
                        forall|j: int|
                            0 <= j < rest@.len() ==> rest@[j] == before[before.len() - 1 - j],
                        resolved_items(model.take(out@.len() as int), lookup) == Ok::<
                            Seq<ValueView>,
                            Seq<char>,
                        >(ConstValue::List(out)@->List_0),
                        decreases_to!(self => before),
                    decreases rest@.len(),
                {
                    let ghost k = out@.len() as int;
                    let ghost front = ConstValue::List(out)@->List_0;
                    let item = rest.pop().unwrap();
                    assert(decreases_to!(before => before[k]));
                    proof {
                        lemma_resolved_items_step(model, lookup, k);
                    }
                    match item.into_const_with(lookup) {
                        Ok(value) => {
                            out.push(value);
                            assert(ConstValue::List(out)@->List_0 =~= front.push(value@));
                        },
                        Err(name) => {
                            proof {
                                lemma_resolved_items_err(model, lookup, k + 1);
                            }
                            return Err(name);
                        },
                    }
                }
                assert(model.take(out@.len() as int) =~= model);
                Ok(ConstValue::List(out))
            },
            Value::Object(entries) => {
                let ghost before = entries@;
                let ghost model = self@->Object_0;
                let mut rest = reversed(entries);
                let mut out: Vec<(Name, ConstValue)> = Vec::new();
                assert(model.take(0) =~= Seq::<EntryView>::empty());
                assert(ConstValue::Object(out)@->Object_0 =~= Seq::<EntryView>::empty());
                while rest.len() > 0
                    invariant
                        self@ == ValueView::Object(model),
                        model.len() == before.len(),
                        forall|j: int|
                            0 <= j < before.len() ==> model[j] == (EntryView {
                                key: before[j].0@,
                                value: before[j].1@,
                            }),
                        rest@.len() + out@.len() == before.len(),
                        forall|j: int|
                            0 <= j < rest@.len() ==> rest@[j] == before[before.len() - 1 - j],
                        resolved_entries(model.take(out@.len() as int), lookup) == Ok::<
                            Seq<EntryView>,
                            Seq<char>,
                        >(ConstValue::Object(out)@->Object_0),
                        decreases_to!(self => before),
                    decreases rest@.len(),
                {
                    let ghost k = out@.len() as int;
                    let ghost front = ConstValue::Object(out)@->Object_0;
                    let (key, value) = rest.pop().unwrap();
                    assert(decreases_to!(before => before[k]));
                    assert(decreases_to!(before[k] => before[k].1));
                    proof {
                        lemma_resolved_entries_step(model, lookup, k);
                    }
                    match value.into_const_with(lookup) {
                        Ok(value) => {
                            out.push((key, value));
                            assert(ConstValue::Object(out)@->Object_0 =~= front.push(
                                EntryView { key: key@, value: value@ },
                            ));
                        },
                        Err(name) => {
                            proof {
                                lemma_resolved_entries_err(model, lookup, k + 1);
                            }
                            return Err(name);
                        },
                    }
                }
                assert(model.take(out@.len() as int) =~= model);
                Ok(ConstValue::Object(out))
            },
        }
    }
}

} // verus!
