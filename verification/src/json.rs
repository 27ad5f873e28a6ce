//! Conversion between values and JSON.

use vstd::prelude::*;
use crate::name::{is_valid_name, Name};
use crate::number::{Number, NumberView};
use crate::order::{objects_ordered, text_lt};
use crate::text::reversed;
use crate::value::{is_const, names_valid, ConstValue, EntryView, Value, ValueView};

verus! {

/// A JSON value.
///
/// The members of an object are kept in the order of their keys.
#[derive(Debug, PartialEq, Eq)]
pub enum Json {
    /// `null`.
    Null,
    /// `true` or `false`.
    Bool(bool),
    /// A number.
    Number(Number),
    /// A string.
    String(String),
    /// An array.
    Array(Vec<Json>),
    /// An object: keys with their values.
    Object(Vec<(String, Json)>),
}

/// The mathematical model of a [`Json`] value.
pub enum JsonView {
    Null,
    Bool(bool),
    Number(NumberView),
    String(Seq<char>),
    Array(Seq<JsonView>),
    Object(Seq<MemberView>),
}

/// The mathematical model of one member of a JSON object.
pub struct MemberView {
    pub key: Seq<char>,
    pub value: JsonView,
}

impl View for Json {
    type V = JsonView;

    open spec fn view(&self) -> JsonView
        decreases self,
    {
        match self {
            Json::Null => JsonView::Null,
            Json::Bool(b) => JsonView::Bool(*b),
            Json::Number(n) => JsonView::Number(n@),
            Json::String(s) => JsonView::String(s@),
            Json::Array(items) => JsonView::Array(
                Seq::new(
                    items@.len(),
                    |i: int|
                        if 0 <= i < items@.len() {
                            items@[i]@
                        } else {
                            JsonView::Null
                        },
                ),
            ),
            Json::Object(members) => JsonView::Object(
                Seq::new(
                    members@.len(),
                    |i: int|
                        if 0 <= i < members@.len() {
                            MemberView { key: members@[i].0@, value: members@[i].1@ }
                        } else {
                            MemberView { key: Seq::empty(), value: JsonView::Null }
                        },
                ),
            ),
        }
    }
}

/// Why a conversion between values and JSON failed.
#[derive(Debug, Clone, Copy, PartialEq, Eq, Structural)]
pub enum JsonError {
    /// The value holds a variable, which has no JSON form.
    CannotSerializeVariable,
    /// The JSON has no form as a value: a key of one of its objects is not a
    /// name.
    NoMatchingVariant,
}

/// The JSON form of a value: an enum value becomes a string, everything else
/// keeps its shape. A value that holds a variable has none.
pub open spec fn to_json(v: ValueView) -> Option<JsonView>
    decreases v,
{
    match v {
        ValueView::Variable(_) => None,
        ValueView::Null => Some(JsonView::Null),
        ValueView::Number(n) => Some(JsonView::Number(n)),
        ValueView::String(s) => Some(JsonView::String(s)),
        ValueView::Boolean(b) => Some(JsonView::Bool(b)),
        ValueView::Enum(name) => Some(JsonView::String(name)),
        ValueView::List(items) => if forall|i: int|
            0 <= i < items.len() ==> to_json(#[trigger] items[i]) is Some {
            Some(
                JsonView::Array(
                    Seq::new(
                        items.len(),
                        |i: int|
                            if 0 <= i < items.len() {
                                to_json(items[i])->Some_0
                            } else {
                                JsonView::Null
                            },
                    ),
                ),
            )
        } else {
            None
        },
        ValueView::Object(entries) => if forall|i: int|
            0 <= i < entries.len() ==> to_json((#[trigger] entries[i]).value) is Some {
            Some(
                JsonView::Object(
                    Seq::new(
                        entries.len(),
                        |i: int|
                            if 0 <= i < entries.len() {
                                MemberView {
                                    key: entries[i].key,
                                    value: to_json(entries[i].value)->Some_0,
                                }
                            } else {
                                MemberView { key: Seq::empty(), value: JsonView::Null }
                            },
                    ),
                ),
            )
        } else {
            None
        },
    }
}

/// The value that a JSON value stands for. JSON in which a key of an object
/// is not a name stands for none. The result never holds an enum value or a
/// variable.
pub open spec fn from_json(j: JsonView) -> Option<ValueView>
    decreases j,
{
    match j {
        JsonView::Null => Some(ValueView::Null),
        JsonView::Bool(b) => Some(ValueView::Boolean(b)),
        JsonView::Number(n) => Some(ValueView::Number(n)),
        JsonView::String(s) => Some(ValueView::String(s)),
        JsonView::Array(items) => if forall|i: int|
            0 <= i < items.len() ==> from_json(#[trigger] items[i]) is Some {
            Some(
                ValueView::List(
                    Seq::new(
                        items.len(),
                        |i: int|
                            if 0 <= i < items.len() {
                                from_json(items[i])->Some_0
                            } else {
                                ValueView::Null
                            },
                    ),
                ),
            )
        } else {
            None
        },
        JsonView::Object(members) => if forall|i: int|
            0 <= i < members.len() ==> is_valid_name((#[trigger] members[i]).key) && from_json(
                members[i].value,
            ) is Some {
            Some(
                ValueView::Object(
                    Seq::new(
                        members.len(),
                        |i: int|
                            if 0 <= i < members.len() {
                                EntryView {
                                    key: members[i].key,
                                    value: from_json(members[i].value)->Some_0,
                                }
                            } else {
                                EntryView { key: Seq::empty(), value: ValueView::Null }
                            },
                    ),
                ),
            )
        } else {
            None
        },
    }
}

/// Whether the keys of `members` come in their order, each before the next.
pub open spec fn members_ordered(members: Seq<MemberView>) -> bool {
    forall|i: int, j: int|
        0 <= i < j < members.len() ==> text_lt((#[trigger] members[i]).key, (#[trigger] members[j]).key)
}

/// Whether every object in `j`, at any depth, keeps its members in the
/// order of their keys.
pub open spec fn json_ordered(j: JsonView) -> bool
    decreases j,
{
    match j {
        JsonView::Array(items) => forall|i: int|
            0 <= i < items.len() ==> json_ordered(#[trigger] items[i]),
        JsonView::Object(members) => members_ordered(members) && forall|i: int|
            0 <= i < members.len() ==> json_ordered((#[trigger] members[i]).value),
        _ => true,
    }
}

/// The value that ordered JSON stands for is a constant, holds no enum
/// value, has valid names and keeps its objects ordered.
pub proof fn lemma_from_json_well_formed(j: JsonView)
    requires
        from_json(j) is Some,
    ensures
        is_const(from_json(j)->Some_0),
        has_no_enum(from_json(j)->Some_0),
        names_valid(from_json(j)->Some_0),
        json_ordered(j) ==> objects_ordered(from_json(j)->Some_0),
    decreases j,
{
    match j {
        JsonView::Array(items) => {
            let list = from_json(j)->Some_0->List_0;
            assert forall|i: int| 0 <= i < list.len() implies is_const(#[trigger] list[i])
                && has_no_enum(list[i]) && names_valid(list[i]) && (json_ordered(j)
                ==> objects_ordered(list[i])) by {
                lemma_from_json_well_formed(items[i]);
            }
        },
        JsonView::Object(members) => {
            let entries = from_json(j)->Some_0->Object_0;
            assert forall|i: int| 0 <= i < entries.len() implies is_const(
                (#[trigger] entries[i]).value,
            ) && has_no_enum(entries[i].value) && names_valid(entries[i].value) && is_valid_name(
                entries[i].key,
            ) && (json_ordered(j) ==> objects_ordered(entries[i].value)) by {
                lemma_from_json_well_formed(members[i].value);
            }
            if json_ordered(j) {
                assert forall|a: int, b: int| 0 <= a < b < entries.len() implies text_lt(
                    (#[trigger] entries[a]).key,
                    (#[trigger] entries[b]).key,
                ) by {
                    assert(text_lt(members[a].key, members[b].key));
                }
            }
        },
        _ => {},
    }
}

/// The JSON of a value whose objects are ordered has ordered objects.
pub proof fn lemma_to_json_ordered(v: ValueView)
    requires
        to_json(v) is Some,
        objects_ordered(v),
    ensures
        json_ordered(to_json(v)->Some_0),
    decreases v,
{
    match v {
        ValueView::List(items) => {
            let array = to_json(v)->Some_0->Array_0;
            assert forall|i: int| 0 <= i < array.len() implies json_ordered(#[trigger] array[i]) by {
                lemma_to_json_ordered(items[i]);
            }
        },
        ValueView::Object(entries) => {
            let members = to_json(v)->Some_0->Object_0;
            assert forall|i: int| 0 <= i < members.len() implies json_ordered(
                (#[trigger] members[i]).value,
            ) by {
                lemma_to_json_ordered(entries[i].value);
            }
            assert forall|a: int, b: int| 0 <= a < b < members.len() implies text_lt(
                (#[trigger] members[a]).key,
                (#[trigger] members[b]).key,
            ) by {
                assert(text_lt(entries[a].key, entries[b].key));
            }
        },
        _ => {},
    }
}

/// Whether `v` holds no enum value, at any depth.
pub open spec fn has_no_enum(v: ValueView) -> bool
    decreases v,
{
    match v {
        ValueView::Enum(_) => false,
        ValueView::List(items) => forall|i: int|
            0 <= i < items.len() ==> has_no_enum(#[trigger] items[i]),
        ValueView::Object(entries) => forall|i: int|
            0 <= i < entries.len() ==> has_no_enum((#[trigger] entries[i]).value),
        _ => true,
    }
}

/// A constant value has a JSON form.
pub proof fn lemma_const_has_json(v: ValueView)
    requires
        is_const(v),
    ensures
        to_json(v) is Some,
    decreases v,
{
    match v {
        ValueView::List(items) => {
            assert forall|i: int| 0 <= i < items.len() implies to_json(#[trigger] items[i])
                is Some by {
                lemma_const_has_json(items[i]);
            }
        },
        ValueView::Object(entries) => {
            assert forall|i: int| 0 <= i < entries.len() implies to_json(
                (#[trigger] entries[i]).value,
            ) is Some by {
                lemma_const_has_json(entries[i].value);
            }
        },
        _ => {},
    }
}

/// Turning a constant value that holds no enum value into JSON and back
/// gives the same value.
pub proof fn lemma_json_round_trip(v: ValueView)
    requires
        is_const(v),
        has_no_enum(v),
        names_valid(v),
    ensures
        to_json(v) is Some,
        from_json(to_json(v)->Some_0) == Some(v),
    decreases v,
{
    lemma_const_has_json(v);
    match v {
        ValueView::List(items) => {
            let array = to_json(v)->Some_0->Array_0;
            assert forall|i: int| 0 <= i < array.len() implies from_json(#[trigger] array[i])
                == Some(items[i]) by {
                lemma_json_round_trip(items[i]);
            }
            assert(from_json(to_json(v)->Some_0)->Some_0->List_0 =~= items);
        },
        ValueView::Object(entries) => {
            let members = to_json(v)->Some_0->Object_0;
            assert forall|i: int| 0 <= i < members.len() implies is_valid_name(
                (#[trigger] members[i]).key,
            ) && from_json(members[i].value) == Some(entries[i].value) by {
                lemma_json_round_trip(entries[i].value);
            }
            assert(from_json(to_json(v)->Some_0)->Some_0->Object_0 =~= entries);
        },
        _ => {},
    }
}

impl ConstValue {
    /// Converts the value into JSON. This never fails: a constant value holds no
    /// variable.
    pub fn into_json(self) -> (r: Result<Json, JsonError>)
        ensures
            match to_json(self@) {
                Some(j) => r is Ok && r->Ok_0@ == j,
                None => r == Err::<Json, JsonError>(JsonError::CannotSerializeVariable),
            },
        decreases self,
    {
        match self {
            ConstValue::Null => Ok(Json::Null),
            ConstValue::Number(n) => Ok(Json::Number(n)),
            ConstValue::String(s) => Ok(Json::String(s)),
            ConstValue::Boolean(b) => Ok(Json::Bool(b)),
            ConstValue::Enum(name) => Ok(Json::String(name.into_string())),
            ConstValue::List(items) => {
                let ghost before = items@;
                let ghost model = self@->List_0;
                let mut rest = reversed(items);
                let mut out: Vec<Json> = Vec::new();
                while rest.len() > 0
                    invariant
                        self@ == ValueView::List(model),
                        model.len() == before.len(),
                        forall|j: int| 0 <= j < before.len() ==> model[j] == before[j]@,
                        rest@.len() + out@.len() == before.len(),
                        forall|j: int|
                            0 <= j < rest@.len() ==> rest@[j] == before[before.len() - 1 - j],
                        forall|j: int|
                            0 <= j < out@.len() ==> to_json(#[trigger] model[j]) == Some(out@[j]@),
                        decreases_to!(self => before),
                    decreases rest@.len(),
                {
                    let item = rest.pop().unwrap();
                    assert(decreases_to!(before => before[out@.len() as int]));
                    match item.into_json() {
                        Ok(j) => out.push(j),
                        Err(e) => {
                            assert(to_json(model[out@.len() as int]) is None);
                            return Err(e);
                        },
                    }
                }
                let r = Json::Array(out);
                assert(r@->Array_0 =~= to_json(self@)->Some_0->Array_0);
                Ok(r)
            },
            ConstValue::Object(entries) => {
                let ghost before = entries@;
                let ghost model = self@->Object_0;
                let mut rest = reversed(entries);
                let mut out: Vec<(String, Json)> = Vec::new();
                while rest.len() > 0
                    invariant
                        self@ == ValueView::Object(model),
                        model.len() == before.len(),
                        forall|j: int|
                            0 <= j < before.len() ==> model[j] == (EntryView {
                                key: before[j].0@,
                                value: before[j].1@,
                            }),
                        rest@.len() + out@.len() == before.len(),
                        forall|j: int|
                            0 <= j < rest@.len() ==> rest@[j] == before[before.len() - 1 - j],
                        forall|j: int|
                            0 <= j < out@.len() ==> to_json((#[trigger] model[j]).value) == Some(
                                out@[j].1@,
                            ) && out@[j].0@ == model[j].key,
                        decreases_to!(self => before),
                    decreases rest@.len(),
                {
                    let (key, value) = rest.pop().unwrap();
                    assert(decreases_to!(before => before[out@.len() as int]));
                    assert(decreases_to!(before[out@.len() as int] => before[out@.len() as int].1));
                    match value.into_json() {
                        Ok(j) => out.push((key.into_string(), j)),
                        Err(e) => {
                            assert(to_json(model[out@.len() as int].value) is None);
                            return Err(e);
                        },
                    }
                }
                let r = Json::Object(out);
                assert(r@->Object_0 =~= to_json(self@)->Some_0->Object_0);
                Ok(r)
            },
        }
    }
}

impl Value {
    /// Converts the value into JSON. Fails if the value holds a variable.
    pub fn into_json(self) -> (r: Result<Json, JsonError>)
        ensures
            match to_json(self@) {
                Some(j) => r is Ok && r->Ok_0@ == j,
                None => r == Err::<Json, JsonError>(JsonError::CannotSerializeVariable),
            },
        decreases self,
    {
        match self {
            Value::Variable(_) => Err(JsonError::CannotSerializeVariable),
            Value::Null => Ok(Json::Null),
            Value::Number(n) => Ok(Json::Number(n)),
            Value::String(s) => Ok(Json::String(s)),
            Value::Boolean(b) => Ok(Json::Bool(b)),
            Value::Enum(name) => Ok(Json::String(name.into_string())),
            Value::List(items) => {
                let ghost before = items@;
                let ghost model = self@->List_0;
                let mut rest = reversed(items);
                let mut out: Vec<Json> = Vec::new();
                while rest.len() > 0
                    invariant
                        self@ == ValueView::List(model),
                        model.len() == before.len(),
                        forall|j: int| 0 <= j < before.len() ==> model[j] == before[j]@,
                        rest@.len() + out@.len() == before.len(),
                        forall|j: int|
                            0 <= j < rest@.len() ==> rest@[j] == before[before.len() - 1 - j],
                        forall|j: int|
                            0 <= j < out@.len() ==> to_json(#[trigger] model[j]) == Some(out@[j]@),
                        decreases_to!(self => before),
                    decreases rest@.len(),
                {
                    let item = rest.pop().unwrap();
                    assert(decreases_to!(before => before[out@.len() as int]));
                    match item.into_json() {
                        Ok(j) => out.push(j),
                        Err(e) => {
                            assert(to_json(model[out@.len() as int]) is None);
                            return Err(e);
                        },
                    }
                }
                let r = Json::Array(out);
                assert(r@->Array_0 =~= to_json(self@)->Some_0->Array_0);
                Ok(r)
            },
            Value::Object(entries) => {
                let ghost before = entries@;
                let ghost model = self@->Object_0;
                let mut rest = reversed(entries);
                let mut out: Vec<(String, Json)> = Vec::new();
                while rest.len() > 0
                    invariant
                        self@ == ValueView::Object(model),
                        model.len() == before.len(),
                        forall|j: int|
                            0 <= j < before.len() ==> model[j] == (EntryView {
                                key: before[j].0@,
                                value: before[j].1@,
                            }),
                        rest@.len() + out@.len() == before.len(),
                        forall|j: int|
                            0 <= j < rest@.len() ==> rest@[j] == before[before.len() - 1 - j],
                        forall|j: int|
                            0 <= j < out@.len() ==> to_json((#[trigger] model[j]).value) == Some(
                                out@[j].1@,
                            ) && out@[j].0@ == model[j].key,
                        decreases_to!(self => before),
                    decreases rest@.len(),
                {
                    let (key, value) = rest.pop().unwrap();
                    assert(decreases_to!(before => before[out@.len() as int]));
                    assert(decreases_to!(before[out@.len() as int] => before[out@.len() as int].1));
                    match value.into_json() {
                        Ok(j) => out.push((key.into_string(), j)),
                        Err(e) => {
                            assert(to_json(model[out@.len() as int].value) is None);
                            return Err(e);
                        },
                    }
                }
                let r = Json::Object(out);
                assert(r@->Object_0 =~= to_json(self@)->Some_0->Object_0);
                Ok(r)
            },
        }
    }
}

impl ConstValue {
    /// Converts JSON into a constant value. Fails if a key of an object in
    /// `json` is not a name.
    pub fn from_json(json: Json) -> (r: Result<ConstValue, JsonError>)
        ensures
            match from_json(json@) {
                Some(v) => r is Ok && r->Ok_0@ == v,
                None => r == Err::<ConstValue, JsonError>(JsonError::NoMatchingVariant),
            },
        decreases json,
    {
        match json {
            Json::Null => Ok(ConstValue::Null),
            Json::Bool(b) => Ok(ConstValue::Boolean(b)),
            Json::Number(n) => Ok(ConstValue::Number(n)),
            Json::String(s) => Ok(ConstValue::String(s)),
            Json::Array(items) => {
                let ghost before = items@;
                let ghost model = json@->Array_0;
                let mut rest = reversed(items);
                let mut out: Vec<ConstValue> = Vec::new();
                while rest.len() > 0
                    invariant
                        json@ == JsonView::Array(model),
                        model.len() == before.len(),
                        forall|j: int| 0 <= j < before.len() ==> model[j] == before[j]@,
                        rest@.len() + out@.len() == before.len(),
                        forall|j: int|
                            0 <= j < rest@.len() ==> rest@[j] == before[before.len() - 1 - j],
                        forall|j: int|
                            0 <= j < out@.len() ==> from_json(#[trigger] model[j]) == Some(
                                out@[j]@,
                            ),
                        decreases_to!(json => before),
                    decreases rest@.len(),
                {
                    let item = rest.pop().unwrap();
                    assert(decreases_to!(before => before[out@.len() as int]));
                    match ConstValue::from_json(item) {
                        Ok(v) => out.push(v),
                        Err(e) => {
                            assert(from_json(model[out@.len() as int]) is None);
                            return Err(e);
                        },
                    }
                }
                let r = ConstValue::List(out);
                assert(r@->List_0 =~= from_json(json@)->Some_0->List_0);
                Ok(r)
            },
            Json::Object(members) => {
                let ghost before = members@;
                let ghost model = json@->Object_0;
                let mut rest = reversed(members);
                let mut out: Vec<(Name, ConstValue)> = Vec::new();
                while rest.len() > 0
                    invariant
                        json@ == JsonView::Object(model),
                        model.len() == before.len(),
                        forall|j: int|
                            0 <= j < before.len() ==> model[j] == (MemberView {
                                key: before[j].0@,
                                value: before[j].1@,
                            }),
                        rest@.len() + out@.len() == before.len(),
                        forall|j: int|
                            0 <= j < rest@.len() ==> rest@[j] == before[before.len() - 1 - j],
                        forall|j: int|
                            0 <= j < out@.len() ==> from_json((#[trigger] model[j]).value) == Some(
                                out@[j].1@,
                            ) && out@[j].0@ == model[j].key && is_valid_name(model[j].key),
                        decreases_to!(json => before),
                    decreases rest@.len(),
                {
                    let (key, value) = rest.pop().unwrap();
                    assert(decreases_to!(before => before[out@.len() as int]));
                    assert(decreases_to!(before[out@.len() as int] => before[out@.len() as int].1));
                    let name = match Name::new(key) {
                        Ok(name) => name,
                        Err(_) => {
                            assert(!is_valid_name(model[out@.len() as int].key));
                            return Err(JsonError::NoMatchingVariant);
                        },
                    };
                    match ConstValue::from_json(value) {
                        Ok(v) => out.push((name, v)),
                        Err(e) => {
                            assert(from_json(model[out@.len() as int].value) is None);
                            return Err(e);
                        },
                    }
                }
                let r = ConstValue::Object(out);
                assert(r@->Object_0 =~= from_json(json@)->Some_0->Object_0);
                Ok(r)
            },
        }
    }
}

impl Value {
    /// Converts JSON into a value. Fails if a key of an object in `json` is
    /// not a name. The result holds no variable and no enum value.
    pub fn from_json(json: Json) -> (r: Result<Value, JsonError>)
        ensures
            match from_json(json@) {
                Some(v) => r is Ok && r->Ok_0@ == v,
                None => r == Err::<Value, JsonError>(JsonError::NoMatchingVariant),
            },
    {
        match ConstValue::from_json(json) {
            Ok(v) => Ok(v.into_value()),
            Err(e) => Err(e),
        }
    }
}

} // verus!
