//! How long, and for whom, the response to a query may be kept.

use vstd::prelude::*;
use crate::ast::{Field, SelectionSet};
use crate::pos::Positioned;
use crate::text::str_eq;

verus! {

/// What a type or a field says about keeping its result: for whom, and for
/// how many seconds. A `max_age` of zero says nothing about the time.
#[derive(Debug, Clone, Copy, PartialEq, Eq, Structural)]
pub struct CacheControl {
    /// Whether the result is marked as public.
    pub public: bool,
    /// Whether the result is marked as private; this wins over `public`.
    pub private: bool,
    /// For how many seconds the result may be kept; zero if that is not
    /// said.
    pub max_age: usize,
}

impl Default for CacheControl {
    fn default() -> (r: Self)
        ensures
            r == (CacheControl { public: true, private: false, max_age: 0 }),
    {
        CacheControl { public: true, private: false, max_age: 0 }
    }
}

/// The shorter of two times, where zero stands for a time that is not said
/// and never shortens the other.
pub open spec fn merged_age(a: usize, b: usize) -> usize {
    if a == 0 {
        b
    } else if b == 0 {
        a
    } else if a <= b {
        a
    } else {
        b
    }
}

impl CacheControl {
    /// Whether the result is public: marked as public and not as private.
    pub open spec fn public_view(self) -> bool {
        !self.private && self.public
    }

    /// Whether the result is public: marked as public and not as private.
    pub fn is_public(&self) -> (r: bool)
        ensures
            r == self.public_view(),
    {
        !self.private && self.public
    }

    /// What holds of a result that is put together from a part under `self`
    /// and a part under `other`: it is public only if both are, and may be
    /// kept for the shorter of the two times, of those that are said.
    pub open spec fn merged(self, other: CacheControl) -> CacheControl {
        CacheControl {
            public: self.public_view() && other.public_view(),
            private: !(self.public_view() && other.public_view()),
            max_age: merged_age(self.max_age, other.max_age),
        }
    }

    /// What holds of a result that is put together from a part under `self`
    /// and a part under `other`: it is public only if both are, and may be
    /// kept for the shorter of the two times, of those that are said.
    pub fn merge(self, other: &CacheControl) -> (r: Self)
        ensures
            r == self.merged(*other),
    {
        let public = self.is_public() && other.is_public();
        CacheControl {
            public,
            private: !public,
            max_age: if self.max_age == 0 {
                other.max_age
            } else if other.max_age == 0 {
                self.max_age
            } else if self.max_age <= other.max_age {
                self.max_age
            } else {
                other.max_age
            },
        }
    }
}

/// A merged whole is public only if both parts are, so a private part makes
/// it private. The order of the parts does not matter, nor how three of them
/// are grouped, and merging a part in again changes nothing.
pub proof fn lemma_merged(a: CacheControl, b: CacheControl, c: CacheControl)
    ensures
        a.merged(b).public_view() == (a.public_view() && b.public_view()),
        !b.public_view() ==> !a.merged(b).public_view(),
        a.merged(b).max_age == merged_age(a.max_age, b.max_age),
        a.merged(b) == b.merged(a),
        a.merged(b).merged(c) == a.merged(b.merged(c)),
        a.merged(b).merged(b) == a.merged(b),
{
}

/// The merged time is the shorter of the times that are said; a part that
/// says none leaves the time of the other as it is; and the order of the
/// parts does not matter, nor how three of them are grouped.
pub proof fn lemma_merged_age(a: usize, b: usize, c: usize)
    ensures
        merged_age(a, 0) == a,
        merged_age(0, a) == a,
        a != 0 && b != 0 ==> merged_age(a, b) <= a && merged_age(a, b) <= b && (merged_age(a, b)
            == a || merged_age(a, b) == b),
        merged_age(a, b) == merged_age(b, a),
        merged_age(merged_age(a, b), c) == merged_age(a, merged_age(b, c)),
{
}

/// What the schema says of one field of a type.
#[derive(Debug, Clone, PartialEq, Eq)]
pub struct MetaField {
    /// The name of the field.
    pub name: String,
    /// The type of the field, as text such as `[Item!]!`.
    pub ty: String,
    /// What the field says about keeping its result.
    pub cache_control: CacheControl,
}

/// What the schema says of one type.
#[derive(Debug, Clone, PartialEq, Eq)]
pub enum MetaType {
    /// An object type.
    Object {
        /// The name of the type.
        name: String,
        /// The fields of the type.
        fields: Vec<MetaField>,
        /// What the type says about keeping its results.
        cache_control: CacheControl,
    },
    /// An interface type.
    Interface {
        /// The name of the type.
        name: String,
        /// The fields of the type.
        fields: Vec<MetaField>,
    },
    /// A type without fields.
    Other {
        /// The name of the type.
        name: String,
    },
}

/// The first of `fields` whose name is `name`.
pub open spec fn meta_field_named(fields: Seq<MetaField>, name: Seq<char>) -> Option<MetaField>
    decreases fields.len(),
{
    if fields.len() == 0 {
        None
    } else if fields[0].name@ == name {
        Some(fields[0])
    } else {
        meta_field_named(fields.drop_first(), name)
    }
}

impl MetaType {
    /// The fields of the type; none for a type without fields.
    pub open spec fn field_list(&self) -> Seq<MetaField> {
        match self {
            MetaType::Object { fields, .. } => fields@,
            MetaType::Interface { fields, .. } => fields@,
            MetaType::Other { .. } => Seq::empty(),
        }
    }

    /// The field named `name`, if the type has one.
    pub fn field_by_name(&self, name: &str) -> (r: Option<&MetaField>)
        ensures
            match meta_field_named(self.field_list(), name@) {
                Some(field) => r == Some(&field),
                None => r is None,
            },
    {
        let fields = match self {
            MetaType::Object { fields, .. } => fields,
            MetaType::Interface { fields, .. } => fields,
            MetaType::Other { .. } => {
                return None;
            },
        };
        let mut i: usize = 0;
        assert(fields@.skip(0) =~= fields@);
        while i < fields.len()
            invariant
                i <= fields.len(),
                fields@ == self.field_list(),
                meta_field_named(fields@, name@) == meta_field_named(fields@.skip(i as int), name@),
            decreases fields.len() - i,
        {
            assert(fields@.skip(i as int).drop_first() =~= fields@.skip(i as int + 1));
            if str_eq(fields[i].name.as_str(), name) {
                return Some(&fields[i]);
            }
            i += 1;
        }
        None
    }
}

/// Where a walk over a query stands: the types of the selection sets that
/// it has entered, the innermost last; none for a type that the schema does
/// not know.
pub struct VisitorContext<'a> {
    /// The types of the selection sets that the walk has entered.
    pub type_stack: Vec<Option<&'a MetaType>>,
}

impl<'a> VisitorContext<'a> {
    /// The type of the innermost selection set.
    pub open spec fn current(&self) -> Option<&'a MetaType> {
        if self.type_stack@.len() >= 1 {
            self.type_stack@[self.type_stack@.len() - 1]
        } else {
            None
        }
    }

    /// The type of the selection set around the innermost one.
    pub open spec fn parent(&self) -> Option<&'a MetaType> {
        if self.type_stack@.len() >= 2 {
            self.type_stack@[self.type_stack@.len() - 2]
        } else {
            None
        }
    }

    /// The type of the innermost selection set.
    pub fn current_type(&self) -> (r: Option<&'a MetaType>)
        ensures
            r == self.current(),
    {
        let n = self.type_stack.len();
        if n >= 1 {
            self.type_stack[n - 1]
        } else {
            None
        }
    }

    /// The type of the selection set around the innermost one.
    pub fn parent_type(&self) -> (r: Option<&'a MetaType>)
        ensures
            r == self.parent(),
    {
        let n = self.type_stack.len();
        if n >= 2 {
            self.type_stack[n - 2]
        } else {
            None
        }
    }
}

/// How a visitor is run.
#[derive(Debug, Clone, Copy, PartialEq, Eq, Structural)]
pub enum VisitMode {
    /// Fragments are visited where they are defined.
    Normal,
    /// Fragments are visited where they are used.
    Inline,
}

/// A visitor that gathers, over a walk of a query, what the types and
/// fields that it meets say about keeping the response.
pub struct CacheControlCalculate<'a> {
    /// What has been gathered so far.
    pub cache_control: &'a mut CacheControl,
}

/// What entering a selection set of the type `current` makes of `before`:
/// merged with what an object type says, unchanged for any other type.
pub open spec fn entered_set(before: CacheControl, current: Option<&MetaType>) -> CacheControl {
    match current {
        Some(MetaType::Object { cache_control, .. }) => before.merged(*cache_control),
        _ => before,
    }
}

/// What entering the field `name` of the type `parent` makes of `before`:
/// merged with what the field says, unchanged if the type has no such field.
pub open spec fn entered_field(before: CacheControl, parent: Option<&MetaType>, name: Seq<char>)
    -> CacheControl {
    match parent {
        Some(parent) => match meta_field_named(parent.field_list(), name) {
            Some(field) => before.merged(field.cache_control),
            None => before,
        },
        None => before,
    }
}

impl<'a> CacheControlCalculate<'a> {
    /// The visitor sees fragments where they are used.
    pub fn mode(&self) -> (r: VisitMode)
        ensures
            r == VisitMode::Inline,
    {
        VisitMode::Inline
    }

    /// Enters a selection set: merges what its type says, if it is an
    /// object type.
    pub fn enter_selection_set(
        &mut self,
        ctx: &VisitorContext<'_>,
        _selection_set: &Positioned<SelectionSet>,
    )
        ensures
            *final(self).cache_control == entered_set(*old(self).cache_control, ctx.current()),
    {
        if let Some(MetaType::Object { cache_control, .. }) = ctx.current_type() {
            *self.cache_control = self.cache_control.merge(cache_control);
        }
    }

    /// Enters a field: merges what the schema says of that field of the
    /// type around it, if it knows one.
    pub fn enter_field(&mut self, ctx: &VisitorContext<'_>, field: &Positioned<Field>)
        ensures
            *final(self).cache_control == entered_field(
                *old(self).cache_control,
                ctx.parent(),
                field.node.name.node@,
            ),
    {
        if let Some(parent) = ctx.parent_type() {
            if let Some(registry_field) = parent.field_by_name(field.node.name.node.as_str()) {
                *self.cache_control = self.cache_control.merge(&registry_field.cache_control);
            }
        }
    }
}

} // verus!
