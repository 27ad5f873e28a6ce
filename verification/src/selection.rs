//! Looking at the fields below a field without resolving them.

use vstd::prelude::*;
use crate::ast::{Field, FragmentDefinition, Selection};
use crate::name::Name;
use crate::pos::Positioned;

verus! {

/// The first of `fragments` that stands under the name `name`.
pub open spec fn fragment_named(
    fragments: Seq<(Name, Positioned<FragmentDefinition>)>,
    name: Seq<char>,
) -> Option<FragmentDefinition>
    decreases fragments.len(),
{
    if fragments.len() == 0 {
        None
    } else if fragments[0].0@ == name {
        Some(fragments[0].1.node)
    } else {
        fragment_named(fragments.drop_first(), name)
    }
}

/// Finds the fragment that stands under the name `name`.
pub fn find_fragment<'a>(fragments: &'a Vec<(Name, Positioned<FragmentDefinition>)>, name: &Name)
    -> (r: Option<&'a FragmentDefinition>)
    ensures
        match fragment_named(fragments@, name@) {
            Some(fragment) => r == Some(&fragment),
            None => r is None,
        },
{
    let mut i: usize = 0;
    assert(fragments@.skip(0) =~= fragments@);
    while i < fragments.len()
        invariant
            i <= fragments.len(),
            fragment_named(fragments@, name@) == fragment_named(fragments@.skip(i as int), name@),
        decreases fragments.len() - i,
    {
        assert(fragments@.skip(i as int).drop_first() =~= fragments@.skip(i as int + 1));
        if fragments[i].0.eq_str(name.as_str()) {
            return Some(&fragments[i].1.node);
        }
        i += 1;
    }
    None
}

/// The fields that `items` select, in the order of the text, with the
/// fields of each fragment in the place of the fragment.
///
/// A fragment that is written in place is always opened. A named fragment is
/// opened while `depth` is above zero, and what it selects is read with a
/// depth of one less; a name without a fragment selects nothing. In a
/// document whose fragments do not lead back to themselves, no chain of
/// named fragments is longer than the number of fragments.
pub open spec fn flat_fields(
    items: Seq<Positioned<Selection>>,
    fragments: Seq<(Name, Positioned<FragmentDefinition>)>,
    depth: nat,
) -> Seq<Field>
    decreases depth, items,
{
    if items.len() == 0 {
        Seq::empty()
    } else {
        let rest = flat_fields(items.drop_first(), fragments, depth);
        match items[0].node {
            Selection::Field(field) => seq![field.node] + rest,
            Selection::FragmentSpread(spread) => match fragment_named(
                fragments,
                spread.node.fragment_name.node@,
            ) {
                Some(fragment) => if depth > 0 {
                    flat_fields(
                        fragment.selection_set.node.items@,
                        fragments,
                        (depth - 1) as nat,
                    ) + rest
                } else {
                    rest
                },
                None => rest,
            },
            Selection::InlineFragment(inline) => flat_fields(
                inline.node.selection_set.node.items@,
                fragments,
                depth,
            ) + rest,
        }
    }
}

/// A field of a selection, with the fragments of the document at hand.
#[derive(Clone, Copy)]
pub struct SelectionField<'a> {
    fragments: &'a Vec<(Name, Positioned<FragmentDefinition>)>,
    field: &'a Field,
}

/// The fields of `fields`, each as it stands in the syntax tree.
pub open spec fn fields_of(fields: Seq<SelectionField<'_>>) -> Seq<Field> {
    Seq::new(fields.len(), |i: int| fields[i].node())
}

fn collect<'a>(
    items: &'a Vec<Positioned<Selection>>,
    from: usize,
    fragments: &'a Vec<(Name, Positioned<FragmentDefinition>)>,
    depth: usize,
    out: &mut Vec<SelectionField<'a>>,
)
    requires
        from <= items@.len(),
        forall|i: int| 0 <= i < old(out)@.len() ==> (#[trigger] old(out)@[i]).all() == fragments,
    ensures
        fields_of(final(out)@) == fields_of(old(out)@) + flat_fields(
            items@.skip(from as int),
            fragments@,
            depth as nat,
        ),
        forall|i: int| 0 <= i < final(out)@.len() ==> (#[trigger] final(out)@[i]).all() == fragments,
    decreases depth, items@.skip(from as int),
{
    let ghost start = fields_of(out@);
    if from >= items.len() {
        assert(fields_of(out@) =~= start + Seq::<Field>::empty());
        return ;
    }
    let ghost here = items@.skip(from as int);
    assert(here.drop_first() =~= items@.skip(from as int + 1));
    assert(here[0] == items@[from as int]);
    match &items[from].node {
        Selection::Field(field) => {
            out.push(SelectionField { fragments, field: &field.node });
            assert(fields_of(out@) =~= start + seq![field.node]);
        },
        Selection::FragmentSpread(spread) => {
            match find_fragment(fragments, &spread.node.fragment_name.node) {
                Some(fragment) => {
                    if depth > 0 {
                        assert(fragment.selection_set.node.items@.skip(0)
                            =~= fragment.selection_set.node.items@);
                        collect(&fragment.selection_set.node.items, 0, fragments, depth - 1, out);
                    }
                },
                None => {},
            }
        },
        Selection::InlineFragment(inline) => {
            assert(inline.node.selection_set.node.items@.skip(0)
                =~= inline.node.selection_set.node.items@);
            assert(decreases_to!(here => here[0]));
            assert(decreases_to!(here[0] => here[0].node));
            assert(decreases_to!(here[0].node => inline));
            assert(decreases_to!(inline.node.selection_set.node.items
                => inline.node.selection_set.node.items@));
            collect(&inline.node.selection_set.node.items, 0, fragments, depth, out);
        },
    }
    collect(items, from + 1, fragments, depth, out);
    assert(fields_of(out@) =~= start + flat_fields(here, fragments@, depth as nat));
}

impl<'a> SelectionField<'a> {
    /// The field as it stands in the syntax tree.
    pub closed spec fn node(&self) -> Field {
        *self.field
    }

    /// The fragments of the document.
    pub closed spec fn all(&self) -> &'a Vec<(Name, Positioned<FragmentDefinition>)> {
        self.fragments
    }

    /// The field `field`, in a document with the fragments `fragments`.
    pub fn new(fragments: &'a Vec<(Name, Positioned<FragmentDefinition>)>, field: &'a Field) -> (r:
        Self)
        ensures
            r.node() == *field,
            r.all() == fragments,
    {
        SelectionField { fragments, field }
    }

    /// The name of the field.
    pub fn name(&self) -> (r: &'a str)
        ensures
            r@ == self.node().name.node@,
    {
        self.field.name.node.as_str()
    }

    /// The fields that are selected below this field, in the order of the
    /// text, with the fields of each fragment in the place of the fragment;
    /// see [`flat_fields`]. Named fragments are followed to the depth of
    /// their number.
    pub fn selection_set(&self) -> (r: Vec<SelectionField<'a>>)
        ensures
            fields_of(r@) == flat_fields(
                self.node().selection_set.node.items@,
                self.all()@,
                self.all()@.len(),
            ),
            forall|i: int| 0 <= i < r@.len() ==> (#[trigger] r@[i]).all() == self.all(),
    {
        let mut out: Vec<SelectionField<'a>> = Vec::new();
        let items = &self.field.selection_set.node.items;
        assert(items@.skip(0) =~= items@);
        assert(fields_of(out@) =~= Seq::<Field>::empty());
        collect(items, 0, self.fragments, self.fragments.len(), &mut out);
        assert(fields_of(out@) =~= flat_fields(items@, self.fragments@, self.fragments@.len()));
        out
    }
}

/// The first of `fields` whose name is `name`.
pub open spec fn first_field_named(fields: Seq<Field>, name: Seq<char>) -> Option<Field>
    decreases fields.len(),
{
    if fields.len() == 0 {
        None
    } else if fields[0].name.node@ == name {
        Some(fields[0])
    } else {
        first_field_named(fields.drop_first(), name)
    }
}

/// A look ahead at what a query selects below a field.
#[derive(Clone, Copy)]
pub struct Lookahead<'a> {
    fragments: &'a Vec<(Name, Positioned<FragmentDefinition>)>,
    field: Option<&'a Field>,
}

impl<'a> Lookahead<'a> {
    /// The field that the look ahead has reached, if it has reached one.
    pub closed spec fn reached(&self) -> Option<Field> {
        match self.field {
            Some(field) => Some(*field),
            None => None,
        }
    }

    /// The fragments of the document.
    pub closed spec fn all(&self) -> &'a Vec<(Name, Positioned<FragmentDefinition>)> {
        self.fragments
    }

    /// A look ahead that starts at `field`.
    pub fn new(fragments: &'a Vec<(Name, Positioned<FragmentDefinition>)>, field: &'a Field) -> (r:
        Self)
        ensures
            r.reached() == Some(*field),
            r.all() == fragments,
    {
        Lookahead { fragments, field: Some(field) }
    }

    /// Looks one level further: at the first field named `name` that is
    /// selected below the field that was reached. Where none was reached, or
    /// none is selected, the result has reached none.
    pub fn field(&self, name: &str) -> (r: Self)
        ensures
            r.all() == self.all(),
            r.reached() == match self.reached() {
                Some(field) => first_field_named(
                    flat_fields(field.selection_set.node.items@, self.all()@, self.all()@.len()),
                    name@,
                ),
                None => None,
            },
    {
        let field = match self.field {
            Some(field) => field,
            None => {
                return Lookahead { fragments: self.fragments, field: None };
            },
        };
        let below = SelectionField { fragments: self.fragments, field }.selection_set();
        let ghost flat = fields_of(below@);
        let mut i: usize = 0;
        assert(flat.skip(0) =~= flat);
        while i < below.len()
            invariant
                i <= below.len(),
                self.reached() == Some(*field),
                flat == fields_of(below@),
                flat == flat_fields(
                    field.selection_set.node.items@,
                    self.all()@,
                    self.all()@.len(),
                ),
                first_field_named(flat, name@) == first_field_named(flat.skip(i as int), name@),
            decreases below.len() - i,
        {
            assert(flat.skip(i as int).drop_first() =~= flat.skip(i as int + 1));
            assert(flat.skip(i as int)[0] == flat[i as int]);
            assert(flat[i as int] == below@[i as int].node());
            if below[i].field.name.node.eq_str(name) {
                return Lookahead { fragments: self.fragments, field: Some(below[i].field) };
            }
            i += 1;
        }
        Lookahead { fragments: self.fragments, field: None }
    }

    /// Whether the look ahead has reached a field.
    pub fn is_found(&self) -> (r: bool)
        ensures
            r == self.reached() is Some,
    {
        self.field.is_some()
    }
}

} // verus!
