//! A walk over a query, in the order of its text, that gathers what the
//! schema says about keeping the response.

use vstd::prelude::*;
use crate::ast::{FragmentDefinition, Selection, SelectionSet};
use crate::cache_control::{
    entered_field, entered_set, meta_field_named, CacheControl, CacheControlCalculate, MetaType,
    VisitorContext,
};
use crate::name::Name;
use crate::pos::Positioned;
use crate::selection::{find_fragment, fragment_named};
use crate::text::{chars_of, str_eq, string_of};

verus! {

/// The types of a schema.
pub struct Registry {
    /// The types, each under its name.
    pub types: Vec<MetaType>,
}

impl MetaType {
    /// The name of the type.
    pub open spec fn name_view(&self) -> Seq<char> {
        match self {
            MetaType::Object { name, .. } => name@,
            MetaType::Interface { name, .. } => name@,
            MetaType::Other { name } => name@,
        }
    }

    /// The name of the type.
    pub fn name(&self) -> (r: &str)
        ensures
            r@ == self.name_view(),
    {
        match self {
            MetaType::Object { name, .. } => name.as_str(),
            MetaType::Interface { name, .. } => name.as_str(),
            MetaType::Other { name } => name.as_str(),
        }
    }
}

/// The first of `types` whose name is `name`.
pub open spec fn type_named<'a>(types: Seq<MetaType>, name: Seq<char>) -> Option<&'a MetaType>
    decreases types.len(),
{
    if types.len() == 0 {
        None
    } else if types[0].name_view() == name {
        Some(&types[0])
    } else {
        type_named(types.drop_first(), name)
    }
}

/// The name of the type that the text of a type is about: the text without
/// the marks of lists and of types that cannot be null, so `Item` for
/// `[Item!]!`.
pub open spec fn concrete_name(ty: Seq<char>) -> Seq<char>
    decreases ty.len(),
{
    if ty.len() > 0 && ty.last() == '!' {
        concrete_name(ty.drop_last())
    } else if ty.len() > 1 && ty[0] == '[' {
        concrete_name(ty.subrange(1, ty.len() - 1))
    } else if ty.len() == 1 && ty[0] == '[' {
        Seq::empty()
    } else {
        ty
    }
}

/// The name of the type that the text `ty` of a type is about.
pub fn concrete_typename(ty: &str) -> (r: String)
    ensures
        r@ == concrete_name(ty@),
{
    let chars = chars_of(ty);
    let mut lo: usize = 0;
    let mut hi: usize = chars.len();
    assert(chars@.subrange(0, chars@.len() as int) =~= ty@);
    loop
        invariant
            lo <= hi <= chars@.len(),
            concrete_name(ty@) == concrete_name(chars@.subrange(lo as int, hi as int)),
        ensures
            lo <= hi <= chars@.len(),
            concrete_name(ty@) == chars@.subrange(lo as int, hi as int),
        decreases hi - lo,
    {
        let ghost here = chars@.subrange(lo as int, hi as int);
        if hi > lo && chars[hi - 1] == '!' {
            assert(here.drop_last() =~= chars@.subrange(lo as int, hi as int - 1));
            hi -= 1;
        } else if hi - lo > 1 && chars[lo] == '[' {
            assert(here.subrange(1, here.len() - 1) =~= chars@.subrange(
                lo as int + 1,
                hi as int - 1,
            ));
            lo += 1;
            hi -= 1;
        } else if hi - lo == 1 && chars[lo] == '[' {
            assert(chars@.subrange(lo as int + 1, hi as int) =~= Seq::<char>::empty());
            lo += 1;
            break;
        } else {
            break;
        }
    }
    string_of(&chars, lo, hi)
}

impl Registry {
    /// The type named `name`, if the schema has one.
    pub fn type_by_name(&self, name: &str) -> (r: Option<&MetaType>)
        ensures
            r == type_named(self.types@, name@),
    {
        let mut i: usize = 0;
        assert(self.types@.skip(0) =~= self.types@);
        while i < self.types.len()
            invariant
                i <= self.types.len(),
                type_named(self.types@, name@) == type_named(self.types@.skip(i as int), name@),
            decreases self.types.len() - i,
        {
            assert(self.types@.skip(i as int).drop_first() =~= self.types@.skip(i as int + 1));
            if str_eq(self.types[i].name(), name) {
                return Some(&self.types[i]);
            }
            i += 1;
        }
        None
    }

    /// The type that the text `ty` of a type is about, if the schema has
    /// it.
    pub fn concrete_type_by_name(&self, ty: &str) -> (r: Option<&MetaType>)
        ensures
            r == type_named(self.types@, concrete_name(ty@)),
    {
        let name = concrete_typename(ty);
        self.type_by_name(name.as_str())
    }
}

/// The type of the field `name` of the type `current`, if the schema knows
/// both.
pub open spec fn field_type<'a>(
    current: Option<&'a MetaType>,
    name: Seq<char>,
    types: Seq<MetaType>,
) -> Option<&'a MetaType> {
    match current {
        Some(current) => match meta_field_named(current.field_list(), name) {
            Some(field) => type_named(types, concrete_name(field.ty@)),
            None => None,
        },
        None => None,
    }
}

/// What the walk has gathered after the selections `items` of a selection
/// set of the type `current`, when it had gathered `before`.
///
/// A field merges what the schema says of it as a field of `current`, and
/// then what is selected below it is walked with the type of the field. A
/// fragment is walked with the type that it names, where it is used; one
/// without a type is walked with `current`. A named fragment is opened while
/// `depth` is above zero, and is then walked with a depth of one less.
pub open spec fn walked_items(
    items: Seq<Positioned<Selection>>,
    current: Option<&MetaType>,
    types: Seq<MetaType>,
    fragments: Seq<(Name, Positioned<FragmentDefinition>)>,
    depth: nat,
    before: CacheControl,
) -> CacheControl
    decreases depth, items, 0nat,
{
    if items.len() == 0 {
        before
    } else {
        let after_first = match items[0].node {
            Selection::Field(field) => walked_set(
                field.node.selection_set.node.items@,
                field_type(current, field.node.name.node@, types),
                types,
                fragments,
                depth,
                entered_field(before, current, field.node.name.node@),
            ),
            Selection::FragmentSpread(spread) => match fragment_named(
                fragments,
                spread.node.fragment_name.node@,
            ) {
                Some(fragment) => if depth > 0 {
                    walked_set(
                        fragment.selection_set.node.items@,
                        type_named(types, fragment.type_condition.node.on.node@),
                        types,
                        fragments,
                        (depth - 1) as nat,
                        before,
                    )
                } else {
                    before
                },
                None => before,
            },
            Selection::InlineFragment(inline) => walked_set(
                inline.node.selection_set.node.items@,
                match inline.node.type_condition {
                    Some(condition) => type_named(types, condition.node.on.node@),
                    None => current,
                },
                types,
                fragments,
                depth,
                before,
            ),
        };
        walked_items(items.drop_first(), current, types, fragments, depth, after_first)
    }
}

/// What the walk has gathered after a selection set of the type `current`
/// with the selections `items`, when it had gathered `before`: a selection
/// set that selects nothing is not entered; any other merges what its type
/// says and is then walked selection by selection.
pub open spec fn walked_set(
    items: Seq<Positioned<Selection>>,
    current: Option<&MetaType>,
    types: Seq<MetaType>,
    fragments: Seq<(Name, Positioned<FragmentDefinition>)>,
    depth: nat,
    before: CacheControl,
) -> CacheControl
    decreases depth, items, 1nat,
{
    if items.len() == 0 {
        before
    } else {
        walked_items(items, current, types, fragments, depth, entered_set(before, current))
    }
}

/// Once private, always private: the walk over selections never makes
/// public what was private before it, and never takes away a time that was
/// said.
pub proof fn lemma_walk_keeps_private(
    items: Seq<Positioned<Selection>>,
    current: Option<&MetaType>,
    types: Seq<MetaType>,
    fragments: Seq<(Name, Positioned<FragmentDefinition>)>,
    depth: nat,
    before: CacheControl,
)
    ensures
        !before.public_view() ==> !walked_items(
            items,
            current,
            types,
            fragments,
            depth,
            before,
        ).public_view(),
        before.max_age != 0 ==> walked_items(items, current, types, fragments, depth, before).max_age
            != 0,
    decreases depth, items, 0nat,
{
    if items.len() > 0 {
        let after_first = match items[0].node {
            Selection::Field(field) => {
                let entered = entered_field(before, current, field.node.name.node@);
                let below = field_type(current, field.node.name.node@, types);
                lemma_walk_set_keeps_private(
                    field.node.selection_set.node.items@,
                    below,
                    types,
                    fragments,
                    depth,
                    entered,
                );
                walked_set(field.node.selection_set.node.items@, below, types, fragments, depth, entered)
            },
            Selection::FragmentSpread(spread) => match fragment_named(
                fragments,
                spread.node.fragment_name.node@,
            ) {
                Some(fragment) => if depth > 0 {
                    let below = type_named(types, fragment.type_condition.node.on.node@);
                    lemma_walk_set_keeps_private(
                        fragment.selection_set.node.items@,
                        below,
                        types,
                        fragments,
                        (depth - 1) as nat,
                        before,
                    );
                    walked_set(
                        fragment.selection_set.node.items@,
                        below,
                        types,
                        fragments,
                        (depth - 1) as nat,
                        before,
                    )
                } else {
                    before
                },
                None => before,
            },
            Selection::InlineFragment(inline) => {
                let below = match inline.node.type_condition {
                    Some(condition) => type_named(types, condition.node.on.node@),
                    None => current,
                };
                lemma_walk_set_keeps_private(
                    inline.node.selection_set.node.items@,
                    below,
                    types,
                    fragments,
                    depth,
                    before,
                );
                walked_set(inline.node.selection_set.node.items@, below, types, fragments, depth, before)
            },
        };
        lemma_walk_keeps_private(items.drop_first(), current, types, fragments, depth, after_first);
    }
}

/// Once private, always private: the walk over a selection set never makes
/// public what was private before it, and never takes away a time that was
/// said.
pub proof fn lemma_walk_set_keeps_private(
    items: Seq<Positioned<Selection>>,
    current: Option<&MetaType>,
    types: Seq<MetaType>,
    fragments: Seq<(Name, Positioned<FragmentDefinition>)>,
    depth: nat,
    before: CacheControl,
)
    ensures
        !before.public_view() ==> !walked_set(
            items,
            current,
            types,
            fragments,
            depth,
            before,
        ).public_view(),
        before.max_age != 0 ==> walked_set(items, current, types, fragments, depth, before).max_age
            != 0,
    decreases depth, items, 1nat,
{
    if items.len() > 0 {
        lemma_walk_keeps_private(
            items,
            current,
            types,
            fragments,
            depth,
            entered_set(before, current),
        );
    }
}

fn walk_items<'a>(
    visitor: &mut CacheControlCalculate<'_>,
    ctx: &mut VisitorContext<'a>,
    registry: &'a Registry,
    fragments: &Vec<(Name, Positioned<FragmentDefinition>)>,
    items: &Vec<Positioned<Selection>>,
    from: usize,
    depth: usize,
)
    requires
        from <= items@.len(),
    ensures
        *final(visitor).cache_control == walked_items(
            items@.skip(from as int),
            old(ctx).current(),
            registry.types@,
            fragments@,
            depth as nat,
            *old(visitor).cache_control,
        ),
        final(ctx).type_stack@ == old(ctx).type_stack@,
    decreases depth, items@.skip(from as int), 0nat,
{
    if from >= items.len() {
        return ;
    }
    let ghost here = items@.skip(from as int);
    let ghost stack = ctx.type_stack@;
    let ghost current = ctx.current();
    assert(here.drop_first() =~= items@.skip(from as int + 1));
    assert(here[0] == items@[from as int]);
    match &items[from].node {
        Selection::Field(field) => {
            let below = match ctx.current_type() {
                Some(current) => match current.field_by_name(field.node.name.node.as_str()) {
                    Some(meta) => registry.concrete_type_by_name(meta.ty.as_str()),
                    None => None,
                },
                None => None,
            };
            ctx.type_stack.push(below);
            assert(ctx.parent() == current);
            visitor.enter_field(ctx, field);
            assert(decreases_to!(here => here[0]));
            assert(decreases_to!(here[0] => here[0].node));
            assert(decreases_to!(here[0].node => field));
            assert(decreases_to!(field.node.selection_set.node.items
                => field.node.selection_set.node.items@));
            walk_set(visitor, ctx, registry, fragments, &field.node.selection_set, depth);
            ctx.type_stack.pop();
            assert(ctx.type_stack@ =~= stack);
        },
        Selection::FragmentSpread(spread) => {
            match find_fragment(fragments, &spread.node.fragment_name.node) {
                Some(fragment) => {
                    if depth > 0 {
                        let below = registry.type_by_name(
                            fragment.type_condition.node.on.node.as_str(),
                        );
                        ctx.type_stack.push(below);
                        walk_set(
                            visitor,
                            ctx,
                            registry,
                            fragments,
                            &fragment.selection_set,
                            depth - 1,
                        );
                        ctx.type_stack.pop();
                        assert(ctx.type_stack@ =~= stack);
                    }
                },
                None => {},
            }
        },
        Selection::InlineFragment(inline) => {
            let below = match &inline.node.type_condition {
                Some(condition) => registry.type_by_name(condition.node.on.node.as_str()),
                None => ctx.current_type(),
            };
            ctx.type_stack.push(below);
            assert(decreases_to!(here => here[0]));
            assert(decreases_to!(here[0] => here[0].node));
            assert(decreases_to!(here[0].node => inline));
            assert(decreases_to!(inline.node.selection_set.node.items
                => inline.node.selection_set.node.items@));
            walk_set(visitor, ctx, registry, fragments, &inline.node.selection_set, depth);
            ctx.type_stack.pop();
            assert(ctx.type_stack@ =~= stack);
        },
    }
    walk_items(visitor, ctx, registry, fragments, items, from + 1, depth);
}

fn walk_set<'a>(
    visitor: &mut CacheControlCalculate<'_>,
    ctx: &mut VisitorContext<'a>,
    registry: &'a Registry,
    fragments: &Vec<(Name, Positioned<FragmentDefinition>)>,
    selection_set: &Positioned<SelectionSet>,
    depth: usize,
)
    ensures
        *final(visitor).cache_control == walked_set(
            selection_set.node.items@,
            old(ctx).current(),
            registry.types@,
            fragments@,
            depth as nat,
            *old(visitor).cache_control,
        ),
        final(ctx).type_stack@ == old(ctx).type_stack@,
    decreases depth, selection_set.node.items@, 1nat,
{
    if selection_set.node.items.len() > 0 {
        visitor.enter_selection_set(ctx, selection_set);
        assert(selection_set.node.items@.skip(0) =~= selection_set.node.items@);
        walk_items(visitor, ctx, registry, fragments, &selection_set.node.items, 0, depth);
    }
}

/// Walks `selection_set`, a selection set of the type `root`, and returns
/// what the types and fields that it meets say about keeping the response;
/// see [`walked_set`]. Named fragments are followed to the depth of their
/// number.
pub fn cache_control_of<'a>(
    registry: &'a Registry,
    fragments: &Vec<(Name, Positioned<FragmentDefinition>)>,
    root: Option<&'a MetaType>,
    selection_set: &Positioned<SelectionSet>,
) -> (r: CacheControl)
    ensures
        r == walked_set(
            selection_set.node.items@,
            root,
            registry.types@,
            fragments@,
            fragments@.len(),
            CacheControl { public: true, private: false, max_age: 0 },
        ),
{
    let mut total = CacheControl::default();
    let mut type_stack: Vec<Option<&'a MetaType>> = Vec::new();
    type_stack.push(root);
    let mut ctx = VisitorContext { type_stack };
    let mut visitor = CacheControlCalculate { cache_control: &mut total };
    walk_set(&mut visitor, &mut ctx, registry, fragments, selection_set, fragments.len());
    *visitor.cache_control
}

} // verus!
