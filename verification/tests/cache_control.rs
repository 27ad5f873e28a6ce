use graphql_core::args::{CombineValidator, Object, Subscription};
use graphql_core::ast::{FragmentDefinition, FragmentSpread, InlineFragment, Selection, TypeCondition};
use graphql_core::visitor::{cache_control_of, concrete_typename, Registry};
use graphql_core::ast::{Field, SelectionSet};
use graphql_core::cache_control::{
    CacheControl, CacheControlCalculate, MetaField, MetaType, VisitMode, VisitorContext,
};
use graphql_core::name::Name;
use graphql_core::pos::{Pos, Positioned};

fn at<T>(node: T) -> Positioned<T> {
    Positioned::new(node, Pos { line: 1, column: 1 })
}

fn field(name: &str) -> Positioned<Field> {
    at(Field {
        alias: None,
        name: at(Name::new(name.to_string()).unwrap()),
        arguments: vec![],
        directives: vec![],
        selection_set: at(SelectionSet { items: vec![] }),
    })
}

#[test]
fn default_is_public_without_a_time() {
    let cc = CacheControl::default();
    assert!(cc.is_public());
    assert_eq!(cc.max_age, 0);
    assert!(!CacheControl { public: true, private: true, max_age: 0 }.is_public());
    assert!(!CacheControl { public: false, private: false, max_age: 0 }.is_public());
}

#[test]
fn merging_with_private_gives_private() {
    let public = CacheControl { public: true, private: false, max_age: 60 };
    let private = CacheControl { public: false, private: true, max_age: 0 };
    let merged = public.merge(&private);
    assert!(!merged.is_public());
    assert_eq!(merged.max_age, 60);
    assert!(!private.merge(&public).is_public());
    assert!(public.merge(&public).is_public());
}

#[test]
fn the_shorter_time_wins() {
    let sixty = CacheControl { public: true, private: false, max_age: 60 };
    let thirty = CacheControl { public: true, private: false, max_age: 30 };
    let unset = CacheControl::default();
    assert_eq!(sixty.merge(&thirty).max_age, 30);
    assert_eq!(thirty.merge(&sixty).max_age, 30);
    assert_eq!(sixty.merge(&unset).max_age, 60);
    assert_eq!(unset.merge(&sixty).max_age, 60);
    assert_eq!(unset.merge(&unset).max_age, 0);
}

#[test]
fn the_visitor_merges_types_and_fields() {
    let query = MetaType::Object {
        name: "Query".to_string(),
        fields: vec![
            MetaField {
                name: "a".to_string(),
                ty: "Int".to_string(),
                cache_control: CacheControl { public: true, private: false, max_age: 30 },
            },
            MetaField {
                name: "b".to_string(),
                ty: "Int".to_string(),
                cache_control: CacheControl { public: false, private: true, max_age: 0 },
            },
        ],
        cache_control: CacheControl { public: true, private: false, max_age: 60 },
    };
    let leaf = MetaType::Other { name: "Int".to_string() };
    let mut total = CacheControl::default();
    {
        let mut visitor = CacheControlCalculate { cache_control: &mut total };
        assert_eq!(visitor.mode(), VisitMode::Inline);
        let set = at(SelectionSet { items: vec![] });
        let ctx = VisitorContext { type_stack: vec![Some(&query)] };
        visitor.enter_selection_set(&ctx, &set);
        assert_eq!(visitor.cache_control.max_age, 60);
        let below = VisitorContext { type_stack: vec![Some(&query), Some(&leaf)] };
        visitor.enter_field(&below, &field("a"));
        assert_eq!(visitor.cache_control.max_age, 30);
        assert!(visitor.cache_control.is_public());
        visitor.enter_field(&below, &field("unknown"));
        assert_eq!(visitor.cache_control.max_age, 30);
        visitor.enter_selection_set(&below, &set);
        assert_eq!(visitor.cache_control.max_age, 30);
        visitor.enter_field(&below, &field("b"));
        assert!(!visitor.cache_control.is_public());
        let empty = VisitorContext { type_stack: vec![] };
        visitor.enter_field(&empty, &field("a"));
        visitor.enter_selection_set(&empty, &set);
    }
    assert!(!total.is_public());
    assert_eq!(total.max_age, 30);
    assert_eq!(query.field_by_name("b").unwrap().name, "b");
    assert!(leaf.field_by_name("a").is_none());
}

#[test]
fn declaration_defaults() {
    let object = Object::default();
    assert!(!object.internal && !object.extends && object.name.is_none());
    assert!(object.cache_control.is_public());
    let subscription = Subscription::default();
    assert!(!subscription.internal && subscription.name.is_none());
    assert_ne!(CombineValidator::And, CombineValidator::Or);
}

fn leaf(name: &str) -> Selection {
    Selection::Field(field(name))
}

fn branch(name: &str, below: Vec<Selection>) -> Selection {
    let mut f = field(name);
    f.node.selection_set = at(SelectionSet { items: below.into_iter().map(at).collect() });
    Selection::Field(f)
}

fn spread(name: &str) -> Selection {
    Selection::FragmentSpread(at(FragmentSpread {
        fragment_name: at(Name::new(name.to_string()).unwrap()),
        directives: vec![],
    }))
}

fn inline(on: Option<&str>, below: Vec<Selection>) -> Selection {
    Selection::InlineFragment(at(InlineFragment {
        type_condition: on
            .map(|name| at(TypeCondition { on: at(Name::new(name.to_string()).unwrap()) })),
        directives: vec![],
        selection_set: at(SelectionSet { items: below.into_iter().map(at).collect() }),
    }))
}

fn object(name: &str, max_age: usize, public: bool, fields: Vec<(&str, &str, usize, bool)>) -> MetaType {
    MetaType::Object {
        name: name.to_string(),
        fields: fields
            .into_iter()
            .map(|(name, ty, max_age, public)| MetaField {
                name: name.to_string(),
                ty: ty.to_string(),
                cache_control: CacheControl { public, private: !public, max_age },
            })
            .collect(),
        cache_control: CacheControl { public, private: !public, max_age },
    }
}

fn registry() -> Registry {
    Registry {
        types: vec![
            object(
                "Query",
                0,
                true,
                vec![("fast", "Int", 10, true), ("item", "[Item!]!", 0, true), ("me", "User", 0, true)],
            ),
            object("Item", 60, true, vec![("name", "String", 30, true), ("price", "Int", 0, true)]),
            object("User", 0, false, vec![("email", "String", 5, true)]),
            MetaType::Other { name: "Int".to_string() },
        ],
    }
}

fn total(selections: Vec<Selection>, fragments: Vec<(Name, Positioned<FragmentDefinition>)>) -> CacheControl {
    let registry = registry();
    let set = at(SelectionSet { items: selections.into_iter().map(at).collect() });
    cache_control_of(&registry, &fragments, registry.type_by_name("Query"), &set)
}

#[test]
fn the_walk_gathers_types_and_fields() {
    assert_eq!(total(vec![], vec![]), CacheControl::default());
    let fast = total(vec![leaf("fast")], vec![]);
    assert!(fast.is_public());
    assert_eq!(fast.max_age, 10);
    let price = total(vec![branch("item", vec![leaf("price")])], vec![]);
    assert!(price.is_public());
    assert_eq!(price.max_age, 60);
    let named = total(vec![branch("item", vec![leaf("price"), leaf("name")])], vec![]);
    assert_eq!(named.max_age, 30);
    let both = total(vec![leaf("fast"), branch("item", vec![leaf("name")])], vec![]);
    assert_eq!(both.max_age, 10);
    let me = total(vec![leaf("fast"), branch("me", vec![leaf("email")])], vec![]);
    assert!(!me.is_public());
    assert_eq!(me.max_age, 5);
    let unselected = total(vec![leaf("me")], vec![]);
    assert!(unselected.is_public());
    let unknown = total(vec![branch("nothing", vec![leaf("email")])], vec![]);
    assert_eq!(unknown, CacheControl::default());
}

#[test]
fn the_walk_opens_fragments() {
    let on_item = inline(Some("Item"), vec![leaf("name")]);
    let inside = total(vec![on_item], vec![]);
    assert_eq!(inside.max_age, 30);
    let untyped = total(vec![inline(None, vec![leaf("fast")])], vec![]);
    assert_eq!(untyped.max_age, 10);
    let user = (
        Name::new("U".to_string()).unwrap(),
        at(FragmentDefinition {
            type_condition: at(TypeCondition { on: at(Name::new("User".to_string()).unwrap()) }),
            directives: vec![],
            selection_set: at(SelectionSet { items: vec![at(leaf("email"))] }),
        }),
    );
    let private = total(vec![spread("U")], vec![user]);
    assert!(!private.is_public());
    assert_eq!(private.max_age, 5);
    assert_eq!(total(vec![spread("Missing")], vec![]), CacheControl::default());
}

#[test]
fn concrete_type_names() {
    assert_eq!(concrete_typename("Item"), "Item");
    assert_eq!(concrete_typename("Item!"), "Item");
    assert_eq!(concrete_typename("[Item!]!"), "Item");
    assert_eq!(concrete_typename("[[Item]]"), "Item");
    assert_eq!(concrete_typename(""), "");
    assert_eq!(concrete_typename("["), "");
    assert_eq!(concrete_typename("!!"), "");
    assert_eq!(registry().concrete_type_by_name("[Item!]!").unwrap().name(), "Item");
    assert!(registry().concrete_type_by_name("[Other]").is_none());
}
