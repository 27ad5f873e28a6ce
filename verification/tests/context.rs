use std::sync::atomic::AtomicUsize;

use graphql_core::ast::{
    ConstDirective, Directive, Field, FragmentDefinition, FragmentSpread, InlineFragment,
    OperationDefinition, Selection, SelectionSet, TypeCondition, VariableDefinition,
};
use graphql_core::context::{
    check_ifdef, check_skip, ContextBase, InputType, QueryEnv, QueryEnvInner, SchemaEnv,
    VariableScope,
};
use graphql_core::data::Data;
use graphql_core::error::ServerError;
use graphql_core::headers::{HeaderError, Headers, SharedHeaders};
use graphql_core::maybe_undefined::MaybeUndefined;
use graphql_core::name::Name;
use graphql_core::number::Number;
use graphql_core::path::ResolveId;
use graphql_core::pos::{Pos, Positioned};
use graphql_core::types::{OperationType, Type};
use graphql_core::value::{ConstValue, Value};
use graphql_core::variables::{VariableLookup, Variables};

fn name(text: &str) -> Name {
    Name::new(text.to_string()).unwrap()
}

fn pos(line: usize, column: usize) -> Pos {
    Pos { line, column }
}

fn at<T>(node: T, line: usize, column: usize) -> Positioned<T> {
    Positioned::new(node, pos(line, column))
}

fn set(items: Vec<Selection>) -> Positioned<SelectionSet> {
    at(SelectionSet { items: items.into_iter().map(|s| at(s, 1, 1)).collect() }, 1, 1)
}

fn field(text: &str, below: Vec<Selection>) -> Field {
    Field {
        alias: None,
        name: at(name(text), 1, 1),
        arguments: vec![],
        directives: vec![],
        selection_set: set(below),
    }
}

fn leaf(text: &str) -> Selection {
    Selection::Field(at(field(text, vec![]), 1, 1))
}

fn directive(text: &str, arguments: Vec<(&str, Value)>) -> Positioned<Directive> {
    at(
        Directive {
            name: at(name(text), 2, 3),
            arguments: arguments
                .into_iter()
                .map(|(key, value)| (at(name(key), 2, 9), at(value, 2, 13)))
                .collect(),
        },
        2,
        2,
    )
}

fn definition(text: &str, ty: &str, default: Option<ConstValue>) -> Positioned<VariableDefinition> {
    at(
        VariableDefinition {
            name: at(name(text), 1, 8),
            var_type: at(Type::new(ty).unwrap(), 1, 12),
            default_value: default.map(|value| at(value, 1, 20)),
        },
        1,
        7,
    )
}

fn operation(definitions: Vec<Positioned<VariableDefinition>>) -> Positioned<OperationDefinition> {
    at(
        OperationDefinition {
            ty: OperationType::Query,
            variable_definitions: definitions,
            directives: vec![],
            selection_set: set(vec![]),
        },
        1,
        1,
    )
}

fn env(
    variables: Variables,
    definitions: Vec<Positioned<VariableDefinition>>,
    fragments: Vec<(Name, Positioned<FragmentDefinition>)>,
    ctx_data: Data<i32>,
) -> QueryEnv<i32> {
    QueryEnv::new(QueryEnvInner {
        variables,
        operation: operation(definitions),
        fragments,
        ctx_data,
        http_headers: SharedHeaders::new(Headers::new()),
    })
}

fn plain_env() -> QueryEnv<i32> {
    env(Variables::new(), vec![], vec![], Data::new())
}

fn message(result: Result<bool, ServerError>) -> (String, Vec<Pos>) {
    let e = result.unwrap_err();
    (e.message, e.locations)
}

#[test]
fn paths_grow_with_fields_and_indices() {
    let schema = SchemaEnv { data: Data::<i32>::new() };
    let query = plain_env();
    let counter = AtomicUsize::new(0);
    let root_set = set(vec![]);
    let root = query.create_context(&schema, None, &root_set, ResolveId::root(), &counter);
    assert!(root.path_node.is_none());
    let obj = at(field("obj", vec![]), 1, 1);
    let detail = at(field("detail", vec![]), 1, 1);
    let mut aliased = field("c", vec![]);
    aliased.alias = Some(at(name("renamed"), 1, 1));
    let plain_c = at(field("c", vec![]), 1, 1);
    let aliased = at(aliased, 1, 1);
    let ctx_obj = root.with_field(&obj);
    let ctx_detail = ctx_obj.with_field(&detail);
    let ctx_c = ctx_detail.with_field(&plain_c);
    assert_eq!(
        ctx_c.path_node.unwrap().to_string_vec(),
        vec!["obj".to_string(), "detail".to_string(), "c".to_string()]
    );
    let ctx_alias = ctx_detail.with_field(&aliased);
    assert_eq!(ctx_alias.path_node.unwrap().to_string(), "obj.detail.renamed");
    assert_eq!(ctx_alias.path_node.unwrap().field_name(), "renamed");
    let below = ctx_detail.with_selection_set(&root_set);
    assert_eq!(below.path_node.unwrap().to_string(), "obj.detail");
    assert_eq!(below.resolve_id, ctx_detail.resolve_id);
    let item = below.with_index(7);
    assert_eq!(item.path_node.unwrap().to_string(), "obj.detail.7");
    assert_eq!(item.path_node.unwrap().field_name(), "detail");
    assert_eq!(item.resolve_id.parent, Some(below.resolve_id.current));
}

#[test]
fn resolve_ids_are_fresh_and_linked() {
    let schema = SchemaEnv { data: Data::<i32>::new() };
    let query = plain_env();
    let counter = AtomicUsize::new(0);
    let root_set = set(vec![]);
    let root = query.create_context(&schema, None, &root_set, ResolveId::root(), &counter);
    let a = at(field("a", vec![]), 1, 1);
    let b = at(field("b", vec![]), 1, 1);
    let ctx_a = root.with_field(&a);
    let ctx_b = root.with_field(&b);
    let ctx_ab = ctx_a.with_field(&b);
    assert_eq!(ctx_a.resolve_id, ResolveId { parent: Some(0), current: 1 });
    assert_eq!(ctx_b.resolve_id, ResolveId { parent: Some(0), current: 2 });
    assert_eq!(ctx_ab.resolve_id, ResolveId { parent: Some(1), current: 3 });
    assert_eq!(root.get_child_resolve_id(), ResolveId { parent: Some(0), current: 4 });
    assert_eq!(ctx_ab.resolve_id.to_string(), "1:3");
}

#[test]
fn skip_and_include() {
    let vars = Variables::new();
    let definitions = vec![];
    let scope = VariableScope { definitions: &definitions, variables: &vars };
    let skip_true = vec![directive("skip", vec![("if", Value::Boolean(true))])];
    let skip_false = vec![directive("skip", vec![("if", Value::Boolean(false))])];
    let include_true = vec![directive("include", vec![("if", Value::Boolean(true))])];
    let include_false = vec![directive("include", vec![("if", Value::Boolean(false))])];
    assert_eq!(check_skip(&skip_true, &scope), Ok(true));
    assert_eq!(check_skip(&skip_false, &scope), Ok(false));
    assert_eq!(check_skip(&include_true, &scope), Ok(false));
    assert_eq!(check_skip(&include_false, &scope), Ok(true));
    assert_eq!(check_skip(&[], &scope), Ok(false));
    let other = vec![directive("deprecated", vec![]), directive("ifdef", vec![])];
    assert_eq!(check_skip(&other, &scope), Ok(false));
    assert!(check_ifdef(&other));
    assert!(!check_ifdef(&skip_true));
    assert!(!check_ifdef(&[]));
}

#[test]
fn a_condition_is_required() {
    let vars = Variables::new();
    let definitions = vec![];
    let scope = VariableScope { definitions: &definitions, variables: &vars };
    let skip = vec![directive("skip", vec![])];
    assert_eq!(
        message(check_skip(&skip, &scope)),
        (
            "Directive @skip requires argument `if` of type `Boolean!` but it was not provided."
                .to_string(),
            vec![pos(2, 2)]
        )
    );
    let including = vec![directive("include", vec![("unless", Value::Boolean(true))])];
    assert_eq!(
        message(check_skip(&including, &scope)),
        (
            "Directive @include requires argument `if` of type `Boolean!` but it was not provided."
                .to_string(),
            vec![pos(2, 2)]
        )
    );
}

#[test]
fn the_first_directive_that_omits_ends_the_reading() {
    let vars = Variables::new();
    let definitions = vec![];
    let scope = VariableScope { definitions: &definitions, variables: &vars };
    let stops = vec![
        directive("include", vec![("if", Value::Boolean(true))]),
        directive("skip", vec![("if", Value::Boolean(true))]),
        directive("skip", vec![]),
    ];
    assert_eq!(check_skip(&stops, &scope), Ok(true));
    let fails = vec![
        directive("skip", vec![("if", Value::Boolean(false))]),
        directive("skip", vec![]),
        directive("skip", vec![("if", Value::Boolean(true))]),
    ];
    assert!(check_skip(&fails, &scope).is_err());
}

#[test]
fn conditions_take_variables() {
    let vars = Variables(vec![(name("hide"), ConstValue::Boolean(true))]);
    let definitions = vec![
        definition("hide", "Boolean!", None),
        definition("show", "Boolean!", Some(ConstValue::Boolean(false))),
        definition("maybe", "Boolean", None),
        definition("strict", "Boolean!", None),
    ];
    let scope = VariableScope { definitions: &definitions, variables: &vars };
    let hide = vec![directive("skip", vec![("if", Value::Variable(name("hide")))])];
    assert_eq!(check_skip(&hide, &scope), Ok(true));
    let show = vec![directive("include", vec![("if", Value::Variable(name("show")))])];
    assert_eq!(check_skip(&show, &scope), Ok(true));
    let unknown = vec![directive("skip", vec![("if", Value::Variable(name("unknown")))])];
    assert_eq!(
        message(check_skip(&unknown, &scope)),
        ("Variable unknown is not defined.".to_string(), vec![pos(2, 13)])
    );
    let strict = vec![directive("skip", vec![("if", Value::Variable(name("strict")))])];
    assert_eq!(
        message(check_skip(&strict, &scope)),
        ("Variable strict is not defined.".to_string(), vec![pos(2, 13)])
    );
    let maybe = vec![directive("skip", vec![("if", Value::Variable(name("maybe")))])];
    assert_eq!(
        message(check_skip(&maybe, &scope)),
        ("Expected input type \"Boolean\", found null.".to_string(), vec![pos(2, 13)])
    );
    let wrong = vec![directive("skip", vec![("if", Value::String("yes".to_string()))])];
    assert_eq!(
        message(check_skip(&wrong, &scope)),
        ("Expected input type \"Boolean\", found \"yes\".".to_string(), vec![pos(2, 13)])
    );
    assert_eq!(scope.get(&name("hide")), Some(ConstValue::Boolean(true)));
    assert_eq!(scope.get(&name("show")), Some(ConstValue::Boolean(false)));
    assert_eq!(scope.get(&name("maybe")), Some(ConstValue::Null));
    assert_eq!(scope.get(&name("strict")), None);
}

#[test]
fn an_undeclared_variable_has_no_value() {
    let vars = Variables(vec![(name("x"), ConstValue::Boolean(true))]);
    let definitions = vec![];
    let scope = VariableScope { definitions: &definitions, variables: &vars };
    assert_eq!(scope.get(&name("x")), None);
}

#[test]
fn context_directives_and_variables() {
    let schema = SchemaEnv { data: Data::<i32>::new() };
    let query = env(
        Variables(vec![(name("n"), ConstValue::Number(Number::PosInt(3)))]),
        vec![definition("n", "Int", None), definition("flag", "Boolean", Some(ConstValue::Boolean(true)))],
        vec![],
        Data::new(),
    );
    let counter = AtomicUsize::new(0);
    let mut node = field("f", vec![]);
    node.arguments = vec![
        (at(name("on"), 3, 1), at(Value::Variable(name("flag")), 3, 5)),
        (at(name("bad"), 4, 1), at(Value::Variable(name("n")), 4, 5)),
        (at(name("missing"), 5, 1), at(Value::Variable(name("nothing")), 5, 5)),
    ];
    node.directives = vec![directive("skip", vec![("if", Value::Variable(name("flag")))])];
    let node = at(node, 1, 1);
    let ctx = query.create_context(&schema, None, &node, ResolveId::root(), &counter);
    assert_eq!(ctx.is_skip(&node.node.directives), Ok(true));
    assert!(!ctx.is_ifdef(&node.node.directives));
    assert_eq!(ctx.var_value(&name("n"), pos(9, 9)), Ok(ConstValue::Number(Number::PosInt(3))));
    let failed = ctx.var_value(&name("nothing"), pos(9, 9)).unwrap_err();
    assert_eq!(failed.message, "Variable nothing is not defined.");
    assert_eq!(failed.locations, vec![pos(9, 9)]);
    assert_eq!(
        ctx.resolve_input_value(at(Value::List(vec![Value::Variable(name("n"))]), 1, 1)),
        Ok(ConstValue::List(vec![ConstValue::Number(Number::PosInt(3))]))
    );
    assert_eq!(ctx.param_value::<bool, fn() -> bool>("on", None), Ok(true));
    assert_eq!(ctx.param_value::<bool, _>("on", Some(|| false)), Ok(true));
    assert_eq!(ctx.param_value::<bool, _>("absent", Some(|| true)), Ok(true));
    let absent = ctx.param_value::<bool, fn() -> bool>("absent", None).unwrap_err();
    assert_eq!(absent.message, "Expected input type \"Boolean\", found null.");
    assert_eq!(absent.locations, vec![Pos::default()]);
    let bad = ctx.param_value::<bool, fn() -> bool>("bad", None).unwrap_err();
    assert_eq!(bad.message, "Expected input type \"Boolean\", found 3.");
    assert_eq!(bad.locations, vec![pos(4, 5)]);
    let missing = ctx.param_value::<bool, fn() -> bool>("missing", None).unwrap_err();
    assert_eq!(missing.message, "Variable nothing is not defined.");
    assert_eq!(missing.locations, vec![pos(5, 5)]);
    assert_eq!(<bool as InputType>::parse(Some(ConstValue::Boolean(false))), Ok(false));
}

#[test]
fn query_data_wins_over_schema_data() {
    let mut at_schema = Data::new();
    at_schema.insert("T".to_string(), 1);
    at_schema.insert("OnlySchema".to_string(), 10);
    let mut at_query = Data::new();
    at_query.insert("T".to_string(), 2);
    at_query.insert("OnlyQuery".to_string(), 20);
    let schema = SchemaEnv { data: at_schema };
    let query = env(Variables::new(), vec![], vec![], at_query);
    let counter = AtomicUsize::new(0);
    let root_set = set(vec![]);
    let ctx: ContextBase<_, i32> =
        query.create_context(&schema, None, &root_set, ResolveId::root(), &counter);
    assert_eq!(ctx.data_opt("T"), Some(&2));
    assert_eq!(ctx.data("T"), Ok(&2));
    assert_eq!(*ctx.data_unchecked("T"), 2);
    assert_eq!(ctx.data_opt("OnlySchema"), Some(&10));
    assert_eq!(ctx.data_opt("OnlyQuery"), Some(&20));
    assert_eq!(ctx.data_opt("Neither"), None);
    assert_eq!(ctx.data("Neither").unwrap_err().message, "Data `Neither` does not exist.");
}

#[test]
fn data_holds_one_value_for_each_descriptor() {
    let mut data = Data::new();
    assert!(!data.contains("a"));
    assert_eq!(data.get("a"), None);
    data.insert("a".to_string(), "first");
    data.insert("b".to_string(), "other");
    assert_eq!(data.get("a"), Some(&"first"));
    data.insert("a".to_string(), "second");
    assert_eq!(data.get("a"), Some(&"second"));
    assert_eq!(data.get("b"), Some(&"other"));
    assert!(data.contains("b"));
    assert_eq!(data.get("A"), None);
}

#[test]
fn context_headers() {
    let schema = SchemaEnv { data: Data::<i32>::new() };
    let query = plain_env();
    let counter = AtomicUsize::new(0);
    let root_set = set(vec![]);
    let ctx = query.create_context(&schema, None, &root_set, ResolveId::root(), &counter);
    assert!(!ctx.http_header_contains("Access-Control-Allow-Origin"));
    assert_eq!(ctx.insert_http_header("Access-Control-Allow-Origin", "*".to_string()), Ok(None));
    assert!(ctx.http_header_contains("Access-Control-Allow-Origin"));
    assert_eq!(ctx.insert_http_header("Custom-Header", "1234".to_string()), Ok(None));
    assert_eq!(
        ctx.insert_http_header("Custom-Header", "Hello World".to_string()),
        Ok(Some("1234".to_string()))
    );
    assert_eq!(ctx.insert_http_header("Set-Cookie", "Chocolate Chip".to_string()), Ok(None));
    assert_eq!(ctx.append_http_header("Set-Cookie", "Macadamia".to_string()), Ok(true));
    assert_eq!(
        query.get().http_headers.get_all("Set-Cookie"),
        vec!["Chocolate Chip".to_string(), "Macadamia".to_string()]
    );
    assert_eq!(ctx.append_http_header("New", "x".to_string()), Ok(false));
    assert_eq!(ctx.insert_http_header("bad name", "x".to_string()), Err(HeaderError::InvalidName));
}

fn fragment(on: &str, below: Vec<Selection>) -> Positioned<FragmentDefinition> {
    at(
        FragmentDefinition {
            type_condition: at(TypeCondition { on: at(name(on), 1, 1) }, 1, 1),
            directives: vec![],
            selection_set: set(below),
        },
        1,
        1,
    )
}

fn spread(text: &str) -> Selection {
    Selection::FragmentSpread(at(
        FragmentSpread { fragment_name: at(name(text), 1, 1), directives: vec![] },
        1,
        1,
    ))
}

fn inline(below: Vec<Selection>) -> Selection {
    Selection::InlineFragment(at(
        InlineFragment { type_condition: None, directives: vec![], selection_set: set(below) },
        1,
        1,
    ))
}

#[test]
fn selections_are_flattened() {
    let schema = SchemaEnv { data: Data::<i32>::new() };
    let fragments = vec![
        (name("BC"), fragment("MyObj", vec![leaf("b"), spread("C")])),
        (name("C"), fragment("MyObj", vec![leaf("c")])),
        (name("Loop"), fragment("MyObj", vec![leaf("l"), spread("Loop")])),
    ];
    let query = env(Variables::new(), vec![], fragments, Data::new());
    let counter = AtomicUsize::new(0);
    let obj = at(
        field(
            "obj",
            vec![
                leaf("a"),
                inline(vec![leaf("i"), inline(vec![leaf("j")])]),
                spread("BC"),
                spread("Unknown"),
                Selection::Field(at(field("detail", vec![leaf("c"), leaf("d")]), 1, 1)),
            ],
        ),
        1,
        1,
    );
    let ctx = query.create_context(&schema, None, &obj, ResolveId::root(), &counter);
    let names: Vec<&str> = ctx.field().selection_set().iter().map(|f| f.name()).collect();
    assert_eq!(names, vec!["a", "i", "j", "b", "c", "detail"]);
    assert_eq!(ctx.field().name(), "obj");
    assert!(ctx.look_ahead().is_found());
    assert!(ctx.look_ahead().field("a").is_found());
    assert!(ctx.look_ahead().field("c").is_found());
    assert!(ctx.look_ahead().field("detail").field("c").is_found());
    assert!(!ctx.look_ahead().field("detail").field("a").is_found());
    assert!(!ctx.look_ahead().field("z").is_found());
    assert!(!ctx.look_ahead().field("z").field("a").is_found());
    let looping = at(field("obj", vec![spread("Loop"), leaf("end")]), 1, 1);
    let ctx = query.create_context(&schema, None, &looping, ResolveId::root(), &counter);
    let names: Vec<&str> = ctx.field().selection_set().iter().map(|f| f.name()).collect();
    assert_eq!(names, vec!["l", "l", "l", "end"]);
}

#[test]
fn directives_and_their_arguments() {
    let d = directive("skip", vec![("if", Value::Boolean(true)), ("if", Value::Boolean(false))]);
    assert_eq!(d.node.get_argument("if").unwrap().node, Value::Boolean(true));
    assert!(d.node.get_argument("unless").is_none());
    let c = ConstDirective {
        name: at(name("deprecated"), 1, 2),
        arguments: vec![(at(name("reason"), 1, 3), at(ConstValue::String("old".to_string()), 1, 4))],
    };
    assert_eq!(c.get_argument("reason").unwrap().node, ConstValue::String("old".to_string()));
    assert!(c.get_argument("other").is_none());
    let converted = c.into_directive();
    assert_eq!(converted.name, at(name("deprecated"), 1, 2));
    assert_eq!(
        converted.arguments,
        vec![(at(name("reason"), 1, 3), at(Value::String("old".to_string()), 1, 4))]
    );
    let mut f = field("f", vec![]);
    assert_eq!(f.response_key().node.as_str(), "f");
    f.alias = Some(at(name("g"), 1, 1));
    assert_eq!(f.response_key().node.as_str(), "g");
    assert!(f.get_argument("x").is_none());
}

#[test]
fn optional_and_undefined_arguments() {
    let schema = SchemaEnv { data: Data::<i32>::new() };
    let query = plain_env();
    let counter = AtomicUsize::new(0);
    let mut node = field("f", vec![]);
    node.arguments = vec![
        (at(name("yes"), 3, 1), at(Value::Boolean(true), 3, 5)),
        (at(name("null"), 4, 1), at(Value::Null, 4, 5)),
        (at(name("text"), 5, 1), at(Value::String("x".to_string()), 5, 5)),
    ];
    let node = at(node, 1, 1);
    let ctx = query.create_context(&schema, None, &node, ResolveId::root(), &counter);
    assert_eq!(ctx.param_value::<Option<bool>, fn() -> Option<bool>>("yes", None), Ok(Some(true)));
    assert_eq!(ctx.param_value::<Option<bool>, fn() -> Option<bool>>("null", None), Ok(None));
    assert_eq!(ctx.param_value::<Option<bool>, fn() -> Option<bool>>("absent", None), Ok(None));
    assert!(ctx.param_value::<Option<bool>, fn() -> Option<bool>>("text", None).is_err());
    assert_eq!(
        ctx.param_value::<MaybeUndefined<bool>, fn() -> MaybeUndefined<bool>>("yes", None),
        Ok(MaybeUndefined::Value(true))
    );
    assert_eq!(
        ctx.param_value::<MaybeUndefined<bool>, fn() -> MaybeUndefined<bool>>("null", None),
        Ok(MaybeUndefined::Null)
    );
    assert_eq!(
        ctx.param_value::<MaybeUndefined<bool>, fn() -> MaybeUndefined<bool>>("absent", None),
        Ok(MaybeUndefined::Undefined)
    );
    let wrong = ctx
        .param_value::<MaybeUndefined<bool>, fn() -> MaybeUndefined<bool>>("text", None)
        .unwrap_err();
    assert_eq!(wrong.message, "Expected input type \"Boolean\", found \"x\".");
    assert_eq!(wrong.locations, vec![pos(5, 5)]);
}
