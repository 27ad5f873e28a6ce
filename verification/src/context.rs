//! The context in which a field or a selection set is resolved.

use std::sync::atomic::AtomicUsize;
use std::sync::Arc;
use vstd::prelude::*;
use crate::ast::{
    first_named, Directive, Field, FragmentDefinition, OperationDefinition, SelectionSet,
    VariableDefinition,
};
use crate::data::{lookup_scoped, missing_data, missing_data_text, scoped, Data};
use crate::error::{error_at, expected_type_text, Error, InputValueError, ServerError, ServerErrorView};
use crate::headers::{canonical_name, HeaderError, SharedHeaders};
use crate::maybe_undefined::MaybeUndefined;
use crate::name::Name;
use crate::path::{QueryPathNode, QueryPathSegment, ResolveId, SegmentView};
use crate::pos::{Pos, Positioned};
use crate::selection::{Lookahead, SelectionField};
use crate::text::push_text;
use crate::value::{ConstValue, Value, ValueView};
use crate::variables::{entry_of, resolved, VariableLookup, Variables};

verus! {

/// The first of `definitions` that declares the variable `name`.
pub open spec fn definition_of(definitions: Seq<Positioned<VariableDefinition>>, name: Seq<char>)
    -> Option<VariableDefinition>
    decreases definitions.len(),
{
    if definitions.len() == 0 {
        None
    } else if definitions[0].node.name.node@ == name {
        Some(definitions[0].node)
    } else {
        definition_of(definitions.drop_first(), name)
    }
}

/// The variables of an operation as execution sees them: a variable has a
/// value only if the operation declares it, and then the value that the
/// request gives it or, failing that, its default.
pub struct VariableScope<'a> {
    /// The variables that the operation declares.
    pub definitions: &'a Vec<Positioned<VariableDefinition>>,
    /// The values that the request gives.
    pub variables: &'a Variables,
}

impl<'a> VariableLookup for VariableScope<'a> {
    open spec fn bound(&self, name: Seq<char>) -> Option<ValueView> {
        match definition_of(self.definitions@, name) {
            Some(definition) => match entry_of(self.variables@, name) {
                Some(value) => Some(value),
                None => definition.default_view(),
            },
            None => None,
        }
    }

    fn get(&self, name: &Name) -> (r: Option<ConstValue>) {
        let mut i: usize = 0;
        assert(self.definitions@.skip(0) =~= self.definitions@);
        while i < self.definitions.len()
            invariant
                i <= self.definitions.len(),
                definition_of(self.definitions@, name@) == definition_of(
                    self.definitions@.skip(i as int),
                    name@,
                ),
            decreases self.definitions.len() - i,
        {
            assert(self.definitions@.skip(i as int).drop_first() =~= self.definitions@.skip(
                i as int + 1,
            ));
            if self.definitions[i].node.name.node.eq_str(name.as_str()) {
                return match self.variables.get(name) {
                    Some(value) => Some(value),
                    None => self.definitions[i].node.default_value(),
                };
            }
            i += 1;
        }
        None
    }
}

/// The message for a variable without a value: `Variable <name> is not
/// defined.`
pub open spec fn variable_not_defined_text(name: Seq<char>) -> Seq<char> {
    "Variable "@ + name + " is not defined."@
}

/// The error for the variable `name`, used at `pos`, that has no value.
pub fn variable_not_defined(name: &str, pos: Pos) -> (r: ServerError)
    ensures
        r@ == error_at(variable_not_defined_text(name@), pos),
{
    let mut message = String::new();
    push_text(&mut message, "Variable ");
    push_text(&mut message, name);
    push_text(&mut message, " is not defined.");
    assert(message@ =~= variable_not_defined_text(name@));
    let r = ServerError::new(message).at(pos);
    assert(r.locations@ =~= seq![pos]);
    r
}

/// The message for a `@skip` or `@include` without its condition.
pub open spec fn missing_condition_text(including: bool) -> Seq<char> {
    "Directive @"@ + (if including {
        "include"@
    } else {
        "skip"@
    }) + " requires argument `if` of type `Boolean!` but it was not provided."@
}

/// The error for a `@skip` or `@include` at `pos` without its condition.
pub fn missing_condition(including: bool, pos: Pos) -> (r: ServerError)
    ensures
        r@ == error_at(missing_condition_text(including), pos),
{
    let mut message = String::new();
    push_text(&mut message, "Directive @");
    if including {
        push_text(&mut message, "include");
    } else {
        push_text(&mut message, "skip");
    }
    push_text(&mut message, " requires argument `if` of type `Boolean!` but it was not provided.");
    assert(message@ =~= missing_condition_text(including));
    let r = ServerError::new(message).at(pos);
    assert(r.locations@ =~= seq![pos]);
    r
}

/// What the value `value` of an argument at `pos` resolves to: the value
/// with its variables replaced, or the error for the first variable that
/// has no value.
pub open spec fn resolved_input<L: VariableLookup>(value: ValueView, pos: Pos, lookup: &L)
    -> Result<ValueView, ServerErrorView> {
    match resolved(value, lookup) {
        Ok(v) => Ok(v),
        Err(name) => Err(error_at(variable_not_defined_text(name), pos)),
    }
}

/// Replaces the variables of the value of an argument by their values.
pub fn resolve_input<L: VariableLookup>(value: Positioned<Value>, lookup: &L) -> (r: Result<
    ConstValue,
    ServerError,
>)
    ensures
        match resolved_input(value.node@, value.pos, lookup) {
            Ok(v) => r is Ok && r->Ok_0@ == v,
            Err(e) => r is Err && r->Err_0@ == e,
        },
{
    let pos = value.pos;
    match value.node.into_const_with(lookup) {
        Ok(v) => Ok(v),
        Err(name) => Err(variable_not_defined(name.as_str(), pos)),
    }
}

/// What a condition that resolved to `value` says, for an argument at
/// `pos`: a boolean, or the error for a value of another type.
pub open spec fn condition_of(value: ValueView, pos: Pos) -> Result<bool, ServerErrorView> {
    match value {
        ValueView::Boolean(b) => Ok(b),
        _ => Err(error_at(expected_type_text("Boolean"@, value), pos)),
    }
}

/// Reads the condition of a `@skip` or `@include` from its resolved value.
pub fn parse_condition(value: ConstValue, pos: Pos) -> (r: Result<bool, ServerError>)
    ensures
        match condition_of(value@, pos) {
            Ok(b) => r == Ok::<bool, ServerError>(b),
            Err(e) => r is Err && r->Err_0@ == e,
        },
{
    match value {
        ConstValue::Boolean(b) => Ok(b),
        other => {
            let e = InputValueError::expected_type("Boolean", &other).into_server_error().at(pos);
            assert(e.locations@ =~= seq![pos]);
            Err(e)
        },
    }
}

/// Whether `directives` ask to leave out what they stand on.
///
/// The directives are read in the order of the text, and only `@skip` and
/// `@include` count. Each needs an argument `if`; its value, with variables
/// replaced, must be a boolean. `@skip(if: true)` and `@include(if: false)`
/// ask to leave out, and the first that does so ends the reading. The first
/// error ends it too.
pub open spec fn skipped<L: VariableLookup>(directives: Seq<Positioned<Directive>>, lookup: &L)
    -> Result<bool, ServerErrorView>
    decreases directives.len(),
{
    if directives.len() == 0 {
        Ok(false)
    } else {
        let directive = directives[0];
        let name = directive.node.name.node@;
        if name != "skip"@ && name != "include"@ {
            skipped(directives.drop_first(), lookup)
        } else {
            let including = name != "skip"@;
            match first_named(directive.node.arguments@, "if"@) {
                None => Err(error_at(missing_condition_text(including), directive.pos)),
                Some(argument) => match resolved_input(argument.node@, argument.pos, lookup) {
                    Err(e) => Err(e),
                    Ok(value) => match condition_of(value, argument.pos) {
                        Err(e) => Err(e),
                        Ok(condition) => if including != condition {
                            Ok(true)
                        } else {
                            skipped(directives.drop_first(), lookup)
                        },
                    },
                },
            }
        }
    }
}

/// What the first of `directives` decides, where it is a `@skip` or an
/// `@include`: without an argument `if` it is an error that names `if`;
/// `@skip(if: true)` and `@include(if: false)` leave out what they stand
/// on; and with the other boolean the directives after it decide.
pub proof fn lemma_first_directive<L: VariableLookup>(
    directives: Seq<Positioned<Directive>>,
    lookup: &L,
)
    requires
        directives.len() > 0,
        directives[0].node.name.node@ == "skip"@ || directives[0].node.name.node@ == "include"@,
    ensures
        ({
            let directive = directives[0];
            let including = directive.node.name.node@ == "include"@;
            match first_named(directive.node.arguments@, "if"@) {
                None => skipped(directives, lookup) == Err::<bool, ServerErrorView>(
                    error_at(missing_condition_text(including), directive.pos),
                ),
                Some(argument) => match argument.node@ {
                    ValueView::Boolean(condition) => skipped(directives, lookup) == if including
                        != condition {
                        Ok::<bool, ServerErrorView>(true)
                    } else {
                        skipped(directives.drop_first(), lookup)
                    },
                    _ => true,
                },
            }
        }),
{
    reveal_strlit("skip");
    reveal_strlit("include");
    assert("skip"@ != "include"@) by {
        assert("skip"@.len() != "include"@.len());
    }
}

/// Whether one of `directives` is named `ifdef`.
pub open spec fn has_ifdef(directives: Seq<Positioned<Directive>>) -> bool {
    exists|i: int| 0 <= i < directives.len() && (#[trigger] directives[i]).node.name.node@ == "ifdef"@
}

/// Whether one of `directives` is named `ifdef`. Its arguments are not read.
pub fn check_ifdef(directives: &[Positioned<Directive>]) -> (r: bool)
    ensures
        r == has_ifdef(directives@),
{
    let mut i: usize = 0;
    while i < directives.len()
        invariant
            i <= directives.len(),
            forall|j: int| 0 <= j < i ==> (#[trigger] directives@[j]).node.name.node@ != "ifdef"@,
        decreases directives.len() - i,
    {
        if directives[i].node.name.node.eq_str("ifdef") {
            return true;
        }
        i += 1;
    }
    false
}

/// Decides whether `directives` ask to leave out what they stand on, with
/// the variables taken from `lookup`.
pub fn check_skip<L: VariableLookup>(directives: &[Positioned<Directive>], lookup: &L) -> (r:
    Result<bool, ServerError>)
    ensures
        match skipped(directives@, lookup) {
            Ok(b) => r == Ok::<bool, ServerError>(b),
            Err(e) => r is Err && r->Err_0@ == e,
        },
{
    let mut i: usize = 0;
    assert(directives@.skip(0) =~= directives@);
    while i < directives.len()
        invariant
            i <= directives.len(),
            skipped(directives@, lookup) == skipped(directives@.skip(i as int), lookup),
        decreases directives.len() - i,
    {
        assert(directives@.skip(i as int).drop_first() =~= directives@.skip(i as int + 1));
        let directive = &directives[i];
        let is_skip = directive.node.name.node.eq_str("skip");
        let is_include = directive.node.name.node.eq_str("include");
        if is_skip || is_include {
            let including = !is_skip;
            let argument = match directive.node.get_argument("if") {
                Some(argument) => argument,
                None => {
                    return Err(missing_condition(including, directive.pos));
                },
            };
            let pos = argument.pos;
            let input = Positioned { pos, node: argument.node.clone() };
            let value = match resolve_input(input, lookup) {
                Ok(value) => value,
                Err(e) => {
                    return Err(e);
                },
            };
            let condition = match parse_condition(value, pos) {
                Ok(condition) => condition,
                Err(e) => {
                    return Err(e);
                },
            };
            if including != condition {
                return Ok(true);
            }
        }
        i += 1;
    }
    Ok(false)
}

/// A type that can be read from the value of an argument.
pub trait InputType: Sized {
    /// What the type makes of the value of an argument, or of no value: a
    /// value of the type, or the message of an error.
    spec fn parsed(value: Option<ValueView>) -> Result<Self, Seq<char>>;

    /// Reads the type from the value of an argument, or from no value.
    fn parse(value: Option<ConstValue>) -> (r: Result<Self, InputValueError>)
        ensures
            match Self::parsed(
                match value {
                    Some(v) => Some(v@),
                    None => None,
                },
            ) {
                Ok(v) => r is Ok && r->Ok_0 == v,
                Err(message) => r is Err && r->Err_0.message@ == message,
            },
    ;
}

impl InputType for bool {
    open spec fn parsed(value: Option<ValueView>) -> Result<bool, Seq<char>> {
        match value {
            Some(ValueView::Boolean(b)) => Ok(b),
            Some(other) => Err(expected_type_text("Boolean"@, other)),
            None => Err(expected_type_text("Boolean"@, ValueView::Null)),
        }
    }

    fn parse(value: Option<ConstValue>) -> (r: Result<bool, InputValueError>) {
        match value {
            Some(ConstValue::Boolean(b)) => Ok(b),
            Some(other) => Err(InputValueError::expected_type("Boolean", &other)),
            None => Err(InputValueError::expected_type("Boolean", &ConstValue::Null)),
        }
    }
}

impl<T: InputType> InputType for Option<T> {
    open spec fn parsed(value: Option<ValueView>) -> Result<Option<T>, Seq<char>> {
        match value {
            None => Ok(None),
            Some(ValueView::Null) => Ok(None),
            Some(other) => match T::parsed(Some(other)) {
                Ok(v) => Ok(Some(v)),
                Err(message) => Err(message),
            },
        }
    }

    fn parse(value: Option<ConstValue>) -> (r: Result<Option<T>, InputValueError>) {
        match value {
            None => Ok(None),
            Some(ConstValue::Null) => Ok(None),
            Some(other) => match T::parse(Some(other)) {
                Ok(v) => Ok(Some(v)),
                Err(e) => Err(e),
            },
        }
    }
}

impl<T: InputType> InputType for MaybeUndefined<T> {
    open spec fn parsed(value: Option<ValueView>) -> Result<MaybeUndefined<T>, Seq<char>> {
        match value {
            None => Ok(MaybeUndefined::Undefined),
            Some(ValueView::Null) => Ok(MaybeUndefined::Null),
            Some(other) => match T::parsed(Some(other)) {
                Ok(v) => Ok(MaybeUndefined::Value(v)),
                Err(message) => Err(message),
            },
        }
    }

    fn parse(value: Option<ConstValue>) -> (r: Result<MaybeUndefined<T>, InputValueError>) {
        match value {
            None => Ok(MaybeUndefined::Undefined),
            Some(ConstValue::Null) => Ok(MaybeUndefined::Null),
            Some(other) => match T::parse(Some(other)) {
                Ok(v) => Ok(MaybeUndefined::Value(v)),
                Err(e) => Err(e),
            },
        }
    }
}

/// What is shared by all queries on one schema.
pub struct SchemaEnv<V> {
    /// The data of the schema.
    pub data: Data<V>,
}

/// What is shared by all contexts of one query.
pub struct QueryEnvInner<V> {
    /// The values that the request gives to variables.
    pub variables: Variables,
    /// The operation that is executed.
    pub operation: Positioned<OperationDefinition>,
    /// The fragments of the document, each under its name.
    pub fragments: Vec<(Name, Positioned<FragmentDefinition>)>,
    /// The data of the query.
    pub ctx_data: Data<V>,
    /// The headers that the fields add to the response.
    pub http_headers: SharedHeaders,
}

/// What is shared by all contexts of one query, behind a counted reference.
pub struct QueryEnv<V>(Arc<QueryEnvInner<V>>);

impl<V> QueryEnv<V> {
    /// What the environment holds.
    pub closed spec fn inner(&self) -> QueryEnvInner<V> {
        *self.0
    }

    /// An environment that holds `inner`.
    pub fn new(inner: QueryEnvInner<V>) -> (r: QueryEnv<V>)
        ensures
            r.inner() == inner,
    {
        QueryEnv(Arc::new(inner))
    }

    /// What the environment holds.
    pub fn get(&self) -> (r: &QueryEnvInner<V>)
        ensures
            *r == self.inner(),
    {
        &*self.0
    }

    /// A context on this environment, with everything else as given.
    pub fn create_context<'a, T>(
        &'a self,
        schema_env: &'a SchemaEnv<V>,
        path_node: Option<QueryPathNode<'a>>,
        item: T,
        resolve_id: ResolveId,
        inc_resolve_id: &'a AtomicUsize,
    ) -> (r: ContextBase<'a, T, V>)
        ensures
            r.path_node == path_node,
            r.resolve_id == resolve_id,
            r.inc_resolve_id == inc_resolve_id,
            r.item == item,
            r.schema_env == schema_env,
            r.query_env == self,
    {
        ContextBase { path_node, resolve_id, inc_resolve_id, item, schema_env, query_env: self }
    }
}

/// The context in which something is resolved: a field, or a selection
/// set.
pub struct ContextBase<'a, T, V> {
    /// The path to what is being resolved; none at the root.
    pub path_node: Option<QueryPathNode<'a>>,
    /// The identity of this step of the resolution.
    pub resolve_id: ResolveId,
    /// The counter from which the steps of the query take their numbers.
    pub inc_resolve_id: &'a AtomicUsize,
    /// What is being resolved.
    pub item: T,
    /// What is shared by all queries on the schema.
    pub schema_env: &'a SchemaEnv<V>,
    /// What is shared by all contexts of the query.
    pub query_env: &'a QueryEnv<V>,
}

/// The context of a selection set.
pub type ContextSelectionSet<'a, V> = ContextBase<'a, &'a Positioned<SelectionSet>, V>;

/// The context of a field.
pub type Context<'a, V> = ContextBase<'a, &'a Positioned<Field>, V>;

/// `AtomicUsize::fetch_add` by one: the value that the counter held before.
fn count_up(counter: &AtomicUsize) -> usize {
    counter.fetch_add(1, std::sync::atomic::Ordering::Relaxed)
}

impl<'a, T, V> ContextBase<'a, T, V> {
    /// The segments of the path to what is being resolved, from the root.
    pub open spec fn path(&self) -> Seq<SegmentView> {
        match self.path_node {
            Some(node) => node.segments(),
            None => Seq::empty(),
        }
    }

    /// The variables of the operation as execution sees them.
    pub open spec fn scope(&self) -> VariableScope<'a> {
        VariableScope {
            definitions: &self.query_env.inner().operation.node.variable_definitions,
            variables: &self.query_env.inner().variables,
        }
    }

    fn variable_scope(&self) -> (r: VariableScope<'a>)
        ensures
            r == self.scope(),
    {
        let env = self.query_env.get();
        VariableScope {
            definitions: &env.operation.node.variable_definitions,
            variables: &env.variables,
        }
    }

    /// Takes the next number from the counter of the query for a step below
    /// this one.
    pub fn get_child_resolve_id(&self) -> (r: ResolveId)
        ensures
            r.parent == Some(self.resolve_id.current),
    {
        self.resolve_id.child(count_up(self.inc_resolve_id))
    }

    /// The context of `field`, below this one: the path grows by the key of
    /// the field in the response, and the step gets a number of its own.
    pub fn with_field(&'a self, field: &'a Positioned<Field>) -> (r: ContextBase<
        'a,
        &'a Positioned<Field>,
        V,
    >)
        ensures
            r.path_node is Some,
            r.path_node->Some_0.parent == match self.path_node {
                Some(node) => Some(&node),
                None => None,
            },
            r.path_node->Some_0.segment@ == SegmentView::Name(field.node.key().node@),
            r.path() == self.path().push(SegmentView::Name(field.node.key().node@)),
            r.item == field,
            r.resolve_id.parent == Some(self.resolve_id.current),
            r.inc_resolve_id == self.inc_resolve_id,
            r.schema_env == self.schema_env,
            r.query_env == self.query_env,
    {
        let r = ContextBase {
            path_node: Some(
                QueryPathNode {
                    parent: self.path_node.as_ref(),
                    segment: QueryPathSegment::Name(field.node.response_key().node.as_str()),
                },
            ),
            item: field,
            resolve_id: self.get_child_resolve_id(),
            inc_resolve_id: self.inc_resolve_id,
            schema_env: self.schema_env,
            query_env: self.query_env,
        };
        assert(r.path() =~= self.path().push(SegmentView::Name(field.node.key().node@)));
        r
    }

    /// The context of `selection_set`, at the place of this one: the path
    /// and the identity stay as they are.
    pub fn with_selection_set(&self, selection_set: &'a Positioned<SelectionSet>) -> (r:
        ContextBase<'a, &'a Positioned<SelectionSet>, V>)
        ensures
            r.path_node == self.path_node,
            r.item == selection_set,
            r.resolve_id == self.resolve_id,
            r.inc_resolve_id == self.inc_resolve_id,
            r.schema_env == self.schema_env,
            r.query_env == self.query_env,
    {
        ContextBase {
            path_node: self.path_node,
            item: selection_set,
            resolve_id: self.resolve_id,
            inc_resolve_id: self.inc_resolve_id,
            schema_env: self.schema_env,
            query_env: self.query_env,
        }
    }

    /// The data under the descriptor `key`, if there is any: that of the
    /// query if it holds some, else that of the schema.
    pub fn data_opt(&self, key: &str) -> (r: Option<&'a V>)
        ensures
            match scoped(self.query_env.inner().ctx_data@, self.schema_env.data@, key@) {
                Some(data) => r == Some(&data),
                None => r is None,
            },
    {
        lookup_scoped(&self.query_env.get().ctx_data, &self.schema_env.data, key)
    }

    /// The data under the descriptor `key`: that of the query if it holds
    /// some, else that of the schema. Fails if neither holds any.
    pub fn data(&self, key: &str) -> (r: Result<&'a V, Error>)
        ensures
            match scoped(self.query_env.inner().ctx_data@, self.schema_env.data@, key@) {
                Some(data) => r is Ok && *r->Ok_0 == data,
                None => r is Err && r->Err_0.message@ == missing_data_text(key@),
            },
    {
        match self.data_opt(key) {
            Some(data) => Ok(data),
            None => Err(missing_data(key)),
        }
    }

    /// The data under the descriptor `key`, which the caller knows to be
    /// there.
    pub fn data_unchecked(&self, key: &str) -> (r: &'a V)
        requires
            scoped(self.query_env.inner().ctx_data@, self.schema_env.data@, key@) is Some,
        ensures
            Some(*r) == scoped(self.query_env.inner().ctx_data@, self.schema_env.data@, key@),
    {
        self.data_opt(key).unwrap()
    }

    /// Whether the header `key` is set on the response at the time of the
    /// call.
    pub fn http_header_contains(&self, key: &str) -> (r: bool)
        ensures
            canonical_name(key@) is None ==> !r,
    {
        self.query_env.get().http_headers.contains(key)
    }

    /// Sets the header `name` of the response to `value` alone, and returns
    /// the first of the values that it had.
    ///
    /// Fails if `name` is not the name of a header or the map of headers
    /// cannot grow.
    pub fn insert_http_header(&self, name: &str, value: String) -> (r: Result<
        Option<String>,
        HeaderError,
    >)
        ensures
            r == Err::<Option<String>, HeaderError>(HeaderError::InvalidName) <==> canonical_name(
                name@,
            ) is None,
    {
        self.query_env.get().http_headers.insert(name, value)
    }

    /// Adds `value` to the values of the header `name` of the response, and
    /// tells whether it had any.
    ///
    /// Fails if `name` is not the name of a header or the map of headers
    /// cannot grow.
    pub fn append_http_header(&self, name: &str, value: String) -> (r: Result<bool, HeaderError>)
        ensures
            r == Err::<bool, HeaderError>(HeaderError::InvalidName) <==> canonical_name(name@)
                is None,
    {
        self.query_env.get().http_headers.append(name, value)
    }

    /// The value of the variable `name`, used at `pos`: what the request
    /// gives it or, failing that, its default. Fails if the operation does
    /// not declare the variable, or if it has neither.
    pub fn var_value(&self, name: &Name, pos: Pos) -> (r: Result<ConstValue, ServerError>)
        ensures
            match self.scope().bound(name@) {
                Some(v) => r is Ok && r->Ok_0@ == v,
                None => r is Err && r->Err_0@ == error_at(variable_not_defined_text(name@), pos),
            },
    {
        match self.variable_scope().get(name) {
            Some(value) => Ok(value),
            None => Err(variable_not_defined(name.as_str(), pos)),
        }
    }

    /// Replaces the variables of the value of an argument by their values.
    pub fn resolve_input_value(&self, value: Positioned<Value>) -> (r: Result<
        ConstValue,
        ServerError,
    >)
        ensures
            match resolved_input(value.node@, value.pos, &self.scope()) {
                Ok(v) => r is Ok && r->Ok_0@ == v,
                Err(e) => r is Err && r->Err_0@ == e,
            },
    {
        let scope = self.variable_scope();
        resolve_input(value, &scope)
    }

    /// Whether one of `directives` is named `ifdef`.
    pub fn is_ifdef(&self, directives: &[Positioned<Directive>]) -> (r: bool)
        ensures
            r == has_ifdef(directives@),
    {
        check_ifdef(directives)
    }

    /// Whether `directives` ask to leave out what they stand on; see
    /// [`skipped`].
    pub fn is_skip(&self, directives: &[Positioned<Directive>]) -> (r: Result<bool, ServerError>)
        ensures
            match skipped(directives@, &self.scope()) {
                Ok(b) => r == Ok::<bool, ServerError>(b),
                Err(e) => r is Err && r->Err_0@ == e,
            },
    {
        let scope = self.variable_scope();
        check_skip(directives, &scope)
    }
}

impl<'a, V> ContextBase<'a, &'a Positioned<SelectionSet>, V> {
    /// The context of the item `idx` of a list, below this one: the path
    /// grows by the index, and the step gets a number of its own.
    pub fn with_index(&'a self, idx: usize) -> (r: ContextBase<
        'a,
        &'a Positioned<SelectionSet>,
        V,
    >)
        ensures
            r.path_node == Some(
                QueryPathNode {
                    parent: match self.path_node {
                        Some(node) => Some(&node),
                        None => None,
                    },
                    segment: QueryPathSegment::Index(idx),
                },
            ),
            r.path() == self.path().push(SegmentView::Index(idx as int)),
            r.item == self.item,
            r.resolve_id.parent == Some(self.resolve_id.current),
            r.inc_resolve_id == self.inc_resolve_id,
            r.schema_env == self.schema_env,
            r.query_env == self.query_env,
    {
        let r = ContextBase {
            path_node: Some(
                QueryPathNode {
                    parent: self.path_node.as_ref(),
                    segment: QueryPathSegment::Index(idx),
                },
            ),
            item: self.item,
            resolve_id: self.get_child_resolve_id(),
            inc_resolve_id: self.inc_resolve_id,
            schema_env: self.schema_env,
            query_env: self.query_env,
        };
        assert(r.path() =~= self.path().push(SegmentView::Index(idx as int)));
        r
    }
}

/// What reading a value of the type `T` from `value` gives, for an argument
/// at `pos`.
pub open spec fn parsed_at<T: InputType>(value: Option<ValueView>, pos: Pos) -> Result<
    T,
    ServerErrorView,
> {
    match T::parsed(value) {
        Ok(v) => Ok(v),
        Err(message) => Err(error_at(message, pos)),
    }
}

/// Reads a value of the type `T` from the resolved value of an argument at
/// `pos`, or from no value.
pub fn parse_input<T: InputType>(value: Option<ConstValue>, pos: Pos) -> (r: Result<
    T,
    ServerError,
>)
    ensures
        match parsed_at::<T>(
            match value {
                Some(v) => Some(v@),
                None => None,
            },
            pos,
        ) {
            Ok(v) => r is Ok && r->Ok_0 == v,
            Err(e) => r is Err && r->Err_0@ == e,
        },
{
    match T::parse(value) {
        Ok(v) => Ok(v),
        Err(e) => {
            let e = e.into_server_error().at(pos);
            assert(e.locations@ =~= seq![pos]);
            Err(e)
        },
    }
}

impl<'a, V> ContextBase<'a, &'a Positioned<Field>, V> {
    /// A look ahead at what the query selects below the field, without
    /// resolving anything.
    pub fn look_ahead(&self) -> (r: Lookahead<'a>)
        ensures
            r.reached() == Some(self.item.node),
            r.all() == &self.query_env.inner().fragments,
    {
        Lookahead::new(&self.query_env.get().fragments, &self.item.node)
    }

    /// The field that is being resolved.
    pub fn field(&self) -> (r: SelectionField<'a>)
        ensures
            r.node() == self.item.node,
            r.all() == &self.query_env.inner().fragments,
    {
        SelectionField::new(&self.query_env.get().fragments, &self.item.node)
    }

    /// The argument `name` of the field, read as a value of the type `T`.
    ///
    /// Where the field has no such argument and `default` is given, the
    /// result is what `default` returns, and no variable is looked at.
    /// Otherwise the value of the argument, with its variables replaced, is
    /// read as a `T`; without the argument, `T` is read from no value. An
    /// error stands at the position of the argument.
    pub fn param_value<T: InputType, F: FnOnce() -> T>(
        &self,
        name: &str,
        default: Option<F>,
    ) -> (r: Result<T, ServerError>)
        requires
            default is Some ==> default->Some_0.requires(()),
        ensures
            match first_named(self.item.node.arguments@, name@) {
                None => match default {
                    Some(f) => r is Ok && f.ensures((), r->Ok_0),
                    None => match parsed_at::<T>(None, Pos { line: 0, column: 0 }) {
                        Ok(v) => r is Ok && r->Ok_0 == v,
                        Err(e) => r is Err && r->Err_0@ == e,
                    },
                },
                Some(argument) => match resolved_input(
                    argument.node@,
                    argument.pos,
                    &self.scope(),
                ) {
                    Err(e) => r is Err && r->Err_0@ == e,
                    Ok(value) => match parsed_at::<T>(Some(value), argument.pos) {
                        Ok(v) => r is Ok && r->Ok_0 == v,
                        Err(e) => r is Err && r->Err_0@ == e,
                    },
                },
            },
    {
        match self.item.node.get_argument(name) {
            None => match default {
                Some(f) => Ok(f()),
                None => parse_input::<T>(None, Pos::default()),
            },
            Some(argument) => {
                let pos = argument.pos;
                let input = Positioned { pos, node: argument.node.clone() };
                match self.resolve_input_value(input) {
                    Ok(value) => parse_input::<T>(Some(value), pos),
                    Err(e) => Err(e),
                }
            },
        }
    }
}

} // verus!
