//! The runtime core of a GraphQL execution engine.
//!
//! The library holds the value model of a query (`name`, `number`, `value`,
//! `render`, `json`, `order`), the substitution of variables (`variables`,
//! `variable_path`, `deserializer`), the syntax tree that execution reads
//! (`pos`, `types`, `ast`), the context in which fields are resolved
//! (`path`, `data`, `headers`, `selection`, `context`), the walk that
//! gathers cache control (`cache_control`, `visitor`) and the checks of
//! input values (`validators`, `id`, `maybe_undefined`, `base`, `args`).
//!
//! Every function is verified against the contract that it states. The few
//! functions that call into other crates say in their documentation which
//! function they call and what is taken on trust about it.

pub mod args;
pub mod ast;
pub mod base;
pub mod cache_control;
pub mod context;
pub mod data;
pub mod deserializer;
pub mod error;
pub mod headers;
pub mod id;
pub mod json;
pub mod maybe_undefined;
pub mod members;
pub mod name;
pub mod number;
pub mod order;
pub mod path;
pub mod pos;
pub mod render;
pub mod selection;
pub mod text;
pub mod types;
pub mod validators;
pub mod value;
pub mod variable_path;
pub mod variables;
pub mod visitor;
