//! What the declaration of a type of the schema may say.

use vstd::prelude::*;
use crate::cache_control::CacheControl;

verus! {

/// What the declaration of an object type says.
#[derive(Debug, Clone, PartialEq, Eq)]
pub struct Object {
    /// Whether the type belongs to the library itself.
    pub internal: bool,
    /// The name of the type, where it is not that of the declaration.
    pub name: Option<String>,
    /// What the type says about keeping its results.
    pub cache_control: CacheControl,
    /// Whether the type extends one of another service.
    pub extends: bool,
}

impl Default for Object {
    fn default() -> (r: Self)
        ensures
            !r.internal,
            r.name is None,
            r.cache_control == (CacheControl { public: true, private: false, max_age: 0 }),
            !r.extends,
    {
        Object { internal: false, name: None, cache_control: CacheControl::default(), extends: false }
    }
}

/// What the declaration of a subscription type says.
#[derive(Debug, Clone, PartialEq, Eq)]
pub struct Subscription {
    /// Whether the type belongs to the library itself.
    pub internal: bool,
    /// The name of the type, where it is not that of the declaration.
    pub name: Option<String>,
}

impl Default for Subscription {
    fn default() -> (r: Self)
        ensures
            !r.internal,
            r.name is None,
    {
        Subscription { internal: false, name: None }
    }
}

/// How two validators are put together.
#[derive(Debug, Clone, Copy, PartialEq, Eq, Structural)]
pub enum CombineValidator {
    /// Both must accept.
    And,
    /// One must accept.
    Or,
}

} // verus!
