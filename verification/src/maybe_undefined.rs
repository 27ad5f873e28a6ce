//! A value that may be undefined, null or present.

use vstd::prelude::*;

verus! {

/// Like `Option`, but with three states: undefined, null and a value.
#[derive(Copy, Clone, PartialEq, PartialOrd, Eq, Ord, Debug, Hash)]
pub enum MaybeUndefined<T> {
    /// Nothing was given.
    Undefined,
    /// Null was given.
    Null,
    /// A value was given.
    Value(T),
}

impl<T> Default for MaybeUndefined<T> {
    fn default() -> (r: Self)
        ensures
            r is Undefined,
    {
        MaybeUndefined::Undefined
    }
}

impl<T> MaybeUndefined<T> {
    /// What was given, where something was: a value for some value, null
    /// for none.
    pub fn from_defined(defined: Option<T>) -> (r: Self)
        ensures
            r == match defined {
                Some(value) => MaybeUndefined::Value(value),
                None => MaybeUndefined::Null,
            },
    {
        match defined {
            Some(value) => MaybeUndefined::Value(value),
            None => MaybeUndefined::Null,
        }
    }

    /// Whether nothing was given.
    pub fn is_undefined(&self) -> (r: bool)
        ensures
            r == (self is Undefined),
    {
        matches!(self, MaybeUndefined::Undefined)
    }

    /// Whether null was given.
    pub fn is_null(&self) -> (r: bool)
        ensures
            r == (self is Null),
    {
        matches!(self, MaybeUndefined::Null)
    }

    /// Whether a value was given.
    pub fn is_value(&self) -> (r: bool)
        ensures
            r == (self is Value),
    {
        matches!(self, MaybeUndefined::Value(_))
    }

    /// The value, if one was given.
    pub fn value(&self) -> (r: Option<&T>)
        ensures
            r == match self {
                MaybeUndefined::Value(value) => Some(value),
                _ => None,
            },
    {
        match self {
            MaybeUndefined::Value(value) => Some(value),
            _ => None,
        }
    }

    /// The value, if one was given; none for undefined and for null.
    pub fn take(self) -> (r: Option<T>)
        ensures
            r == match self {
                MaybeUndefined::Value(value) => Some(value),
                _ => None,
            },
    {
        match self {
            MaybeUndefined::Value(value) => Some(value),
            _ => None,
        }
    }
}

} // verus!
