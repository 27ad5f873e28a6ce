//! Validated GraphQL names.

use vstd::prelude::*;
use crate::text::str_eq;

verus! {

/// Whether `c` may start a name: an ASCII letter or an underscore.
pub open spec fn is_name_start(c: char) -> bool {
    ('a' <= c && c <= 'z') || ('A' <= c && c <= 'Z') || c == '_'
}

/// Whether `c` may follow the first character of a name: an ASCII letter, an
/// ASCII digit or an underscore.
pub open spec fn is_name_continue(c: char) -> bool {
    is_name_start(c) || ('0' <= c && c <= '9')
}

/// The grammar of names: `[_A-Za-z][_0-9A-Za-z]*`.
pub open spec fn is_valid_name(s: Seq<char>) -> bool {
    &&& s.len() > 0
    &&& is_name_start(s[0])
    &&& forall|i: int| 0 <= i < s.len() ==> is_name_continue(#[trigger] s[i])
}

fn name_start(c: char) -> (r: bool)
    ensures
        r == is_name_start(c),
{
    (c >= 'a' && c <= 'z') || (c >= 'A' && c <= 'Z') || c == '_'
}

fn name_continue(c: char) -> (r: bool)
    ensures
        r == is_name_continue(c),
{
    name_start(c) || (c >= '0' && c <= '9')
}

/// A GraphQL name: a string that follows the grammar `[_A-Za-z][_0-9A-Za-z]*`.
#[derive(Debug, PartialEq, Eq, PartialOrd, Ord, Hash)]
pub struct Name(String);

impl View for Name {
    type V = Seq<char>;

    closed spec fn view(&self) -> Seq<char> {
        self.0@
    }
}

impl Name {
    /// Every name follows the grammar.
    #[verifier::type_invariant]
    pub open spec fn well_formed(self) -> bool {
        is_valid_name(self@)
    }

    /// Checks whether `name` follows the grammar of names.
    pub fn is_valid(name: &str) -> (r: bool)
        ensures
            r == is_valid_name(name@),
    {
        let mut first = true;
        for c in it: name.chars()
            invariant
                first == (it.index() == 0),
                it.index() > 0 ==> is_name_start(name@[0]),
                forall|i: int| 0 <= i < it.index() ==> is_name_continue(#[trigger] name@[i]),
                it.seq() == name@,
        {
            if first {
                if !name_start(c) {
                    return false;
                }
                first = false;
            } else if !name_continue(c) {
                return false;
            }
        }
        !first
    }

    /// Wraps `name` without checking it. The caller has already established
    /// that it follows the grammar.
    pub fn new_unchecked(name: String) -> (r: Self)
        requires
            is_valid_name(name@),
        ensures
            r@ == name@,
    {
        Name(name)
    }

    /// Wraps `name` if it follows the grammar, and hands the string back if
    /// it does not.
    pub fn new(name: String) -> (r: Result<Self, String>)
        ensures
            is_valid_name(name@) ==> r is Ok && r->Ok_0@ == name@,
            !is_valid_name(name@) ==> r is Err && r->Err_0@ == name@,
    {
        if Self::is_valid(name.as_str()) {
            Ok(Name(name))
        } else {
            Err(name)
        }
    }

    /// The name as a string slice.
    pub fn as_str(&self) -> (r: &str)
        ensures
            r@ == self@,
            is_valid_name(r@),
    {
        proof {
            use_type_invariant(self);
        }
        self.0.as_str()
    }

    /// The name as an owned string.
    pub fn into_string(self) -> (r: String)
        ensures
            r@ == self@,
            is_valid_name(r@),
    {
        proof {
            use_type_invariant(&self);
        }
        self.0
    }

    /// Whether the name reads `other`.
    pub fn eq_str(&self, other: &str) -> (r: bool)
        ensures
            r == (self@ == other@),
    {
        str_eq(self.0.as_str(), other)
    }

}

impl std::ops::Deref for Name {
    type Target = str;

    fn deref(&self) -> (r: &str)
        ensures
            r@ == self@,
    {
        self.0.as_str()
    }
}

impl AsRef<str> for Name {
    fn as_ref(&self) -> (r: &str)
        ensures
            r@ == self@,
    {
        self.0.as_str()
    }
}

impl Clone for Name {
    fn clone(&self) -> (r: Self)
        ensures
            r@ == self@,
    {
        proof {
            use_type_invariant(self);
        }
        Name(self.0.clone())
    }
}

} // verus!
