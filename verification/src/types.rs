//! Operation types and the types that a query names.

use vstd::prelude::*;
use crate::name::{is_valid_name, Name};
use crate::text::{chars_of, push_char, push_text, string_of};

verus! {

/// The type of an operation: `query`, `mutation` or `subscription`.
#[derive(Debug, Clone, Copy, PartialEq, Eq, Structural)]
pub enum OperationType {
    /// A query.
    Query,
    /// A mutation.
    Mutation,
    /// A subscription.
    Subscription,
}

impl OperationType {
    /// The keyword of the operation type.
    pub open spec fn text(self) -> Seq<char> {
        match self {
            OperationType::Query => "query"@,
            OperationType::Mutation => "mutation"@,
            OperationType::Subscription => "subscription"@,
        }
    }

    /// The keyword of the operation type.
    pub fn to_string(&self) -> (r: String)
        ensures
            r@ == self.text(),
    {
        let mut out = String::new();
        match self {
            OperationType::Query => push_text(&mut out, "query"),
            OperationType::Mutation => push_text(&mut out, "mutation"),
            OperationType::Subscription => push_text(&mut out, "subscription"),
        }
        assert(out@ =~= self.text());
        out
    }
}

/// A type as a query names it, for example `String` or `[String!]!`.
#[derive(Debug, PartialEq, Eq)]
pub struct Type {
    /// The type without its nullability.
    pub base: BaseType,
    /// Whether a value of the type may be null.
    pub nullable: bool,
}

/// A type without its nullability, for example `String` or `[String!]`.
#[derive(Debug, PartialEq, Eq)]
pub enum BaseType {
    /// A named type, such as `String`.
    Named(Name),
    /// A list type, such as `[String]`.
    List(Box<Type>),
}

/// The mathematical model of a [`Type`].
pub struct TypeView {
    pub base: BaseTypeView,
    pub nullable: bool,
}

/// The mathematical model of a [`BaseType`].
pub enum BaseTypeView {
    Named(Seq<char>),
    List(Box<TypeView>),
}

impl View for Type {
    type V = TypeView;

    open spec fn view(&self) -> TypeView
        decreases self,
    {
        TypeView {
            base: match self.base {
                BaseType::Named(name) => BaseTypeView::Named(name@),
                BaseType::List(inner) => BaseTypeView::List(Box::new((*inner).view())),
            },
            nullable: self.nullable,
        }
    }
}

/// The type that the text `s` names, if it names one.
///
/// A `!` at the end makes the type non-null. What is left is a list type if
/// it starts with `[`, and must then end with `]` and name a type in
/// between; otherwise it must be a name.
pub open spec fn parsed_type(s: Seq<char>) -> Option<TypeView>
    decreases s.len(),
{
    let nullable = !(s.len() > 0 && s.last() == '!');
    let body = if nullable {
        s
    } else {
        s.drop_last()
    };
    if body.len() > 0 && body[0] == '[' {
        if body.len() > 1 && body.last() == ']' {
            match parsed_type(body.subrange(1, body.len() - 1)) {
                Some(inner) => Some(
                    TypeView { base: BaseTypeView::List(Box::new(inner)), nullable },
                ),
                None => None,
            }
        } else {
            None
        }
    } else if is_valid_name(body) {
        Some(TypeView { base: BaseTypeView::Named(body), nullable })
    } else {
        None
    }
}

/// The text of a type: a name as it is, a list type in brackets, and `!`
/// after a type that is not nullable.
pub open spec fn type_text(t: TypeView) -> Seq<char>
    decreases t,
{
    let base = match t.base {
        BaseTypeView::Named(name) => name,
        BaseTypeView::List(inner) => seq!['['] + type_text(*inner) + seq![']'],
    };
    if t.nullable {
        base
    } else {
        base + seq!['!']
    }
}

/// Whether every name in `t` follows the grammar of names.
pub open spec fn type_names_valid(t: TypeView) -> bool
    decreases t,
{
    match t.base {
        BaseTypeView::Named(name) => is_valid_name(name),
        BaseTypeView::List(inner) => type_names_valid(*inner),
    }
}

/// The text of a type reads back as the same type.
pub proof fn lemma_type_round_trip(t: TypeView)
    requires
        type_names_valid(t),
    ensures
        parsed_type(type_text(t)) == Some(t),
        type_text(t).len() > 0,
    decreases t,
{
    let text = type_text(t);
    let base = match t.base {
        BaseTypeView::Named(name) => name,
        BaseTypeView::List(inner) => seq!['['] + type_text(*inner) + seq![']'],
    };
    assert(base.len() > 0 && base.last() != '!' && (t.base is List <==> base[0] == '['));
    let body = if t.nullable {
        text
    } else {
        text.drop_last()
    };
    assert(body =~= base);
    match t.base {
        BaseTypeView::Named(name) => {},
        BaseTypeView::List(inner) => {
            lemma_type_round_trip(*inner);
            assert(base.subrange(1, base.len() - 1) =~= type_text(*inner));
        },
    }
}

fn parse_range(chars: &Vec<char>, lo: usize, hi: usize) -> (r: Option<Type>)
    requires
        lo <= hi <= chars@.len(),
    ensures
        match parsed_type(chars@.subrange(lo as int, hi as int)) {
            Some(t) => r is Some && r->Some_0@ == t,
            None => r is None,
        },
    decreases hi - lo,
{
    let ghost s = chars@.subrange(lo as int, hi as int);
    let nullable = !(hi > lo && chars[hi - 1] == '!');
    let end = if nullable {
        hi
    } else {
        hi - 1
    };
    let ghost body = chars@.subrange(lo as int, end as int);
    assert(body =~= if nullable {
        s
    } else {
        s.drop_last()
    });
    if end > lo && chars[lo] == '[' {
        if end - lo > 1 && chars[end - 1] == ']' {
            assert(body.subrange(1, body.len() - 1) =~= chars@.subrange(lo + 1, end - 1));
            match parse_range(chars, lo + 1, end - 1) {
                Some(inner) => Some(Type { base: BaseType::List(Box::new(inner)), nullable }),
                None => None,
            }
        } else {
            None
        }
    } else {
        match Name::new(string_of(chars, lo, end)) {
            Ok(name) => Some(Type { base: BaseType::Named(name), nullable }),
            Err(_) => None,
        }
    }
}

impl Type {
    /// Reads a type from its text.
    pub fn new(ty: &str) -> (r: Option<Self>)
        ensures
            match parsed_type(ty@) {
                Some(t) => r is Some && r->Some_0@ == t,
                None => r is None,
            },
    {
        let chars = chars_of(ty);
        assert(chars@.subrange(0, chars@.len() as int) =~= ty@);
        parse_range(&chars, 0, chars.len())
    }

    /// Appends the text of the type to `out`.
    pub fn write_to(&self, out: &mut String)
        ensures
            final(out)@ == old(out)@ + type_text(self@),
        decreases self,
    {
        match &self.base {
            BaseType::Named(name) => push_text(out, name.as_str()),
            BaseType::List(inner) => {
                push_char(out, '[');
                inner.write_to(out);
                push_char(out, ']');
            },
        }
        if !self.nullable {
            push_char(out, '!');
        }
        assert(out@ =~= old(out)@ + type_text(self@));
    }

    /// The text of the type.
    pub fn to_string(&self) -> (r: String)
        ensures
            r@ == type_text(self@),
    {
        let mut out = String::new();
        self.write_to(&mut out);
        assert(out@ =~= type_text(self@));
        out
    }
}

impl Clone for Type {
    fn clone(&self) -> (r: Self)
        ensures
            r@ == self@,
        decreases self,
    {
        Type {
            base: match &self.base {
                BaseType::Named(name) => BaseType::Named(name.clone()),
                BaseType::List(inner) => BaseType::List(Box::new((**inner).clone())),
            },
            nullable: self.nullable,
        }
    }
}

} // verus!
