//! The names under which the types of the host language stand in a schema.

use vstd::prelude::*;
use crate::maybe_undefined::MaybeUndefined;
use crate::text::push_text;

verus! {

/// A type of the host language that stands for a type of the schema.
pub trait Type {
    /// The name of the type in the schema, as a nullable type.
    spec fn name_text() -> Seq<char>;

    /// The name of the type in the schema, with its nullability.
    spec fn qualified_text() -> Seq<char>;

    /// The name of the type in the schema, as a nullable type.
    fn gql_type_name() -> (r: String)
        ensures
            r@ == Self::name_text(),
    ;

    /// The name of the type in the schema, with its nullability: a type
    /// that cannot be null has `!` after its name.
    fn qualified_type_name() -> (r: String)
        ensures
            r@ == Self::qualified_text(),
    ;
}

fn non_null(name: &str) -> (r: String)
    ensures
        r@ == name@ + "!"@,
{
    let mut out = String::new();
    push_text(&mut out, name);
    push_text(&mut out, "!");
    assert(out@ =~= name@ + "!"@);
    out
}

fn owned(name: &str) -> (r: String)
    ensures
        r@ == name@,
{
    let mut out = String::new();
    push_text(&mut out, name);
    assert(out@ =~= name@);
    out
}

impl Type for bool {
    open spec fn name_text() -> Seq<char> {
        "Boolean"@
    }

    open spec fn qualified_text() -> Seq<char> {
        "Boolean"@ + "!"@
    }

    fn gql_type_name() -> (r: String) {
        owned("Boolean")
    }

    fn qualified_type_name() -> (r: String) {
        non_null("Boolean")
    }
}

impl Type for char {
    open spec fn name_text() -> Seq<char> {
        "Char"@
    }

    open spec fn qualified_text() -> Seq<char> {
        "Char"@ + "!"@
    }

    fn gql_type_name() -> (r: String) {
        owned("Char")
    }

    fn qualified_type_name() -> (r: String) {
        non_null("Char")
    }
}

impl Type for i8 {
    open spec fn name_text() -> Seq<char> {
        "Int"@
    }

    open spec fn qualified_text() -> Seq<char> {
        "Int"@ + "!"@
    }

    fn gql_type_name() -> (r: String) {
        owned("Int")
    }

    fn qualified_type_name() -> (r: String) {
        non_null("Int")
    }
}

impl Type for i16 {
    open spec fn name_text() -> Seq<char> {
        "Int"@
    }

    open spec fn qualified_text() -> Seq<char> {
        "Int"@ + "!"@
    }

    fn gql_type_name() -> (r: String) {
        owned("Int")
    }

    fn qualified_type_name() -> (r: String) {
        non_null("Int")
    }
}

impl Type for i32 {
    open spec fn name_text() -> Seq<char> {
        "Int"@
    }

    open spec fn qualified_text() -> Seq<char> {
        "Int"@ + "!"@
    }

    fn gql_type_name() -> (r: String) {
        owned("Int")
    }

    fn qualified_type_name() -> (r: String) {
        non_null("Int")
    }
}

impl Type for u8 {
    open spec fn name_text() -> Seq<char> {
        "Int"@
    }

    open spec fn qualified_text() -> Seq<char> {
        "Int"@ + "!"@
    }

    fn gql_type_name() -> (r: String) {
        owned("Int")
    }

    fn qualified_type_name() -> (r: String) {
        non_null("Int")
    }
}

impl Type for u16 {
    open spec fn name_text() -> Seq<char> {
        "Int"@
    }

    open spec fn qualified_text() -> Seq<char> {
        "Int"@ + "!"@
    }

    fn gql_type_name() -> (r: String) {
        owned("Int")
    }

    fn qualified_type_name() -> (r: String) {
        non_null("Int")
    }
}

impl Type for i64 {
    open spec fn name_text() -> Seq<char> {
        "I64"@
    }

    open spec fn qualified_text() -> Seq<char> {
        "I64"@ + "!"@
    }

    fn gql_type_name() -> (r: String) {
        owned("I64")
    }

    fn qualified_type_name() -> (r: String) {
        non_null("I64")
    }
}

impl Type for i128 {
    open spec fn name_text() -> Seq<char> {
        "I128"@
    }

    open spec fn qualified_text() -> Seq<char> {
        "I128"@ + "!"@
    }

    fn gql_type_name() -> (r: String) {
        owned("I128")
    }

    fn qualified_type_name() -> (r: String) {
        non_null("I128")
    }
}

impl Type for u32 {
    open spec fn name_text() -> Seq<char> {
        "U32"@
    }

    open spec fn qualified_text() -> Seq<char> {
        "U32"@ + "!"@
    }

    fn gql_type_name() -> (r: String) {
        owned("U32")
    }

    fn qualified_type_name() -> (r: String) {
        non_null("U32")
    }
}

impl Type for u64 {
    open spec fn name_text() -> Seq<char> {
        "U64"@
    }

    open spec fn qualified_text() -> Seq<char> {
        "U64"@ + "!"@
    }

    fn gql_type_name() -> (r: String) {
        owned("U64")
    }

    fn qualified_type_name() -> (r: String) {
        non_null("U64")
    }
}

impl Type for u128 {
    open spec fn name_text() -> Seq<char> {
        "U128"@
    }

    open spec fn qualified_text() -> Seq<char> {
        "U128"@ + "!"@
    }

    fn gql_type_name() -> (r: String) {
        owned("U128")
    }

    fn qualified_type_name() -> (r: String) {
        non_null("U128")
    }
}

impl Type for isize {
    open spec fn name_text() -> Seq<char> {
        "Isize"@
    }

    open spec fn qualified_text() -> Seq<char> {
        "Isize"@ + "!"@
    }

    fn gql_type_name() -> (r: String) {
        owned("Isize")
    }

    fn qualified_type_name() -> (r: String) {
        non_null("Isize")
    }
}

impl Type for usize {
    open spec fn name_text() -> Seq<char> {
        "Usize"@
    }

    open spec fn qualified_text() -> Seq<char> {
        "Usize"@ + "!"@
    }

    fn gql_type_name() -> (r: String) {
        owned("Usize")
    }

    fn qualified_type_name() -> (r: String) {
        non_null("Usize")
    }
}

impl Type for String {
    open spec fn name_text() -> Seq<char> {
        "String"@
    }

    open spec fn qualified_text() -> Seq<char> {
        "String"@ + "!"@
    }

    fn gql_type_name() -> (r: String) {
        owned("String")
    }

    fn qualified_type_name() -> (r: String) {
        non_null("String")
    }
}

impl<'a> Type for &'a str {
    open spec fn name_text() -> Seq<char> {
        "String"@
    }

    open spec fn qualified_text() -> Seq<char> {
        "String"@ + "!"@
    }

    fn gql_type_name() -> (r: String) {
        owned("String")
    }

    fn qualified_type_name() -> (r: String) {
        non_null("String")
    }
}

impl<T: Type> Type for Option<T> {
    open spec fn name_text() -> Seq<char> {
        T::name_text()
    }

    open spec fn qualified_text() -> Seq<char> {
        T::name_text()
    }

    fn gql_type_name() -> (r: String) {
        T::gql_type_name()
    }

    fn qualified_type_name() -> (r: String) {
        T::gql_type_name()
    }
}

impl<T: Type> Type for MaybeUndefined<T> {
    open spec fn name_text() -> Seq<char> {
        T::name_text()
    }

    open spec fn qualified_text() -> Seq<char> {
        T::name_text()
    }

    fn gql_type_name() -> (r: String) {
        T::gql_type_name()
    }

    fn qualified_type_name() -> (r: String) {
        T::gql_type_name()
    }
}

impl<T: Type> Type for Vec<T> {
    open spec fn name_text() -> Seq<char> {
        "["@ + T::qualified_text() + "]"@
    }

    open spec fn qualified_text() -> Seq<char> {
        "["@ + T::qualified_text() + "]!"@
    }

    fn gql_type_name() -> (r: String) {
        let mut out = String::new();
        push_text(&mut out, "[");
        push_text(&mut out, T::qualified_type_name().as_str());
        push_text(&mut out, "]");
        assert(out@ =~= Self::name_text());
        out
    }

    fn qualified_type_name() -> (r: String) {
        let mut out = String::new();
        push_text(&mut out, "[");
        push_text(&mut out, T::qualified_type_name().as_str());
        push_text(&mut out, "]!");
        assert(out@ =~= Self::qualified_text());
        out
    }
}

} // verus!
