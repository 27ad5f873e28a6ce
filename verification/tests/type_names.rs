use graphql_core::base::Type;
use graphql_core::maybe_undefined::MaybeUndefined;

#[test]
fn test_optional_type() {
    assert_eq!(Option::<i32>::gql_type_name(), "Int");
    assert_eq!(Option::<i32>::qualified_type_name(), "Int");
    assert_eq!(&Option::<i32>::gql_type_name(), "Int");
    assert_eq!(&Option::<i32>::qualified_type_name(), "Int");
}

#[test]
fn test_maybe_undefined_type() {
    assert_eq!(MaybeUndefined::<i32>::gql_type_name(), "Int");
    assert_eq!(MaybeUndefined::<i32>::qualified_type_name(), "Int");
    assert_eq!(&MaybeUndefined::<i32>::gql_type_name(), "Int");
    assert_eq!(&MaybeUndefined::<i32>::qualified_type_name(), "Int");
}

#[test]
fn scalar_and_list_type_names() {
    assert_eq!(i32::gql_type_name(), "Int");
    assert_eq!(i32::qualified_type_name(), "Int!");
    assert_eq!(bool::gql_type_name(), "Boolean");
    assert_eq!(u64::qualified_type_name(), "U64!");
    assert_eq!(String::gql_type_name(), "String");
    assert_eq!(<&str>::qualified_type_name(), "String!");
    assert_eq!(Vec::<i32>::gql_type_name(), "[Int!]");
    assert_eq!(Vec::<Option<i32>>::qualified_type_name(), "[Int]!");
}
