use graphql_core::id::{Upload, ID};
use graphql_core::maybe_undefined::MaybeUndefined;
use graphql_core::number::Number;
use graphql_core::types::{BaseType, OperationType, Type};
use graphql_core::value::ConstValue;

#[test]
fn ids_from_values() {
    assert_eq!(ID::from_value(&ConstValue::String("abc".to_string())), Some(ID("abc".to_string())));
    assert_eq!(
        ID::from_value(&ConstValue::Number(Number::PosInt(42))),
        Some(ID("42".to_string()))
    );
    assert_eq!(
        ID::from_value(&ConstValue::Number(Number::NegInt(-42))),
        Some(ID("-42".to_string()))
    );
    assert_eq!(ID::from_value(&ConstValue::Boolean(true)), None);
    assert_eq!(ID::from_value(&ConstValue::Number(Number::Float("1.5".to_string()))), None);
    let id = ID::new("x1".to_string());
    assert!(id.eq_str("x1"));
    assert!(!id.eq_str("x2"));
    assert_eq!(id.as_str(), "x1");
    assert_eq!(id.to_value(), ConstValue::String("x1".to_string()));
    assert_eq!(id.into_string(), "x1");
    assert_eq!(Upload("0".to_string()).0, "0");
}

#[test]
fn ids_as_uuids_and_object_ids() {
    let id = ID::new("67e55044-10b1-426f-9247-bb680e5fe0c8".to_string());
    assert_eq!(id.to_uuid(), Some(0x67e5504410b1426f9247bb680e5fe0c8u128));
    assert_eq!(ID::new("not a uuid".to_string()).to_uuid(), None);
    let oid = ID::new("0123456789abcdefABCDEF01".to_string());
    assert_eq!(
        oid.to_object_id(),
        Some(vec![0x01, 0x23, 0x45, 0x67, 0x89, 0xab, 0xcd, 0xef, 0xab, 0xcd, 0xef, 0x01])
    );
    assert_eq!(ID::new("0123".to_string()).to_object_id(), None);
    assert_eq!(ID::new("0123456789abcdefABCDEF0g".to_string()).to_object_id(), None);
    assert_eq!(ID::new("0123456789abcdefABCDEF0".to_string()).to_object_id(), None);
}

#[test]
fn maybe_undefined_states() {
    let undefined: MaybeUndefined<i32> = MaybeUndefined::default();
    assert!(undefined.is_undefined() && !undefined.is_null() && !undefined.is_value());
    let null: MaybeUndefined<i32> = MaybeUndefined::from_defined(None);
    assert!(null.is_null() && !null.is_undefined() && !null.is_value());
    let value = MaybeUndefined::from_defined(Some(99));
    assert!(value.is_value() && !value.is_null() && !value.is_undefined());
    assert_eq!(value.value(), Some(&99));
    assert_eq!(null.value(), None);
    assert_eq!(undefined.value(), None);
    assert_eq!(value.take(), Some(99));
    assert_eq!(null.take(), None);
    assert_eq!(undefined.take(), None);
}

fn named(name: &str, nullable: bool) -> Type {
    Type {
        base: BaseType::Named(graphql_core::name::Name::new(name.to_string()).unwrap()),
        nullable,
    }
}

#[test]
fn types_from_text() {
    assert_eq!(Type::new("String"), Some(named("String", true)));
    assert_eq!(Type::new("String!"), Some(named("String", false)));
    assert_eq!(
        Type::new("[String!]!"),
        Some(Type { base: BaseType::List(Box::new(named("String", false))), nullable: false })
    );
    assert_eq!(
        Type::new("[[Int]]"),
        Some(Type {
            base: BaseType::List(Box::new(Type {
                base: BaseType::List(Box::new(named("Int", true))),
                nullable: true
            })),
            nullable: true
        })
    );
    assert_eq!(Type::new(""), None);
    assert_eq!(Type::new("!"), None);
    assert_eq!(Type::new("[String"), None);
    assert_eq!(Type::new("String]"), None);
    assert_eq!(Type::new("[]"), None);
    assert_eq!(Type::new("[String!!]"), None);
    assert_eq!(Type::new("a b"), None);
    assert_eq!(Type::new("["), None);
}

#[test]
fn types_to_text() {
    for text in ["String", "String!", "[String!]!", "[[Int]]", "[[Int!]!]"] {
        assert_eq!(Type::new(text).unwrap().to_string(), text);
        assert_eq!(Type::new(text).unwrap().clone(), Type::new(text).unwrap());
    }
    assert_eq!(OperationType::Query.to_string(), "query");
    assert_eq!(OperationType::Mutation.to_string(), "mutation");
    assert_eq!(OperationType::Subscription.to_string(), "subscription");
}

#[test]
fn ids_as_numbers() {
    let id = |text: &str| ID::new(text.to_string());
    assert_eq!(id("42").to_u64(), Some(42));
    assert_eq!(id("+42").to_u64(), Some(42));
    assert_eq!(id("007").to_u64(), Some(7));
    assert_eq!(id("18446744073709551615").to_u64(), Some(u64::MAX));
    assert_eq!(id("18446744073709551616").to_u64(), None);
    assert_eq!(id("99999999999999999999999999999999999999999999").to_u64(), None);
    assert_eq!(id("-1").to_u64(), None);
    assert_eq!(id("-0").to_u64(), None);
    assert_eq!(id("").to_u64(), None);
    assert_eq!(id("+").to_u64(), None);
    assert_eq!(id("4 2").to_u64(), None);
    assert_eq!(id("4２").to_u64(), None);
    assert_eq!(id("-42").to_i64(), Some(-42));
    assert_eq!(id("+42").to_i64(), Some(42));
    assert_eq!(id("-0").to_i64(), Some(0));
    assert_eq!(id("9223372036854775807").to_i64(), Some(i64::MAX));
    assert_eq!(id("9223372036854775808").to_i64(), None);
    assert_eq!(id("-9223372036854775808").to_i64(), Some(i64::MIN));
    assert_eq!(id("-9223372036854775809").to_i64(), None);
    assert_eq!(id("-").to_i64(), None);
    assert_eq!(id("--1").to_i64(), None);
    assert_eq!(id("+-1").to_i64(), None);
    assert_eq!(id("x").to_i64(), None);
    for text in ["0", "+0", "-0", "12", "-12", "+12", "", "-", "1a", "000"] {
        assert_eq!(id(text).to_i64(), text.parse::<i64>().ok());
        assert_eq!(id(text).to_u64(), text.parse::<u64>().ok());
    }
}
