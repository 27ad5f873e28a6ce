use graphql_core::json::{Json, JsonError};
use graphql_core::name::Name;
use graphql_core::number::Number;
use graphql_core::render::write_quoted;
use graphql_core::value::{ConstValue, Value};

fn name(text: &str) -> Name {
    Name::new(text.to_string()).unwrap()
}

fn sample() -> ConstValue {
    ConstValue::Object(vec![
        (name("a"), ConstValue::Number(Number::PosInt(1))),
        (
            name("b"),
            ConstValue::List(vec![
                ConstValue::Null,
                ConstValue::Boolean(true),
                ConstValue::String("x\"y".to_string()),
                ConstValue::Number(Number::NegInt(-7)),
                ConstValue::Number(Number::Float("1.5".to_string())),
            ]),
        ),
        (name("c"), ConstValue::Object(vec![])),
    ])
}

#[test]
fn renders_scalars() {
    assert_eq!(ConstValue::Null.to_string(), "null");
    assert_eq!(ConstValue::Boolean(true).to_string(), "true");
    assert_eq!(ConstValue::Boolean(false).to_string(), "false");
    assert_eq!(ConstValue::Number(Number::PosInt(0)).to_string(), "0");
    assert_eq!(ConstValue::Number(Number::PosInt(u64::MAX)).to_string(), "18446744073709551615");
    assert_eq!(ConstValue::Number(Number::NegInt(i64::MIN)).to_string(), "-9223372036854775808");
    assert_eq!(ConstValue::Number(Number::NegInt(-1)).to_string(), "-1");
    assert_eq!(ConstValue::Number(Number::Float("2.5e10".to_string())).to_string(), "2.5e10");
    assert_eq!(ConstValue::Enum(name("RED")).to_string(), "RED");
    assert_eq!(Value::Variable(name("id")).to_string(), "$id");
}

#[test]
fn renders_strings_with_escapes() {
    assert_eq!(ConstValue::String("plain".to_string()).to_string(), "\"plain\"");
    assert_eq!(
        ConstValue::String("a\r\n\t\"\\b".to_string()).to_string(),
        "\"a\\r\\n\\t\\\"\\\\b\""
    );
    assert_eq!(ConstValue::String("\u{0}".to_string()).to_string(), "\"\\u0000\"");
    assert_eq!(ConstValue::String("\u{1f}".to_string()).to_string(), "\"\\u001f\"");
    assert_eq!(ConstValue::String("\u{7f}".to_string()).to_string(), "\"\\u007f\"");
    assert_eq!(ConstValue::String("\u{9f}".to_string()).to_string(), "\"\\u009f\"");
    assert_eq!(ConstValue::String("\u{a0}é".to_string()).to_string(), "\"\u{a0}é\"");
    let mut out = String::from(">");
    write_quoted("q", &mut out);
    assert_eq!(out, ">\"q\"");
}

#[test]
fn renders_lists_and_objects_with_trailing_commas() {
    assert_eq!(ConstValue::List(vec![]).to_string(), "[]");
    assert_eq!(ConstValue::Object(vec![]).to_string(), "{}");
    assert_eq!(sample().to_string(), "{a: 1,b: [null,true,\"x\\\"y\",-7,1.5,],c: {},}");
    assert_eq!(
        Value::List(vec![Value::Variable(name("v")), Value::Enum(name("E"))]).to_string(),
        "[$v,E,]"
    );
}

#[test]
fn into_value_keeps_the_content() {
    let value = sample().into_value();
    assert_eq!(value.to_string(), sample().to_string());
    assert_eq!(
        ConstValue::List(vec![ConstValue::Enum(name("A")), ConstValue::Null]).into_value(),
        Value::List(vec![Value::Enum(name("A")), Value::Null])
    );
    assert_eq!(sample().clone(), sample());
}

#[test]
fn json_round_trip_is_identity() {
    let json = sample().into_json().unwrap();
    assert_eq!(ConstValue::from_json(json), Ok(sample()));
    let scalars = vec![
        ConstValue::Null,
        ConstValue::Boolean(false),
        ConstValue::String("s".to_string()),
        ConstValue::Number(Number::PosInt(5)),
        ConstValue::List(vec![]),
    ];
    for value in scalars {
        let back = ConstValue::from_json(value.clone().into_json().unwrap()).unwrap();
        assert_eq!(back, value);
    }
}

#[test]
fn json_of_an_enum_is_a_string() {
    assert_eq!(ConstValue::Enum(name("RED")).into_json(), Ok(Json::String("RED".to_string())));
    assert_eq!(
        ConstValue::from_json(Json::String("RED".to_string())),
        Ok(ConstValue::String("RED".to_string()))
    );
}

#[test]
fn json_shapes() {
    assert_eq!(
        sample().into_json().unwrap(),
        Json::Object(vec![
            ("a".to_string(), Json::Number(Number::PosInt(1))),
            (
                "b".to_string(),
                Json::Array(vec![
                    Json::Null,
                    Json::Bool(true),
                    Json::String("x\"y".to_string()),
                    Json::Number(Number::NegInt(-7)),
                    Json::Number(Number::Float("1.5".to_string())),
                ])
            ),
            ("c".to_string(), Json::Object(vec![])),
        ])
    );
}

#[test]
fn json_with_a_key_that_is_no_name_is_refused() {
    let json = Json::Object(vec![("not a name".to_string(), Json::Null)]);
    assert_eq!(ConstValue::from_json(json), Err(JsonError::NoMatchingVariant));
    let nested = Json::Array(vec![Json::Object(vec![("1x".to_string(), Json::Null)])]);
    assert_eq!(Value::from_json(nested), Err(JsonError::NoMatchingVariant));
    let fine = Json::Object(vec![("ok".to_string(), Json::Null)]);
    assert_eq!(Value::from_json(fine), Ok(Value::Object(vec![(name("ok"), Value::Null)])));
}

#[test]
fn a_variable_has_no_json() {
    assert_eq!(Value::Variable(name("x")).into_json(), Err(JsonError::CannotSerializeVariable));
    assert_eq!(
        Value::List(vec![Value::Null, Value::Variable(name("x"))]).into_json(),
        Err(JsonError::CannotSerializeVariable)
    );
    assert_eq!(Value::Boolean(true).into_json(), Ok(Json::Bool(true)));
}

#[test]
fn a_json_object_from_pairs_is_ordered() {
    let pairs = vec![
        ("b".to_string(), Json::Bool(true)),
        ("a".to_string(), Json::Null),
        ("b".to_string(), Json::Bool(false)),
        ("B".to_string(), Json::Null),
    ];
    assert_eq!(
        Json::object(pairs),
        Json::Object(vec![
            ("B".to_string(), Json::Null),
            ("a".to_string(), Json::Null),
            ("b".to_string(), Json::Bool(false)),
        ])
    );
    assert_eq!(Json::object(vec![]), Json::Object(vec![]));
}
