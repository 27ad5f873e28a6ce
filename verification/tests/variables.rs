use graphql_core::deserializer::{undefined_variable_message, ValueDeserializer, Visit};
use graphql_core::json::Json;
use graphql_core::name::Name;
use graphql_core::number::Number;
use graphql_core::value::{ConstValue, Value};
use graphql_core::variables::{VariableLookup, Variables};

fn name(text: &str) -> Name {
    Name::new(text.to_string()).unwrap()
}

fn five() -> Variables {
    Variables(vec![(name("x"), ConstValue::Number(Number::PosInt(5)))])
}

#[test]
fn a_bound_variable_resolves_to_its_value() {
    let vars = five();
    assert_eq!(
        Value::Variable(name("x")).into_const_with(&vars),
        Ok(ConstValue::Number(Number::PosInt(5)))
    );
    match ValueDeserializer::new(Value::Variable(name("x")), &vars).deserialize_any() {
        Ok(Visit::Number(n)) => assert_eq!(n, Number::PosInt(5)),
        _ => panic!("expected a number"),
    }
}

#[test]
fn an_unbound_variable_fails_with_its_name() {
    let vars = Variables::new();
    let failed = Value::Variable(name("x")).into_const_with(&vars).unwrap_err();
    assert_eq!(failed.as_str(), "x");
    assert_eq!(undefined_variable_message(&failed), "variable x is not defined");
    match ValueDeserializer::new(Value::Variable(name("x")), &vars).deserialize_any() {
        Err(missing) => assert_eq!(missing.as_str(), "x"),
        Ok(_) => panic!("expected an error"),
    }
    match ValueDeserializer::new(Value::Variable(name("x")), &vars).deserialize_option() {
        Err(missing) => assert_eq!(missing.as_str(), "x"),
        Ok(_) => panic!("expected an error"),
    }
}

#[test]
fn substitution_reaches_into_lists_and_objects() {
    let vars = Variables(vec![
        (name("a"), ConstValue::String("s".to_string())),
        (name("b"), ConstValue::List(vec![ConstValue::Null])),
    ]);
    let value = Value::Object(vec![
        (name("k"), Value::List(vec![Value::Variable(name("a")), Value::Boolean(true)])),
        (name("l"), Value::Variable(name("b"))),
        (name("m"), Value::Enum(name("E"))),
    ]);
    assert_eq!(
        value.into_const_with(&vars),
        Ok(ConstValue::Object(vec![
            (
                name("k"),
                ConstValue::List(vec![ConstValue::String("s".to_string()), ConstValue::Boolean(true)])
            ),
            (name("l"), ConstValue::List(vec![ConstValue::Null])),
            (name("m"), ConstValue::Enum(name("E"))),
        ]))
    );
}

#[test]
fn the_first_unbound_variable_is_reported() {
    let vars = five();
    let value = Value::List(vec![
        Value::Variable(name("x")),
        Value::Object(vec![(name("k"), Value::Variable(name("first")))]),
        Value::Variable(name("second")),
    ]);
    assert_eq!(value.into_const_with(&vars).unwrap_err().as_str(), "first");
}

#[test]
fn reading_a_list_is_lazy() {
    let vars = five();
    let value = Value::List(vec![Value::Variable(name("missing")), Value::Variable(name("x"))]);
    match ValueDeserializer::new(value, &vars).deserialize_any() {
        Ok(Visit::List(items)) => {
            assert_eq!(items.len(), 2);
            assert_eq!(items[0].value, Value::Variable(name("missing")));
            assert_eq!(items[1].value, Value::Variable(name("x")));
        }
        _ => panic!("expected a list"),
    }
}

#[test]
fn reading_an_object_and_scalars() {
    let vars = five();
    let value = Value::Object(vec![(name("k"), Value::Null)]);
    match ValueDeserializer::new(value, &vars).deserialize_any() {
        Ok(Visit::Object(entries)) => {
            assert_eq!(entries.len(), 1);
            assert_eq!(entries[0].0.as_str(), "k");
            assert_eq!(entries[0].1.value, Value::Null);
        }
        _ => panic!("expected an object"),
    }
    assert!(matches!(ValueDeserializer::new(Value::Null, &vars).deserialize_any(), Ok(Visit::Unit)));
    assert!(matches!(
        ValueDeserializer::new(Value::Boolean(true), &vars).deserialize_any(),
        Ok(Visit::Bool(true))
    ));
    match ValueDeserializer::new(Value::String("s".to_string()), &vars).deserialize_any() {
        Ok(Visit::String(s)) => assert_eq!(s, "s"),
        _ => panic!("expected a string"),
    }
    match ValueDeserializer::new(Value::Enum(name("E")), &vars).deserialize_any() {
        Ok(Visit::Enum(e)) => assert_eq!(e.as_str(), "E"),
        _ => panic!("expected an enum value"),
    }
}

#[test]
fn reading_an_option() {
    let vars = Variables(vec![
        (name("n"), ConstValue::Null),
        (name("x"), ConstValue::Number(Number::PosInt(5))),
    ]);
    assert!(matches!(ValueDeserializer::new(Value::Null, &vars).deserialize_option(), Ok(None)));
    assert!(matches!(
        ValueDeserializer::new(Value::Variable(name("n")), &vars).deserialize_option(),
        Ok(None)
    ));
    match ValueDeserializer::new(Value::Variable(name("x")), &vars).deserialize_option() {
        Ok(Some(inner)) => assert_eq!(inner.value, Value::Number(Number::PosInt(5))),
        _ => panic!("expected some value"),
    }
    match ValueDeserializer::new(Value::Boolean(false), &vars).deserialize_option() {
        Ok(Some(inner)) => assert_eq!(inner.value, Value::Boolean(false)),
        _ => panic!("expected some value"),
    }
}

#[test]
fn variables_from_values_and_json() {
    let object = ConstValue::Object(vec![(name("x"), ConstValue::Null)]);
    assert_eq!(Variables::from_value(object.clone()), Variables(vec![(name("x"), ConstValue::Null)]));
    assert_eq!(Variables::from_value(ConstValue::Null), Variables(vec![]));
    assert_eq!(Variables::from_value(object.clone()).into_value(), object);
    let json = Json::Object(vec![("x".to_string(), Json::Bool(true))]);
    assert_eq!(Variables::from_json(json), Variables(vec![(name("x"), ConstValue::Boolean(true))]));
    let bad = Json::Object(vec![("no name".to_string(), Json::Bool(true))]);
    assert_eq!(Variables::from_json(bad), Variables(vec![]));
    assert_eq!(Variables::from_json(Json::Array(vec![])), Variables(vec![]));
    assert_eq!(five().get(&name("x")), Some(ConstValue::Number(Number::PosInt(5))));
    assert_eq!(five().get(&name("y")), None);
    assert_eq!(five().clone(), five());
}

#[test]
fn variables_as_text() {
    assert_eq!(Variables::new().to_string(), "{}");
    assert_eq!(five().to_string(), "{x: 5}");
    let two = Variables(vec![
        (name("a"), ConstValue::List(vec![ConstValue::Null])),
        (name("b"), ConstValue::String("s".to_string())),
    ]);
    assert_eq!(two.to_string(), "{a: [null,], b: \"s\"}");
}

#[test]
fn paths_into_variables() {
    let vars = Variables(vec![
        (
            name("files"),
            ConstValue::List(vec![
                ConstValue::String("first".to_string()),
                ConstValue::Object(vec![(name("inner"), ConstValue::Boolean(true))]),
            ]),
        ),
        (name("one"), ConstValue::Null),
    ]);
    assert_eq!(vars.variable_path("variables.one"), Some(&ConstValue::Null));
    assert_eq!(
        vars.variable_path("variables.files.0"),
        Some(&ConstValue::String("first".to_string()))
    );
    assert_eq!(vars.variable_path("variables.files.+0"), Some(&ConstValue::String("first".to_string())));
    assert_eq!(vars.variable_path("variables.files.00"), Some(&ConstValue::String("first".to_string())));
    assert_eq!(vars.variable_path("variables.files.1.inner"), Some(&ConstValue::Boolean(true)));
    assert_eq!(vars.variable_path("variables.files.2"), None);
    assert_eq!(vars.variable_path("variables.files.-0"), None);
    assert_eq!(vars.variable_path("variables.files.x"), None);
    assert_eq!(vars.variable_path("variables.files."), None);
    assert_eq!(vars.variable_path("variables.files.4294967296"), None);
    assert_eq!(vars.variable_path("variables.files.99999999999999999999999"), None);
    assert_eq!(vars.variable_path("variables.files.1.other"), None);
    assert_eq!(vars.variable_path("variables.one.x"), None);
    assert_eq!(vars.variable_path("variables.missing"), None);
    assert_eq!(vars.variable_path("variables."), None);
    assert_eq!(vars.variable_path("variables"), None);
    assert_eq!(vars.variable_path("files.0"), None);
    assert_eq!(vars.variable_path(""), None);
}

#[test]
fn values_are_changed_through_a_path() {
    let mut vars = Variables(vec![
        (
            name("files"),
            ConstValue::List(vec![
                ConstValue::Null,
                ConstValue::Object(vec![(name("inner"), ConstValue::Null)]),
            ]),
        ),
        (name("one"), ConstValue::Null),
    ]);
    *vars.variable_path_mut("variables.files.0").unwrap() = ConstValue::String("first".to_string());
    *vars.variable_path_mut("variables.files.1.inner").unwrap() = ConstValue::Boolean(true);
    *vars.variable_path_mut("variables.one").unwrap() = ConstValue::Number(Number::PosInt(1));
    assert!(vars.variable_path_mut("variables.files.2").is_none());
    assert!(vars.variable_path_mut("variables.missing").is_none());
    assert!(vars.variable_path_mut("files.0").is_none());
    assert!(vars.variable_path_mut("variables.one.deeper").is_none());
    assert_eq!(
        vars,
        Variables(vec![
            (
                name("files"),
                ConstValue::List(vec![
                    ConstValue::String("first".to_string()),
                    ConstValue::Object(vec![(name("inner"), ConstValue::Boolean(true))]),
                ]),
            ),
            (name("one"), ConstValue::Number(Number::PosInt(1))),
        ])
    );
}
