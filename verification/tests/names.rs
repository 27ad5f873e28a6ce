use graphql_core::name::Name;

#[test]
fn test_valid_names() {
    assert!(Name::is_valid("valid_name"));
    assert!(Name::is_valid("numbers123_456_789abc"));
    assert!(Name::is_valid("MiXeD_CaSe"));
    assert!(Name::is_valid("_"));
    assert!(!Name::is_valid("invalid name"));
    assert!(!Name::is_valid("123and_text"));
}

#[test]
fn name_grammar_edges() {
    assert!(Name::is_valid("_"));
    assert!(!Name::is_valid("123x"));
    assert!(!Name::is_valid("a b"));
    assert!(!Name::is_valid(""));
    assert!(!Name::is_valid("é"));
    assert!(!Name::is_valid("a-b"));
    assert!(Name::is_valid("a1"));
}

#[test]
fn name_new_returns_the_string_on_failure() {
    assert_eq!(Name::new("ok".to_string()).unwrap().as_str(), "ok");
    assert_eq!(Name::new("not ok".to_string()), Err("not ok".to_string()));
    assert_eq!(Name::new_unchecked("x".to_string()).into_string(), "x");
    assert!(Name::new("abc".to_string()).unwrap().eq_str("abc"));
}

#[test]
fn a_name_is_read_as_a_string() {
    let name = Name::new("field".to_string()).unwrap();
    assert_eq!(&*name, "field");
    assert_eq!(name.len(), 5);
    let text: &str = name.as_ref();
    assert_eq!(text, "field");
    assert_eq!(name.clone(), name);
    assert!(Name::new("a".to_string()).unwrap() < Name::new("b".to_string()).unwrap());
}
