use graphql_core::name::Name;
use graphql_core::number::Number;
use graphql_core::order::{entries_ordered, insert_entry, ordered_entries, text_less};
use graphql_core::value::ConstValue;
use graphql_core::variables::{VariableLookup, Variables};

fn name(text: &str) -> Name {
    Name::new(text.to_string()).unwrap()
}

fn num(n: u64) -> ConstValue {
    ConstValue::Number(Number::PosInt(n))
}

#[test]
fn the_order_of_texts() {
    assert!(text_less("a", "b"));
    assert!(!text_less("b", "a"));
    assert!(!text_less("a", "a"));
    assert!(text_less("", "a"));
    assert!(!text_less("a", ""));
    assert!(!text_less("", ""));
    assert!(text_less("a", "ab"));
    assert!(text_less("ab", "b"));
    assert!(text_less("Z", "a"));
    assert!(text_less("z", "é"));
    assert!(text_less("é", "\u{10000}"));
    for (a, b) in [("abc", "abd"), ("x", "y1"), ("_", "a"), ("A1", "A2")] {
        assert_eq!(text_less(a, b), a < b);
        assert_eq!(text_less(b, a), b < a);
    }
}

#[test]
fn entries_stay_in_the_order_of_their_keys() {
    let mut entries = Vec::new();
    assert_eq!(insert_entry(&mut entries, name("m"), num(1)), None);
    assert_eq!(insert_entry(&mut entries, name("a"), num(2)), None);
    assert_eq!(insert_entry(&mut entries, name("z"), num(3)), None);
    assert_eq!(insert_entry(&mut entries, name("n"), num(4)), None);
    assert_eq!(insert_entry(&mut entries, name("m"), num(5)), Some(num(1)));
    assert_eq!(
        entries,
        vec![(name("a"), num(2)), (name("m"), num(5)), (name("n"), num(4)), (name("z"), num(3))]
    );
}

#[test]
fn an_object_from_pairs_keeps_the_last_value_of_a_key() {
    let pairs = vec![(name("b"), num(1)), (name("a"), num(2)), (name("b"), num(3))];
    assert_eq!(ordered_entries(pairs), vec![(name("a"), num(2)), (name("b"), num(3))]);
    let pairs = vec![(name("b"), num(1)), (name("a"), num(2)), (name("b"), num(3))];
    assert_eq!(
        ConstValue::object(pairs),
        ConstValue::Object(vec![(name("a"), num(2)), (name("b"), num(3))])
    );
    assert_eq!(ConstValue::object(vec![]), ConstValue::Object(vec![]));
}

#[test]
fn variables_are_inserted_in_order() {
    let mut vars = Variables::new();
    assert_eq!(vars.insert(name("y"), num(1)), None);
    assert_eq!(vars.insert(name("x"), num(2)), None);
    assert_eq!(vars.insert(name("y"), num(3)), Some(num(1)));
    assert_eq!(vars, Variables(vec![(name("x"), num(2)), (name("y"), num(3))]));
    assert_eq!(vars.get(&name("y")), Some(num(3)));
}

#[test]
fn order_is_checked() {
    assert!(entries_ordered(&vec![]));
    assert!(entries_ordered(&vec![(name("a"), num(1))]));
    assert!(entries_ordered(&vec![(name("a"), num(1)), (name("b"), num(1)), (name("c"), num(1))]));
    assert!(!entries_ordered(&vec![(name("a"), num(1)), (name("a"), num(1))]));
    assert!(!entries_ordered(&vec![(name("a"), num(1)), (name("c"), num(1)), (name("b"), num(1))]));
}
