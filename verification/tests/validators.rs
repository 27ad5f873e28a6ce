use graphql_core::number::Number;
use graphql_core::validators::{
    range_contains, Bound, Bounds, Email, InRange, InputValueValidator, InputValueValidatorExt,
    ListLength, StringChars, StringLength, MAC,
};
use graphql_core::value::ConstValue;

fn text(s: &str) -> ConstValue {
    ConstValue::String(s.to_string())
}

fn whole(n: u64) -> ConstValue {
    ConstValue::Number(Number::PosInt(n))
}

fn closed(lo: i128, hi: i128) -> Bounds {
    Bounds { start: Bound::Included(lo), end: Bound::Included(hi) }
}

#[test]
fn range_messages() {
    let r = closed(100, 200);
    assert_eq!(range_contains(&r, 150, "value", None, ("low", "high")), Ok(()));
    assert_eq!(range_contains(&r, 100, "value", None, ("low", "high")), Ok(()));
    assert_eq!(range_contains(&r, 200, "value", None, ("low", "high")), Ok(()));
    assert_eq!(
        range_contains(&r, 99, "value", None, ("low", "high")),
        Err("value is too low, must be 100 or above".to_string())
    );
    assert_eq!(
        range_contains(&r, 201, "value", None, ("low", "high")),
        Err("value is too high, must be 200 or below".to_string())
    );
    let open = Bounds { start: Bound::Excluded(-5), end: Bound::Excluded(5) };
    assert_eq!(
        range_contains(&open, -5, "list", Some("items"), ("short", "long")),
        Err("list is too short, must be above -5 items long".to_string())
    );
    assert_eq!(
        range_contains(&open, 5, "list", Some("items"), ("short", "long")),
        Err("list is too long, must be below 5 items long".to_string())
    );
    assert_eq!(range_contains(&open, 4, "list", Some("items"), ("short", "long")), Ok(()));
    let any = Bounds { start: Bound::Unbounded, end: Bound::Unbounded };
    assert_eq!(range_contains(&any, i128::MIN, "value", None, ("low", "high")), Ok(()));
}

#[test]
fn in_range() {
    let v = InRange::new(closed(100, 200));
    assert_eq!(v.validate(&whole(150)), Ok(()));
    assert_eq!(v.validate(&whole(5)), Err("value is too low, must be 100 or above".to_string()));
    assert_eq!(
        v.validate(&ConstValue::Number(Number::NegInt(-1))),
        Err("value is too low, must be 100 or above".to_string())
    );
    assert_eq!(v.validate(&text("150")), Err("expected an integer".to_string()));
}

#[test]
fn list_and_string_lengths() {
    let l = ListLength::new(closed(1, 2));
    assert_eq!(l.validate(&ConstValue::List(vec![whole(1)])), Ok(()));
    assert_eq!(
        l.validate(&ConstValue::List(vec![])),
        Err("list is too short, must be 1 or above items long".to_string())
    );
    assert_eq!(
        l.validate(&ConstValue::List(vec![whole(1), whole(2), whole(3)])),
        Err("list is too long, must be 2 or below items long".to_string())
    );
    assert_eq!(l.validate(&whole(1)), Err("expected a list".to_string()));
    let bytes = StringLength::new(closed(0, 2));
    assert_eq!(bytes.validate(&text("ab")), Ok(()));
    assert_eq!(
        bytes.validate(&text("éé")),
        Err("string is too long, must be 2 or below bytes long".to_string())
    );
    assert_eq!(bytes.validate(&whole(1)), Err("expected a string".to_string()));
    let chars = StringChars::new(closed(0, 2));
    assert_eq!(chars.validate(&text("éé")), Ok(()));
    assert_eq!(
        chars.validate(&text("ééé")),
        Err("string is too long, must be 2 or below characters long".to_string())
    );
}

#[test]
fn email_and_mac() {
    assert_eq!(Email.validate(&text("joe@example.com")), Ok(()));
    assert_eq!(Email.validate(&text("\"very unusual\"@example.com")), Ok(()));
    assert_eq!(Email.validate(&text("example.com")), Err("expected a valid email".to_string()));
    assert_eq!(Email.validate(&text("@example.com")), Err("expected a valid email".to_string()));
    assert_eq!(Email.validate(&whole(1)), Err("expected a string".to_string()));
    assert!(!MAC::default().colon);
    assert!(!MAC { colon: true }.colon(false).colon);
    let with_colon = MAC::default().colon(true);
    assert!(with_colon.colon);
    assert_eq!(with_colon.validate(&text("00:1B:44:11:3A:B7")), Ok(()));
    assert_eq!(
        with_colon.validate(&text("001B44113AB7")),
        Err("expected a valid MAC address".to_string())
    );
    let without = MAC::default();
    assert_eq!(without.validate(&text("001B44113AB7")), Ok(()));
    assert_eq!(
        without.validate(&text("00:1B:44:11:3A:B7")),
        Err("expected a valid MAC address".to_string())
    );
}

#[test]
fn combined_validators() {
    let both = StringLength::new(closed(3, 100)).and(Email);
    assert_eq!(both.validate(&text("joe@example.com")), Ok(()));
    assert_eq!(
        both.validate(&text("a@")),
        Err("string is too short, must be 3 or above bytes long".to_string())
    );
    assert_eq!(both.validate(&text("abcd")), Err("expected a valid email".to_string()));
    let either = Email.or(MAC::default().colon(true));
    assert_eq!(either.validate(&text("joe@example.com")), Ok(()));
    assert_eq!(either.validate(&text("00:1B:44:11:3A:B7")), Ok(()));
    assert_eq!(either.validate(&text("neither")), Err("expected a valid MAC address".to_string()));
}
