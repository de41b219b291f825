use alice_games::json::{string_items, JsonValue};
use alice_games::text::{chars_as_strings, decimal_string, with_number};

fn s(x: &str) -> String {
    x.to_string()
}

fn obj(members: Vec<(&str, JsonValue)>) -> JsonValue {
    JsonValue::Object(members.into_iter().map(|(k, v)| (k.to_string(), v)).collect())
}

#[test]
fn get_finds_a_member() {
    let v = obj(vec![("a", JsonValue::Bool(true)), ("b", JsonValue::String(s("x")))]);
    assert_eq!(v.get("b"), Some(&JsonValue::String(s("x"))));
    assert_eq!(v.get("a"), Some(&JsonValue::Bool(true)));
    assert_eq!(v.get("c"), None);
}

#[test]
fn get_takes_the_last_member_of_a_name() {
    let v = obj(vec![("a", JsonValue::Bool(true)), ("a", JsonValue::Bool(false))]);
    assert_eq!(v.get("a"), Some(&JsonValue::Bool(false)));
}

#[test]
fn get_on_a_value_that_is_no_object() {
    assert_eq!(JsonValue::Array(vec![]).get("a"), None);
    assert_eq!(JsonValue::String(s("a")).get("a"), None);
    assert_eq!(JsonValue::Null.get("a"), None);
}

#[test]
fn accessors_by_kind() {
    assert_eq!(JsonValue::String(s("q")).as_str(), Some(&s("q")));
    assert_eq!(JsonValue::Bool(true).as_str(), None);
    assert_eq!(JsonValue::Bool(false).as_bool(), Some(false));
    assert_eq!(JsonValue::Number(s("1")).as_bool(), None);
    assert_eq!(JsonValue::Array(vec![JsonValue::Null]).as_array(), Some(&vec![JsonValue::Null]));
    assert_eq!(JsonValue::Null.as_array(), None);
}

#[test]
fn deep_clone_copies_everything() {
    let v = obj(vec![
        ("list", JsonValue::Array(vec![JsonValue::Number(s("1.5")), JsonValue::Null])),
        ("inner", obj(vec![("x", JsonValue::String(s("y")))])),
    ]);
    assert_eq!(v.deep_clone(), v);
}

#[test]
fn string_items_skips_other_values() {
    let items = vec![JsonValue::String(s("a")), JsonValue::Bool(true), JsonValue::String(s("b"))];
    assert_eq!(string_items(&items), vec![s("a"), s("b")]);
}

#[test]
fn decimal_of_integers() {
    assert_eq!(decimal_string(0), "0");
    assert_eq!(decimal_string(7), "7");
    assert_eq!(decimal_string(21), "21");
    assert_eq!(decimal_string(-15), "-15");
    assert_eq!(decimal_string(2147483647), "2147483647");
    assert_eq!(decimal_string(-2147483648), "-2147483648");
    assert_eq!(decimal_string(4294967295), "4294967295");
    assert_eq!(decimal_string(i64::MIN), "-9223372036854775808");
    assert_eq!(with_number("n=", i64::MIN), format!("n={}", i64::MIN));
}

#[test]
fn decimal_agrees_with_to_string() {
    for n in [i64::MIN, -1000i64, -10, -9, -1, 0, 1, 9, 10, 99, 100, 12345, i64::MAX] {
        assert_eq!(decimal_string(n), n.to_string());
    }
}

#[test]
fn score_line_format() {
    assert_eq!(with_number("Счет ", 13), "Счет 13");
    assert_eq!(with_number("Счет ", 13), format!("Счет {}", 13));
}

#[test]
fn chars_split_joined_emoji() {
    let parts = chars_as_strings("a🧗\u{200d}♂б");
    assert_eq!(parts, vec![s("a"), s("🧗"), s("\u{200d}"), s("♂"), s("б")]);
    assert_eq!(chars_as_strings(""), Vec::<String>::new());
}
