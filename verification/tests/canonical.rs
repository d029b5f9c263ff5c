use minicurl::canonical::sort_json_keys;
use minicurl::codec::sorted_text;
use minicurl::order::keys_in_order;
use minicurl::value::JsonValue;

fn text(s: &str) -> JsonValue {
    JsonValue::String(s.to_string())
}

fn number(n: u64) -> JsonValue {
    JsonValue::Number(serde_json::Number::from(n))
}

fn object(members: Vec<(&str, JsonValue)>) -> JsonValue {
    JsonValue::Object(members.into_iter().map(|(k, v)| (k.to_string(), v)).collect())
}

fn sorted(value: JsonValue) -> JsonValue {
    let mut value = value;
    sort_json_keys(&mut value);
    value
}

fn nested() -> JsonValue {
    object(vec![
        ("zeta", JsonValue::Array(vec![
            object(vec![("y", number(1)), ("x", number(2))]),
            number(3),
            object(vec![("b", JsonValue::Null), ("a", JsonValue::Bool(false))]),
        ])),
        ("alpha", object(vec![
            ("k2", text("v2")),
            ("k1", object(vec![("n", number(9)), ("m", number(8))])),
        ])),
        ("mid", text("m")),
    ])
}

fn nested_sorted() -> JsonValue {
    object(vec![
        ("alpha", object(vec![
            ("k1", object(vec![("m", number(8)), ("n", number(9))])),
            ("k2", text("v2")),
        ])),
        ("mid", text("m")),
        ("zeta", JsonValue::Array(vec![
            object(vec![("x", number(2)), ("y", number(1))]),
            number(3),
            object(vec![("a", JsonValue::Bool(false)), ("b", JsonValue::Null)]),
        ])),
    ])
}

#[test]
fn scalars_are_left_alone() {
    assert_eq!(sorted(JsonValue::Null), JsonValue::Null);
    assert_eq!(sorted(JsonValue::Bool(true)), JsonValue::Bool(true));
    assert_eq!(sorted(number(42)), number(42));
    assert_eq!(sorted(text("b")), text("b"));
}

#[test]
fn members_come_out_in_key_order() {
    let v = object(vec![("b", JsonValue::Bool(true)), ("a", JsonValue::Null)]);
    assert_eq!(sorted(v), object(vec![("a", JsonValue::Null), ("b", JsonValue::Bool(true))]));
}

#[test]
fn keys_are_sorted_at_every_depth() {
    assert_eq!(sorted(nested()), nested_sorted());
}

#[test]
fn sorting_twice_is_sorting_once() {
    let once = sorted(nested());
    let twice = sorted(sorted(nested()));
    assert_eq!(once, twice);
    assert_eq!(twice, nested_sorted());
}

#[test]
fn a_sorted_value_is_left_as_it_is() {
    assert_eq!(sorted(nested_sorted()), nested_sorted());
}

#[test]
fn arrays_keep_their_order() {
    let v = JsonValue::Array(vec![number(3), number(1), text("z"), text("a"), number(2)]);
    assert_eq!(
        sorted(v),
        JsonValue::Array(vec![number(3), number(1), text("z"), text("a"), number(2)])
    );
}

#[test]
fn arrays_of_objects_keep_their_order() {
    let v = JsonValue::Array(vec![
        object(vec![("z", number(1))]),
        object(vec![("b", number(2)), ("a", number(3))]),
    ]);
    assert_eq!(
        sorted(v),
        JsonValue::Array(vec![
            object(vec![("z", number(1))]),
            object(vec![("a", number(3)), ("b", number(2))]),
        ])
    );
}

#[test]
fn values_stay_with_their_keys() {
    let v = object(vec![("c", number(3)), ("a", number(1)), ("b", number(2))]);
    assert_eq!(sorted(v), object(vec![("a", number(1)), ("b", number(2)), ("c", number(3))]));
}

#[test]
fn empty_containers_are_left_alone() {
    assert_eq!(sorted(JsonValue::Array(vec![])), JsonValue::Array(vec![]));
    assert_eq!(sorted(object(vec![])), object(vec![]));
}

#[test]
fn keys_are_ordered_by_their_bytes() {
    let v = object(vec![
        ("b", number(1)),
        ("a", number(2)),
        ("B", number(3)),
        ("ab", number(4)),
        ("", number(5)),
        ("é", number(6)),
        ("z", number(7)),
        ("10", number(8)),
        ("9", number(9)),
    ]);
    assert_eq!(
        sorted(v),
        object(vec![
            ("", number(5)),
            ("10", number(8)),
            ("9", number(9)),
            ("B", number(3)),
            ("a", number(2)),
            ("ab", number(4)),
            ("b", number(1)),
            ("z", number(7)),
            ("é", number(6)),
        ])
    );
}

#[test]
fn members_with_one_key_keep_their_order() {
    let v = object(vec![("k", number(1)), ("a", number(0)), ("k", number(2)), ("k", number(3))]);
    assert_eq!(
        sorted(v),
        object(vec![("a", number(0)), ("k", number(1)), ("k", number(2)), ("k", number(3))])
    );
}

#[test]
fn a_long_object_is_sorted() {
    let mut members = Vec::new();
    for i in (0..200u64).rev() {
        members.push((format!("key{:03}", (i * 37) % 200), number(i)));
    }
    let got = sorted(JsonValue::Object(members));
    match got {
        JsonValue::Object(members) => {
            assert_eq!(members.len(), 200);
            for (i, (key, _)) in members.iter().enumerate() {
                assert_eq!(key, &format!("key{:03}", i));
            }
        }
        _ => panic!("an object stays an object"),
    }
}

#[test]
fn key_order_is_byte_order() {
    assert!(keys_in_order("", ""));
    assert!(keys_in_order("", "a"));
    assert!(!keys_in_order("a", ""));
    assert!(keys_in_order("a", "a"));
    assert!(keys_in_order("a", "ab"));
    assert!(!keys_in_order("ab", "a"));
    assert!(keys_in_order("B", "a"));
    assert!(!keys_in_order("a", "B"));
    assert!(keys_in_order("z", "é"));
    assert!(!keys_in_order("é", "z"));
    assert!(keys_in_order("abc", "abd"));
    assert!(!keys_in_order("abd", "abc"));
    assert_eq!(keys_in_order("x", "y"), "x" <= "y");
    assert_eq!(keys_in_order("\u{10000}", "\u{ffff}"), "\u{10000}" <= "\u{ffff}");
}

#[test]
fn sorted_text_sorts_and_indents() {
    assert_eq!(
        sorted_text("{\"b\":2,\"a\":1}"),
        Some("{\n  \"a\": 1,\n  \"b\": 2\n}".to_string())
    );
}

#[test]
fn sorted_text_keeps_arrays_and_numbers() {
    assert_eq!(
        sorted_text("{\"n\":[3,1,2.5,-7,1e3],\"m\":{\"y\":null,\"x\":true}}"),
        Some(
            "{\n  \"m\": {\n    \"x\": true,\n    \"y\": null\n  },\n  \"n\": [\n    3,\n    1,\n    2.5,\n    -7,\n    1000.0\n  ]\n}"
                .to_string()
        )
    );
}

#[test]
fn sorted_text_of_scalars() {
    assert_eq!(sorted_text("  17 "), Some("17".to_string()));
    assert_eq!(sorted_text("\"x\""), Some("\"x\"".to_string()));
    assert_eq!(sorted_text("null"), Some("null".to_string()));
    assert_eq!(sorted_text("[]"), Some("[]".to_string()));
    assert_eq!(sorted_text("{}"), Some("{}".to_string()));
}

#[test]
fn sorted_text_of_what_is_not_json() {
    assert_eq!(sorted_text("<html></html>"), None);
    assert_eq!(sorted_text(""), None);
    assert_eq!(sorted_text("{\"a\":1"), None);
    assert_eq!(sorted_text("{\"a\":1} x"), None);
}

#[test]
fn sorted_text_takes_the_last_of_two_equal_keys() {
    assert_eq!(sorted_text("{\"a\":1,\"a\":2}"), Some("{\n  \"a\": 2\n}".to_string()));
}
