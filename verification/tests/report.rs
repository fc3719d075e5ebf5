use image_ingest::report::{push_decimal, push_json_string, IngestionResult};

fn decimal(n: usize) -> String {
    let mut out = String::new();
    push_decimal(&mut out, n);
    out
}

#[test]
fn empty_result_is_an_empty_object() {
    let result = IngestionResult::new();
    assert_eq!(result.len(), 0);
    assert_eq!(result.to_json(), "{}");
}

#[test]
fn one_entry_is_one_member() {
    let mut result = IngestionResult::new();
    result.record("a.png".to_string(), 500, 123);
    assert_eq!(result.to_json(), "{ \"a.png\": { \"full\": 500, \"thumb\": 123 } }");
}

#[test]
fn entries_come_in_the_order_of_recording() {
    let mut result = IngestionResult::new();
    result.record("b.jpg".to_string(), 200, 77);
    result.record("a.png".to_string(), 500, 123);
    result.record("c.gif".to_string(), 0, 1);
    assert_eq!(
        result.to_json(),
        "{ \"b.jpg\": { \"full\": 200, \"thumb\": 77 }, \"a.png\": { \"full\": 500, \"thumb\": 123 }, \"c.gif\": { \"full\": 0, \"thumb\": 1 } }"
    );
    assert_eq!(result.len(), 3);
    assert_eq!(result.entry(0).unwrap().name, "b.jpg");
    assert_eq!(result.entry(2).unwrap().name, "c.gif");
    assert!(result.entry(3).is_none());
}

#[test]
fn recording_a_name_again_replaces_its_sizes() {
    let mut result = IngestionResult::new();
    result.record("a.png".to_string(), 500, 123);
    result.record("b.jpg".to_string(), 200, 77);
    result.record("a.png".to_string(), 90, 40);
    assert_eq!(result.len(), 2);
    assert_eq!(result.get("a.png"), Some((90, 40)));
    assert_eq!(result.get("b.jpg"), Some((200, 77)));
    assert_eq!(
        result.to_json(),
        "{ \"a.png\": { \"full\": 90, \"thumb\": 40 }, \"b.jpg\": { \"full\": 200, \"thumb\": 77 } }"
    );
}

#[test]
fn unknown_name_is_not_found() {
    let mut result = IngestionResult::new();
    result.record("a.png".to_string(), 500, 123);
    assert_eq!(result.get("A.png"), None);
    assert_eq!(result.get(""), None);
    assert_eq!(result.find(&"a.png".to_string()), Some(0));
    assert_eq!(result.find(&"b.png".to_string()), None);
}

fn json_string(text: &str) -> String {
    let mut out = String::new();
    push_json_string(&mut out, text);
    out
}

#[test]
fn plain_names_are_written_as_they_are() {
    let mut result = IngestionResult::new();
    result.record("sous-bois d'\u{e9}t\u{e9}.png".to_string(), 1, 2);
    assert_eq!(
        result.to_json(),
        "{ \"sous-bois d'\u{e9}t\u{e9}.png\": { \"full\": 1, \"thumb\": 2 } }"
    );
    assert_eq!(json_string("a.png"), "\"a.png\"");
    assert_eq!(json_string(""), "\"\"");
    assert_eq!(json_string("dir/../x y.jpg"), "\"dir/../x y.jpg\"");
}

#[test]
fn quotes_and_backslashes_are_escaped() {
    assert_eq!(json_string("\""), "\"\\\"\"");
    assert_eq!(json_string("\\"), "\"\\\\\"");
    assert_eq!(json_string("a\"b\\c"), "\"a\\\"b\\\\c\"");
    let mut result = IngestionResult::new();
    result.record("\"".to_string(), 1, 2);
    assert_eq!(result.to_json(), "{ \"\\\"\": { \"full\": 1, \"thumb\": 2 } }");
}

#[test]
fn control_characters_are_escaped() {
    assert_eq!(json_string("\n"), "\"\\u000a\"");
    assert_eq!(json_string("\u{0}"), "\"\\u0000\"");
    assert_eq!(json_string("\u{1f}"), "\"\\u001f\"");
    assert_eq!(json_string("a\tb"), "\"a\\u0009b\"");
    assert_eq!(json_string("\u{20}\u{7f}"), "\"\u{20}\u{7f}\"");
}

#[test]
fn escaped_names_tell_names_apart() {
    let names = ["a", "a\"", "a\\", "a\\\"", "\\u000a", "\n", "a\\u0022", "\"a"];
    for (i, first) in names.iter().enumerate() {
        for (j, second) in names.iter().enumerate() {
            assert_eq!(json_string(first) == json_string(second), i == j);
        }
    }
}

#[test]
fn decimal_numerals() {
    assert_eq!(decimal(0), "0");
    assert_eq!(decimal(7), "7");
    assert_eq!(decimal(9), "9");
    assert_eq!(decimal(10), "10");
    assert_eq!(decimal(99), "99");
    assert_eq!(decimal(100), "100");
    assert_eq!(decimal(1234567890), "1234567890");
    assert_eq!(decimal(usize::MAX), format!("{}", usize::MAX));
}

#[test]
fn decimal_is_appended_to_what_is_there() {
    let mut out = String::from("size=");
    push_decimal(&mut out, 4096);
    assert_eq!(out, "size=4096");
}
