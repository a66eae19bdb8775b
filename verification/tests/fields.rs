use custom_logger::fields::{FieldValue, FieldVisitor};
use custom_logger::text::{str_eq, str_lt};

fn json_of(map: serde_json::Map<String, serde_json::Value>) -> String {
    serde_json::Value::Object(map).to_string()
}

#[test]
fn no_fields_is_the_empty_object() {
    assert_eq!(FieldVisitor::new().to_json(), "{}");
}

#[test]
fn one_field_of_each_shape() {
    let mut fields = FieldVisitor::new();
    fields.record_bool("ok", true);
    assert_eq!(fields.to_json(), "{\"ok\":true}");

    let mut fields = FieldVisitor::new();
    fields.record_bool("ok", false);
    assert_eq!(fields.to_json(), "{\"ok\":false}");

    let mut fields = FieldVisitor::new();
    fields.record_i64("n", -42);
    assert_eq!(fields.to_json(), "{\"n\":-42}");

    let mut fields = FieldVisitor::new();
    fields.record_u64("n", 42);
    assert_eq!(fields.to_json(), "{\"n\":42}");

    let mut fields = FieldVisitor::new();
    fields.record_str("s", "text");
    assert_eq!(fields.to_json(), "{\"s\":\"text\"}");

    let mut fields = FieldVisitor::new();
    fields.record_debug("d", "Point { x: 1 }");
    assert_eq!(fields.to_json(), "{\"d\":\"Point { x: 1 }\"}");
}

#[test]
fn integers_are_written_in_decimal() {
    assert_eq!(FieldValue::I64(0).to_json(), "0");
    assert_eq!(FieldValue::I64(7).to_json(), "7");
    assert_eq!(FieldValue::I64(10).to_json(), "10");
    assert_eq!(FieldValue::I64(-1).to_json(), "-1");
    assert_eq!(FieldValue::I64(1_002_003).to_json(), "1002003");
    assert_eq!(FieldValue::I64(i64::MAX).to_json(), "9223372036854775807");
    assert_eq!(FieldValue::I64(i64::MIN).to_json(), "-9223372036854775808");
    assert_eq!(FieldValue::U64(0).to_json(), "0");
    assert_eq!(FieldValue::U64(909).to_json(), "909");
    assert_eq!(FieldValue::U64(u64::MAX).to_json(), "18446744073709551615");
}

#[test]
fn booleans_and_texts_as_json() {
    assert_eq!(FieldValue::Bool(true).to_json(), "true");
    assert_eq!(FieldValue::Bool(false).to_json(), "false");
    assert_eq!(FieldValue::Str("a".to_string()).to_json(), "\"a\"");
    assert_eq!(FieldValue::Str(String::new()).to_json(), "\"\"");
    assert_eq!(FieldValue::Debug("a".to_string()).to_json(), "\"a\"");
}

#[test]
fn texts_are_escaped_as_json_strings() {
    assert_eq!(FieldValue::Str("say \"hi\"".to_string()).to_json(), "\"say \\\"hi\\\"\"");
    assert_eq!(FieldValue::Str("a\\b".to_string()).to_json(), "\"a\\\\b\"");
    assert_eq!(FieldValue::Str("l1\nl2\tend\r".to_string()).to_json(), "\"l1\\nl2\\tend\\r\"");
    assert_eq!(FieldValue::Str("\u{1}\u{1f}".to_string()).to_json(), "\"\\u0001\\u001f\"");
    assert_eq!(FieldValue::Str("\u{8}\u{c}".to_string()).to_json(), "\"\\b\\f\"");
    assert_eq!(FieldValue::Str("caf\u{e9} / \u{7f}".to_string()).to_json(), "\"caf\u{e9} / \u{7f}\"");
}

#[test]
fn value_text_is_for_texts_only() {
    assert_eq!(FieldValue::Str("a".to_string()).as_str(), Some("a"));
    assert_eq!(FieldValue::Debug("b".to_string()).as_str(), Some("b"));
    assert_eq!(FieldValue::Bool(true).as_str(), None);
    assert_eq!(FieldValue::I64(1).as_str(), None);
    assert_eq!(FieldValue::U64(1).as_str(), None);
}

#[test]
fn members_come_in_key_order() {
    let mut fields = FieldVisitor::new();
    fields.record_bool("ok", true);
    fields.record_i64("count", 3);
    fields.record_str("zeta", "z");
    fields.record_u64("alpha", 1);
    assert_eq!(fields.to_json(), "{\"alpha\":1,\"count\":3,\"ok\":true,\"zeta\":\"z\"}");
}

#[test]
fn key_order_does_not_depend_on_recording_order() {
    let keys = ["b", "a", "c", "ab", "", "B", "a b", "\u{e9}", "z", "aa"];
    let mut forward = FieldVisitor::new();
    for (i, key) in keys.iter().enumerate() {
        forward.record_u64(key, i as u64);
    }
    let mut backward = FieldVisitor::new();
    for (i, key) in keys.iter().enumerate().rev() {
        backward.record_u64(key, i as u64);
    }
    assert_eq!(forward.to_json(), backward.to_json());
    assert_eq!(
        forward.to_json(),
        "{\"\":4,\"B\":5,\"a\":1,\"a b\":6,\"aa\":9,\"ab\":3,\"b\":0,\"c\":2,\"z\":8,\"\u{e9}\":7}"
    );
}

#[test]
fn later_write_wins() {
    let mut fields = FieldVisitor::new();
    fields.record_i64("n", 1);
    fields.record_bool("flag", false);
    fields.record_i64("n", 2);
    assert_eq!(fields.to_json(), "{\"flag\":false,\"n\":2}");
    fields.record_str("n", "three");
    assert_eq!(fields.to_json(), "{\"flag\":false,\"n\":\"three\"}");
    assert_eq!(fields.get("n"), Some(&FieldValue::Str("three".to_string())));
}

#[test]
fn record_takes_any_value() {
    let mut fields = FieldVisitor::new();
    fields.record("b", FieldValue::U64(2));
    fields.record("a", FieldValue::Debug("[1, 2]".to_string()));
    assert_eq!(fields.to_json(), "{\"a\":\"[1, 2]\",\"b\":2}");
}

#[test]
fn get_finds_what_was_recorded() {
    let mut fields = FieldVisitor::new();
    assert_eq!(fields.get("a"), None);
    fields.record_bool("b", true);
    fields.record_i64("a", -1);
    fields.record_u64("c", 1);
    fields.record_debug("d", "D");
    assert_eq!(fields.get("a"), Some(&FieldValue::I64(-1)));
    assert_eq!(fields.get("b"), Some(&FieldValue::Bool(true)));
    assert_eq!(fields.get("c"), Some(&FieldValue::U64(1)));
    assert_eq!(fields.get("d"), Some(&FieldValue::Debug("D".to_string())));
    assert_eq!(fields.get("e"), None);
    assert_eq!(fields.get(""), None);
    assert_eq!(fields.get("A"), None);
}

#[test]
fn remove_takes_one_key_out() {
    let mut fields = FieldVisitor::new();
    fields.record_bool("b", true);
    fields.record_i64("a", -1);
    fields.record_u64("c", 1);
    assert_eq!(fields.remove("b"), Some(FieldValue::Bool(true)));
    assert_eq!(fields.to_json(), "{\"a\":-1,\"c\":1}");
    assert_eq!(fields.remove("b"), None);
    assert_eq!(fields.remove("zz"), None);
    assert_eq!(fields.to_json(), "{\"a\":-1,\"c\":1}");
    assert_eq!(fields.remove("a"), Some(FieldValue::I64(-1)));
    assert_eq!(fields.remove("c"), Some(FieldValue::U64(1)));
    assert_eq!(fields.to_json(), "{}");
    assert_eq!(FieldVisitor::new().remove("a"), None);
}

#[test]
fn object_is_what_serde_json_writes() {
    let mut fields = FieldVisitor::new();
    let mut map = serde_json::Map::new();
    fields.record_str("quote\"key", "va\\lue\n");
    map.insert("quote\"key".to_string(), serde_json::Value::String("va\\lue\n".to_string()));
    fields.record_i64("neg", i64::MIN);
    map.insert("neg".to_string(), serde_json::Value::Number(i64::MIN.into()));
    fields.record_u64("big", u64::MAX);
    map.insert("big".to_string(), serde_json::Value::Number(u64::MAX.into()));
    fields.record_bool("Flag", true);
    map.insert("Flag".to_string(), serde_json::Value::Bool(true));
    fields.record_debug("\u{fc}ber", "Some(\"x\")");
    map.insert("\u{fc}ber".to_string(), serde_json::Value::String("Some(\"x\")".to_string()));
    fields.record_str("", "\u{0}");
    map.insert(String::new(), serde_json::Value::String("\u{0}".to_string()));
    fields.record_i64("neg", 5);
    map.insert("neg".to_string(), serde_json::Value::Number(5i64.into()));
    assert_eq!(fields.to_json(), json_of(map));
}

#[test]
fn texts_are_equal_when_their_characters_are() {
    assert!(str_eq("", ""));
    assert!(str_eq("abc", "abc"));
    assert!(str_eq("caf\u{e9}", "caf\u{e9}"));
    assert!(!str_eq("abc", "abd"));
    assert!(!str_eq("abc", "ab"));
    assert!(!str_eq("ab", "abc"));
    assert!(!str_eq("", "a"));
    assert!(!str_eq("e", "\u{e9}"));
}

#[test]
fn text_order_is_the_order_of_strings() {
    let texts = ["", "a", "A", "ab", "b", "aa", "a b", "\u{e9}", "z", "\u{10348}", "\u{ffff}", "~"];
    for a in texts {
        for b in texts {
            assert_eq!(str_lt(a, b), a < b);
            assert_eq!(str_eq(a, b), a == b);
        }
    }
}
