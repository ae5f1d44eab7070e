use devin_process::canonical::{canonical_json, key_order};
use devin_process::json::{Json, JsonNumber, JsonObject};

#[test]
fn scalars_have_their_json_text() {
    assert_eq!(canonical_json(&Json::Null), "null");
    assert_eq!(canonical_json(&Json::Bool(true)), "true");
    assert_eq!(canonical_json(&Json::Bool(false)), "false");
    assert_eq!(canonical_json(&Json::unsigned(0)), "0");
    assert_eq!(canonical_json(&Json::unsigned(u64::MAX)), "18446744073709551615");
    assert_eq!(canonical_json(&Json::integer(i64::MIN)), "-9223372036854775808");
    assert_eq!(
        canonical_json(&Json::Number(JsonNumber::Float("1.5e300".to_string()))),
        "1.5e300"
    );
}

#[test]
fn strings_are_quoted_and_escaped() {
    assert_eq!(canonical_json(&Json::text("")), "\"\"");
    assert_eq!(canonical_json(&Json::text("é/\u{7f}")), "\"é/\u{7f}\"");
    assert_eq!(
        canonical_json(&Json::text("\"\\\u{8}\t\n\u{c}\r\u{0}\u{1f}")),
        "\"\\\"\\\\\\b\\t\\n\\f\\r\\u0000\\u001f\""
    );
}

#[test]
fn text_is_what_serde_json_writes() {
    for s in ["", "plain", "q\"b\\", "\u{1}\u{b}\u{e}\u{10}\u{1f} ~", "日本\u{10ffff}"] {
        assert_eq!(
            canonical_json(&Json::text(s)),
            serde_json::to_string(s).unwrap()
        );
    }
    for n in [0u64, 9, 10, 99, 100, 12345678901234567890] {
        assert_eq!(
            canonical_json(&Json::unsigned(n)),
            serde_json::to_string(&n).unwrap()
        );
    }
}

#[test]
fn arrays_keep_their_order() {
    let array = Json::Array(vec![Json::unsigned(2), Json::Array(vec![]), Json::unsigned(1)]);
    assert_eq!(canonical_json(&array), "[2,[],1]");
}

#[test]
fn object_entries_are_sorted_by_key() {
    let object = JsonObject::new()
        .with("b", Json::unsigned(1))
        .with("", Json::Null)
        .with("ab", Json::Bool(true))
        .with("a", Json::Array(vec![JsonObject::new().build()]))
        .with("Z", Json::text("z"))
        .with("\u{ffff}", Json::unsigned(2))
        .with("\u{10000}", Json::unsigned(3))
        .build();
    assert_eq!(
        canonical_json(&object),
        "{\"\":null,\"Z\":\"z\",\"a\":[{}],\"ab\":true,\"b\":1,\"\u{ffff}\":2,\"\u{10000}\":3}"
    );
}

#[test]
fn key_order_gives_positions() {
    let entries = vec![
        ("c".to_string(), Json::Null),
        ("a".to_string(), Json::Null),
        ("b".to_string(), Json::Null),
    ];
    assert_eq!(key_order(&entries), vec![1, 2, 0]);
}

#[test]
fn members_are_found_and_replaced() {
    let object = JsonObject::new()
        .with("a", Json::unsigned(1))
        .with("b", Json::text("x"))
        .with("a", Json::unsigned(2))
        .build();
    assert_eq!(object.get("a"), Some(&Json::unsigned(2)));
    assert_eq!(object.get("b").and_then(|v| v.as_str()), Some("x"));
    assert_eq!(object.get("c"), None);
    assert_eq!(Json::Null.get("a"), None);
    assert_eq!(Json::Null.as_str(), None);
    assert_eq!(canonical_json(&object), "{\"a\":2,\"b\":\"x\"}");
}

#[test]
fn different_values_have_different_texts() {
    let one = || Json::unsigned(1);
    let values = vec![
        Json::Null,
        Json::text("null"),
        Json::Bool(true),
        Json::text("true"),
        one(),
        Json::integer(-1),
        Json::text("1"),
        Json::unsigned(12),
        Json::Array(vec![]),
        Json::Array(vec![one(), Json::unsigned(2)]),
        Json::Array(vec![Json::unsigned(12)]),
        Json::Array(vec![Json::Array(vec![one()]), Json::unsigned(2)]),
        Json::text("[1,2]"),
        Json::text("a\",\"b"),
        Json::Array(vec![Json::text("a"), Json::text("b")]),
        Json::Array(vec![Json::text("a\",\"b")]),
        Json::text("\u{1}"),
        Json::text("\\u0001"),
        JsonObject::new().build(),
        JsonObject::new().with("a", one()).build(),
        JsonObject::new().with("a", Json::text("1")).build(),
        JsonObject::new().with("a\":1,\"b", one()).build(),
        JsonObject::new().with("a", one()).with("b", one()).build(),
    ];
    for (i, a) in values.iter().enumerate() {
        for (j, b) in values.iter().enumerate() {
            assert_eq!(canonical_json(a) == canonical_json(b), i == j);
        }
    }
}

#[test]
fn text_is_json_that_denotes_the_value() {
    let value = JsonObject::new()
        .with("q\"\\\n\u{1}\u{e9}", Json::integer(-120))
        .with("", Json::Array(vec![Json::Null, Json::Bool(false)]))
        .build();
    let read: serde_json::Value = serde_json::from_str(&canonical_json(&value)).unwrap();
    let object = read.as_object().unwrap();
    assert_eq!(object.len(), 2);
    assert_eq!(object["q\"\\\n\u{1}\u{e9}"].as_i64(), Some(-120));
    let items = object[""].as_array().unwrap();
    assert!(items[0].is_null());
    assert_eq!(items[1].as_bool(), Some(false));
    assert_eq!(items.len(), 2);
}
