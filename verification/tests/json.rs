use codex_sdk::json::parse_json;
use codex_sdk::{JsonNumber, JsonValue};

#[test]
fn documents_are_read_variant_by_variant() {
    assert_eq!(parse_json("null"), Some(JsonValue::Null));
    assert_eq!(parse_json("true"), Some(JsonValue::Bool(true)));
    assert_eq!(
        parse_json("\"a\\u0062\""),
        Some(JsonValue::String("ab".to_string()))
    );
    assert_eq!(
        parse_json("[1, -2, 18446744073709551615]"),
        Some(JsonValue::Array(vec![
            JsonValue::Number(JsonNumber::Unsigned(1)),
            JsonValue::Number(JsonNumber::Signed(-2)),
            JsonValue::Number(JsonNumber::Unsigned(u64::MAX)),
        ]))
    );
    assert_eq!(
        parse_json("{\"k\": {\"n\": []}}"),
        Some(JsonValue::Object(vec![(
            "k".to_string(),
            JsonValue::Object(vec![("n".to_string(), JsonValue::Array(vec![]))])
        )]))
    );
}

#[test]
fn other_numbers_are_held_by_their_text() {
    assert_eq!(
        parse_json("1.5"),
        Some(JsonValue::Number(JsonNumber::Real {
            text: (1.5f64).to_string(),
            finite: true
        }))
    );
    match parse_json("2.5e3") {
        Some(JsonValue::Number(number)) => {
            assert_eq!(number.is_finite(), true);
            assert_eq!(number.to_text().parse::<f64>().expect("number"), 2500.0);
        }
        other => panic!("unexpected value: {:?}", other),
    }
}

#[test]
fn what_is_no_document_gives_nothing() {
    assert_eq!(parse_json(""), None);
    assert_eq!(parse_json("{"), None);
    assert_eq!(parse_json("{} {}"), None);
    assert_eq!(parse_json("nul"), None);
    assert_eq!(parse_json("1e999"), None);
}

#[test]
fn numbers_tell_their_text_and_finiteness() {
    assert_eq!(JsonNumber::Unsigned(0).to_text(), "0");
    assert_eq!(JsonNumber::Unsigned(907).to_text(), "907");
    assert_eq!(JsonNumber::Signed(-10).to_text(), "-10");
    assert_eq!(JsonNumber::Signed(10).to_text(), "10");
    assert_eq!(JsonNumber::Unsigned(1).is_finite(), true);
    assert_eq!(JsonNumber::Signed(-1).is_finite(), true);
    let nan = JsonNumber::Real {
        text: f64::NAN.to_string(),
        finite: false,
    };
    assert_eq!(nan.is_finite(), false);
}

#[test]
fn accessors_read_what_is_there() {
    let tree = parse_json("{\"a\": 1, \"b\": \"x\", \"c\": [true], \"d\": null, \"e\": -5}")
        .expect("json");
    assert_eq!(tree.is_object(), true);
    assert_eq!(tree.is_null(), false);
    assert_eq!(tree.get("a").and_then(|value| value.as_u64()), Some(1));
    assert_eq!(tree.get("a").and_then(|value| value.as_i32()), Some(1));
    assert_eq!(tree.get("e").and_then(|value| value.as_i32()), Some(-5));
    assert_eq!(tree.get("e").and_then(|value| value.as_u64()), None);
    assert_eq!(tree.get("b").and_then(|value| value.as_str()), Some("x"));
    assert_eq!(tree.get("b").and_then(|value| value.as_u64()), None);
    assert_eq!(
        tree.get("c").and_then(|value| value.as_array()).map(|items| items.len()),
        Some(1)
    );
    assert_eq!(tree.get("d").map(|value| value.is_null()), Some(true));
    assert_eq!(tree.get("missing"), None);
    assert_eq!(JsonValue::Bool(true).get("a"), None);
    assert_eq!(JsonValue::Bool(true).as_bool(), Some(true));
    assert_eq!(JsonValue::Null.as_bool(), None);
    assert_eq!(
        JsonValue::Number(JsonNumber::Unsigned(1 << 31)).as_i32(),
        None
    );
    assert_eq!(
        JsonValue::Number(JsonNumber::Signed(i64::from(i32::MIN) - 1)).as_i32(),
        None
    );
}

#[test]
fn clone_is_equal() {
    let tree = parse_json("{\"a\": [1, 2.5, {\"b\": null}], \"c\": \"x\"}").expect("json");
    assert_eq!(tree.clone(), tree);
}

#[test]
fn repeated_key_is_read_with_its_last_value() {
    assert_eq!(
        parse_json("{\"a\": 1, \"b\": 2, \"a\": 3}").and_then(|tree| tree
            .get("a")
            .and_then(|value| value.as_u64())),
        Some(3)
    );
}
