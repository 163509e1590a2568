use codex_sdk::{CodexError, CodexExec, JsonNumber, JsonValue};

fn text(value: &str) -> JsonValue {
    JsonValue::String(value.to_string())
}

fn whole(value: u64) -> JsonValue {
    JsonValue::Number(JsonNumber::Unsigned(value))
}

fn object(members: Vec<(&str, JsonValue)>) -> JsonValue {
    JsonValue::Object(
        members
            .into_iter()
            .map(|(key, value)| (key.to_string(), value))
            .collect(),
    )
}

fn literal(value: &JsonValue, path: &str) -> String {
    CodexExec::to_toml_value(value, path)
        .expect("no failure")
        .expect("a literal")
}

fn not_finite() -> JsonValue {
    JsonValue::Number(JsonNumber::Real {
        text: f64::INFINITY.to_string(),
        finite: false,
    })
}

fn sample() -> JsonValue {
    object(vec![
        ("approval_policy", text("never")),
        (
            "sandbox_workspace_write",
            object(vec![("network_access", JsonValue::Bool(true))]),
        ),
        ("retry_budget", whole(3)),
        (
            "tool_rules",
            object(vec![(
                "allow",
                JsonValue::Array(vec![text("git status"), text("git diff")]),
            )]),
        ),
    ])
}

#[test]
fn sample_tree_gives_exactly_its_four_entries_in_order() {
    let entries = CodexExec::serialize_config_overrides(&sample()).expect("entries");
    assert_eq!(
        entries,
        vec![
            "approval_policy=\"never\"".to_string(),
            "sandbox_workspace_write.network_access=true".to_string(),
            "retry_budget=3".to_string(),
            "tool_rules.allow=[\"git status\", \"git diff\"]".to_string(),
        ]
    );
}

#[test]
fn same_tree_serializes_the_same_twice() {
    let tree = sample();
    let first = CodexExec::serialize_config_overrides(&tree).expect("first");
    let second = CodexExec::serialize_config_overrides(&tree).expect("second");
    assert_eq!(first, second);
    let copy = tree.clone();
    let third = CodexExec::serialize_config_overrides(&copy).expect("third");
    assert_eq!(first, third);
}

#[test]
fn empty_root_gives_no_entries() {
    let entries = CodexExec::serialize_config_overrides(&object(vec![])).expect("entries");
    assert_eq!(entries, Vec::<String>::new());
}

#[test]
fn empty_nested_object_gives_path_and_braces() {
    let tree = object(vec![("a", object(vec![("b", object(vec![]))]))]);
    let entries = CodexExec::serialize_config_overrides(&tree).expect("entries");
    assert_eq!(entries, vec!["a.b={}".to_string()]);
}

#[test]
fn root_that_is_no_object_is_refused() {
    for root in [
        JsonValue::Null,
        JsonValue::Bool(true),
        whole(1),
        text("x"),
        JsonValue::Array(vec![]),
    ] {
        let outcome = CodexExec::serialize_config_overrides(&root);
        assert!(matches!(outcome, Err(CodexError::InvalidConfigRoot)));
    }
}

#[test]
fn empty_key_is_refused_at_any_depth() {
    let top = object(vec![("", whole(1))]);
    assert!(matches!(
        CodexExec::serialize_config_overrides(&top),
        Err(CodexError::InvalidConfigKey)
    ));
    let nested = object(vec![("a", object(vec![("", whole(1))]))]);
    assert!(matches!(
        CodexExec::serialize_config_overrides(&nested),
        Err(CodexError::InvalidConfigKey)
    ));
    let in_table = object(vec![(
        "a",
        JsonValue::Array(vec![object(vec![("", whole(1))])]),
    )]);
    assert!(matches!(
        CodexExec::serialize_config_overrides(&in_table),
        Err(CodexError::InvalidConfigKey)
    ));
    let empty_key_with_null = object(vec![("", JsonValue::Null)]);
    assert!(matches!(
        CodexExec::serialize_config_overrides(&empty_key_with_null),
        Err(CodexError::InvalidConfigKey)
    ));
}

#[test]
fn null_member_is_pruned() {
    let with_null = object(vec![
        ("a", whole(1)),
        ("gone", JsonValue::Null),
        ("b", object(vec![("c", JsonValue::Null), ("d", whole(2))])),
    ]);
    let without = object(vec![("a", whole(1)), ("b", object(vec![("d", whole(2))]))]);
    let entries = CodexExec::serialize_config_overrides(&with_null).expect("entries");
    assert_eq!(entries, vec!["a=1".to_string(), "b.d=2".to_string()]);
    assert_eq!(
        entries,
        CodexExec::serialize_config_overrides(&without).expect("entries")
    );
}

#[test]
fn object_of_nulls_alone_gives_nothing() {
    let tree = object(vec![("a", object(vec![("b", JsonValue::Null)]))]);
    let entries = CodexExec::serialize_config_overrides(&tree).expect("entries");
    assert_eq!(entries, Vec::<String>::new());
}

#[test]
fn null_member_of_inline_table_is_pruned() {
    let tree = object(vec![(
        "rules",
        JsonValue::Array(vec![object(vec![
            ("keep", whole(1)),
            ("gone", JsonValue::Null),
            ("also", JsonValue::Bool(false)),
        ])]),
    )]);
    let entries = CodexExec::serialize_config_overrides(&tree).expect("entries");
    assert_eq!(entries, vec!["rules=[{keep = 1, also = false}]".to_string()]);
}

#[test]
fn null_element_of_array_is_pruned() {
    let array = JsonValue::Array(vec![whole(1), JsonValue::Null, whole(2)]);
    assert_eq!(
        literal(&array, "a"),
        "[1, 2]"
    );
    let tree = object(vec![("a", array)]);
    assert_eq!(
        CodexExec::serialize_config_overrides(&tree).expect("entries"),
        vec!["a=[1, 2]".to_string()]
    );
    let only_nulls = JsonValue::Array(vec![JsonValue::Null, JsonValue::Null]);
    assert_eq!(
        literal(&only_nulls, "a"),
        "[]"
    );
    let nested = JsonValue::Array(vec![
        JsonValue::Null,
        JsonValue::Array(vec![JsonValue::Null, text("x")]),
        object(vec![("k", JsonValue::Null)]),
    ]);
    assert_eq!(
        literal(&nested, "a"),
        "[[\"x\"], {}]"
    );
}

#[test]
fn elements_keep_their_index_behind_a_null() {
    let tree = object(vec![(
        "a",
        JsonValue::Array(vec![JsonValue::Null, whole(1), not_finite()]),
    )]);
    match CodexExec::serialize_config_overrides(&tree) {
        Err(CodexError::InvalidConfigNumber(path)) => assert_eq!(path, "a[2]"),
        other => panic!("unexpected outcome: {:?}", other),
    }
}

#[test]
fn null_at_a_path_gives_no_entry() {
    let mut overrides = vec!["first=1".to_string()];
    CodexExec::flatten_config_overrides(&JsonValue::Null, "x.y", &mut overrides).expect("flatten");
    assert_eq!(overrides, vec!["first=1".to_string()]);
    assert!(matches!(
        CodexExec::flatten_config_overrides(&JsonValue::Null, "", &mut overrides),
        Err(CodexError::InvalidConfigRoot)
    ));
}

#[test]
fn null_added_anywhere_changes_nothing() {
    let without = object(vec![
        ("a", whole(1)),
        (
            "b",
            object(vec![(
                "c",
                JsonValue::Array(vec![object(vec![("d", text("x"))]), whole(2)]),
            )]),
        ),
    ]);
    let expected = vec!["a=1".to_string(), "b.c=[{d = \"x\"}, 2]".to_string()];
    assert_eq!(
        CodexExec::serialize_config_overrides(&without).expect("entries"),
        expected
    );
    let at_root = object(vec![
        ("gone", JsonValue::Null),
        ("a", whole(1)),
        (
            "b",
            object(vec![(
                "c",
                JsonValue::Array(vec![object(vec![("d", text("x"))]), whole(2)]),
            )]),
        ),
    ]);
    let nested = object(vec![
        ("a", whole(1)),
        (
            "b",
            object(vec![
                (
                    "c",
                    JsonValue::Array(vec![object(vec![("d", text("x"))]), whole(2)]),
                ),
                ("gone", JsonValue::Null),
            ]),
        ),
    ]);
    let in_array = object(vec![
        ("a", whole(1)),
        (
            "b",
            object(vec![(
                "c",
                JsonValue::Array(vec![
                    object(vec![("gone", JsonValue::Null), ("d", text("x"))]),
                    JsonValue::Null,
                    whole(2),
                ]),
            )]),
        ),
    ]);
    for tree in [at_root, nested, in_array] {
        assert_eq!(
            CodexExec::serialize_config_overrides(&tree).expect("entries"),
            expected
        );
    }
}

#[test]
fn last_member_of_a_key_counts() {
    let tree = object(vec![
        ("a", whole(1)),
        ("b", whole(2)),
        ("a", whole(3)),
    ]);
    assert_eq!(
        CodexExec::serialize_config_overrides(&tree).expect("entries"),
        vec!["b=2".to_string(), "a=3".to_string()]
    );
    let shadowed_failure = object(vec![("a", not_finite()), ("a", whole(3))]);
    assert_eq!(
        CodexExec::serialize_config_overrides(&shadowed_failure).expect("entries"),
        vec!["a=3".to_string()]
    );
    let pruned_by_last = object(vec![("a", whole(1)), ("a", JsonValue::Null)]);
    assert_eq!(
        CodexExec::serialize_config_overrides(&pruned_by_last).expect("entries"),
        Vec::<String>::new()
    );
    let table = object(vec![("k", whole(1)), ("k", whole(2)), ("j", whole(0))]);
    assert_eq!(
        literal(&table, "p"),
        "{k = 2, j = 0}"
    );
}

#[test]
fn null_alone_has_no_literal_and_is_no_failure() {
    assert!(matches!(
        CodexExec::to_toml_value(&JsonValue::Null, "here"),
        Ok(None)
    ));
}

#[test]
fn non_finite_number_is_refused_with_its_path() {
    let tree = object(vec![("limits", object(vec![("rate", not_finite())]))]);
    match CodexExec::serialize_config_overrides(&tree) {
        Err(CodexError::InvalidConfigNumber(path)) => assert_eq!(path, "limits.rate"),
        other => panic!("unexpected outcome: {:?}", other),
    }
    let in_array = object(vec![(
        "xs",
        JsonValue::Array(vec![whole(1), whole(2), not_finite()]),
    )]);
    match CodexExec::serialize_config_overrides(&in_array) {
        Err(CodexError::InvalidConfigNumber(path)) => assert_eq!(path, "xs[2]"),
        other => panic!("unexpected outcome: {:?}", other),
    }
    let in_table = object(vec![(
        "xs",
        JsonValue::Array(vec![object(vec![("deep", not_finite())])]),
    )]);
    match CodexExec::serialize_config_overrides(&in_table) {
        Err(CodexError::InvalidConfigNumber(path)) => assert_eq!(path, "xs[0].deep"),
        other => panic!("unexpected outcome: {:?}", other),
    }
}

#[test]
fn first_failure_in_order_decides() {
    let tree = object(vec![("a", not_finite()), ("", whole(1))]);
    assert!(matches!(
        CodexExec::serialize_config_overrides(&tree),
        Err(CodexError::InvalidConfigNumber(_))
    ));
    let tree = object(vec![("", whole(1)), ("a", not_finite())]);
    assert!(matches!(
        CodexExec::serialize_config_overrides(&tree),
        Err(CodexError::InvalidConfigKey)
    ));
}

#[test]
fn numbers_are_written_as_their_text() {
    let tree = object(vec![
        ("zero", whole(0)),
        ("big", whole(u64::MAX)),
        ("negative", JsonValue::Number(JsonNumber::Signed(-42))),
        ("least", JsonValue::Number(JsonNumber::Signed(i64::MIN))),
        (
            "half",
            JsonValue::Number(JsonNumber::Real {
                text: "0.5".to_string(),
                finite: true,
            }),
        ),
    ]);
    let entries = CodexExec::serialize_config_overrides(&tree).expect("entries");
    assert_eq!(
        entries,
        vec![
            "zero=0".to_string(),
            "big=18446744073709551615".to_string(),
            "negative=-42".to_string(),
            "least=-9223372036854775808".to_string(),
            "half=0.5".to_string(),
        ]
    );
}

#[test]
fn strings_are_written_as_json_literals() {
    let tree = object(vec![("s", text("say \"hi\"\n\\ tab\t"))]);
    let entries = CodexExec::serialize_config_overrides(&tree).expect("entries");
    assert_eq!(entries, vec!["s=\"say \\\"hi\\\"\\n\\\\ tab\\t\"".to_string()]);
    let plain = literal(&text("plain"), "p");
    assert_eq!(plain, "\"plain\"");
}

#[test]
fn booleans_and_arrays_are_written() {
    assert_eq!(
        literal(&JsonValue::Bool(true), "p"),
        "true"
    );
    assert_eq!(
        literal(&JsonValue::Bool(false), "p"),
        "false"
    );
    assert_eq!(
        literal(&JsonValue::Array(vec![]), "p"),
        "[]"
    );
    let nested = JsonValue::Array(vec![
        whole(1),
        JsonValue::Array(vec![text("a"), JsonValue::Bool(false)]),
    ]);
    assert_eq!(
        literal(&nested, "p"),
        "[1, [\"a\", false]]"
    );
}

#[test]
fn inline_table_quotes_keys_that_are_not_bare() {
    let table = object(vec![
        ("bare_key-1", whole(1)),
        ("needs quote", whole(2)),
        ("dotted.key", whole(3)),
        ("inner", object(vec![])),
    ]);
    assert_eq!(
        literal(&table, "p"),
        "{bare_key-1 = 1, \"needs quote\" = 2, \"dotted.key\" = 3, inner = {}}"
    );
}

#[test]
fn keys_are_bare_only_with_ascii_letters_digits_underscore_and_hyphen() {
    assert_eq!(CodexExec::format_toml_key("abc_DEF-019"), "abc_DEF-019");
    assert_eq!(CodexExec::format_toml_key("a b"), "\"a b\"");
    assert_eq!(CodexExec::format_toml_key("a\"b"), "\"a\\\"b\"");
    assert_eq!(CodexExec::format_toml_key("é"), "\"é\"");
    assert_eq!(CodexExec::format_toml_key("a.b"), "\"a.b\"");
    assert_eq!(CodexExec::format_toml_key(""), "");
}

#[test]
fn flatten_appends_to_what_is_there() {
    let mut overrides = vec!["first=1".to_string()];
    CodexExec::flatten_config_overrides(&whole(7), "x.y", &mut overrides).expect("flatten");
    assert_eq!(overrides, vec!["first=1".to_string(), "x.y=7".to_string()]);
    let failed = CodexExec::flatten_config_overrides(
        &object(vec![("ok", whole(1)), ("bad", not_finite())]),
        "z",
        &mut overrides,
    );
    assert!(matches!(failed, Err(CodexError::InvalidConfigNumber(_))));
    assert_eq!(&overrides[..2], &["first=1".to_string(), "x.y=7".to_string()]);
}

#[test]
fn object_at_a_path_with_array_of_tables() {
    let tree = object(vec![(
        "mcp",
        object(vec![(
            "servers",
            JsonValue::Array(vec![
                object(vec![("name", text("a")), ("size", whole(1))]),
                object(vec![("name", text("b"))]),
            ]),
        )]),
    )]);
    let entries = CodexExec::serialize_config_overrides(&tree).expect("entries");
    assert_eq!(
        entries,
        vec!["mcp.servers=[{name = \"a\", size = 1}, {name = \"b\"}]".to_string()]
    );
}
