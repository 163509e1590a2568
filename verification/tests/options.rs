use codex_sdk::{
    ApprovalMode, CodexError, CodexExecArgs, CodexOptions, JsonValue, ModelReasoningEffort,
    SandboxMode, ThreadOptions, TurnOptions, WebSearchMode,
};

#[test]
fn modes_have_their_words() {
    assert_eq!(ApprovalMode::Never.as_str(), "never");
    assert_eq!(ApprovalMode::OnRequest.as_str(), "on-request");
    assert_eq!(ApprovalMode::OnFailure.as_str(), "on-failure");
    assert_eq!(ApprovalMode::Untrusted.as_str(), "untrusted");
    assert_eq!(SandboxMode::ReadOnly.as_str(), "read-only");
    assert_eq!(SandboxMode::WorkspaceWrite.as_str(), "workspace-write");
    assert_eq!(SandboxMode::DangerFullAccess.as_str(), "danger-full-access");
    assert_eq!(ModelReasoningEffort::Minimal.as_str(), "minimal");
    assert_eq!(ModelReasoningEffort::Low.as_str(), "low");
    assert_eq!(ModelReasoningEffort::Medium.as_str(), "medium");
    assert_eq!(ModelReasoningEffort::High.as_str(), "high");
    assert_eq!(ModelReasoningEffort::XHigh.as_str(), "xhigh");
    assert_eq!(WebSearchMode::Disabled.as_str(), "disabled");
    assert_eq!(WebSearchMode::Cached.as_str(), "cached");
    assert_eq!(WebSearchMode::Live.as_str(), "live");
}

#[test]
fn missing_settings_are_shown_as_none() {
    assert_eq!(ThreadOptions::format_option(None), "None");
    assert_eq!(
        ThreadOptions::format_option(Some(SandboxMode::ReadOnly.as_str())),
        "Some(read-only)"
    );
}

#[test]
fn defaults_set_nothing() {
    let thread = ThreadOptions::default();
    assert!(thread.model.is_none());
    assert!(thread.sandbox_mode.is_none());
    assert!(thread.additional_directories.is_none());
    let client = CodexOptions::default();
    assert!(client.codex_path_override.is_none());
    assert!(client.config.is_none());
    assert!(client.env.is_none());
    let turn = TurnOptions::default();
    assert!(turn.output_schema.is_none());
    assert!(turn.cancel.is_none());
    let args = CodexExecArgs::default();
    assert_eq!(args.input, "");
    assert!(args.thread_id.is_none());
    assert!(args.images.is_none());
    assert!(args.cancel.is_none());
}

#[test]
fn output_schema_must_be_an_object() {
    let none = TurnOptions::default();
    assert!(matches!(none.checked_output_schema(), Ok(None)));
    let schema = JsonValue::Object(vec![(
        "type".to_string(),
        JsonValue::String("object".to_string()),
    )]);
    let with_schema = TurnOptions {
        output_schema: Some(schema.clone()),
        cancel: None,
    };
    match with_schema.checked_output_schema() {
        Ok(Some(checked)) => assert_eq!(*checked, schema),
        other => panic!("unexpected outcome: {:?}", other),
    }
    for bad in [
        JsonValue::Null,
        JsonValue::Array(vec![]),
        JsonValue::String("{}".to_string()),
    ] {
        let options = TurnOptions {
            output_schema: Some(bad),
            cancel: None,
        };
        assert!(matches!(
            options.checked_output_schema(),
            Err(CodexError::InvalidOutputSchema)
        ));
    }
}
