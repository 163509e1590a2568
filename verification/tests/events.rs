use codex_sdk::json::parse_json;
use codex_sdk::{
    CodexError, CommandExecutionStatus, FileUpdateChange, JsonNumber, JsonValue,
    McpToolCallError, McpToolCallResult, McpToolCallStatus, PatchApplyStatus, PatchChangeKind,
    ThreadError, ThreadEvent, ThreadItem, TodoItem, Usage,
};

fn event(line: &str) -> ThreadEvent {
    ThreadEvent::parse_line(line).expect("event")
}

fn refused(line: &str) {
    match ThreadEvent::parse_line(line) {
        Err(CodexError::InvalidEvent(raw)) => assert_eq!(raw, line),
        other => panic!("unexpected outcome: {:?}", other),
    }
}

#[test]
fn thread_started_is_read() {
    assert_eq!(
        event("{\"type\":\"thread.started\",\"thread_id\":\"abc\"}"),
        ThreadEvent::ThreadStarted {
            thread_id: "abc".to_string()
        }
    );
}

#[test]
fn turn_started_is_read() {
    assert_eq!(event("{\"type\":\"turn.started\"}"), ThreadEvent::TurnStarted);
    assert_eq!(
        event("  {\"extra\": [1, 2], \"type\": \"turn.started\"}  "),
        ThreadEvent::TurnStarted
    );
}

#[test]
fn turn_completed_carries_usage() {
    assert_eq!(
        event(
            "{\"type\":\"turn.completed\",\"usage\":{\"input_tokens\":10,\"cached_input_tokens\":2,\"output_tokens\":18446744073709551615}}"
        ),
        ThreadEvent::TurnCompleted {
            usage: Usage {
                input_tokens: 10,
                cached_input_tokens: 2,
                output_tokens: u64::MAX
            }
        }
    );
}

#[test]
fn turn_failed_carries_message() {
    assert_eq!(
        event("{\"type\":\"turn.failed\",\"error\":{\"message\":\"boom\"}}"),
        ThreadEvent::TurnFailed {
            error: ThreadError {
                message: "boom".to_string()
            }
        }
    );
}

#[test]
fn error_event_carries_message() {
    assert_eq!(
        event("{\"type\":\"error\",\"message\":\"careful\"}"),
        ThreadEvent::ThreadErrorEvent {
            message: "careful".to_string()
        }
    );
}

#[test]
fn item_events_carry_their_item() {
    let item = ThreadItem::AgentMessage {
        id: "i1".to_string(),
        text: "hello".to_string(),
    };
    let body = "\"item\":{\"type\":\"agent_message\",\"id\":\"i1\",\"text\":\"hello\"}";
    assert_eq!(
        event(&format!("{{\"type\":\"item.started\",{}}}", body)),
        ThreadEvent::ItemStarted { item: item.clone() }
    );
    assert_eq!(
        event(&format!("{{\"type\":\"item.updated\",{}}}", body)),
        ThreadEvent::ItemUpdated { item: item.clone() }
    );
    assert_eq!(
        event(&format!("{{\"type\":\"item.completed\",{}}}", body)),
        ThreadEvent::ItemCompleted { item }
    );
}

fn item(text: &str) -> Option<ThreadItem> {
    ThreadItem::from_json(&parse_json(text).expect("json"))
}

#[test]
fn reasoning_web_search_and_error_items_are_read() {
    assert_eq!(
        item("{\"type\":\"reasoning\",\"id\":\"r\",\"text\":\"thinking\"}"),
        Some(ThreadItem::Reasoning {
            id: "r".to_string(),
            text: "thinking".to_string()
        })
    );
    assert_eq!(
        item("{\"type\":\"web_search\",\"id\":\"w\",\"query\":\"rust\"}"),
        Some(ThreadItem::WebSearch {
            id: "w".to_string(),
            query: "rust".to_string()
        })
    );
    assert_eq!(
        item("{\"type\":\"error\",\"id\":\"e\",\"message\":\"bad\"}"),
        Some(ThreadItem::Error {
            id: "e".to_string(),
            message: "bad".to_string()
        })
    );
}

#[test]
fn command_execution_item_is_read() {
    assert_eq!(
        item(
            "{\"type\":\"command_execution\",\"id\":\"c\",\"command\":\"ls\",\"aggregated_output\":\"a\\nb\",\"exit_code\":-1,\"status\":\"failed\"}"
        ),
        Some(ThreadItem::CommandExecution {
            id: "c".to_string(),
            command: "ls".to_string(),
            aggregated_output: "a\nb".to_string(),
            exit_code: Some(-1),
            status: CommandExecutionStatus::Failed,
        })
    );
    assert_eq!(
        item(
            "{\"type\":\"command_execution\",\"id\":\"c\",\"command\":\"ls\",\"aggregated_output\":\"\",\"status\":\"in_progress\"}"
        ),
        Some(ThreadItem::CommandExecution {
            id: "c".to_string(),
            command: "ls".to_string(),
            aggregated_output: String::new(),
            exit_code: None,
            status: CommandExecutionStatus::InProgress,
        })
    );
    assert_eq!(
        item(
            "{\"type\":\"command_execution\",\"id\":\"c\",\"command\":\"ls\",\"aggregated_output\":\"\",\"exit_code\":null,\"status\":\"completed\"}"
        ),
        Some(ThreadItem::CommandExecution {
            id: "c".to_string(),
            command: "ls".to_string(),
            aggregated_output: String::new(),
            exit_code: None,
            status: CommandExecutionStatus::Completed,
        })
    );
}

#[test]
fn exit_code_must_fit() {
    assert_eq!(
        item(
            "{\"type\":\"command_execution\",\"id\":\"c\",\"command\":\"ls\",\"aggregated_output\":\"\",\"exit_code\":2147483648,\"status\":\"completed\"}"
        ),
        None
    );
    assert_eq!(
        item(
            "{\"type\":\"command_execution\",\"id\":\"c\",\"command\":\"ls\",\"aggregated_output\":\"\",\"exit_code\":1.5,\"status\":\"completed\"}"
        ),
        None
    );
    assert_eq!(
        item(
            "{\"type\":\"command_execution\",\"id\":\"c\",\"command\":\"ls\",\"aggregated_output\":\"\",\"exit_code\":-2147483648,\"status\":\"completed\"}"
        ),
        Some(ThreadItem::CommandExecution {
            id: "c".to_string(),
            command: "ls".to_string(),
            aggregated_output: String::new(),
            exit_code: Some(i32::MIN),
            status: CommandExecutionStatus::Completed,
        })
    );
}

#[test]
fn file_change_item_is_read() {
    assert_eq!(
        item(
            "{\"type\":\"file_change\",\"id\":\"f\",\"changes\":[{\"path\":\"a\",\"kind\":\"add\"},{\"path\":\"b\",\"kind\":\"delete\"},{\"path\":\"c\",\"kind\":\"update\"}],\"status\":\"completed\"}"
        ),
        Some(ThreadItem::FileChange {
            id: "f".to_string(),
            changes: vec![
                FileUpdateChange {
                    path: "a".to_string(),
                    kind: PatchChangeKind::Add
                },
                FileUpdateChange {
                    path: "b".to_string(),
                    kind: PatchChangeKind::Delete
                },
                FileUpdateChange {
                    path: "c".to_string(),
                    kind: PatchChangeKind::Update
                },
            ],
            status: PatchApplyStatus::Completed,
        })
    );
    assert_eq!(
        item(
            "{\"type\":\"file_change\",\"id\":\"f\",\"changes\":[{\"path\":\"a\",\"kind\":\"rename\"}],\"status\":\"completed\"}"
        ),
        None
    );
    assert_eq!(
        item("{\"type\":\"file_change\",\"id\":\"f\",\"changes\":[],\"status\":\"in_progress\"}"),
        None
    );
}

#[test]
fn tool_call_item_is_read() {
    assert_eq!(
        item(
            "{\"type\":\"mcp_tool_call\",\"id\":\"m\",\"server\":\"s\",\"tool\":\"t\",\"arguments\":{\"n\":1.5,\"k\":[true,null]},\"result\":{\"content\":[\"x\",-3],\"structured_content\":null},\"status\":\"completed\"}"
        ),
        Some(ThreadItem::McpToolCall {
            id: "m".to_string(),
            server: "s".to_string(),
            tool: "t".to_string(),
            arguments: parse_json("{\"n\":1.5,\"k\":[true,null]}").expect("json"),
            result: Some(McpToolCallResult {
                content: vec![
                    JsonValue::String("x".to_string()),
                    JsonValue::Number(JsonNumber::Signed(-3))
                ],
                structured_content: JsonValue::Null,
            }),
            error: None,
            status: McpToolCallStatus::Completed,
        })
    );
    assert_eq!(
        item(
            "{\"type\":\"mcp_tool_call\",\"id\":\"m\",\"server\":\"s\",\"tool\":\"t\",\"arguments\":null,\"result\":null,\"error\":{\"message\":\"no\"},\"status\":\"failed\"}"
        ),
        Some(ThreadItem::McpToolCall {
            id: "m".to_string(),
            server: "s".to_string(),
            tool: "t".to_string(),
            arguments: JsonValue::Null,
            result: None,
            error: Some(McpToolCallError {
                message: "no".to_string()
            }),
            status: McpToolCallStatus::Failed,
        })
    );
    assert_eq!(
        item(
            "{\"type\":\"mcp_tool_call\",\"id\":\"m\",\"server\":\"s\",\"tool\":\"t\",\"status\":\"in_progress\"}"
        ),
        None
    );
    assert_eq!(
        item(
            "{\"type\":\"mcp_tool_call\",\"id\":\"m\",\"server\":\"s\",\"tool\":\"t\",\"arguments\":1,\"result\":{\"content\":[]},\"status\":\"in_progress\"}"
        ),
        None
    );
}

#[test]
fn todo_list_item_is_read() {
    assert_eq!(
        item(
            "{\"type\":\"todo_list\",\"id\":\"l\",\"items\":[{\"text\":\"a\",\"completed\":true},{\"text\":\"b\",\"completed\":false}]}"
        ),
        Some(ThreadItem::TodoList {
            id: "l".to_string(),
            items: vec![
                TodoItem {
                    text: "a".to_string(),
                    completed: true
                },
                TodoItem {
                    text: "b".to_string(),
                    completed: false
                },
            ],
        })
    );
    assert_eq!(
        item("{\"type\":\"todo_list\",\"id\":\"l\",\"items\":[{\"text\":\"a\"}]}"),
        None
    );
}

#[test]
fn lines_that_are_no_event_fail_with_the_line() {
    refused("");
    refused("   ");
    refused("not json");
    refused("{\"type\":\"thread.started\"");
    refused("[]");
    refused("\"thread.started\"");
    refused("{}");
    refused("{\"type\":7}");
    refused("{\"type\":\"thread.stopped\"}");
    refused("{\"type\":\"thread.started\"}");
    refused("{\"type\":\"thread.started\",\"thread_id\":5}");
    refused("{\"type\":\"turn.completed\"}");
    refused("{\"type\":\"turn.completed\",\"usage\":{\"input_tokens\":1,\"cached_input_tokens\":2}}");
    refused(
        "{\"type\":\"turn.completed\",\"usage\":{\"input_tokens\":-1,\"cached_input_tokens\":2,\"output_tokens\":3}}",
    );
    refused(
        "{\"type\":\"turn.completed\",\"usage\":{\"input_tokens\":1.0,\"cached_input_tokens\":2,\"output_tokens\":3}}",
    );
    refused("{\"type\":\"turn.failed\",\"error\":\"boom\"}");
    refused("{\"type\":\"item.completed\"}");
    refused("{\"type\":\"item.completed\",\"item\":{\"type\":\"mystery\",\"id\":\"x\"}}");
    refused("{\"type\":\"item.completed\",\"item\":{\"type\":\"agent_message\",\"id\":\"x\"}}");
    refused("{\"type\":\"error\"}");
    refused("{\"type\":\"turn.started\"} trailing");
}

#[test]
fn from_parsed_line_decides_on_the_tree() {
    let tree = JsonValue::Object(vec![(
        "type".to_string(),
        JsonValue::String("turn.started".to_string()),
    )]);
    assert_eq!(
        ThreadEvent::from_parsed_line("raw", Some(tree)).expect("event"),
        ThreadEvent::TurnStarted
    );
    match ThreadEvent::from_parsed_line("raw", None) {
        Err(CodexError::InvalidEvent(raw)) => assert_eq!(raw, "raw"),
        other => panic!("unexpected outcome: {:?}", other),
    }
    match ThreadEvent::from_parsed_line("raw text", Some(JsonValue::Bool(true))) {
        Err(CodexError::InvalidEvent(raw)) => assert_eq!(raw, "raw text"),
        other => panic!("unexpected outcome: {:?}", other),
    }
}

#[test]
fn last_member_of_a_name_counts() {
    let tree = JsonValue::Object(vec![
        (
            "type".to_string(),
            JsonValue::String("turn.started".to_string()),
        ),
        ("type".to_string(), JsonValue::String("error".to_string())),
        ("message".to_string(), JsonValue::String("m".to_string())),
    ]);
    assert_eq!(
        ThreadEvent::from_json(&tree),
        Some(ThreadEvent::ThreadErrorEvent {
            message: "m".to_string()
        })
    );
}
