//! The units of work that the agent reports within its events.

use crate::json::{views, Json, JsonValue};
use crate::text::same_text;
use vstd::prelude::*;

verus! {

/// How far a command has come.
#[derive(Clone, Copy, Debug, PartialEq, Eq, Structural)]
pub enum CommandExecutionStatus {
    InProgress,
    Completed,
    Failed,
}

/// What a patch does to a file.
#[derive(Clone, Copy, Debug, PartialEq, Eq, Structural)]
pub enum PatchChangeKind {
    Add,
    Delete,
    Update,
}

/// Whether a patch was applied.
#[derive(Clone, Copy, Debug, PartialEq, Eq, Structural)]
pub enum PatchApplyStatus {
    Completed,
    Failed,
}

/// How far a tool call has come.
#[derive(Clone, Copy, Debug, PartialEq, Eq, Structural)]
pub enum McpToolCallStatus {
    InProgress,
    Completed,
    Failed,
}

#[derive(Clone, Debug, PartialEq)]
pub struct CommandExecutionItem {
    pub id: String,
    pub kind: String,
    pub command: String,
    pub aggregated_output: String,
    pub exit_code: Option<i32>,
    pub status: CommandExecutionStatus,
}

/// One file that a patch touches.
#[derive(Clone, Debug, PartialEq)]
pub struct FileUpdateChange {
    pub path: String,
    pub kind: PatchChangeKind,
}

#[derive(Clone, Debug, PartialEq)]
pub struct FileChangeItem {
    pub id: String,
    pub kind: String,
    pub changes: Vec<FileUpdateChange>,
    pub status: PatchApplyStatus,
}

/// What a tool call returned.
#[derive(Clone, Debug, PartialEq)]
pub struct McpToolCallResult {
    pub content: Vec<JsonValue>,
    pub structured_content: JsonValue,
}

/// Why a tool call failed.
#[derive(Clone, Debug, PartialEq)]
pub struct McpToolCallError {
    pub message: String,
}

#[derive(Clone, Debug, PartialEq)]
pub struct McpToolCallItem {
    pub id: String,
    pub kind: String,
    pub server: String,
    pub tool: String,
    pub arguments: JsonValue,
    pub result: Option<McpToolCallResult>,
    pub error: Option<McpToolCallError>,
    pub status: McpToolCallStatus,
}

#[derive(Clone, Debug, PartialEq)]
pub struct AgentMessageItem {
    pub id: String,
    pub kind: String,
    pub text: String,
}

#[derive(Clone, Debug, PartialEq)]
pub struct ReasoningItem {
    pub id: String,
    pub kind: String,
    pub text: String,
}

#[derive(Clone, Debug, PartialEq)]
pub struct WebSearchItem {
    pub id: String,
    pub kind: String,
    pub query: String,
}

#[derive(Clone, Debug, PartialEq)]
pub struct ErrorItem {
    pub id: String,
    pub kind: String,
    pub message: String,
}

/// One entry of the agent's to-do list.
#[derive(Clone, Debug, PartialEq)]
pub struct TodoItem {
    pub text: String,
    pub completed: bool,
}

#[derive(Clone, Debug, PartialEq)]
pub struct TodoListItem {
    pub id: String,
    pub kind: String,
    pub items: Vec<TodoItem>,
}

/// One unit of the agent's work, as an event carries it.
#[derive(Clone, Debug, PartialEq)]
#[allow(inconsistent_fields)]
pub enum ThreadItem {
    AgentMessage { id: String, text: String },
    Reasoning { id: String, text: String },
    CommandExecution {
        id: String,
        command: String,
        aggregated_output: String,
        exit_code: Option<i32>,
        status: CommandExecutionStatus,
    },
    FileChange { id: String, changes: Vec<FileUpdateChange>, status: PatchApplyStatus },
    McpToolCall {
        id: String,
        server: String,
        tool: String,
        arguments: JsonValue,
        result: Option<McpToolCallResult>,
        error: Option<McpToolCallError>,
        status: McpToolCallStatus,
    },
    WebSearch { id: String, query: String },
    TodoList { id: String, items: Vec<TodoItem> },
    Error { id: String, message: String },
}

/// What a [`FileUpdateChange`] says.
pub struct FileChangeModel {
    pub path: Seq<char>,
    pub kind: PatchChangeKind,
}

/// What a [`TodoItem`] says.
pub struct TodoModel {
    pub text: Seq<char>,
    pub completed: bool,
}

/// What a [`McpToolCallResult`] says.
pub struct ToolResultModel {
    pub content: Seq<Json>,
    pub structured_content: Json,
}

/// What a [`ThreadItem`] says.
#[allow(inconsistent_fields)]
pub enum ItemModel {
    AgentMessage { id: Seq<char>, text: Seq<char> },
    Reasoning { id: Seq<char>, text: Seq<char> },
    CommandExecution {
        id: Seq<char>,
        command: Seq<char>,
        aggregated_output: Seq<char>,
        exit_code: Option<i32>,
        status: CommandExecutionStatus,
    },
    FileChange { id: Seq<char>, changes: Seq<FileChangeModel>, status: PatchApplyStatus },
    McpToolCall {
        id: Seq<char>,
        server: Seq<char>,
        tool: Seq<char>,
        arguments: Json,
        result: Option<ToolResultModel>,
        error: Option<Seq<char>>,
        status: McpToolCallStatus,
    },
    WebSearch { id: Seq<char>, query: Seq<char> },
    TodoList { id: Seq<char>, items: Seq<TodoModel> },
    Error { id: Seq<char>, message: Seq<char> },
}

impl View for FileUpdateChange {
    type V = FileChangeModel;

    open spec fn view(&self) -> FileChangeModel {
        FileChangeModel { path: self.path@, kind: self.kind }
    }
}

impl View for TodoItem {
    type V = TodoModel;

    open spec fn view(&self) -> TodoModel {
        TodoModel { text: self.text@, completed: self.completed }
    }
}

impl View for McpToolCallResult {
    type V = ToolResultModel;

    open spec fn view(&self) -> ToolResultModel {
        ToolResultModel {
            content: views(self.content@),
            structured_content: self.structured_content@,
        }
    }
}

impl View for McpToolCallError {
    type V = Seq<char>;

    open spec fn view(&self) -> Seq<char> {
        self.message@
    }
}

impl View for ThreadItem {
    type V = ItemModel;

    open spec fn view(&self) -> ItemModel {
        match self {
            ThreadItem::AgentMessage { id, text } => ItemModel::AgentMessage {
                id: id@,
                text: text@,
            },
            ThreadItem::Reasoning { id, text } => ItemModel::Reasoning { id: id@, text: text@ },
            ThreadItem::CommandExecution {
                id,
                command,
                aggregated_output,
                exit_code,
                status,
            } => ItemModel::CommandExecution {
                id: id@,
                command: command@,
                aggregated_output: aggregated_output@,
                exit_code: *exit_code,
                status: *status,
            },
            ThreadItem::FileChange { id, changes, status } => ItemModel::FileChange {
                id: id@,
                changes: changes@.map_values(|change: FileUpdateChange| change@),
                status: *status,
            },
            ThreadItem::McpToolCall {
                id,
                server,
                tool,
                arguments,
                result,
                error,
                status,
            } => ItemModel::McpToolCall {
                id: id@,
                server: server@,
                tool: tool@,
                arguments: arguments@,
                result: match result {
                    Some(result) => Some(result@),
                    None => None,
                },
                error: match error {
                    Some(error) => Some(error@),
                    None => None,
                },
                status: *status,
            },
            ThreadItem::WebSearch { id, query } => ItemModel::WebSearch { id: id@, query: query@ },
            ThreadItem::TodoList { id, items } => ItemModel::TodoList {
                id: id@,
                items: items@.map_values(|item: TodoItem| item@),
            },
            ThreadItem::Error { id, message } => ItemModel::Error { id: id@, message: message@ },
        }
    }
}

/// The parts, if every one of them is there.
pub open spec fn collected<T>(parts: Seq<Option<T>>) -> Option<Seq<T>> {
    if forall|i: int| 0 <= i < parts.len() ==> (#[trigger] parts[i]) is Some {
        Some(parts.map_values(|part: Option<T>| part->0))
    } else {
        None
    }
}

/// The text of the member with this key, if it is a string.
pub open spec fn text_member(json: Json, key: Seq<char>) -> Option<Seq<char>> {
    match json.member(key) {
        Some(value) => value.as_text(),
        None => None,
    }
}

/// The member with this key, unless it is missing or `null`.
pub open spec fn optional_member(json: Json, key: Seq<char>) -> Option<Json> {
    match json.member(key) {
        Some(Json::Null) => None,
        other => other,
    }
}

/// The status that a word names.
pub open spec fn command_status_of(word: Seq<char>) -> Option<CommandExecutionStatus> {
    if word == "in_progress"@ {
        Some(CommandExecutionStatus::InProgress)
    } else if word == "completed"@ {
        Some(CommandExecutionStatus::Completed)
    } else if word == "failed"@ {
        Some(CommandExecutionStatus::Failed)
    } else {
        None
    }
}

/// The status that a word names.
pub open spec fn tool_status_of(word: Seq<char>) -> Option<McpToolCallStatus> {
    if word == "in_progress"@ {
        Some(McpToolCallStatus::InProgress)
    } else if word == "completed"@ {
        Some(McpToolCallStatus::Completed)
    } else if word == "failed"@ {
        Some(McpToolCallStatus::Failed)
    } else {
        None
    }
}

/// The status that a word names.
pub open spec fn patch_status_of(word: Seq<char>) -> Option<PatchApplyStatus> {
    if word == "completed"@ {
        Some(PatchApplyStatus::Completed)
    } else if word == "failed"@ {
        Some(PatchApplyStatus::Failed)
    } else {
        None
    }
}

/// The kind of change that a word names.
pub open spec fn change_kind_of(word: Seq<char>) -> Option<PatchChangeKind> {
    if word == "add"@ {
        Some(PatchChangeKind::Add)
    } else if word == "delete"@ {
        Some(PatchChangeKind::Delete)
    } else if word == "update"@ {
        Some(PatchChangeKind::Update)
    } else {
        None
    }
}

/// The exit code that an item carries: none where the member is missing or
/// `null`. The outer `None` says that the member is there and is no `i32`.
pub open spec fn exit_code_of(json: Json) -> Option<Option<i32>> {
    match optional_member(json, "exit_code"@) {
        None => Some(None),
        Some(value) => match value.as_integer() {
            Some(code) if i32::MIN <= code <= i32::MAX => Some(Some(code as i32)),
            _ => None,
        },
    }
}

/// One changed file: `{path, kind}`.
pub open spec fn change_of(json: Json) -> Option<FileChangeModel> {
    match (text_member(json, "path"@), text_member(json, "kind"@)) {
        (Some(path), Some(word)) => match change_kind_of(word) {
            Some(kind) => Some(FileChangeModel { path, kind }),
            None => None,
        },
        _ => None,
    }
}

/// The changed files of an item: an array of `{path, kind}`.
pub open spec fn changes_of(json: Json) -> Option<Seq<FileChangeModel>> {
    match json.member("changes"@) {
        Some(Json::Array(items)) => collected(items.map_values(|item: Json| change_of(item))),
        _ => None,
    }
}

/// One to-do entry: `{text, completed}`.
pub open spec fn todo_of(json: Json) -> Option<TodoModel> {
    match (text_member(json, "text"@), json.member("completed"@)) {
        (Some(text), Some(Json::Bool(completed))) => Some(TodoModel { text, completed }),
        _ => None,
    }
}

/// The entries of a to-do list: an array of `{text, completed}`.
pub open spec fn todos_of(json: Json) -> Option<Seq<TodoModel>> {
    match json.member("items"@) {
        Some(Json::Array(items)) => collected(items.map_values(|item: Json| todo_of(item))),
        _ => None,
    }
}

/// What a tool call returned: `{content: [..], structured_content}`, the
/// content and the structured content being any JSON.
pub open spec fn tool_result_of(json: Json) -> Option<ToolResultModel> {
    match (json.member("content"@), json.member("structured_content"@)) {
        (Some(Json::Array(content)), Some(structured_content)) => Some(
            ToolResultModel { content, structured_content },
        ),
        _ => None,
    }
}

/// The result that a tool call carries: none where the member is missing or
/// `null`. The outer `None` says that the member is there and is no result.
pub open spec fn optional_tool_result_of(json: Json) -> Option<Option<ToolResultModel>> {
    match optional_member(json, "result"@) {
        None => Some(None),
        Some(value) => match tool_result_of(value) {
            Some(result) => Some(Some(result)),
            None => None,
        },
    }
}

/// The failure that a tool call carries, `{message}`: none where the member is
/// missing or `null`. The outer `None` says that the member is there and is no
/// failure.
pub open spec fn optional_tool_error_of(json: Json) -> Option<Option<Seq<char>>> {
    match optional_member(json, "error"@) {
        None => Some(None),
        Some(value) => match text_member(value, "message"@) {
            Some(message) => Some(Some(message)),
            None => None,
        },
    }
}

pub open spec fn agent_message_of(json: Json) -> Option<ItemModel> {
    match (text_member(json, "id"@), text_member(json, "text"@)) {
        (Some(id), Some(text)) => Some(ItemModel::AgentMessage { id, text }),
        _ => None,
    }
}

pub open spec fn reasoning_of(json: Json) -> Option<ItemModel> {
    match (text_member(json, "id"@), text_member(json, "text"@)) {
        (Some(id), Some(text)) => Some(ItemModel::Reasoning { id, text }),
        _ => None,
    }
}

pub open spec fn command_execution_of(json: Json) -> Option<ItemModel> {
    match (
        text_member(json, "id"@),
        text_member(json, "command"@),
        text_member(json, "aggregated_output"@),
        exit_code_of(json),
        text_member(json, "status"@),
    ) {
        (Some(id), Some(command), Some(aggregated_output), Some(exit_code), Some(word)) => {
            match command_status_of(word) {
                Some(status) => Some(
                    ItemModel::CommandExecution {
                        id,
                        command,
                        aggregated_output,
                        exit_code,
                        status,
                    },
                ),
                None => None,
            }
        },
        _ => None,
    }
}

pub open spec fn file_change_of(json: Json) -> Option<ItemModel> {
    match (text_member(json, "id"@), changes_of(json), text_member(json, "status"@)) {
        (Some(id), Some(changes), Some(word)) => match patch_status_of(word) {
            Some(status) => Some(ItemModel::FileChange { id, changes, status }),
            None => None,
        },
        _ => None,
    }
}

pub open spec fn tool_call_of(json: Json) -> Option<ItemModel> {
    match (
        text_member(json, "id"@),
        text_member(json, "server"@),
        text_member(json, "tool"@),
        json.member("arguments"@),
        optional_tool_result_of(json),
        optional_tool_error_of(json),
        text_member(json, "status"@),
    ) {
        (
            Some(id),
            Some(server),
            Some(tool),
            Some(arguments),
            Some(result),
            Some(error),
            Some(word),
        ) => match tool_status_of(word) {
            Some(status) => Some(
                ItemModel::McpToolCall { id, server, tool, arguments, result, error, status },
            ),
            None => None,
        },
        _ => None,
    }
}

pub open spec fn web_search_of(json: Json) -> Option<ItemModel> {
    match (text_member(json, "id"@), text_member(json, "query"@)) {
        (Some(id), Some(query)) => Some(ItemModel::WebSearch { id, query }),
        _ => None,
    }
}

pub open spec fn todo_list_of(json: Json) -> Option<ItemModel> {
    match (text_member(json, "id"@), todos_of(json)) {
        (Some(id), Some(items)) => Some(ItemModel::TodoList { id, items }),
        _ => None,
    }
}

pub open spec fn error_item_of(json: Json) -> Option<ItemModel> {
    match (text_member(json, "id"@), text_member(json, "message"@)) {
        (Some(id), Some(message)) => Some(ItemModel::Error { id, message }),
        _ => None,
    }
}

/// The item that a JSON value writes, if it writes one: an object whose
/// member `type` names one of the eight kinds, with that kind's members of the
/// right shape. Members that the kind does not know are passed over.
pub open spec fn item_of(json: Json) -> Option<ItemModel> {
    match text_member(json, "type"@) {
        None => None,
        Some(tag) => if tag == "agent_message"@ {
            agent_message_of(json)
        } else if tag == "reasoning"@ {
            reasoning_of(json)
        } else if tag == "command_execution"@ {
            command_execution_of(json)
        } else if tag == "file_change"@ {
            file_change_of(json)
        } else if tag == "mcp_tool_call"@ {
            tool_call_of(json)
        } else if tag == "web_search"@ {
            web_search_of(json)
        } else if tag == "todo_list"@ {
            todo_list_of(json)
        } else if tag == "error"@ {
            error_item_of(json)
        } else {
            None
        },
    }
}

/// What an item that may be missing says.
pub open spec fn item_view(item: Option<ThreadItem>) -> Option<ItemModel> {
    match item {
        Some(item) => Some(item@),
        None => None,
    }
}

/// The text of the member with this key, if it is a string.
pub fn text_field(value: &JsonValue, key: &str) -> (r: Option<String>)
    ensures
        match r {
            Some(text) => text_member(value@, key@) == Some(text@),
            None => text_member(value@, key@) is None,
        },
{
    match value.get(key) {
        Some(member) => match member.as_str() {
            Some(text) => Some(text.to_owned()),
            None => None,
        },
        None => None,
    }
}

/// The member with this key, unless it is missing or `null`.
pub fn optional_field<'a>(value: &'a JsonValue, key: &str) -> (r: Option<&'a JsonValue>)
    ensures
        match r {
            Some(member) => optional_member(value@, key@) == Some(member@),
            None => optional_member(value@, key@) is None,
        },
{
    match value.get(key) {
        Some(member) => if member.is_null() {
            None
        } else {
            Some(member)
        },
        None => None,
    }
}

fn command_status(word: &str) -> (r: Option<CommandExecutionStatus>)
    ensures
        r == command_status_of(word@),
{
    if same_text(word, "in_progress") {
        Some(CommandExecutionStatus::InProgress)
    } else if same_text(word, "completed") {
        Some(CommandExecutionStatus::Completed)
    } else if same_text(word, "failed") {
        Some(CommandExecutionStatus::Failed)
    } else {
        None
    }
}

fn tool_status(word: &str) -> (r: Option<McpToolCallStatus>)
    ensures
        r == tool_status_of(word@),
{
    if same_text(word, "in_progress") {
        Some(McpToolCallStatus::InProgress)
    } else if same_text(word, "completed") {
        Some(McpToolCallStatus::Completed)
    } else if same_text(word, "failed") {
        Some(McpToolCallStatus::Failed)
    } else {
        None
    }
}

fn patch_status(word: &str) -> (r: Option<PatchApplyStatus>)
    ensures
        r == patch_status_of(word@),
{
    if same_text(word, "completed") {
        Some(PatchApplyStatus::Completed)
    } else if same_text(word, "failed") {
        Some(PatchApplyStatus::Failed)
    } else {
        None
    }
}

fn change_kind(word: &str) -> (r: Option<PatchChangeKind>)
    ensures
        r == change_kind_of(word@),
{
    if same_text(word, "add") {
        Some(PatchChangeKind::Add)
    } else if same_text(word, "delete") {
        Some(PatchChangeKind::Delete)
    } else if same_text(word, "update") {
        Some(PatchChangeKind::Update)
    } else {
        None
    }
}

fn exit_code(value: &JsonValue) -> (r: Option<Option<i32>>)
    ensures
        r == exit_code_of(value@),
{
    match optional_field(value, "exit_code") {
        None => Some(None),
        Some(member) => match member.as_i32() {
            Some(code) => Some(Some(code)),
            None => None,
        },
    }
}

fn change(value: &JsonValue) -> (r: Option<FileUpdateChange>)
    ensures
        match r {
            Some(change) => change_of(value@) == Some(change@),
            None => change_of(value@) is None,
        },
{
    let path = text_field(value, "path")?;
    let word = text_field(value, "kind")?;
    let kind = change_kind(word.as_str())?;
    Some(FileUpdateChange { path, kind })
}

fn changes(value: &JsonValue) -> (r: Option<Vec<FileUpdateChange>>)
    ensures
        match r {
            Some(list) => changes_of(value@) == Some(
                list@.map_values(|change: FileUpdateChange| change@),
            ),
            None => changes_of(value@) is None,
        },
{
    let items = value.get("changes")?.as_array()?;
    let ghost parts = views(items@).map_values(|item: Json| change_of(item));
    let mut list: Vec<FileUpdateChange> = Vec::new();
    let mut i: usize = 0;
    while i < items.len()
        invariant
            i <= items.len(),
            list.len() == i,
            parts == views(items@).map_values(|item: Json| change_of(item)),
            changes_of(value@) == collected(parts),
            forall|j: int| 0 <= j < i ==> (#[trigger] parts[j]) == Some(list@[j]@),
        decreases items.len() - i,
    {
        match change(&items[i]) {
            Some(one) => list.push(one),
            None => {
                assert(parts[i as int] is None);
                return None;
            },
        }
        i += 1;
    }
    assert(collected(parts)->0 =~= list@.map_values(|change: FileUpdateChange| change@));
    Some(list)
}

fn todo(value: &JsonValue) -> (r: Option<TodoItem>)
    ensures
        match r {
            Some(todo) => todo_of(value@) == Some(todo@),
            None => todo_of(value@) is None,
        },
{
    let text = text_field(value, "text")?;
    let completed = value.get("completed")?.as_bool()?;
    Some(TodoItem { text, completed })
}

fn todos(value: &JsonValue) -> (r: Option<Vec<TodoItem>>)
    ensures
        match r {
            Some(list) => todos_of(value@) == Some(list@.map_values(|item: TodoItem| item@)),
            None => todos_of(value@) is None,
        },
{
    let items = value.get("items")?.as_array()?;
    let ghost parts = views(items@).map_values(|item: Json| todo_of(item));
    let mut list: Vec<TodoItem> = Vec::new();
    let mut i: usize = 0;
    while i < items.len()
        invariant
            i <= items.len(),
            list.len() == i,
            parts == views(items@).map_values(|item: Json| todo_of(item)),
            todos_of(value@) == collected(parts),
            forall|j: int| 0 <= j < i ==> (#[trigger] parts[j]) == Some(list@[j]@),
        decreases items.len() - i,
    {
        match todo(&items[i]) {
            Some(one) => list.push(one),
            None => {
                assert(parts[i as int] is None);
                return None;
            },
        }
        i += 1;
    }
    assert(collected(parts)->0 =~= list@.map_values(|item: TodoItem| item@));
    Some(list)
}

fn copies(items: &Vec<JsonValue>) -> (r: Vec<JsonValue>)
    ensures
        views(r@) == views(items@),
{
    let mut list: Vec<JsonValue> = Vec::new();
    let mut i: usize = 0;
    while i < items.len()
        invariant
            i <= items.len(),
            list.len() == i,
            forall|j: int| 0 <= j < i ==> (#[trigger] list@[j])@ == items@[j]@,
        decreases items.len() - i,
    {
        list.push(items[i].clone());
        i += 1;
    }
    assert(views(list@) =~= views(items@));
    list
}

fn tool_result(value: &JsonValue) -> (r: Option<McpToolCallResult>)
    ensures
        match r {
            Some(result) => tool_result_of(value@) == Some(result@),
            None => tool_result_of(value@) is None,
        },
{
    let content = value.get("content")?.as_array()?;
    let structured_content = value.get("structured_content")?;
    Some(
        McpToolCallResult {
            content: copies(content),
            structured_content: structured_content.clone(),
        },
    )
}

fn optional_tool_result(value: &JsonValue) -> (r: Option<Option<McpToolCallResult>>)
    ensures
        match r {
            Some(Some(result)) => optional_tool_result_of(value@) == Some(Some(result@)),
            Some(None) => optional_tool_result_of(value@) == Some(None::<ToolResultModel>),
            None => optional_tool_result_of(value@) is None,
        },
{
    match optional_field(value, "result") {
        None => Some(None),
        Some(member) => match tool_result(member) {
            Some(result) => Some(Some(result)),
            None => None,
        },
    }
}

fn optional_tool_error(value: &JsonValue) -> (r: Option<Option<McpToolCallError>>)
    ensures
        match r {
            Some(Some(error)) => optional_tool_error_of(value@) == Some(Some(error@)),
            Some(None) => optional_tool_error_of(value@) == Some(None::<Seq<char>>),
            None => optional_tool_error_of(value@) is None,
        },
{
    match optional_field(value, "error") {
        None => Some(None),
        Some(member) => match text_field(member, "message") {
            Some(message) => Some(Some(McpToolCallError { message })),
            None => None,
        },
    }
}

fn agent_message(value: &JsonValue) -> (r: Option<ThreadItem>)
    ensures
        item_view(r) == agent_message_of(value@),
{
    let id = text_field(value, "id")?;
    let text = text_field(value, "text")?;
    Some(ThreadItem::AgentMessage { id, text })
}

fn reasoning(value: &JsonValue) -> (r: Option<ThreadItem>)
    ensures
        item_view(r) == reasoning_of(value@),
{
    let id = text_field(value, "id")?;
    let text = text_field(value, "text")?;
    Some(ThreadItem::Reasoning { id, text })
}

fn command_execution(value: &JsonValue) -> (r: Option<ThreadItem>)
    ensures
        item_view(r) == command_execution_of(value@),
{
    let id = text_field(value, "id")?;
    let command = text_field(value, "command")?;
    let aggregated_output = text_field(value, "aggregated_output")?;
    let exit_code = exit_code(value)?;
    let word = text_field(value, "status")?;
    let status = command_status(word.as_str())?;
    Some(ThreadItem::CommandExecution { id, command, aggregated_output, exit_code, status })
}

fn file_change(value: &JsonValue) -> (r: Option<ThreadItem>)
    ensures
        item_view(r) == file_change_of(value@),
{
    let id = text_field(value, "id")?;
    let changes = changes(value)?;
    let word = text_field(value, "status")?;
    let status = patch_status(word.as_str())?;
    Some(ThreadItem::FileChange { id, changes, status })
}

fn tool_call(value: &JsonValue) -> (r: Option<ThreadItem>)
    ensures
        item_view(r) == tool_call_of(value@),
{
    let id = text_field(value, "id")?;
    let server = text_field(value, "server")?;
    let tool = text_field(value, "tool")?;
    let arguments = value.get("arguments")?.clone();
    let result = optional_tool_result(value)?;
    let error = optional_tool_error(value)?;
    let word = text_field(value, "status")?;
    let status = tool_status(word.as_str())?;
    Some(ThreadItem::McpToolCall { id, server, tool, arguments, result, error, status })
}

fn web_search(value: &JsonValue) -> (r: Option<ThreadItem>)
    ensures
        item_view(r) == web_search_of(value@),
{
    let id = text_field(value, "id")?;
    let query = text_field(value, "query")?;
    Some(ThreadItem::WebSearch { id, query })
}

fn todo_list(value: &JsonValue) -> (r: Option<ThreadItem>)
    ensures
        item_view(r) == todo_list_of(value@),
{
    let id = text_field(value, "id")?;
    let items = todos(value)?;
    Some(ThreadItem::TodoList { id, items })
}

fn error_item(value: &JsonValue) -> (r: Option<ThreadItem>)
    ensures
        item_view(r) == error_item_of(value@),
{
    let id = text_field(value, "id")?;
    let message = text_field(value, "message")?;
    Some(ThreadItem::Error { id, message })
}

impl ThreadItem {
    /// Reads an item from the JSON value that writes it.
    pub fn from_json(value: &JsonValue) -> (r: Option<ThreadItem>)
        ensures
            item_view(r) == item_of(value@),
    {
        let tag = text_field(value, "type")?;
        let tag = tag.as_str();
        if same_text(tag, "agent_message") {
            agent_message(value)
        } else if same_text(tag, "reasoning") {
            reasoning(value)
        } else if same_text(tag, "command_execution") {
            command_execution(value)
        } else if same_text(tag, "file_change") {
            file_change(value)
        } else if same_text(tag, "mcp_tool_call") {
            tool_call(value)
        } else if same_text(tag, "web_search") {
            web_search(value)
        } else if same_text(tag, "todo_list") {
            todo_list(value)
        } else if same_text(tag, "error") {
            error_item(value)
        } else {
            None
        }
    }
}

} // verus!
