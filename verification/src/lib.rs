//! A client for a coding agent that runs as a process of its own and reports
//! its work as one JSON event per line.
//!
//! The library holds what is decided: how a tree of configuration overrides
//! is flattened, how a request becomes a command line and an environment, how
//! the life of the process proceeds, how a line becomes an event, and what the
//! events of a turn add up to. Starting the process, waiting for it and
//! reading from it is left to the caller.

pub mod codex;
pub mod codex_options;
pub mod config_overrides;
pub mod driver;
pub mod env;
pub mod error;
pub mod events;
pub mod exec;
pub mod items;
pub mod json;
pub mod text;
pub mod thread;
pub mod thread_options;
pub mod turn_options;

pub use codex::Codex;
pub use codex_options::{CodexConfigObject, CodexConfigValue, CodexOptions};
pub use driver::{DriverAction, DriverEvent, DriverState, DriverStep, ProcessExit};
pub use env::Environment;
pub use error::CodexError;
pub use events::{ThreadError, ThreadEvent, Usage};
pub use exec::{CodexExec, CodexExecArgs, CommandSpec};
pub use items::{
    AgentMessageItem, CommandExecutionItem, CommandExecutionStatus, ErrorItem, FileChangeItem,
    FileUpdateChange, McpToolCallError, McpToolCallItem, McpToolCallResult, McpToolCallStatus,
    PatchApplyStatus, PatchChangeKind, ReasoningItem, ThreadItem, TodoItem, TodoListItem,
    WebSearchItem,
};
pub use json::{JsonNumber, JsonValue};
pub use thread::{Input, RunResult, Thread, Turn, TurnProgress, UserInput};
pub use thread_options::{
    ApprovalMode, ModelReasoningEffort, SandboxMode, ThreadOptions, WebSearchMode,
};
pub use turn_options::TurnOptions;
