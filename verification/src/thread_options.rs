//! The settings of a conversation, and the words that the agent's command
//! line knows them by.

use vstd::prelude::*;
use vstd::string::StringExecFns;

verus! {

/// When the agent asks before it acts.
#[derive(Clone, Copy, Debug)]
pub enum ApprovalMode {
    Never,
    OnRequest,
    OnFailure,
    Untrusted,
}

impl ApprovalMode {
    /// The word for this mode.
    pub open spec fn text(self) -> Seq<char> {
        match self {
            ApprovalMode::Never => "never"@,
            ApprovalMode::OnRequest => "on-request"@,
            ApprovalMode::OnFailure => "on-failure"@,
            ApprovalMode::Untrusted => "untrusted"@,
        }
    }

    pub fn as_str(&self) -> (r: &'static str)
        ensures
            r@ == self.text(),
    {
        match self {
            ApprovalMode::Never => "never",
            ApprovalMode::OnRequest => "on-request",
            ApprovalMode::OnFailure => "on-failure",
            ApprovalMode::Untrusted => "untrusted",
        }
    }
}

/// What the agent may touch.
#[derive(Clone, Copy, Debug)]
pub enum SandboxMode {
    ReadOnly,
    WorkspaceWrite,
    DangerFullAccess,
}

impl SandboxMode {
    /// The word for this mode.
    pub open spec fn text(self) -> Seq<char> {
        match self {
            SandboxMode::ReadOnly => "read-only"@,
            SandboxMode::WorkspaceWrite => "workspace-write"@,
            SandboxMode::DangerFullAccess => "danger-full-access"@,
        }
    }

    pub fn as_str(&self) -> (r: &'static str)
        ensures
            r@ == self.text(),
    {
        match self {
            SandboxMode::ReadOnly => "read-only",
            SandboxMode::WorkspaceWrite => "workspace-write",
            SandboxMode::DangerFullAccess => "danger-full-access",
        }
    }
}

/// How much the model reasons before it answers.
#[derive(Clone, Copy, Debug)]
pub enum ModelReasoningEffort {
    Minimal,
    Low,
    Medium,
    High,
    XHigh,
}

impl ModelReasoningEffort {
    /// The word for this effort.
    pub open spec fn text(self) -> Seq<char> {
        match self {
            ModelReasoningEffort::Minimal => "minimal"@,
            ModelReasoningEffort::Low => "low"@,
            ModelReasoningEffort::Medium => "medium"@,
            ModelReasoningEffort::High => "high"@,
            ModelReasoningEffort::XHigh => "xhigh"@,
        }
    }

    pub fn as_str(&self) -> (r: &'static str)
        ensures
            r@ == self.text(),
    {
        match self {
            ModelReasoningEffort::Minimal => "minimal",
            ModelReasoningEffort::Low => "low",
            ModelReasoningEffort::Medium => "medium",
            ModelReasoningEffort::High => "high",
            ModelReasoningEffort::XHigh => "xhigh",
        }
    }
}

/// Whether and how the agent searches the web.
#[derive(Clone, Copy, Debug)]
pub enum WebSearchMode {
    Disabled,
    Cached,
    Live,
}

impl WebSearchMode {
    /// The word for this mode.
    pub open spec fn text(self) -> Seq<char> {
        match self {
            WebSearchMode::Disabled => "disabled"@,
            WebSearchMode::Cached => "cached"@,
            WebSearchMode::Live => "live"@,
        }
    }

    pub fn as_str(&self) -> (r: &'static str)
        ensures
            r@ == self.text(),
    {
        match self {
            WebSearchMode::Disabled => "disabled",
            WebSearchMode::Cached => "cached",
            WebSearchMode::Live => "live",
        }
    }
}

/// The settings that hold for every turn of one conversation.
#[derive(Clone, Debug)]
pub struct ThreadOptions {
    pub model: Option<String>,
    pub sandbox_mode: Option<SandboxMode>,
    pub working_directory: Option<String>,
    pub skip_git_repo_check: Option<bool>,
    pub model_reasoning_effort: Option<ModelReasoningEffort>,
    pub network_access_enabled: Option<bool>,
    pub web_search_mode: Option<WebSearchMode>,
    pub web_search_enabled: Option<bool>,
    pub approval_policy: Option<ApprovalMode>,
    pub additional_directories: Option<Vec<String>>,
}

impl Default for ThreadOptions {
    /// Nothing is set.
    fn default() -> (r: Self)
        ensures
            r.model is None,
            r.sandbox_mode is None,
            r.working_directory is None,
            r.skip_git_repo_check is None,
            r.model_reasoning_effort is None,
            r.network_access_enabled is None,
            r.web_search_mode is None,
            r.web_search_enabled is None,
            r.approval_policy is None,
            r.additional_directories is None,
    {
        ThreadOptions {
            model: None,
            sandbox_mode: None,
            working_directory: None,
            skip_git_repo_check: None,
            model_reasoning_effort: None,
            network_access_enabled: None,
            web_search_mode: None,
            web_search_enabled: None,
            approval_policy: None,
            additional_directories: None,
        }
    }
}

impl ThreadOptions {
    /// How a setting that may be missing is shown: `Some(word)` or `None`.
    pub open spec fn option_text(value: Option<Seq<char>>) -> Seq<char> {
        match value {
            Some(word) => ("Some("@ + word).push(')'),
            None => "None"@,
        }
    }

    /// Shows a setting that may be missing: `Some(word)` or `None`.
    pub fn format_option(value: Option<&str>) -> (r: String)
        ensures
            r@ == Self::option_text(
                match value {
                    Some(word) => Some(word@),
                    None => None,
                },
            ),
    {
        match value {
            Some(word) => {
                let mut out = "Some(".to_owned();
                out.append(word);
                out.push(')');
                out
            },
            None => "None".to_owned(),
        }
    }
}

} // verus!
