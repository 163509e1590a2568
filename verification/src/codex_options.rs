//! What a client is set up with.

use crate::env::Environment;
use crate::json::JsonValue;
use vstd::prelude::*;

verus! {

/// A configuration value: any JSON.
pub type CodexConfigValue = JsonValue;

/// A configuration object: the members of a JSON object, in order.
pub type CodexConfigObject = Vec<(String, JsonValue)>;

/// The settings of a client. All of them may be left out.
#[derive(Clone, Debug)]
pub struct CodexOptions {
    /// The program to start in place of `codex`.
    pub codex_path_override: Option<String>,
    pub base_url: Option<String>,
    pub api_key: Option<String>,
    /// Configuration overrides: an object whose members become `--config` pairs.
    pub config: Option<JsonValue>,
    /// The environment of the agent process, in place of the inherited one.
    pub env: Option<Environment>,
}

impl Default for CodexOptions {
    /// Nothing is set.
    fn default() -> (r: Self)
        ensures
            r.codex_path_override is None,
            r.base_url is None,
            r.api_key is None,
            r.config is None,
            r.env is None,
    {
        CodexOptions {
            codex_path_override: None,
            base_url: None,
            api_key: None,
            config: None,
            env: None,
        }
    }
}

} // verus!
