//! The client: the settings that all conversations share.

use crate::codex_options::CodexOptions;
use crate::env::Environment;
use crate::error::CodexError;
use crate::exec::{copy_of, text_of, CodexExec};
use crate::json::{Json, JsonValue};
use crate::thread::Thread;
use crate::thread_options::ThreadOptions;
use vstd::prelude::*;

verus! {

/// A client of the agent. Conversations are started from it.
#[derive(Debug)]
pub struct Codex {
    builder: CodexExec,
    options: CodexOptions,
}

/// What an environment that may be missing holds.
pub open spec fn environment_of(env: Option<Environment>) -> Option<Map<Seq<char>, Seq<char>>> {
    match env {
        Some(env) => Some(env@),
        None => None,
    }
}

/// What a configuration that may be missing holds.
pub open spec fn configuration_of(config: Option<JsonValue>) -> Option<Json> {
    match config {
        Some(config) => Some(config@),
        None => None,
    }
}

fn copy_of_environment(env: &Option<Environment>) -> (r: Option<Environment>)
    ensures
        environment_of(r) == environment_of(*env),
{
    match env {
        Some(env) => Some(env.clone()),
        None => None,
    }
}

fn copy_of_configuration(config: &Option<JsonValue>) -> (r: Option<JsonValue>)
    ensures
        configuration_of(r) == configuration_of(*config),
{
    match config {
        Some(config) => Some(config.clone()),
        None => None,
    }
}

fn copy_of_options(options: &CodexOptions) -> (r: CodexOptions)
    ensures
        text_of(r.codex_path_override) == text_of(options.codex_path_override),
        text_of(r.base_url) == text_of(options.base_url),
        text_of(r.api_key) == text_of(options.api_key),
        configuration_of(r.config) == configuration_of(options.config),
        environment_of(r.env) == environment_of(options.env),
{
    CodexOptions {
        codex_path_override: copy_of(&options.codex_path_override),
        base_url: copy_of(&options.base_url),
        api_key: copy_of(&options.api_key),
        config: copy_of_configuration(&options.config),
        env: copy_of_environment(&options.env),
    }
}

impl Codex {
    /// The settings that the client was made with.
    pub closed spec fn client_options(&self) -> CodexOptions {
        self.options
    }

    /// The builder of the commands of the client's turns.
    pub closed spec fn command_builder(&self) -> CodexExec {
        self.builder
    }

    /// Makes a client. Its commands start the program that the options name,
    /// or `codex`, in the environment and with the configuration overrides
    /// that the options hold.
    pub fn new(options: CodexOptions) -> (r: Result<Self, CodexError>)
        ensures
            r matches Ok(client) && {
                &&& client.client_options() == options
                &&& client.command_builder().program() == match options.codex_path_override {
                    Some(path) => path@,
                    None => "codex"@,
                }
                &&& client.command_builder().environment_override() == environment_of(
                    options.env,
                )
                &&& client.command_builder().configuration() == configuration_of(options.config)
            },
    {
        let path = copy_of(&options.codex_path_override);
        let env = copy_of_environment(&options.env);
        let config = copy_of_configuration(&options.config);
        match CodexExec::new(path, env, config) {
            Ok(builder) => Ok(Codex { builder, options }),
            Err(e) => Err(e),
        }
    }

    /// Starts a conversation that has no session id yet.
    pub fn start_thread(&self, options: ThreadOptions) -> (r: Thread)
        ensures
            r.session_id() is None,
            r.settings() == options,
            same_client(r, *self),
    {
        Thread::new(self.builder.clone(), copy_of_options(&self.options), options, None)
    }

    /// Takes up the conversation that has this session id.
    pub fn resume_thread(&self, id: String, options: ThreadOptions) -> (r: Thread)
        ensures
            r.session_id() == Some(id@),
            r.settings() == options,
            same_client(r, *self),
    {
        Thread::new(self.builder.clone(), copy_of_options(&self.options), options, Some(id))
    }
}

/// Whether the conversation has the settings and the command builder of the
/// client.
pub open spec fn same_client(thread: Thread, client: Codex) -> bool {
    let mine = thread.client_options();
    let theirs = client.client_options();
    &&& text_of(mine.codex_path_override) == text_of(theirs.codex_path_override)
    &&& text_of(mine.base_url) == text_of(theirs.base_url)
    &&& text_of(mine.api_key) == text_of(theirs.api_key)
    &&& configuration_of(mine.config) == configuration_of(theirs.config)
    &&& environment_of(mine.env) == environment_of(theirs.env)
    &&& thread.command_builder().program() == client.command_builder().program()
    &&& thread.command_builder().environment_override()
        == client.command_builder().environment_override()
    &&& thread.command_builder().configuration() == client.command_builder().configuration()
}

} // verus!
