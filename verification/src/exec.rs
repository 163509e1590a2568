//! How a turn's request becomes the command line and the environment of the
//! agent process.

use crate::config_overrides::override_entries;
use crate::env::Environment;
use crate::error::{CodexError, ErrorModel};
use crate::json::{Json, JsonValue};
use crate::text::{same_texts, texts};
use crate::thread_options::{ApprovalMode, ModelReasoningEffort, SandboxMode, WebSearchMode};
use vstd::prelude::*;
use vstd::string::StringExecFns;

verus! {

/// `tokio_util::sync::CancellationToken`, the handle by which a caller cancels
/// a turn. The library carries it through and never looks into it.
#[verifier::external_type_specification]
#[verifier::external_body]
pub struct ExCancellationToken(tokio_util::sync::CancellationToken);

/// Builds the command for each turn from what the client was set up with.
#[derive(Debug)]
pub struct CodexExec {
    executable_path: String,
    env_override: Option<Environment>,
    config_overrides: Option<JsonValue>,
}

/// What one turn asks of the agent. It is made once per turn and not changed.
#[derive(Clone, Debug)]
pub struct CodexExecArgs {
    pub input: String,
    pub base_url: Option<String>,
    pub api_key: Option<String>,
    pub thread_id: Option<String>,
    pub images: Option<Vec<String>>,
    pub model: Option<String>,
    pub sandbox_mode: Option<SandboxMode>,
    pub working_directory: Option<String>,
    pub additional_directories: Option<Vec<String>>,
    pub skip_git_repo_check: Option<bool>,
    pub output_schema_file: Option<String>,
    pub model_reasoning_effort: Option<ModelReasoningEffort>,
    pub cancel: Option<tokio_util::sync::CancellationToken>,
    pub network_access_enabled: Option<bool>,
    pub web_search_mode: Option<WebSearchMode>,
    pub web_search_enabled: Option<bool>,
    pub approval_policy: Option<ApprovalMode>,
}

impl Default for CodexExecArgs {
    /// An empty input and nothing else set.
    fn default() -> (r: Self)
        ensures
            r.input@ == Seq::<char>::empty(),
            r.base_url is None,
            r.api_key is None,
            r.thread_id is None,
            r.images is None,
            r.model is None,
            r.sandbox_mode is None,
            r.working_directory is None,
            r.additional_directories is None,
            r.skip_git_repo_check is None,
            r.output_schema_file is None,
            r.model_reasoning_effort is None,
            r.cancel is None,
            r.network_access_enabled is None,
            r.web_search_mode is None,
            r.web_search_enabled is None,
            r.approval_policy is None,
    {
        CodexExecArgs {
            input: String::new(),
            base_url: None,
            api_key: None,
            thread_id: None,
            images: None,
            model: None,
            sandbox_mode: None,
            working_directory: None,
            additional_directories: None,
            skip_git_repo_check: None,
            output_schema_file: None,
            model_reasoning_effort: None,
            cancel: None,
            network_access_enabled: None,
            web_search_mode: None,
            web_search_enabled: None,
            approval_policy: None,
        }
    }
}

/// The arguments and the environment that the agent process is started with.
#[derive(Clone, Debug)]
pub struct CommandSpec {
    pub args: Vec<String>,
    pub env: Environment,
}

impl PartialEq for CommandSpec {
    fn eq(&self, other: &Self) -> (r: bool) {
        same_texts(&self.args, &other.args) && self.env.same_as(&other.env)
    }
}

impl vstd::std_specs::cmp::PartialEqSpecImpl for CommandSpec {
    open spec fn obeys_eq_spec() -> bool {
        true
    }

    /// Two commands are equal where they have the same arguments in the same
    /// order and the same environment.
    open spec fn eq_spec(&self, other: &Self) -> bool {
        texts(self.args@) == texts(other.args@) && self.env@ == other.env@
    }
}

/// What a text that may be missing holds.
pub open spec fn text_of(value: Option<String>) -> Option<Seq<char>> {
    match value {
        Some(text) => Some(text@),
        None => None,
    }
}

/// What a list that may be missing holds; a missing list holds nothing.
pub open spec fn texts_of(list: Option<Vec<String>>) -> Seq<Seq<char>> {
    match list {
        Some(list) => texts(list@),
        None => Seq::empty(),
    }
}

/// The flag and the value, if there is a value.
pub open spec fn flag_tokens(flag: Seq<char>, value: Option<Seq<char>>) -> Seq<Seq<char>> {
    match value {
        Some(value) => seq![flag, value],
        None => Seq::empty(),
    }
}

/// The switch, if it is on.
pub open spec fn switch_tokens(flag: Seq<char>, on: bool) -> Seq<Seq<char>> {
    if on {
        seq![flag]
    } else {
        Seq::empty()
    }
}

/// The flag before each of the values, in their order.
pub open spec fn repeated_flag_tokens(flag: Seq<char>, values: Seq<Seq<char>>) -> Seq<Seq<char>>
    decreases values.len(),
{
    if values.len() == 0 {
        Seq::empty()
    } else {
        repeated_flag_tokens(flag, values.drop_last()) + seq![flag, values.last()]
    }
}

/// A setting whose value is a word: `key="word"`.
pub open spec fn quoted_setting(key: Seq<char>, word: Seq<char>) -> Seq<char> {
    ((key + "=\""@) + word).push('"')
}

/// The setting for the reasoning effort, if one is asked for.
pub open spec fn effort_setting(effort: Option<ModelReasoningEffort>) -> Option<Seq<char>> {
    match effort {
        Some(effort) => Some(quoted_setting("model_reasoning_effort"@, effort.text())),
        None => None,
    }
}

/// The setting for network access, if it is decided.
pub open spec fn network_setting(enabled: Option<bool>) -> Option<Seq<char>> {
    match enabled {
        Some(true) => Some("sandbox_workspace_write.network_access=true"@),
        Some(false) => Some("sandbox_workspace_write.network_access=false"@),
        None => None,
    }
}

/// The word for web search: the mode where one is given, whatever the switch
/// says; else `live` or `disabled` by the switch; else nothing.
pub open spec fn web_search_word(mode: Option<WebSearchMode>, enabled: Option<bool>) -> Option<
    Seq<char>,
> {
    match mode {
        Some(mode) => Some(mode.text()),
        None => match enabled {
            Some(true) => Some("live"@),
            Some(false) => Some("disabled"@),
            None => None,
        },
    }
}

/// The setting for web search, if anything is said of it.
pub open spec fn web_search_setting(mode: Option<WebSearchMode>, enabled: Option<bool>) -> Option<
    Seq<char>,
> {
    match web_search_word(mode, enabled) {
        Some(word) => Some(quoted_setting("web_search"@, word)),
        None => None,
    }
}

/// The setting for the approval policy, if one is asked for.
pub open spec fn approval_setting(policy: Option<ApprovalMode>) -> Option<Seq<char>> {
    match policy {
        Some(policy) => Some(quoted_setting("approval_policy"@, policy.text())),
        None => None,
    }
}

/// The word of the sandbox mode, if one is asked for.
pub open spec fn sandbox_word(mode: Option<SandboxMode>) -> Option<Seq<char>> {
    match mode {
        Some(mode) => Some(mode.text()),
        None => None,
    }
}

/// Everything on the command line before the part that resumes a conversation
/// and attaches images.
pub open spec fn leading_tokens(entries: Seq<Seq<char>>, args: CodexExecArgs) -> Seq<Seq<char>> {
    seq!["exec"@, "--experimental-json"@] + repeated_flag_tokens("--config"@, entries)
        + flag_tokens("--model"@, text_of(args.model)) + flag_tokens(
        "--sandbox"@,
        sandbox_word(args.sandbox_mode),
    ) + flag_tokens("--cd"@, text_of(args.working_directory)) + repeated_flag_tokens(
        "--add-dir"@,
        texts_of(args.additional_directories),
    ) + switch_tokens("--skip-git-repo-check"@, args.skip_git_repo_check == Some(true))
        + flag_tokens("--output-schema"@, text_of(args.output_schema_file)) + flag_tokens(
        "--config"@,
        effort_setting(args.model_reasoning_effort),
    ) + flag_tokens("--config"@, network_setting(args.network_access_enabled)) + flag_tokens(
        "--config"@,
        web_search_setting(args.web_search_mode, args.web_search_enabled),
    ) + flag_tokens("--config"@, approval_setting(args.approval_policy))
}

/// The whole command line, token by token: the leading part, then
/// `resume <thread-id>` where a conversation is resumed, then `--image <path>`
/// for each image. `entries` are the configuration overrides.
pub open spec fn command_tokens(entries: Seq<Seq<char>>, args: CodexExecArgs) -> Seq<Seq<char>> {
    leading_tokens(entries, args) + flag_tokens("resume"@, text_of(args.thread_id))
        + repeated_flag_tokens("--image"@, texts_of(args.images))
}

/// The mapping with the variable set unless it is set already.
pub open spec fn with_default(
    env: Map<Seq<char>, Seq<char>>,
    name: Seq<char>,
    value: Seq<char>,
) -> Map<Seq<char>, Seq<char>> {
    if env.dom().contains(name) {
        env
    } else {
        env.insert(name, value)
    }
}

/// The mapping with the variable set to the value, if there is a value.
pub open spec fn with_override(
    env: Map<Seq<char>, Seq<char>>,
    name: Seq<char>,
    value: Option<Seq<char>>,
) -> Map<Seq<char>, Seq<char>> {
    match value {
        Some(value) => env.insert(name, value),
        None => env,
    }
}

/// The environment of the agent process, given the one to start from: three
/// markers are set where they are missing, then the request's base URL and
/// API key, where it has them, replace whatever was there.
pub open spec fn resolved_environment(
    base: Map<Seq<char>, Seq<char>>,
    base_url: Option<Seq<char>>,
    api_key: Option<Seq<char>>,
) -> Map<Seq<char>, Seq<char>> {
    let marked = with_default(
        with_default(
            with_default(base, "CODEX_INTERNAL_ORIGINATOR_OVERRIDE"@, "codex_sdk_rs"@),
            "CI"@,
            "true"@,
        ),
        "TERM"@,
        "xterm"@,
    );
    with_override(with_override(marked, "OPENAI_BASE_URL"@, base_url), "CODEX_API_KEY"@, api_key)
}

/// Appends the flag and the value.
fn push_flag(tokens: &mut Vec<String>, flag: &str, value: String)
    ensures
        texts(final(tokens)@) == texts(old(tokens)@) + seq![flag@, value@],
{
    tokens.push(flag.to_owned());
    tokens.push(value);
    assert(texts(tokens@) =~= texts(old(tokens)@) + seq![flag@, value@]);
}

/// Appends the flag and the value, if there is a value.
fn push_optional_flag(tokens: &mut Vec<String>, flag: &str, value: Option<String>)
    ensures
        texts(final(tokens)@) == texts(old(tokens)@) + flag_tokens(flag@, text_of(value)),
{
    match value {
        Some(value) => push_flag(tokens, flag, value),
        None => {
            assert(texts(tokens@) =~= texts(old(tokens)@) + Seq::<Seq<char>>::empty());
        },
    }
}

/// Appends the switch if it is on.
fn push_switch(tokens: &mut Vec<String>, flag: &str, on: bool)
    ensures
        texts(final(tokens)@) == texts(old(tokens)@) + switch_tokens(flag@, on),
{
    if on {
        tokens.push(flag.to_owned());
        assert(texts(tokens@) =~= texts(old(tokens)@) + seq![flag@]);
    } else {
        assert(texts(tokens@) =~= texts(old(tokens)@) + Seq::<Seq<char>>::empty());
    }
}

/// Appends the flag before each of the values.
fn push_repeated_flag(tokens: &mut Vec<String>, flag: &str, values: &Vec<String>)
    ensures
        texts(final(tokens)@) == texts(old(tokens)@) + repeated_flag_tokens(
            flag@,
            texts(values@),
        ),
{
    let mut i: usize = 0;
    assert(texts(values@).take(0) =~= Seq::<Seq<char>>::empty());
    assert(texts(tokens@) =~= texts(old(tokens)@) + Seq::<Seq<char>>::empty());
    while i < values.len()
        invariant
            i <= values.len(),
            texts(tokens@) == texts(old(tokens)@) + repeated_flag_tokens(
                flag@,
                texts(values@).take(i as int),
            ),
        decreases values.len() - i,
    {
        let ghost before = tokens@;
        push_flag(tokens, flag, values[i].clone());
        i += 1;
        proof {
            let now = texts(values@).take(i as int);
            assert(now.drop_last() =~= texts(values@).take(i - 1));
            assert(now.last() == values@[i - 1]@);
            assert(texts(tokens@) =~= texts(old(tokens)@) + repeated_flag_tokens(flag@, now));
        }
    }
    assert(texts(values@).take(values.len() as int) =~= texts(values@));
}

/// Appends the flag before each of the values of a list that may be missing.
fn push_optional_repeated_flag(tokens: &mut Vec<String>, flag: &str, values: &Option<Vec<String>>)
    ensures
        texts(final(tokens)@) == texts(old(tokens)@) + repeated_flag_tokens(
            flag@,
            texts_of(*values),
        ),
{
    match values {
        Some(values) => push_repeated_flag(tokens, flag, values),
        None => {
            assert(texts(tokens@) =~= texts(old(tokens)@) + Seq::<Seq<char>>::empty());
        },
    }
}

/// Writes a setting whose value is a word.
fn quoted(key: &str, word: &str) -> (r: String)
    ensures
        r@ == quoted_setting(key@, word@),
{
    let mut out = key.to_owned();
    out.append("=\"");
    out.append(word);
    out.push('"');
    out
}

/// Writes the setting for the reasoning effort, if one is asked for.
fn effort_setting_text(effort: &Option<ModelReasoningEffort>) -> (r: Option<String>)
    ensures
        text_of(r) == effort_setting(*effort),
{
    match effort {
        Some(effort) => Some(quoted("model_reasoning_effort", effort.as_str())),
        None => None,
    }
}

/// Writes the setting for network access, if it is decided.
fn network_setting_text(enabled: Option<bool>) -> (r: Option<String>)
    ensures
        text_of(r) == network_setting(enabled),
{
    match enabled {
        Some(true) => Some("sandbox_workspace_write.network_access=true".to_owned()),
        Some(false) => Some("sandbox_workspace_write.network_access=false".to_owned()),
        None => None,
    }
}

/// Writes the setting for web search, if anything is said of it.
fn web_search_setting_text(mode: &Option<WebSearchMode>, enabled: Option<bool>) -> (r: Option<
    String,
>)
    ensures
        text_of(r) == web_search_setting(*mode, enabled),
{
    if let Some(mode) = mode {
        Some(quoted("web_search", mode.as_str()))
    } else if let Some(web_search_enabled) = enabled {
        let value = if web_search_enabled {
            "live"
        } else {
            "disabled"
        };
        Some(quoted("web_search", value))
    } else {
        None
    }
}

/// Writes the setting for the approval policy, if one is asked for.
fn approval_setting_text(policy: &Option<ApprovalMode>) -> (r: Option<String>)
    ensures
        text_of(r) == approval_setting(*policy),
{
    match policy {
        Some(policy) => Some(quoted("approval_policy", policy.as_str())),
        None => None,
    }
}

/// The word of the sandbox mode, if one is asked for.
fn sandbox_word_text(mode: &Option<SandboxMode>) -> (r: Option<String>)
    ensures
        text_of(r) == sandbox_word(*mode),
{
    match mode {
        Some(mode) => Some(mode.as_str().to_owned()),
        None => None,
    }
}

/// A copy of a text that may be missing.
pub fn copy_of(value: &Option<String>) -> (r: Option<String>)
    ensures
        text_of(r) == text_of(*value),
{
    match value {
        Some(text) => Some(text.clone()),
        None => None,
    }
}

impl Clone for CodexExec {
    fn clone(&self) -> (r: Self)
        ensures
            r.program() == self.program(),
            r.environment_override() == self.environment_override(),
            r.configuration() == self.configuration(),
    {
        CodexExec {
            executable_path: self.executable_path.clone(),
            env_override: match &self.env_override {
                Some(env) => Some(env.clone()),
                None => None,
            },
            config_overrides: match &self.config_overrides {
                Some(config) => Some(config.clone()),
                None => None,
            },
        }
    }
}

impl CodexExec {
    /// The program that is started.
    pub closed spec fn program(&self) -> Seq<char> {
        self.executable_path@
    }

    /// The environment that replaces the inherited one, if one was given.
    pub closed spec fn environment_override(&self) -> Option<Map<Seq<char>, Seq<char>>> {
        match self.env_override {
            Some(env) => Some(env@),
            None => None,
        }
    }

    /// The configuration overrides, if any were given.
    pub closed spec fn configuration(&self) -> Option<Json> {
        match self.config_overrides {
            Some(config) => Some(config@),
            None => None,
        }
    }

    /// The overrides that the configuration gives, or why it gives none.
    /// Without a configuration there are none.
    pub open spec fn configuration_entries(&self) -> Result<Seq<Seq<char>>, ErrorModel> {
        match self.configuration() {
            Some(config) => override_entries(config, Seq::empty()),
            None => Ok(Seq::empty()),
        }
    }

    /// The environment that a turn starts from: the override where there is
    /// one, else the inherited environment.
    pub open spec fn base_environment(&self, inherited: Map<Seq<char>, Seq<char>>) -> Map<
        Seq<char>,
        Seq<char>,
    > {
        match self.environment_override() {
            Some(env) => env,
            None => inherited,
        }
    }

    /// Whether this is what building the command for a request comes to: the
    /// failure of the configuration overrides where they cannot be written,
    /// else the command line of the request, token by token, and the resolved
    /// environment.
    pub open spec fn is_command_for(
        &self,
        args: CodexExecArgs,
        inherited: Map<Seq<char>, Seq<char>>,
        r: Result<CommandSpec, CodexError>,
    ) -> bool {
        match self.configuration_entries() {
            Ok(entries) => r matches Ok(command) && texts(command.args@) == command_tokens(
                entries,
                args,
            ) && command.env@ == resolved_environment(
                self.base_environment(inherited),
                text_of(args.base_url),
                text_of(args.api_key),
            ),
            Err(e) => r matches Err(failure) && failure@ == e,
        }
    }

    /// Sets up the builder. Without a path the program is `codex`.
    pub fn new(
        executable_path: Option<String>,
        env: Option<Environment>,
        config_overrides: Option<JsonValue>,
    ) -> (r: Result<Self, CodexError>)
        ensures
            r is Ok,
            r->Ok_0.program() == match executable_path {
                Some(path) => path@,
                None => "codex"@,
            },
            r->Ok_0.environment_override() == match env {
                Some(env) => Some(env@),
                None => None,
            },
            r->Ok_0.configuration() == match config_overrides {
                Some(config) => Some(config@),
                None => None,
            },
    {
        let executable_path = match executable_path {
            Some(path) => path,
            None => "codex".to_owned(),
        };
        Ok(CodexExec { executable_path, env_override: env, config_overrides })
    }

    /// The program that is started.
    pub fn executable_path(&self) -> (r: &String)
        ensures
            r@ == self.program(),
    {
        &self.executable_path
    }

    /// The command line and the environment for one turn. `inherited` is the
    /// environment of this process; it counts only where no override was given.
    ///
    /// The command fails exactly when the configuration overrides cannot be
    /// written, with their failure.
    pub fn build_command(&self, args: &CodexExecArgs, inherited: &Environment) -> (r: Result<
        CommandSpec,
        CodexError,
    >)
        ensures
            self.is_command_for(*args, inherited@, r),
    {
        let mut command_args: Vec<String> = Vec::new();
        command_args.push("exec".to_owned());
        command_args.push("--experimental-json".to_owned());
        assert(texts(command_args@) =~= seq!["exec"@, "--experimental-json"@]);

        let overrides = match &self.config_overrides {
            Some(config_overrides) => match Self::serialize_config_overrides(config_overrides) {
                Ok(overrides) => overrides,
                Err(e) => {
                    return Err(e);
                },
            },
            None => {
                let none: Vec<String> = Vec::new();
                assert(texts(none@) =~= Seq::<Seq<char>>::empty());
                none
            },
        };
        assert(self.configuration_entries() == Ok::<Seq<Seq<char>>, ErrorModel>(
            texts(overrides@),
        ));
        push_repeated_flag(&mut command_args, "--config", &overrides);

        push_optional_flag(&mut command_args, "--model", copy_of(&args.model));
        push_optional_flag(&mut command_args, "--sandbox", sandbox_word_text(&args.sandbox_mode));
        push_optional_flag(&mut command_args, "--cd", copy_of(&args.working_directory));
        push_optional_repeated_flag(&mut command_args, "--add-dir", &args.additional_directories);
        let skip = match args.skip_git_repo_check {
            Some(true) => true,
            _ => false,
        };
        push_switch(&mut command_args, "--skip-git-repo-check", skip);
        push_optional_flag(&mut command_args, "--output-schema", copy_of(&args.output_schema_file));
        push_optional_flag(
            &mut command_args,
            "--config",
            effort_setting_text(&args.model_reasoning_effort),
        );
        push_optional_flag(
            &mut command_args,
            "--config",
            network_setting_text(args.network_access_enabled),
        );
        push_optional_flag(
            &mut command_args,
            "--config",
            web_search_setting_text(&args.web_search_mode, args.web_search_enabled),
        );
        push_optional_flag(
            &mut command_args,
            "--config",
            approval_setting_text(&args.approval_policy),
        );
        assert(texts(command_args@) == leading_tokens(texts(overrides@), *args));

        push_optional_flag(&mut command_args, "resume", copy_of(&args.thread_id));
        push_optional_repeated_flag(&mut command_args, "--image", &args.images);

        let env = self.build_env(args, inherited);
        Ok(CommandSpec { args: command_args, env })
    }

    /// The environment for one turn. `inherited` is the environment of this
    /// process; it counts only where no override was given.
    pub fn build_env(&self, args: &CodexExecArgs, inherited: &Environment) -> (r: Environment)
        ensures
            r@ == resolved_environment(
                self.base_environment(inherited@),
                text_of(args.base_url),
                text_of(args.api_key),
            ),
    {
        let mut env_vars = match &self.env_override {
            Some(override_env) => override_env.clone(),
            None => inherited.clone(),
        };
        env_vars.insert_if_absent(
            "CODEX_INTERNAL_ORIGINATOR_OVERRIDE".to_owned(),
            "codex_sdk_rs".to_owned(),
        );
        env_vars.insert_if_absent("CI".to_owned(), "true".to_owned());
        env_vars.insert_if_absent("TERM".to_owned(), "xterm".to_owned());
        if let Some(base_url) = &args.base_url {
            env_vars.insert("OPENAI_BASE_URL".to_owned(), base_url.clone());
        }
        if let Some(api_key) = &args.api_key {
            env_vars.insert("CODEX_API_KEY".to_owned(), api_key.clone());
        }
        env_vars
    }
}

/// The same request always gives the same command: two commands that were
/// both built for one request, from one inherited environment, have the same
/// arguments in the same order and the same environment.
pub proof fn lemma_same_request_same_command(
    builder: CodexExec,
    args: CodexExecArgs,
    inherited: Map<Seq<char>, Seq<char>>,
    first: CommandSpec,
    second: CommandSpec,
)
    requires
        builder.is_command_for(args, inherited, Ok(first)),
        builder.is_command_for(args, inherited, Ok(second)),
    ensures
        texts(first.args@) == texts(second.args@),
        first.env@ == second.env@,
{
}

/// Repeated flags come in pairs: the flag, then the value, value by value.
pub proof fn lemma_repeated_flag_tokens(flag: Seq<char>, values: Seq<Seq<char>>)
    ensures
        repeated_flag_tokens(flag, values).len() == 2 * values.len(),
        forall|i: int|
            0 <= i < 2 * values.len() ==> #[trigger] repeated_flag_tokens(flag, values)[i] == (if i
                % 2 == 0 {
                flag
            } else {
                values[i / 2]
            }),
    decreases values.len(),
{
    if values.len() > 0 {
        let before = repeated_flag_tokens(flag, values.drop_last());
        let pair = seq![flag, values.last()];
        let all = repeated_flag_tokens(flag, values);
        lemma_repeated_flag_tokens(flag, values.drop_last());
        assert(all == before + pair);
        assert forall|i: int| 0 <= i < 2 * values.len() implies #[trigger] all[i] == (if i % 2
            == 0 {
            flag
        } else {
            values[i / 2]
        }) by {
            if i < before.len() {
                assert(all[i] == before[i]);
                assert(values.drop_last()[i / 2] == values[i / 2]);
            } else {
                assert(all[i] == pair[i - before.len()]);
            }
        }
    }
}

/// Where a conversation is resumed and images are attached, the command line
/// ends with `resume`, the thread id, and then the images, each behind its
/// `--image`: the resume tokens stand before every image token.
pub proof fn lemma_resume_precedes_images(entries: Seq<Seq<char>>, args: CodexExecArgs)
    requires
        args.thread_id is Some,
        texts_of(args.images).len() > 0,
    ensures
        ({
            let tokens = command_tokens(entries, args);
            let lead = leading_tokens(entries, args).len() as int;
            let images = texts_of(args.images);
            &&& tokens.len() == lead + 2 + 2 * images.len()
            &&& tokens.take(lead) == leading_tokens(entries, args)
            &&& tokens[lead] == "resume"@
            &&& tokens[lead + 1] == args.thread_id->0@
            &&& forall|i: int|
                0 <= i < 2 * images.len() ==> #[trigger] tokens[lead + 2 + i] == (if i % 2 == 0 {
                    "--image"@
                } else {
                    images[i / 2]
                })
        }),
{
    let tokens = command_tokens(entries, args);
    let leading = leading_tokens(entries, args);
    let lead = leading.len() as int;
    let images = texts_of(args.images);
    let resume = flag_tokens("resume"@, text_of(args.thread_id));
    let attached = repeated_flag_tokens("--image"@, images);
    lemma_repeated_flag_tokens("--image"@, images);
    assert(tokens == leading + resume + attached);
    assert(resume.len() == 2);
    assert(tokens.take(lead) =~= leading);
    assert(tokens[lead] == resume[0]);
    assert(tokens[lead + 1] == resume[1]);
    assert forall|i: int| 0 <= i < 2 * images.len() implies #[trigger] tokens[lead + 2 + i] == (if i
        % 2 == 0 {
        "--image"@
    } else {
        images[i / 2]
    }) by {
        assert(tokens[lead + 2 + i] == attached[i]);
    }
}

/// Where a conversation is resumed and no token before the resume tokens
/// reads `--image`, the `resume` token stands before the first token that
/// does.
pub proof fn lemma_resume_before_first_image(entries: Seq<Seq<char>>, args: CodexExecArgs)
    requires
        args.thread_id is Some,
        forall|i: int|
            0 <= i < leading_tokens(entries, args).len() ==> #[trigger] leading_tokens(
                entries,
                args,
            )[i] != "--image"@,
    ensures
        ({
            let tokens = command_tokens(entries, args);
            let lead = leading_tokens(entries, args).len() as int;
            &&& lead + 1 < tokens.len()
            &&& tokens[lead] == "resume"@
            &&& tokens[lead + 1] == args.thread_id->0@
            &&& forall|i: int|
                0 <= i < tokens.len() && #[trigger] tokens[i] == "--image"@ ==> lead < i
        }),
{
    let tokens = command_tokens(entries, args);
    let leading = leading_tokens(entries, args);
    let lead = leading.len() as int;
    let resume = flag_tokens("resume"@, text_of(args.thread_id));
    reveal_strlit("resume");
    reveal_strlit("--image");
    assert("resume"@.len() != "--image"@.len());
    assert(resume.len() == 2);
    assert(tokens[lead] == resume[0]);
    assert(tokens[lead + 1] == resume[1]);
    assert forall|i: int| 0 <= i < tokens.len() && #[trigger] tokens[i] == "--image"@ implies lead
        < i by {
        if i < lead {
            assert(tokens[i] == leading[i]);
        }
    }
}

} // verus!
