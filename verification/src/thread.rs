//! A conversation with the agent: what goes into a turn, and what the events
//! of a turn add up to.

use crate::codex_options::CodexOptions;
use crate::error::CodexError;
use crate::events::{line_outcome, EventModel, ThreadEvent, Usage};
use crate::exec::{copy_of, text_of, texts_of, CodexExec, CodexExecArgs};
use crate::items::ThreadItem;
use crate::json::{parse_json, parsed_json};
use crate::text::{join, joined, texts};
use crate::thread_options::ThreadOptions;
use vstd::prelude::*;

verus! {

/// What a turn came to: the items that were completed, in order, the text of
/// the last agent message among them, and the usage that was reported.
#[derive(Clone, Debug)]
pub struct Turn {
    pub items: Vec<ThreadItem>,
    pub final_response: String,
    pub usage: Option<Usage>,
}

pub type RunResult = Turn;

/// One segment of a structured input.
#[derive(Clone, Debug, PartialEq)]
pub enum UserInput {
    Text { text: String },
    LocalImage { path: String },
}

/// What the user hands to a turn: a text, or segments of text and images.
#[derive(Clone, Debug, PartialEq)]
pub enum Input {
    Text(String),
    Structured(Vec<UserInput>),
}

impl From<String> for Input {
    fn from(value: String) -> (r: Self) {
        Input::Text(value)
    }
}

impl vstd::std_specs::convert::FromSpecImpl<String> for Input {
    open spec fn obeys_from_spec() -> bool {
        true
    }

    open spec fn from_spec(value: String) -> Self {
        Input::Text(value)
    }
}

impl<'a> From<&'a str> for Input {
    fn from(value: &'a str) -> (r: Self)
        ensures
            r matches Input::Text(text) && text@ == value@,
    {
        Input::Text(value.to_owned())
    }
}

impl<'a> vstd::std_specs::convert::FromSpecImpl<&'a str> for Input {
    /// No value of the model stands for "a string with this text", so the
    /// conversion is described by the `ensures` of `from` alone.
    open spec fn obeys_from_spec() -> bool {
        false
    }

    open spec fn from_spec(value: &'a str) -> Self {
        arbitrary()
    }
}

/// The texts of the text segments, in order.
pub open spec fn text_segments(segments: Seq<UserInput>) -> Seq<Seq<char>>
    decreases segments.len(),
{
    if segments.len() == 0 {
        Seq::empty()
    } else {
        let before = text_segments(segments.drop_last());
        match segments.last() {
            UserInput::Text { text } => before.push(text@),
            UserInput::LocalImage { .. } => before,
        }
    }
}

/// The paths of the image segments, in order.
pub open spec fn image_segments(segments: Seq<UserInput>) -> Seq<Seq<char>>
    decreases segments.len(),
{
    if segments.len() == 0 {
        Seq::empty()
    } else {
        let before = image_segments(segments.drop_last());
        match segments.last() {
            UserInput::Text { .. } => before,
            UserInput::LocalImage { path } => before.push(path@),
        }
    }
}

/// The prompt of an input: a plain text as it is; of a structured input the
/// text segments, a blank line between neighbours.
pub open spec fn prompt_of(input: Input) -> Seq<char> {
    match input {
        Input::Text(text) => text@,
        Input::Structured(segments) => joined(text_segments(segments@), "\n\n"@),
    }
}

/// The images of an input: none for a plain text; of a structured input the
/// paths of its image segments.
pub open spec fn images_of(input: Input) -> Seq<Seq<char>> {
    match input {
        Input::Text(_) => Seq::empty(),
        Input::Structured(segments) => image_segments(segments@),
    }
}

/// The items of the `ItemCompleted` events, in order.
pub open spec fn completed_items(events: Seq<ThreadEvent>) -> Seq<ThreadItem>
    decreases events.len(),
{
    if events.len() == 0 {
        Seq::empty()
    } else {
        let before = completed_items(events.drop_last());
        match events.last() {
            ThreadEvent::ItemCompleted { item } => before.push(item),
            _ => before,
        }
    }
}

/// The text of the last agent message that was completed; empty without one.
pub open spec fn final_response_of(events: Seq<ThreadEvent>) -> Seq<char>
    decreases events.len(),
{
    if events.len() == 0 {
        Seq::empty()
    } else {
        match events.last() {
            ThreadEvent::ItemCompleted { item: ThreadItem::AgentMessage { text, .. } } => text@,
            _ => final_response_of(events.drop_last()),
        }
    }
}

/// The usage of the last `TurnCompleted` event.
pub open spec fn usage_of_turn(events: Seq<ThreadEvent>) -> Option<Usage>
    decreases events.len(),
{
    if events.len() == 0 {
        None
    } else {
        match events.last() {
            ThreadEvent::TurnCompleted { usage } => Some(usage),
            _ => usage_of_turn(events.drop_last()),
        }
    }
}

/// The message of the first `TurnFailed` event.
pub open spec fn first_failure(events: Seq<ThreadEvent>) -> Option<Seq<char>>
    decreases events.len(),
{
    if events.len() == 0 {
        None
    } else {
        match first_failure(events.drop_last()) {
            Some(message) => Some(message),
            None => match events.last() {
                ThreadEvent::TurnFailed { error } => Some(error.message@),
                _ => None,
            },
        }
    }
}

/// The events that a turn takes in: all of them up to and with the first
/// `TurnFailed`, after which no more is read.
pub open spec fn consumed(events: Seq<ThreadEvent>) -> Seq<ThreadEvent>
    decreases events.len(),
{
    if events.len() == 0 {
        events
    } else if first_failure(events.drop_last()) is Some {
        consumed(events.drop_last())
    } else {
        events
    }
}

/// The session id after these events: the id of the last `ThreadStarted`
/// among them, whatever it was before; without one it stays.
pub open spec fn session_after(id: Option<Seq<char>>, events: Seq<ThreadEvent>) -> Option<
    Seq<char>,
>
    decreases events.len(),
{
    if events.len() == 0 {
        id
    } else {
        match events.last() {
            ThreadEvent::ThreadStarted { thread_id } => Some(thread_id@),
            _ => session_after(id, events.drop_last()),
        }
    }
}

/// Where the first `n` events hold a `TurnFailed`, all the events have the
/// same first failure and the same events are taken in.
pub proof fn lemma_failure_ends_the_turn(events: Seq<ThreadEvent>, n: int)
    requires
        0 <= n <= events.len(),
        first_failure(events.take(n)) is Some,
    ensures
        first_failure(events) == first_failure(events.take(n)),
        consumed(events) == consumed(events.take(n)),
    decreases events.len() - n,
{
    if n < events.len() {
        let more = events.take(n + 1);
        assert(more.drop_last() =~= events.take(n));
        lemma_failure_ends_the_turn(events, n + 1);
    } else {
        assert(events.take(n) =~= events);
    }
}

/// A copy of a list of texts.
fn copy_of_list(list: &Vec<String>) -> (r: Vec<String>)
    ensures
        texts(r@) == texts(list@),
{
    let mut out: Vec<String> = Vec::new();
    let mut i: usize = 0;
    while i < list.len()
        invariant
            i <= list.len(),
            out.len() == i,
            forall|j: int| 0 <= j < i ==> (#[trigger] out@[j])@ == list@[j]@,
        decreases list.len() - i,
    {
        out.push(list[i].clone());
        i += 1;
    }
    assert(texts(out@) =~= texts(list@));
    out
}

/// Whether this is what a turn's events come to: the failure of the first
/// `TurnFailed` among them, or without one the turn that they add up to.
pub open spec fn is_outcome_of(r: Result<Turn, CodexError>, events: Seq<ThreadEvent>) -> bool {
    match first_failure(events) {
        Some(message) => r matches Err(CodexError::TurnFailed(carried)) && carried@ == message,
        None => {
            &&& r matches Ok(turn)
            &&& turn.items@ == completed_items(events)
            &&& turn.final_response@ == final_response_of(events)
            &&& turn.usage == usage_of_turn(events)
        },
    }
}

/// Events that hold a `TurnFailed` have a first failure.
pub proof fn lemma_failure_is_found(events: Seq<ThreadEvent>, at: int)
    requires
        0 <= at < events.len(),
        events[at] is TurnFailed,
    ensures
        first_failure(events) is Some,
        first_failure(events.take(at)) is None ==> first_failure(events) == Some(
            events[at]->TurnFailed_error.message@,
        ),
    decreases events.len(),
{
    if at == events.len() - 1 {
        assert(events.take(at) =~= events.drop_last());
    } else {
        lemma_failure_is_found(events.drop_last(), at);
        assert(events.drop_last().take(at) =~= events.take(at));
    }
}

/// Events that hold a `TurnFailed` never come to a turn, not even to a part
/// of one: their outcome is the failure `TurnFailed`. This holds in
/// particular of events that end in one.
pub proof fn lemma_failed_turn_gives_no_turn(
    events: Seq<ThreadEvent>,
    at: int,
    r: Result<Turn, CodexError>,
)
    requires
        0 <= at < events.len(),
        events[at] is TurnFailed,
        is_outcome_of(r, events),
    ensures
        r matches Err(CodexError::TurnFailed(_)),
        first_failure(events.take(at)) is None ==> (r matches Err(
            CodexError::TurnFailed(message),
        ) && message@ == events[at]->TurnFailed_error.message@),
{
    lemma_failure_is_found(events, at);
}

/// Whether the event stream ends with this outcome of the line stream: it is
/// a failure, or a line that is no event.
pub open spec fn ends_event_stream(line: Result<String, CodexError>) -> bool {
    match line {
        Ok(text) => line_outcome(text@, parsed_json(text@)) is Err,
        Err(_) => true,
    }
}

/// Whether this is what the event stream hands out for this outcome of the
/// line stream: the event that a line writes; `InvalidEvent` with the line
/// where it writes none; a failure of the line stream as it is.
pub open spec fn is_handed_out_for(
    handed: Result<ThreadEvent, CodexError>,
    line: Result<String, CodexError>,
) -> bool {
    match line {
        Ok(text) => match line_outcome(text@, parsed_json(text@)) {
            Ok(event) => handed matches Ok(read) && read@ == event,
            Err(raw) => handed matches Err(CodexError::InvalidEvent(carried)) && carried@ == raw,
        },
        Err(failure) => handed == Err::<ThreadEvent, CodexError>(failure),
    }
}

/// The events among what a stream handed out, in order.
pub open spec fn events_among(handed: Seq<Result<ThreadEvent, CodexError>>) -> Seq<ThreadEvent>
    decreases handed.len(),
{
    if handed.len() == 0 {
        Seq::empty()
    } else {
        let before = events_among(handed.drop_last());
        match handed.last() {
            Ok(event) => before.push(event),
            Err(_) => before,
        }
    }
}

/// The failure that a stream hands out in place of an event, if it does
/// among its first `n` outcomes: the first such failure.
pub open spec fn stream_failure(outcomes: Seq<Result<ThreadEvent, CodexError>>, n: nat) -> Option<
    CodexError,
>
    decreases n,
{
    if n == 0 || n > outcomes.len() {
        None
    } else {
        match stream_failure(outcomes, (n - 1) as nat) {
            Some(failure) => Some(failure),
            None => match outcomes[n - 1] {
                Err(failure) => Some(failure),
                Ok(_) => None,
            },
        }
    }
}

/// The events that a stream hands out before its first failure, among its
/// first `n` outcomes.
pub open spec fn events_before_failure(
    outcomes: Seq<Result<ThreadEvent, CodexError>>,
    n: nat,
) -> Seq<ThreadEvent>
    decreases n,
{
    if n == 0 || n > outcomes.len() {
        Seq::empty()
    } else {
        let before = events_before_failure(outcomes, (n - 1) as nat);
        match (stream_failure(outcomes, (n - 1) as nat), outcomes[n - 1]) {
            (None, Ok(event)) => before.push(event),
            _ => before,
        }
    }
}

/// What is gathered of a turn while its events come in.
#[derive(Debug)]
pub struct TurnProgress {
    pub items: Vec<ThreadItem>,
    pub final_response: String,
    pub usage: Option<Usage>,
}

impl TurnProgress {
    /// Whether this is what the events add up to.
    pub open spec fn holds(&self, events: Seq<ThreadEvent>) -> bool {
        &&& self.items@ == completed_items(events)
        &&& self.final_response@ == final_response_of(events)
        &&& self.usage == usage_of_turn(events)
    }

    /// Nothing gathered yet.
    pub fn new() -> (r: Self)
        ensures
            r.items@ == Seq::<ThreadItem>::empty(),
            r.final_response@ == Seq::<char>::empty(),
            r.usage is None,
            r.holds(Seq::empty()),
    {
        TurnProgress { items: Vec::new(), final_response: String::new(), usage: None }
    }

    /// Takes in one event.
    ///
    /// A completed item is added to the items, and where it is an agent
    /// message its text becomes the final response. A completed turn's usage
    /// is kept. A failed turn is the failure `TurnFailed` with the event's
    /// message. Any other event changes nothing.
    pub fn observe(&mut self, event: ThreadEvent) -> (r: Result<(), CodexError>)
        ensures
            match event {
                ThreadEvent::ItemCompleted { item } => {
                    &&& r is Ok
                    &&& final(self).items@ == old(self).items@.push(item)
                    &&& final(self).final_response@ == match item {
                        ThreadItem::AgentMessage { text, .. } => text@,
                        _ => old(self).final_response@,
                    }
                    &&& final(self).usage == old(self).usage
                },
                ThreadEvent::TurnCompleted { usage } => {
                    &&& r is Ok
                    &&& final(self).items@ == old(self).items@
                    &&& final(self).final_response@ == old(self).final_response@
                    &&& final(self).usage == Some(usage)
                },
                ThreadEvent::TurnFailed { error } => {
                    &&& r matches Err(CodexError::TurnFailed(message))
                    &&& message@ == error.message@
                    &&& *final(self) == *old(self)
                },
                _ => r is Ok && *final(self) == *old(self),
            },
            forall|events: Seq<ThreadEvent>|
                old(self).holds(events) && r is Ok ==> #[trigger] final(self).holds(
                    events.push(event),
                ),
    {
        assert forall|events: Seq<ThreadEvent>| #![auto] events.push(event).drop_last() == events by {
            assert(events.push(event).drop_last() =~= events);
        }
        match event {
            ThreadEvent::ItemCompleted { item } => {
                if let ThreadItem::AgentMessage { text, .. } = &item {
                    self.final_response = text.clone();
                }
                self.items.push(item);
                Ok(())
            },
            ThreadEvent::TurnCompleted { usage } => {
                self.usage = Some(usage);
                Ok(())
            },
            ThreadEvent::TurnFailed { error } => Err(CodexError::TurnFailed(error.message)),
            _ => Ok(()),
        }
    }

    /// The turn, once its events have ended without a failure.
    pub fn finish(self) -> (r: Turn)
        ensures
            r.items == self.items,
            r.final_response == self.final_response,
            r.usage == self.usage,
    {
        Turn { items: self.items, final_response: self.final_response, usage: self.usage }
    }
}

/// One conversation. It knows the settings of its turns and, once the agent
/// has named it, its session id, by which a later turn resumes it.
#[derive(Debug)]
pub struct Thread {
    builder: CodexExec,
    options: CodexOptions,
    id: Option<String>,
    thread_options: ThreadOptions,
}

impl Thread {
    /// The session id, where one is known.
    pub closed spec fn session_id(&self) -> Option<Seq<char>> {
        text_of(self.id)
    }

    /// The settings of the conversation.
    pub closed spec fn settings(&self) -> ThreadOptions {
        self.thread_options
    }

    /// The settings of the client that the conversation belongs to.
    pub closed spec fn client_options(&self) -> CodexOptions {
        self.options
    }

    /// The builder of the commands of the conversation's turns.
    pub closed spec fn command_builder(&self) -> CodexExec {
        self.builder
    }

    pub(crate) fn new(
        builder: CodexExec,
        options: CodexOptions,
        thread_options: ThreadOptions,
        id: Option<String>,
    ) -> (r: Self)
        ensures
            r.session_id() == text_of(id),
            r.settings() == thread_options,
            r.client_options() == options,
            r.command_builder() == builder,
    {
        Thread { builder, options, id, thread_options }
    }

    /// The session id, where one is known.
    pub fn id(&self) -> (r: Option<String>)
        ensures
            text_of(r) == self.session_id(),
    {
        copy_of(&self.id)
    }

    /// The builder of the commands of the conversation's turns.
    pub fn builder(&self) -> (r: &CodexExec)
        ensures
            *r == self.command_builder(),
    {
        &self.builder
    }

    /// Parts an input into the prompt and the images.
    ///
    /// A plain text is the prompt as it is, without images. Of a structured
    /// input the text segments, in order and with a blank line between
    /// neighbours, are the prompt; the paths of the image segments, in order,
    /// are the images.
    pub fn normalize_input(input: &Input) -> (r: (String, Vec<String>))
        ensures
            r.0@ == prompt_of(*input),
            texts(r.1@) == images_of(*input),
    {
        match input {
            Input::Text(text) => {
                let images: Vec<String> = Vec::new();
                assert(texts(images@) =~= Seq::<Seq<char>>::empty());
                (text.clone(), images)
            },
            Input::Structured(items) => {
                let mut prompt_parts: Vec<String> = Vec::new();
                let mut images: Vec<String> = Vec::new();
                let mut i: usize = 0;
                assert(items@.take(0) =~= Seq::<UserInput>::empty());
                assert(texts(prompt_parts@) =~= Seq::<Seq<char>>::empty());
                assert(texts(images@) =~= Seq::<Seq<char>>::empty());
                while i < items.len()
                    invariant
                        i <= items.len(),
                        texts(prompt_parts@) == text_segments(items@.take(i as int)),
                        texts(images@) == image_segments(items@.take(i as int)),
                    decreases items.len() - i,
                {
                    proof {
                        let now = items@.take(i + 1);
                        assert(now.drop_last() =~= items@.take(i as int));
                        assert(now.last() == items@[i as int]);
                    }
                    match &items[i] {
                        UserInput::Text { text } => {
                            let ghost before = prompt_parts@;
                            prompt_parts.push(text.clone());
                            assert(texts(prompt_parts@) =~= texts(before).push(text@));
                        },
                        UserInput::LocalImage { path } => {
                            let ghost before = images@;
                            images.push(path.clone());
                            assert(texts(images@) =~= texts(before).push(path@));
                        },
                    }
                    i += 1;
                }
                assert(items@.take(items.len() as int) =~= items@);
                (join(&prompt_parts, "\n\n"), images)
            },
        }
    }

    /// What one turn asks of the agent: the prompt and the images of the
    /// input, the session id where the conversation has one, the settings of
    /// the client and of the conversation, and what belongs to this turn
    /// alone: the file that holds the output schema, and the handle by which
    /// the turn is cancelled. Without images the request has no image list.
    pub fn exec_args(
        &self,
        input: &Input,
        output_schema_file: Option<String>,
        cancel: Option<tokio_util::sync::CancellationToken>,
    ) -> (r: CodexExecArgs)
        ensures
            r.input@ == prompt_of(*input),
            texts_of(r.images) == images_of(*input),
            r.images is Some <==> images_of(*input).len() > 0,
            text_of(r.base_url) == text_of(self.client_options().base_url),
            text_of(r.api_key) == text_of(self.client_options().api_key),
            text_of(r.thread_id) == self.session_id(),
            text_of(r.model) == text_of(self.settings().model),
            r.sandbox_mode == self.settings().sandbox_mode,
            text_of(r.working_directory) == text_of(self.settings().working_directory),
            texts_of(r.additional_directories) == texts_of(
                self.settings().additional_directories,
            ),
            r.additional_directories is Some <==> self.settings().additional_directories is Some,
            r.skip_git_repo_check == self.settings().skip_git_repo_check,
            r.output_schema_file == output_schema_file,
            r.model_reasoning_effort == self.settings().model_reasoning_effort,
            r.cancel == cancel,
            r.network_access_enabled == self.settings().network_access_enabled,
            r.web_search_mode == self.settings().web_search_mode,
            r.web_search_enabled == self.settings().web_search_enabled,
            r.approval_policy == self.settings().approval_policy,
    {
        let (prompt, images) = Self::normalize_input(input);
        CodexExecArgs {
            input: prompt,
            base_url: copy_of(&self.options.base_url),
            api_key: copy_of(&self.options.api_key),
            thread_id: self.id(),
            images: if images.len() == 0 {
                None
            } else {
                Some(images)
            },
            model: copy_of(&self.thread_options.model),
            sandbox_mode: self.thread_options.sandbox_mode,
            working_directory: copy_of(&self.thread_options.working_directory),
            additional_directories: match &self.thread_options.additional_directories {
                Some(list) => Some(copy_of_list(list)),
                None => None,
            },
            skip_git_repo_check: self.thread_options.skip_git_repo_check,
            output_schema_file,
            model_reasoning_effort: self.thread_options.model_reasoning_effort,
            cancel,
            network_access_enabled: self.thread_options.network_access_enabled,
            web_search_mode: self.thread_options.web_search_mode,
            web_search_enabled: self.thread_options.web_search_enabled,
            approval_policy: self.thread_options.approval_policy,
        }
    }

    /// Reads one line of the agent's output as the event stream does: the
    /// line becomes an event, or fails with `InvalidEvent` and the line; the
    /// id of a `ThreadStarted` event becomes the session id.
    pub fn observe_line(&mut self, line: &str) -> (r: Result<ThreadEvent, CodexError>)
        ensures
            match line_outcome(line@, parsed_json(line@)) {
                Ok(event) => {
                    &&& r matches Ok(read)
                    &&& read@ == event
                    &&& final(self).session_id() == match event {
                        EventModel::ThreadStarted { thread_id } => Some(thread_id),
                        _ => old(self).session_id(),
                    }
                },
                Err(raw) => {
                    &&& r matches Err(CodexError::InvalidEvent(carried))
                    &&& carried@ == raw
                    &&& final(self).session_id() == old(self).session_id()
                },
            },
            final(self).settings() == old(self).settings(),
            final(self).client_options() == old(self).client_options(),
            final(self).command_builder() == old(self).command_builder(),
    {
        match ThreadEvent::from_parsed_line(line, parse_json(line)) {
            Ok(event) => {
                self.observe_event(&event);
                Ok(event)
            },
            Err(e) => Err(e),
        }
    }

    /// Takes in the events of one turn, in order: learns the session id from
    /// them and adds them up to the turn.
    ///
    /// No event is read after the first `TurnFailed`. Such an event makes the
    /// whole turn the failure `TurnFailed` with its message, whatever was
    /// gathered before. Else the turn holds the completed items in order, the
    /// text of the last completed agent message, and the usage last reported.
    pub fn run_events(&mut self, events: Vec<ThreadEvent>) -> (r: Result<Turn, CodexError>)
        ensures
            is_outcome_of(r, events@),
            final(self).session_id() == session_after(
                old(self).session_id(),
                consumed(events@),
            ),
            final(self).settings() == old(self).settings(),
            final(self).client_options() == old(self).client_options(),
            final(self).command_builder() == old(self).command_builder(),
    {
        let mut progress = TurnProgress::new();
        let ghost all = events@;
        let ghost mut seen: Seq<ThreadEvent> = Seq::empty();
        for event in it: events
            invariant
                it.seq() == all,
                seen == all.take(it.index()),
                first_failure(seen) is None,
                consumed(seen) == seen,
                progress.holds(seen),
                self.session_id() == session_after(old(self).session_id(), seen),
                self.settings() == old(self).settings(),
                self.client_options() == old(self).client_options(),
                self.command_builder() == old(self).command_builder(),
        {
            proof {
                let now = all.take(it.index() + 1);
                assert(now.drop_last() =~= seen);
                assert(now.last() == event);
                assert(now =~= seen.push(event));
                seen = now;
            }
            self.observe_event(&event);
            match progress.observe(event) {
                Ok(()) => {},
                Err(e) => {
                    proof {
                        lemma_failure_ends_the_turn(all, seen.len() as int);
                    }
                    return Err(e);
                },
            }
        }
        assert(all.take(all.len() as int) =~= all);
        Ok(progress.finish())
    }

    /// The event stream for a line stream: what is handed out, outcome by
    /// outcome, when the lines of one turn are read in order.
    ///
    /// Each line becomes the event that it writes, and the id of a
    /// `ThreadStarted` event becomes the session id. The stream ends with the
    /// first failure: a failure of the line stream, handed on as it is, or
    /// `InvalidEvent` for a line that writes no event. No line is skipped and
    /// none is read after a failure.
    pub fn event_stream(&mut self, lines: Vec<Result<String, CodexError>>) -> (r: Vec<
        Result<ThreadEvent, CodexError>,
    >)
        ensures
            r@.len() <= lines@.len(),
            forall|i: int|
                0 <= i < r@.len() ==> is_handed_out_for(#[trigger] r@[i], lines@[i]),
            forall|i: int| 0 <= i < r@.len() - 1 ==> !ends_event_stream(#[trigger] lines@[i]),
            r@.len() < lines@.len() ==> r@.len() > 0 && ends_event_stream(lines@[r@.len() - 1]),
            final(self).session_id() == session_after(old(self).session_id(), events_among(r@)),
            final(self).settings() == old(self).settings(),
            final(self).client_options() == old(self).client_options(),
            final(self).command_builder() == old(self).command_builder(),
    {
        let mut handed: Vec<Result<ThreadEvent, CodexError>> = Vec::new();
        let ghost all = lines@;
        for line in it: lines
            invariant
                it.seq() == all,
                handed@.len() == it.index(),
                forall|i: int|
                    0 <= i < handed@.len() ==> is_handed_out_for(#[trigger] handed@[i], all[i]),
                forall|i: int| 0 <= i < handed@.len() ==> !ends_event_stream(#[trigger] all[i]),
                self.session_id() == session_after(
                    old(self).session_id(),
                    events_among(handed@),
                ),
                self.settings() == old(self).settings(),
                self.client_options() == old(self).client_options(),
                self.command_builder() == old(self).command_builder(),
        {
            let ghost before = handed@;
            let outcome = match line {
                Ok(text) => self.observe_line(text.as_str()),
                Err(e) => Err(e),
            };
            let stop = outcome.is_err();
            handed.push(outcome);
            proof {
                assert(handed@.drop_last() =~= before);
                if let Ok(event) = handed@.last() {
                    let events = events_among(before);
                    assert(events_among(handed@) == events.push(event));
                    assert(events.push(event).drop_last() =~= events);
                }
            }
            if stop {
                return handed;
            }
        }
        handed
    }

    /// Takes in what the event stream of one turn hands out, in order: events,
    /// or a failure in place of an event.
    ///
    /// The events before the first failure of the stream are taken in as
    /// `run_events` takes them in. Where they hold no `TurnFailed`, the
    /// failure of the stream, if there is one, is returned as it is.
    pub fn run_stream(&mut self, outcomes: Vec<Result<ThreadEvent, CodexError>>) -> (r: Result<
        Turn,
        CodexError,
    >)
        ensures
            ({
                let events = events_before_failure(outcomes@, outcomes@.len());
                let failure = stream_failure(outcomes@, outcomes@.len());
                &&& first_failure(events) is Some || failure is None ==> is_outcome_of(r, events)
                &&& first_failure(events) is None && failure is Some ==> r == Err::<
                    Turn,
                    CodexError,
                >(failure->0)
                &&& final(self).session_id() == session_after(
                    old(self).session_id(),
                    consumed(events),
                )
            }),
            final(self).settings() == old(self).settings(),
            final(self).client_options() == old(self).client_options(),
            final(self).command_builder() == old(self).command_builder(),
    {
        let mut events: Vec<ThreadEvent> = Vec::new();
        let mut failure: Option<CodexError> = None;
        let ghost all = outcomes@;
        for outcome in it: outcomes
            invariant
                it.seq() == all,
                events@ == events_before_failure(all, it.index() as nat),
                failure == stream_failure(all, it.index() as nat),
        {
            if failure.is_none() {
                match outcome {
                    Ok(event) => events.push(event),
                    Err(e) => {
                        failure = Some(e);
                    },
                }
            }
        }
        match self.run_events(events) {
            Ok(turn) => match failure {
                Some(e) => Err(e),
                None => Ok(turn),
            },
            Err(e) => Err(e),
        }
    }

    /// The name of an event's kind, as the agent writes it.
    pub fn event_type(event: &ThreadEvent) -> (r: &'static str)
        ensures
            r@ == match event {
                ThreadEvent::ThreadStarted { .. } => "thread.started"@,
                ThreadEvent::TurnStarted => "turn.started"@,
                ThreadEvent::TurnCompleted { .. } => "turn.completed"@,
                ThreadEvent::TurnFailed { .. } => "turn.failed"@,
                ThreadEvent::ItemStarted { .. } => "item.started"@,
                ThreadEvent::ItemUpdated { .. } => "item.updated"@,
                ThreadEvent::ItemCompleted { .. } => "item.completed"@,
                ThreadEvent::ThreadErrorEvent { .. } => "error"@,
            },
    {
        match event {
            ThreadEvent::ThreadStarted { .. } => "thread.started",
            ThreadEvent::TurnStarted => "turn.started",
            ThreadEvent::TurnCompleted { .. } => "turn.completed",
            ThreadEvent::TurnFailed { .. } => "turn.failed",
            ThreadEvent::ItemStarted { .. } => "item.started",
            ThreadEvent::ItemUpdated { .. } => "item.updated",
            ThreadEvent::ItemCompleted { .. } => "item.completed",
            ThreadEvent::ThreadErrorEvent { .. } => "error",
        }
    }

    /// Takes note of an event: a `ThreadStarted` event's id becomes the
    /// session id, whatever it was; any other event leaves it.
    pub fn observe_event(&mut self, event: &ThreadEvent)
        ensures
            final(self).session_id() == match *event {
                ThreadEvent::ThreadStarted { thread_id } => Some(thread_id@),
                _ => old(self).session_id(),
            },
            final(self).settings() == old(self).settings(),
            final(self).client_options() == old(self).client_options(),
            final(self).command_builder() == old(self).command_builder(),
    {
        if let ThreadEvent::ThreadStarted { thread_id } = event {
            self.id = Some(thread_id.clone());
        }
    }
}

} // verus!
