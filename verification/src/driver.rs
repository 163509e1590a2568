//! The life of the agent process during one turn, as a state machine.
//!
//! The caller owns the process and does the waiting: it performs the action
//! that a step asks for and reports what happened as the next event. The
//! decisions are made here: when lines are raced against cancellation and the
//! poll timer, when they are read one after another, and how the turn ends.

use crate::error::{CodexError, ErrorModel};
use crate::text::{integer_text, push_integer};
use vstd::prelude::*;

verus! {

/// How a process ended: whether with success, and its exit code where it has
/// one (it has none where a signal ended it).
#[derive(Clone, Copy, Debug, PartialEq, Eq, Structural)]
pub struct ProcessExit {
    pub success: bool,
    pub code: Option<i32>,
}

/// Where the turn stands.
#[derive(Clone, Copy, Debug, PartialEq, Eq, Structural)]
pub enum DriverState {
    /// Nothing has happened yet; no process exists.
    Idle,
    /// The process is being started and fed its input.
    Starting,
    /// The process runs and has not been seen to exit: each wait is for the
    /// first of cancellation, the next line, and a tick of the poll timer.
    Racing,
    /// The process has been seen to exit: the lines that are left are read one
    /// after another.
    Draining { exit: ProcessExit },
    /// The output has ended: the exit, where it is not known yet, and the
    /// diagnostics are waited for.
    Closing { exit: Option<ProcessExit> },
    /// The turn is over.
    Finished,
}

/// What the caller reports.
#[derive(Debug)]
pub enum DriverEvent {
    /// The turn is asked for; whether cancellation has been requested already.
    Begin { cancelled: bool },
    /// The process was started, its input written and its input pipe closed,
    /// and the reader of its diagnostics set going.
    Spawned,
    /// Cancellation was requested.
    Cancelled,
    /// The process wrote this line.
    Line(String),
    /// The output of the process has ended.
    EndOfOutput,
    /// The poll timer ticked.
    Tick,
    /// The check that does not block found the process running (`None`) or
    /// ended.
    ExitPolled(Option<ProcessExit>),
    /// The process was waited for and has ended.
    Exited(ProcessExit),
    /// The reader of the diagnostics has finished with these bytes; with none
    /// where it could not be joined.
    Diagnostics(Vec<u8>),
    /// What was asked for could not be done: starting or feeding the process,
    /// reading a line, or asking for the exit failed with this error.
    Failed(CodexError),
}

/// What the caller is to do next.
#[derive(Debug)]
pub enum DriverAction {
    /// Start the process with its three pipes, write the whole input, close the
    /// input pipe, set the reader of the diagnostics going; report `Spawned`.
    Spawn,
    /// Wait for the first of cancellation, the next line and the next tick;
    /// report `Cancelled`, `Line`, `EndOfOutput` or `Tick`.
    Race,
    /// Check without blocking whether the process has ended; report
    /// `ExitPolled`.
    PollExit,
    /// Wait for the next line alone; report `Line` or `EndOfOutput`.
    ReadLine,
    /// Wait until the process has ended; report `Exited`.
    WaitExit,
    /// Wait for the reader of the diagnostics; report `Diagnostics`.
    JoinDiagnostics,
    /// Kill the process, if one was started, and end the stream with this
    /// error.
    Kill(CodexError),
    /// End the stream: without an error, or with this one.
    Finish(Result<(), CodexError>),
    /// The event does not fit the state; nothing changes.
    Ignore,
}

/// What a [`DriverAction`] says.
pub enum ActionModel {
    Spawn,
    Race,
    PollExit,
    ReadLine,
    WaitExit,
    JoinDiagnostics,
    Kill(ErrorModel),
    Finish(Result<(), ErrorModel>),
    Ignore,
}

impl View for DriverAction {
    type V = ActionModel;

    open spec fn view(&self) -> ActionModel {
        match self {
            DriverAction::Spawn => ActionModel::Spawn,
            DriverAction::Race => ActionModel::Race,
            DriverAction::PollExit => ActionModel::PollExit,
            DriverAction::ReadLine => ActionModel::ReadLine,
            DriverAction::WaitExit => ActionModel::WaitExit,
            DriverAction::JoinDiagnostics => ActionModel::JoinDiagnostics,
            DriverAction::Kill(e) => ActionModel::Kill(e@),
            DriverAction::Finish(Ok(())) => ActionModel::Finish(Ok(())),
            DriverAction::Finish(Err(e)) => ActionModel::Finish(Err(e@)),
            DriverAction::Ignore => ActionModel::Ignore,
        }
    }
}

/// One step of the turn: the state after the event, the line to hand on
/// before anything else, and what to do then.
#[derive(Debug)]
pub struct DriverStep {
    pub state: DriverState,
    pub line: Option<String>,
    pub action: DriverAction,
}

/// What `String::from_utf8_lossy` makes of the bytes: their text, with the
/// replacement character in place of what is not UTF-8.
pub uninterp spec fn lossy_text(bytes: Seq<u8>) -> Seq<char>;

/// Calls `String::from_utf8_lossy` of the standard library and copies what it
/// gives into a string. Bytes that are UTF-8 give the text that they encode.
#[verifier::external_body]
fn text_from_bytes(bytes: &Vec<u8>) -> (r: String)
    ensures
        r@ == lossy_text(bytes@),
        vstd::utf8::valid_utf8(bytes@) ==> r@ == vstd::utf8::decode_utf8(bytes@),
{
    String::from_utf8_lossy(bytes).into_owned()
}

/// The diagnostics as text: what the bytes encode where they are UTF-8, else
/// what `String::from_utf8_lossy` makes of them.
pub open spec fn diagnostics_text(bytes: Seq<u8>) -> Seq<char> {
    if vstd::utf8::valid_utf8(bytes) {
        vstd::utf8::decode_utf8(bytes)
    } else {
        lossy_text(bytes)
    }
}

/// How the end of the process is worded in a failure: `code N` where it has
/// an exit code, else `signal`.
pub open spec fn exit_detail(exit: ProcessExit) -> Seq<char> {
    match exit.code {
        Some(code) => "code "@ + integer_text(code as int),
        None => "signal"@,
    }
}

/// How the stream ends once the process has ended and its diagnostics are in:
/// without an error after success, else with `ExecFailed`, which carries how
/// the process ended and the diagnostics as text.
pub open spec fn exit_outcome_of(exit: ProcessExit, diagnostics: Seq<u8>) -> Result<
    (),
    ErrorModel,
> {
    if exit.success {
        Ok(())
    } else {
        Err(ErrorModel::ExecFailed(exit_detail(exit), diagnostics_text(diagnostics)))
    }
}

/// The state after an event. An event that does not fit the state leaves it.
pub open spec fn next_state(state: DriverState, event: DriverEvent) -> DriverState {
    match (state, event) {
        (DriverState::Idle, DriverEvent::Begin { cancelled }) => if cancelled {
            DriverState::Finished
        } else {
            DriverState::Starting
        },
        (DriverState::Starting, DriverEvent::Spawned) => DriverState::Racing,
        (DriverState::Racing, DriverEvent::Cancelled) => DriverState::Finished,
        (DriverState::Racing, DriverEvent::EndOfOutput) => DriverState::Closing { exit: None },
        (DriverState::Racing, DriverEvent::ExitPolled(Some(exit))) => DriverState::Draining {
            exit,
        },
        (DriverState::Draining { exit }, DriverEvent::EndOfOutput) => DriverState::Closing {
            exit: Some(exit),
        },
        (DriverState::Closing { exit: None }, DriverEvent::Exited(exit)) => DriverState::Closing {
            exit: Some(exit),
        },
        (DriverState::Closing { exit: Some(_) }, DriverEvent::Diagnostics(_)) => {
            DriverState::Finished
        },
        (DriverState::Idle, DriverEvent::Failed(_)) => state,
        (_, DriverEvent::Failed(_)) => DriverState::Finished,
        _ => state,
    }
}

/// The line that a step hands on: the line of the event, while the process
/// runs or its output is drained.
pub open spec fn handed_on(state: DriverState, event: DriverEvent) -> Option<String> {
    match (state, event) {
        (DriverState::Racing, DriverEvent::Line(line)) => Some(line),
        (DriverState::Draining { .. }, DriverEvent::Line(line)) => Some(line),
        _ => None,
    }
}

/// What is to be done after an event.
///
/// A failure ends the turn with its error, wherever a turn is under way. The
/// process is killed first unless it is known to have ended.
pub open spec fn next_action(state: DriverState, event: DriverEvent) -> ActionModel {
    match (state, event) {
        (DriverState::Idle, DriverEvent::Begin { cancelled }) => if cancelled {
            ActionModel::Finish(Err(ErrorModel::Aborted))
        } else {
            ActionModel::Spawn
        },
        (DriverState::Starting, DriverEvent::Spawned) => ActionModel::Race,
        (DriverState::Racing, DriverEvent::Cancelled) => ActionModel::Kill(ErrorModel::Aborted),
        (DriverState::Racing, DriverEvent::Line(_)) => ActionModel::Race,
        (DriverState::Racing, DriverEvent::EndOfOutput) => ActionModel::WaitExit,
        (DriverState::Racing, DriverEvent::Tick) => ActionModel::PollExit,
        (DriverState::Racing, DriverEvent::ExitPolled(None)) => ActionModel::Race,
        (DriverState::Racing, DriverEvent::ExitPolled(Some(_))) => ActionModel::ReadLine,
        (DriverState::Draining { .. }, DriverEvent::Line(_)) => ActionModel::ReadLine,
        (DriverState::Draining { .. }, DriverEvent::EndOfOutput) => ActionModel::JoinDiagnostics,
        (DriverState::Closing { exit: None }, DriverEvent::Exited(_)) => {
            ActionModel::JoinDiagnostics
        },
        (DriverState::Closing { exit: Some(exit) }, DriverEvent::Diagnostics(bytes)) => {
            ActionModel::Finish(exit_outcome_of(exit, bytes@))
        },
        (DriverState::Starting, DriverEvent::Failed(e)) => ActionModel::Kill(e@),
        (DriverState::Racing, DriverEvent::Failed(e)) => ActionModel::Kill(e@),
        (DriverState::Closing { exit: None }, DriverEvent::Failed(e)) => ActionModel::Kill(e@),
        (DriverState::Draining { .. }, DriverEvent::Failed(e)) => ActionModel::Finish(Err(e@)),
        (DriverState::Closing { exit: Some(_) }, DriverEvent::Failed(e)) => ActionModel::Finish(
            Err(e@),
        ),
        _ => ActionModel::Ignore,
    }
}

/// What is to be done after a failure was reported, with the failure itself:
/// it is handed on as it is, after the process is killed unless it is known
/// to have ended. Where no turn is under way the failure is passed over.
pub open spec fn action_after_failure(state: DriverState, failure: CodexError) -> DriverAction {
    match state {
        DriverState::Starting => DriverAction::Kill(failure),
        DriverState::Racing => DriverAction::Kill(failure),
        DriverState::Closing { exit: None } => DriverAction::Kill(failure),
        DriverState::Draining { .. } => DriverAction::Finish(Err(failure)),
        DriverState::Closing { exit: Some(_) } => DriverAction::Finish(Err(failure)),
        _ => DriverAction::Ignore,
    }
}

/// Where the first `n` reported events leave a turn that began idle.
pub open spec fn state_after(events: Seq<DriverEvent>, n: nat) -> DriverState
    decreases n,
{
    if n == 0 || n > events.len() {
        DriverState::Idle
    } else {
        next_state(state_after(events, (n - 1) as nat), events[n - 1])
    }
}

/// The lines that are handed on while the first `n` events are taken, in
/// order.
pub open spec fn lines_handed_on(events: Seq<DriverEvent>, n: nat) -> Seq<String>
    decreases n,
{
    if n == 0 || n > events.len() {
        Seq::empty()
    } else {
        let before = lines_handed_on(events, (n - 1) as nat);
        match handed_on(state_after(events, (n - 1) as nat), events[n - 1]) {
            Some(line) => before.push(line),
            None => before,
        }
    }
}

/// How the stream of lines ends, where it ends while the first `n` events are
/// taken: without an error, or with the error of the step that ends the turn.
pub open spec fn stream_end(events: Seq<DriverEvent>, n: nat) -> Option<Result<(), ErrorModel>>
    decreases n,
{
    if n == 0 || n > events.len() {
        None
    } else {
        match stream_end(events, (n - 1) as nat) {
            Some(end) => Some(end),
            None => match next_action(state_after(events, (n - 1) as nat), events[n - 1]) {
                ActionModel::Kill(e) => Some(Err(e)),
                ActionModel::Finish(end) => Some(end),
                _ => None,
            },
        }
    }
}

/// The failure that was reported and ended the stream of lines, where a
/// reported failure ended it while the first `n` events were taken.
pub open spec fn reported_end(events: Seq<DriverEvent>, n: nat) -> Option<CodexError>
    decreases n,
{
    if n == 0 || n > events.len() {
        None
    } else if stream_end(events, (n - 1) as nat) is Some {
        reported_end(events, (n - 1) as nat)
    } else {
        match (events[n - 1], stream_end(events, n)) {
            (DriverEvent::Failed(failure), Some(_)) => Some(failure),
            _ => None,
        }
    }
}

/// Once the stream of lines has ended, the turn is over.
pub proof fn lemma_ended_stream_is_finished(events: Seq<DriverEvent>, n: nat)
    requires
        n <= events.len(),
    ensures
        stream_end(events, n) is Some ==> state_after(events, n) == DriverState::Finished,
    decreases n,
{
    if n > 0 {
        lemma_ended_stream_is_finished(events, (n - 1) as nat);
    }
}

/// How the stream ends once the process has ended and its diagnostics are in.
pub fn exit_outcome(exit: ProcessExit, diagnostics: &Vec<u8>) -> (r: Result<(), CodexError>)
    ensures
        match r {
            Ok(()) => exit_outcome_of(exit, diagnostics@) == Ok::<(), ErrorModel>(()),
            Err(e) => exit_outcome_of(exit, diagnostics@) == Err::<(), ErrorModel>(e@),
        },
{
    if exit.success {
        return Ok(());
    }
    let detail = match exit.code {
        Some(code) => {
            let mut detail = "code ".to_owned();
            push_integer(&mut detail, code as i64);
            detail
        },
        None => "signal".to_owned(),
    };
    Err(CodexError::ExecFailed(detail, text_from_bytes(diagnostics)))
}

impl DriverState {
    /// The state in which a turn begins.
    pub fn new() -> (r: Self)
        ensures
            r == DriverState::Idle,
    {
        DriverState::Idle
    }

    /// Whether the turn is over.
    pub fn is_finished(&self) -> (r: bool)
        ensures
            r == (*self == DriverState::Finished),
    {
        match self {
            DriverState::Finished => true,
            _ => false,
        }
    }

    /// The stream of lines that a whole turn gives, from the events that are
    /// reported during it, in order: the lines that are handed on, and after
    /// them the error that the turn ends with, if it ends with one.
    pub fn line_stream(events: Vec<DriverEvent>) -> (r: Vec<Result<String, CodexError>>)
        ensures
            ({
                let lines = lines_handed_on(events@, events@.len());
                &&& r@.len() >= lines.len()
                &&& forall|i: int|
                    0 <= i < lines.len() ==> #[trigger] r@[i] == Ok::<String, CodexError>(
                        lines[i],
                    )
                &&& match stream_end(events@, events@.len()) {
                    Some(Err(e)) => r@.len() == lines.len() + 1 && (r@.last() matches Err(
                        failure,
                    ) && failure@ == e),
                    _ => r@.len() == lines.len(),
                }
                &&& reported_end(events@, events@.len()) matches Some(failure) ==> r@.len() > 0
                    && r@.last() == Err::<String, CodexError>(failure)
            }),
    {
        let mut state = DriverState::new();
        let mut handed: Vec<Result<String, CodexError>> = Vec::new();
        let ghost all = events@;
        for event in it: events
            invariant
                it.seq() == all,
                state == state_after(all, it.index() as nat),
                ({
                    let lines = lines_handed_on(all, it.index() as nat);
                    &&& handed@.len() >= lines.len()
                    &&& forall|i: int|
                        0 <= i < lines.len() ==> #[trigger] handed@[i] == Ok::<
                            String,
                            CodexError,
                        >(lines[i])
                    &&& match stream_end(all, it.index() as nat) {
                        Some(Err(e)) => handed@.len() == lines.len() + 1 && (
                        handed@.last() matches Err(failure) && failure@ == e),
                        _ => handed@.len() == lines.len(),
                    }
                    &&& reported_end(all, it.index() as nat) matches Some(failure)
                        ==> handed@.len() > 0 && handed@.last() == Err::<String, CodexError>(
                        failure,
                    )
                }),
        {
            proof {
                lemma_ended_stream_is_finished(all, it.index() as nat);
            }
            let step = state.on_event(event);
            state = step.state;
            if let Some(line) = step.line {
                handed.push(Ok(line));
            }
            match step.action {
                DriverAction::Kill(e) => handed.push(Err(e)),
                DriverAction::Finish(Err(e)) => handed.push(Err(e)),
                _ => {},
            }
        }
        handed
    }

    /// Takes one event: says where the turn stands after it, which line is to
    /// be handed on, and what is to be done next. A failure that was reported
    /// is handed on as the very value that was reported.
    pub fn on_event(self, event: DriverEvent) -> (r: DriverStep)
        ensures
            r.state == next_state(self, event),
            r.line == handed_on(self, event),
            r.action@ == next_action(self, event),
            event matches DriverEvent::Failed(failure) ==> r.action == action_after_failure(
                self,
                failure,
            ),
    {
        match (self, event) {
            (DriverState::Idle, DriverEvent::Begin { cancelled }) => {
                if cancelled {
                    DriverStep {
                        state: DriverState::Finished,
                        line: None,
                        action: DriverAction::Finish(Err(CodexError::Aborted)),
                    }
                } else {
                    DriverStep {
                        state: DriverState::Starting,
                        line: None,
                        action: DriverAction::Spawn,
                    }
                }
            },
            (DriverState::Starting, DriverEvent::Spawned) => DriverStep {
                state: DriverState::Racing,
                line: None,
                action: DriverAction::Race,
            },
            (DriverState::Racing, DriverEvent::Cancelled) => DriverStep {
                state: DriverState::Finished,
                line: None,
                action: DriverAction::Kill(CodexError::Aborted),
            },
            (DriverState::Racing, DriverEvent::Line(line)) => DriverStep {
                state: DriverState::Racing,
                line: Some(line),
                action: DriverAction::Race,
            },
            (DriverState::Racing, DriverEvent::EndOfOutput) => DriverStep {
                state: DriverState::Closing { exit: None },
                line: None,
                action: DriverAction::WaitExit,
            },
            (DriverState::Racing, DriverEvent::Tick) => DriverStep {
                state: DriverState::Racing,
                line: None,
                action: DriverAction::PollExit,
            },
            (DriverState::Racing, DriverEvent::ExitPolled(None)) => DriverStep {
                state: DriverState::Racing,
                line: None,
                action: DriverAction::Race,
            },
            (DriverState::Racing, DriverEvent::ExitPolled(Some(exit))) => DriverStep {
                state: DriverState::Draining { exit },
                line: None,
                action: DriverAction::ReadLine,
            },
            (DriverState::Draining { exit }, DriverEvent::Line(line)) => DriverStep {
                state: DriverState::Draining { exit },
                line: Some(line),
                action: DriverAction::ReadLine,
            },
            (DriverState::Draining { exit }, DriverEvent::EndOfOutput) => DriverStep {
                state: DriverState::Closing { exit: Some(exit) },
                line: None,
                action: DriverAction::JoinDiagnostics,
            },
            (DriverState::Closing { exit: None }, DriverEvent::Exited(exit)) => DriverStep {
                state: DriverState::Closing { exit: Some(exit) },
                line: None,
                action: DriverAction::JoinDiagnostics,
            },
            (DriverState::Closing { exit: Some(exit) }, DriverEvent::Diagnostics(bytes)) => {
                DriverStep {
                    state: DriverState::Finished,
                    line: None,
                    action: DriverAction::Finish(exit_outcome(exit, &bytes)),
                }
            },
            (DriverState::Starting, DriverEvent::Failed(e)) => DriverStep {
                state: DriverState::Finished,
                line: None,
                action: DriverAction::Kill(e),
            },
            (DriverState::Racing, DriverEvent::Failed(e)) => DriverStep {
                state: DriverState::Finished,
                line: None,
                action: DriverAction::Kill(e),
            },
            (DriverState::Closing { exit: None }, DriverEvent::Failed(e)) => DriverStep {
                state: DriverState::Finished,
                line: None,
                action: DriverAction::Kill(e),
            },
            (DriverState::Draining { .. }, DriverEvent::Failed(e)) => DriverStep {
                state: DriverState::Finished,
                line: None,
                action: DriverAction::Finish(Err(e)),
            },
            (DriverState::Closing { exit: Some(_) }, DriverEvent::Failed(e)) => DriverStep {
                state: DriverState::Finished,
                line: None,
                action: DriverAction::Finish(Err(e)),
            },
            (state, _) => DriverStep { state, line: None, action: DriverAction::Ignore },
        }
    }
}

/// A turn that is cancelled before it begins ends at once with `Aborted`,
/// and no process is ever started for it: whatever is reported afterwards is
/// passed over.
pub proof fn lemma_cancelled_before_start(later: DriverEvent)
    ensures
        next_state(DriverState::Idle, DriverEvent::Begin { cancelled: true })
            == DriverState::Finished,
        next_action(DriverState::Idle, DriverEvent::Begin { cancelled: true })
            == ActionModel::Finish(Err(ErrorModel::Aborted)),
        next_state(DriverState::Finished, later) == DriverState::Finished,
        next_action(DriverState::Finished, later) == ActionModel::Ignore,
        handed_on(DriverState::Finished, later) is None,
{
}

/// A process is started in one case only: a turn begins that has not been
/// cancelled.
pub proof fn lemma_spawn_only_at_start(state: DriverState, event: DriverEvent)
    requires
        next_action(state, event) == ActionModel::Spawn,
    ensures
        state == DriverState::Idle,
        event == (DriverEvent::Begin { cancelled: false }),
{
}

/// Cancellation counts while lines are raced and nowhere else: there it ends
/// the turn, the process is killed and no line is handed on; in any other
/// state it is passed over.
pub proof fn lemma_cancellation(state: DriverState)
    ensures
        handed_on(state, DriverEvent::Cancelled) is None,
        state == DriverState::Racing ==> next_state(state, DriverEvent::Cancelled)
            == DriverState::Finished && next_action(state, DriverEvent::Cancelled)
            == ActionModel::Kill(ErrorModel::Aborted),
        state != DriverState::Racing ==> next_state(state, DriverEvent::Cancelled) == state
            && next_action(state, DriverEvent::Cancelled) == ActionModel::Ignore,
{
}

/// A failure of what was asked for ends the turn with that failure, in
/// whatever state a turn is under way, and no line is handed on with it.
pub proof fn lemma_failure_is_handed_on(state: DriverState, failure: CodexError)
    requires
        state != DriverState::Idle,
        state != DriverState::Finished,
    ensures
        next_state(state, DriverEvent::Failed(failure)) == DriverState::Finished,
        handed_on(state, DriverEvent::Failed(failure)) is None,
        next_action(state, DriverEvent::Failed(failure)) == ActionModel::Kill(failure@)
            || next_action(state, DriverEvent::Failed(failure)) == ActionModel::Finish(
            Err(failure@),
        ),
{
}

/// No turn ends with its process left running: the step that ends a turn
/// either finds that no process was ever started, or asks for the process to
/// be killed, or comes after the process has been seen to end.
pub proof fn lemma_process_is_accounted_for(state: DriverState, event: DriverEvent)
    requires
        state != DriverState::Finished,
        next_state(state, event) == DriverState::Finished,
    ensures
        ({
            ||| state == DriverState::Idle && next_action(state, event) == ActionModel::Finish(
                Err(ErrorModel::Aborted),
            )
            ||| next_action(state, event) is Kill
            ||| state is Draining && next_action(state, event) is Finish
            ||| state matches DriverState::Closing { exit: Some(_) } && next_action(state, event)
                is Finish
        }),
{
}

/// Once the process has been seen to end, nothing is raced any more: the lines
/// that are left are read one after another, each is handed on, and the end
/// of the output leads to the diagnostics.
pub proof fn lemma_draining_reads_in_sequence(exit: ProcessExit, event: DriverEvent)
    ensures
        next_action(DriverState::Draining { exit }, event) != ActionModel::Race,
        next_action(DriverState::Draining { exit }, event) != ActionModel::PollExit,
        event matches DriverEvent::Line(line) ==> handed_on(DriverState::Draining { exit }, event)
            == Some(line) && next_state(DriverState::Draining { exit }, event)
            == (DriverState::Draining { exit }) && next_action(
            DriverState::Draining { exit },
            event,
        ) == ActionModel::ReadLine,
        event is EndOfOutput ==> next_state(DriverState::Draining { exit }, event)
            == (DriverState::Closing { exit: Some(exit) }),
{
}

/// A clean exit ends the stream without an error, whatever the diagnostics;
/// any other exit ends it with `ExecFailed`.
pub proof fn lemma_exit_decides_the_outcome(exit: ProcessExit, diagnostics: Seq<u8>)
    ensures
        exit.success <==> exit_outcome_of(exit, diagnostics) is Ok,
        !exit.success ==> exit_outcome_of(exit, diagnostics) matches Err(
            ErrorModel::ExecFailed(_, _),
        ),
{
}

} // verus!
