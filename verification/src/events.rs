//! The events that the agent writes, one per line of its output.

use crate::error::CodexError;
use crate::items::{item_of, text_member, text_field, ItemModel, ThreadItem};
use crate::json::{parse_json, parsed_json, Json, JsonValue};
use crate::text::same_text;
use vstd::prelude::*;

verus! {

/// Why a turn failed.
#[derive(Clone, Debug, PartialEq)]
pub struct ThreadError {
    pub message: String,
}

/// The tokens that a turn has used.
#[derive(Clone, Copy, Debug, PartialEq, Eq, Structural)]
pub struct Usage {
    pub input_tokens: u64,
    pub cached_input_tokens: u64,
    pub output_tokens: u64,
}

/// One event of the agent's output.
#[derive(Clone, Debug, PartialEq)]
pub enum ThreadEvent {
    ThreadStarted { thread_id: String },
    TurnStarted,
    TurnCompleted { usage: Usage },
    TurnFailed { error: ThreadError },
    ItemStarted { item: ThreadItem },
    ItemUpdated { item: ThreadItem },
    ItemCompleted { item: ThreadItem },
    ThreadErrorEvent { message: String },
}

/// What a [`ThreadEvent`] says.
pub enum EventModel {
    ThreadStarted { thread_id: Seq<char> },
    TurnStarted,
    TurnCompleted { usage: Usage },
    TurnFailed { message: Seq<char> },
    ItemStarted { item: ItemModel },
    ItemUpdated { item: ItemModel },
    ItemCompleted { item: ItemModel },
    ThreadErrorEvent { message: Seq<char> },
}

impl View for ThreadEvent {
    type V = EventModel;

    open spec fn view(&self) -> EventModel {
        match self {
            ThreadEvent::ThreadStarted { thread_id } => EventModel::ThreadStarted {
                thread_id: thread_id@,
            },
            ThreadEvent::TurnStarted => EventModel::TurnStarted,
            ThreadEvent::TurnCompleted { usage } => EventModel::TurnCompleted { usage: *usage },
            ThreadEvent::TurnFailed { error } => EventModel::TurnFailed {
                message: error.message@,
            },
            ThreadEvent::ItemStarted { item } => EventModel::ItemStarted { item: item@ },
            ThreadEvent::ItemUpdated { item } => EventModel::ItemUpdated { item: item@ },
            ThreadEvent::ItemCompleted { item } => EventModel::ItemCompleted { item: item@ },
            ThreadEvent::ThreadErrorEvent { message } => EventModel::ThreadErrorEvent {
                message: message@,
            },
        }
    }
}

/// The count in the member with this key, if it is a whole number that a
/// `u64` holds.
pub open spec fn count_member(json: Json, key: Seq<char>) -> Option<u64> {
    match json.member(key) {
        Some(value) => match value.as_integer() {
            Some(count) if 0 <= count <= u64::MAX => Some(count as u64),
            _ => None,
        },
        None => None,
    }
}

/// The usage that a JSON value writes:
/// `{input_tokens, cached_input_tokens, output_tokens}`.
pub open spec fn usage_of(json: Json) -> Option<Usage> {
    match (
        count_member(json, "input_tokens"@),
        count_member(json, "cached_input_tokens"@),
        count_member(json, "output_tokens"@),
    ) {
        (Some(input_tokens), Some(cached_input_tokens), Some(output_tokens)) => Some(
            Usage { input_tokens, cached_input_tokens, output_tokens },
        ),
        _ => None,
    }
}

/// The member `usage` of a `turn.completed` event.
pub open spec fn turn_completed_of(json: Json) -> Option<EventModel> {
    match json.member("usage"@) {
        Some(value) => match usage_of(value) {
            Some(usage) => Some(EventModel::TurnCompleted { usage }),
            None => None,
        },
        None => None,
    }
}

/// The member `error` of a `turn.failed` event: `{message}`.
pub open spec fn turn_failed_of(json: Json) -> Option<EventModel> {
    match json.member("error"@) {
        Some(value) => match text_member(value, "message"@) {
            Some(message) => Some(EventModel::TurnFailed { message }),
            None => None,
        },
        None => None,
    }
}

/// The member `item` of an event that carries one.
pub open spec fn carried_item_of(json: Json) -> Option<ItemModel> {
    match json.member("item"@) {
        Some(value) => item_of(value),
        None => None,
    }
}

/// The event that a JSON value writes, if it writes one: an object whose
/// member `type` names one of the eight kinds, with that kind's members of the
/// right shape. Members that the kind does not know are passed over.
pub open spec fn event_of(json: Json) -> Option<EventModel> {
    match text_member(json, "type"@) {
        None => None,
        Some(tag) => if tag == "thread.started"@ {
            match text_member(json, "thread_id"@) {
                Some(thread_id) => Some(EventModel::ThreadStarted { thread_id }),
                None => None,
            }
        } else if tag == "turn.started"@ {
            Some(EventModel::TurnStarted)
        } else if tag == "turn.completed"@ {
            turn_completed_of(json)
        } else if tag == "turn.failed"@ {
            turn_failed_of(json)
        } else if tag == "item.started"@ {
            match carried_item_of(json) {
                Some(item) => Some(EventModel::ItemStarted { item }),
                None => None,
            }
        } else if tag == "item.updated"@ {
            match carried_item_of(json) {
                Some(item) => Some(EventModel::ItemUpdated { item }),
                None => None,
            }
        } else if tag == "item.completed"@ {
            match carried_item_of(json) {
                Some(item) => Some(EventModel::ItemCompleted { item }),
                None => None,
            }
        } else if tag == "error"@ {
            match text_member(json, "message"@) {
                Some(message) => Some(EventModel::ThreadErrorEvent { message }),
                None => None,
            }
        } else {
            None
        },
    }
}

/// What an event that may be missing says.
pub open spec fn event_view(event: Option<ThreadEvent>) -> Option<EventModel> {
    match event {
        Some(event) => Some(event@),
        None => None,
    }
}

/// What reading one line of output gives: the event that the line writes, or
/// the failure that carries the line.
pub open spec fn line_outcome(line: Seq<char>, tree: Option<Json>) -> Result<
    EventModel,
    Seq<char>,
> {
    match tree {
        Some(tree) => match event_of(tree) {
            Some(event) => Ok(event),
            None => Err(line),
        },
        None => Err(line),
    }
}

fn count_field(value: &JsonValue, key: &str) -> (r: Option<u64>)
    ensures
        r == count_member(value@, key@),
{
    value.get(key)?.as_u64()
}

fn usage(value: &JsonValue) -> (r: Option<Usage>)
    ensures
        r == usage_of(value@),
{
    let input_tokens = count_field(value, "input_tokens")?;
    let cached_input_tokens = count_field(value, "cached_input_tokens")?;
    let output_tokens = count_field(value, "output_tokens")?;
    Some(Usage { input_tokens, cached_input_tokens, output_tokens })
}

fn turn_completed(value: &JsonValue) -> (r: Option<ThreadEvent>)
    ensures
        event_view(r) == turn_completed_of(value@),
{
    let usage = usage(value.get("usage")?)?;
    Some(ThreadEvent::TurnCompleted { usage })
}

fn turn_failed(value: &JsonValue) -> (r: Option<ThreadEvent>)
    ensures
        event_view(r) == turn_failed_of(value@),
{
    let message = text_field(value.get("error")?, "message")?;
    Some(ThreadEvent::TurnFailed { error: ThreadError { message } })
}

fn carried_item(value: &JsonValue) -> (r: Option<ThreadItem>)
    ensures
        crate::items::item_view(r) == carried_item_of(value@),
{
    ThreadItem::from_json(value.get("item")?)
}

impl ThreadEvent {
    /// Reads an event from the JSON value that writes it.
    pub fn from_json(value: &JsonValue) -> (r: Option<ThreadEvent>)
        ensures
            event_view(r) == event_of(value@),
    {
        let tag = text_field(value, "type")?;
        let tag = tag.as_str();
        if same_text(tag, "thread.started") {
            let thread_id = text_field(value, "thread_id")?;
            Some(ThreadEvent::ThreadStarted { thread_id })
        } else if same_text(tag, "turn.started") {
            Some(ThreadEvent::TurnStarted)
        } else if same_text(tag, "turn.completed") {
            turn_completed(value)
        } else if same_text(tag, "turn.failed") {
            turn_failed(value)
        } else if same_text(tag, "item.started") {
            let item = carried_item(value)?;
            Some(ThreadEvent::ItemStarted { item })
        } else if same_text(tag, "item.updated") {
            let item = carried_item(value)?;
            Some(ThreadEvent::ItemUpdated { item })
        } else if same_text(tag, "item.completed") {
            let item = carried_item(value)?;
            Some(ThreadEvent::ItemCompleted { item })
        } else if same_text(tag, "error") {
            let message = text_field(value, "message")?;
            Some(ThreadEvent::ThreadErrorEvent { message })
        } else {
            None
        }
    }

    /// Decides what a line of output is, given what reading it as JSON gave:
    /// the event that the tree writes, or `InvalidEvent` with the line where
    /// there is no tree or the tree writes no event.
    pub fn from_parsed_line(line: &str, tree: Option<JsonValue>) -> (r: Result<
        ThreadEvent,
        CodexError,
    >)
        ensures
            match line_outcome(line@, crate::json::tree_view(tree)) {
                Ok(event) => r matches Ok(read) && read@ == event,
                Err(raw) => r matches Err(CodexError::InvalidEvent(carried)) && carried@ == raw,
            },
    {
        let event = match &tree {
            Some(tree) => ThreadEvent::from_json(tree),
            None => None,
        };
        match event {
            Some(event) => Ok(event),
            None => Err(CodexError::InvalidEvent(line.to_owned())),
        }
    }

    /// Reads one line of the agent's output. A line that is not one JSON
    /// document, or whose document writes no event, fails with `InvalidEvent`
    /// and the line. A line that writes one key twice is read with the value
    /// that it writes last.
    pub fn parse_line(line: &str) -> (r: Result<ThreadEvent, CodexError>)
        ensures
            match line_outcome(line@, parsed_json(line@)) {
                Ok(event) => r matches Ok(read) && read@ == event,
                Err(raw) => r matches Err(CodexError::InvalidEvent(carried)) && carried@ == raw,
            },
    {
        Self::from_parsed_line(line, parse_json(line))
    }
}

} // verus!
