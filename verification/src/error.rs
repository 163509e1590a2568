//! The failures that the library reports.

use vstd::prelude::*;

verus! {

/// `std::io::Error`, carried through as it is.
#[verifier::external_type_specification]
#[verifier::external_body]
pub struct ExIoError(std::io::Error);

/// `serde_json::Error`, carried through as it is.
#[verifier::external_type_specification]
#[verifier::external_body]
pub struct ExJsonError(serde_json::Error);

/// Everything that can go wrong while a turn is prepared, run or read.
#[derive(Debug)]
pub enum CodexError {
    /// No agent program is known for this platform: its name, and the detail.
    UnsupportedPlatform(String, String),
    /// The configuration overrides are not an object.
    InvalidConfigRoot,
    /// A configuration override has an empty key.
    InvalidConfigKey,
    /// The number at this path is not finite.
    InvalidConfigNumber(String),
    /// The value at this path is `null` where a value is needed. The library
    /// itself prunes every `null` and does not report this.
    InvalidConfigNull(String),
    /// The value at this path, of the kind named second, cannot be written.
    InvalidConfigValue(String, String),
    /// The output schema is not an object.
    InvalidOutputSchema,
    /// This line of output is no event.
    InvalidEvent(String),
    /// The process ended without success: how it ended, and what it wrote as diagnostics.
    ExecFailed(String, String),
    /// The turn was cancelled.
    Aborted,
    /// The agent reported that the turn failed, with this message.
    TurnFailed(String),
    /// The named pipe of the child process is not there.
    MissingChildStream(&'static str),
    /// Reading from or writing to the process or a file failed.
    Io(std::io::Error),
    /// JSON could not be written or read.
    Json(serde_json::Error),
}

/// What a [`CodexError`] says, over sequences. Of a failure that comes from
/// outside the library only its kind is kept.
pub enum ErrorModel {
    UnsupportedPlatform(Seq<char>, Seq<char>),
    InvalidConfigRoot,
    InvalidConfigKey,
    InvalidConfigNumber(Seq<char>),
    InvalidConfigNull(Seq<char>),
    InvalidConfigValue(Seq<char>, Seq<char>),
    InvalidOutputSchema,
    InvalidEvent(Seq<char>),
    ExecFailed(Seq<char>, Seq<char>),
    Aborted,
    TurnFailed(Seq<char>),
    MissingChildStream(Seq<char>),
    Io,
    Json,
}

impl View for CodexError {
    type V = ErrorModel;

    open spec fn view(&self) -> ErrorModel {
        match self {
            CodexError::UnsupportedPlatform(a, b) => ErrorModel::UnsupportedPlatform(a@, b@),
            CodexError::InvalidConfigRoot => ErrorModel::InvalidConfigRoot,
            CodexError::InvalidConfigKey => ErrorModel::InvalidConfigKey,
            CodexError::InvalidConfigNumber(path) => ErrorModel::InvalidConfigNumber(path@),
            CodexError::InvalidConfigNull(path) => ErrorModel::InvalidConfigNull(path@),
            CodexError::InvalidConfigValue(path, kind) => ErrorModel::InvalidConfigValue(
                path@,
                kind@,
            ),
            CodexError::InvalidOutputSchema => ErrorModel::InvalidOutputSchema,
            CodexError::InvalidEvent(line) => ErrorModel::InvalidEvent(line@),
            CodexError::ExecFailed(detail, diagnostics) => ErrorModel::ExecFailed(
                detail@,
                diagnostics@,
            ),
            CodexError::Aborted => ErrorModel::Aborted,
            CodexError::TurnFailed(message) => ErrorModel::TurnFailed(message@),
            CodexError::MissingChildStream(name) => ErrorModel::MissingChildStream(name@),
            CodexError::Io(_) => ErrorModel::Io,
            CodexError::Json(_) => ErrorModel::Json,
        }
    }
}

} // verus!
