//! What one turn is run with.

use crate::error::CodexError;
use crate::json::JsonValue;
use vstd::prelude::*;

verus! {

/// The settings of one turn.
#[derive(Clone, Debug)]
pub struct TurnOptions {
    /// The JSON schema that the agent's final answer must follow.
    pub output_schema: Option<JsonValue>,
    /// The handle by which the caller cancels the turn.
    pub cancel: Option<tokio_util::sync::CancellationToken>,
}

impl Default for TurnOptions {
    /// Nothing is set.
    fn default() -> (r: Self)
        ensures
            r.output_schema is None,
            r.cancel is None,
    {
        TurnOptions { output_schema: None, cancel: None }
    }
}

/// The schema that is to be written out for the agent, if there is one. A
/// schema that is not an object is refused with `InvalidOutputSchema`.
pub fn checked_output_schema(schema: Option<&JsonValue>) -> (r: Result<
    Option<&JsonValue>,
    CodexError,
>)
    ensures
        match schema {
            None => r matches Ok(None),
            Some(schema) => if schema@ is Object {
                r matches Ok(Some(checked)) && checked == schema
            } else {
                r matches Err(CodexError::InvalidOutputSchema)
            },
        },
{
    match schema {
        None => Ok(None),
        Some(schema) => if schema.is_object() {
            Ok(Some(schema))
        } else {
            Err(CodexError::InvalidOutputSchema)
        },
    }
}

impl TurnOptions {
    /// The schema of this turn that is to be written out for the agent, if it
    /// has one. A schema that is not an object is refused.
    pub fn checked_output_schema(&self) -> (r: Result<Option<&JsonValue>, CodexError>)
        ensures
            match self.output_schema {
                None => r matches Ok(None),
                Some(schema) => if schema@ is Object {
                    r matches Ok(Some(checked)) && *checked == schema
                } else {
                    r matches Err(CodexError::InvalidOutputSchema)
                },
            },
    {
        checked_output_schema(self.output_schema.as_ref())
    }
}

} // verus!
