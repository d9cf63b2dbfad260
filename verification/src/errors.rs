//! The error a tool call answers with.

use vstd::prelude::*;

verus! {

/// Whether the caller passed something wrong or the application failed.
#[derive(Clone, Copy, PartialEq, Eq, Debug)]
pub enum ToolErrorKind {
    InvalidParams,
    Internal,
}

/// A tool error: its kind and the message shown to the caller.
#[derive(Clone, Debug)]
pub struct ToolError {
    pub kind: ToolErrorKind,
    pub message: String,
}

/// An invalid-parameters error with `message`.
pub fn invalid_params(message: String) -> (r: ToolError)
    ensures
        r.kind == ToolErrorKind::InvalidParams,
        r.message == message,
{
    ToolError { kind: ToolErrorKind::InvalidParams, message }
}

} // verus!
