//! The status line under the setup form.
use vstd::prelude::*;

verus! {

#[derive(Debug, Clone, Copy, PartialEq, Eq, Structural)]
pub enum StatusKind {
    Info,
    Success,
    Error,
}

/// A message and how it is to be shown.
pub struct StatusMessage {
    pub kind: StatusKind,
    pub message: String,
}

impl StatusMessage {
    pub fn info(message: String) -> (r: StatusMessage)
        ensures
            r.kind == StatusKind::Info,
            r.message == message,
    {
        StatusMessage { kind: StatusKind::Info, message }
    }

    pub fn success(message: String) -> (r: StatusMessage)
        ensures
            r.kind == StatusKind::Success,
            r.message == message,
    {
        StatusMessage { kind: StatusKind::Success, message }
    }

    pub fn error(message: String) -> (r: StatusMessage)
        ensures
            r.kind == StatusKind::Error,
            r.message == message,
    {
        StatusMessage { kind: StatusKind::Error, message }
    }
}

} // verus!
