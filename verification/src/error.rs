//! What can go wrong with a pool or with one of its tasks.
use vstd::prelude::*;
use vstd::string::*;
use crate::json::{debug_str, debug_text, optional, rendered, Json, JsonView, Notation};
use crate::text::{decimal, decimal_text};

verus! {

/// The failures that a pool reports to its callers.
#[derive(Debug, PartialEq, Eq)]
pub enum PoolError {
    NotInitialized,
    AlreadyInitialized,
    InvalidConfig(String),
    SpawnFailed(String),
    Rejected,
    Discarded,
    Closed,
    WorkerIo(String),
    Protocol(String),
    WorkerExited,
    TaskTimeout { timeout_ms: u64 },
    WorkerReturned { code: String, message: String, details: Option<Json> },
}

/// The content of a [`PoolError`].
pub enum ErrorView {
    NotInitialized,
    AlreadyInitialized,
    InvalidConfig(Seq<char>),
    SpawnFailed(Seq<char>),
    Rejected,
    Discarded,
    Closed,
    WorkerIo(Seq<char>),
    Protocol(Seq<char>),
    WorkerExited,
    TaskTimeout { timeout_ms: u64 },
    WorkerReturned { code: Seq<char>, message: Seq<char>, details: Option<JsonView> },
}

impl View for PoolError {
    type V = ErrorView;

    open spec fn view(&self) -> ErrorView {
        match *self {
            PoolError::NotInitialized => ErrorView::NotInitialized,
            PoolError::AlreadyInitialized => ErrorView::AlreadyInitialized,
            PoolError::InvalidConfig(s) => ErrorView::InvalidConfig(s@),
            PoolError::SpawnFailed(s) => ErrorView::SpawnFailed(s@),
            PoolError::Rejected => ErrorView::Rejected,
            PoolError::Discarded => ErrorView::Discarded,
            PoolError::Closed => ErrorView::Closed,
            PoolError::WorkerIo(s) => ErrorView::WorkerIo(s@),
            PoolError::Protocol(s) => ErrorView::Protocol(s@),
            PoolError::WorkerExited => ErrorView::WorkerExited,
            PoolError::TaskTimeout { timeout_ms } => ErrorView::TaskTimeout { timeout_ms },
            PoolError::WorkerReturned { code, message, details } => ErrorView::WorkerReturned {
                code: code@,
                message: message@,
                details: optional(details),
            },
        }
    }
}

/// What a task ends with: a document, or the reason why there is none.
pub type TaskOutcome = Result<Json, PoolError>;

/// The content of a task's outcome.
pub open spec fn outcome_view(outcome: TaskOutcome) -> Result<JsonView, ErrorView> {
    match outcome {
        Ok(v) => Ok(v@),
        Err(e) => Err(e@),
    }
}

/// The sentence that describes an error to a user.
pub open spec fn sentence(e: ErrorView) -> Seq<char> {
    match e {
        ErrorView::NotInitialized => "the process pool has not been initialized"@,
        ErrorView::AlreadyInitialized => "the process pool is already initialized; restart the service to use another configuration"@,
        ErrorView::InvalidConfig(s) => "invalid pool configuration: "@ + s,
        ErrorView::SpawnFailed(s) => "failed to start worker process: "@ + s,
        ErrorView::Rejected => "the process pool is saturated"@,
        ErrorView::Discarded => "the task was discarded by the rejection policy"@,
        ErrorView::Closed => "the process pool is closed"@,
        ErrorView::WorkerIo(s) => "worker I/O failed: "@ + s,
        ErrorView::Protocol(s) => "worker protocol error: "@ + s,
        ErrorView::WorkerExited => "worker exited before returning a response"@,
        ErrorView::TaskTimeout { timeout_ms } => "task timed out after "@ + decimal_text(
            timeout_ms as nat,
        ) + " ms"@,
        ErrorView::WorkerReturned { code, message, details } => "worker returned error "@ + code
            + ": "@ + message,
    }
}

/// The developer notation of an error: the variant and its fields.
pub open spec fn kind(e: ErrorView) -> Seq<char> {
    match e {
        ErrorView::NotInitialized => "NotInitialized"@,
        ErrorView::AlreadyInitialized => "AlreadyInitialized"@,
        ErrorView::InvalidConfig(s) => "InvalidConfig("@ + debug_text(s) + ")"@,
        ErrorView::SpawnFailed(s) => "SpawnFailed("@ + debug_text(s) + ")"@,
        ErrorView::Rejected => "Rejected"@,
        ErrorView::Discarded => "Discarded"@,
        ErrorView::Closed => "Closed"@,
        ErrorView::WorkerIo(s) => "WorkerIo("@ + debug_text(s) + ")"@,
        ErrorView::Protocol(s) => "Protocol("@ + debug_text(s) + ")"@,
        ErrorView::WorkerExited => "WorkerExited"@,
        ErrorView::TaskTimeout { timeout_ms } => "TaskTimeout { timeout_ms: "@ + decimal_text(
            timeout_ms as nat,
        ) + " }"@,
        ErrorView::WorkerReturned { code, message, details } => "WorkerReturned { code: "@
            + debug_text(code) + ", message: "@ + debug_text(message) + ", details: "@
            + details_kind(details) + " }"@,
    }
}

pub open spec fn details_kind(details: Option<JsonView>) -> Seq<char> {
    match details {
        None => "None"@,
        Some(v) => "Some("@ + rendered(v, Notation::Developer) + ")"@,
    }
}

fn labelled(label: &str, s: &str) -> (text: String)
    ensures
        text@ == label@ + s@,
{
    label.to_owned().concat(s)
}

fn call_form(name: &str, s: &str) -> (text: String)
    ensures
        text@ == name@ + debug_text(s@) + ")"@,
{
    name.to_owned().concat(debug_str(s).as_str()).concat(")")
}

/// A copy of an optional document.
pub fn copy_optional(value: &Option<Json>) -> (copy: Option<Json>)
    ensures
        optional(copy) == optional(*value),
{
    match value {
        Some(v) => Some(v.clone()),
        None => None,
    }
}

impl Clone for PoolError {
    fn clone(&self) -> (copy: Self)
        ensures
            copy@ == self@,
    {
        match self {
            PoolError::NotInitialized => PoolError::NotInitialized,
            PoolError::AlreadyInitialized => PoolError::AlreadyInitialized,
            PoolError::InvalidConfig(s) => PoolError::InvalidConfig(s.clone()),
            PoolError::SpawnFailed(s) => PoolError::SpawnFailed(s.clone()),
            PoolError::Rejected => PoolError::Rejected,
            PoolError::Discarded => PoolError::Discarded,
            PoolError::Closed => PoolError::Closed,
            PoolError::WorkerIo(s) => PoolError::WorkerIo(s.clone()),
            PoolError::Protocol(s) => PoolError::Protocol(s.clone()),
            PoolError::WorkerExited => PoolError::WorkerExited,
            PoolError::TaskTimeout { timeout_ms } => PoolError::TaskTimeout {
                timeout_ms: *timeout_ms,
            },
            PoolError::WorkerReturned { code, message, details } => PoolError::WorkerReturned {
                code: code.clone(),
                message: message.clone(),
                details: copy_optional(details),
            },
        }
    }
}

impl PoolError {
    /// The sentence that describes the error to a user.
    pub fn message(&self) -> (text: String)
        ensures
            text@ == sentence(self@),
    {
        match self {
            PoolError::NotInitialized => "the process pool has not been initialized".to_owned(),
            PoolError::AlreadyInitialized => "the process pool is already initialized; restart the service to use another configuration".to_owned(),
            PoolError::InvalidConfig(s) => labelled("invalid pool configuration: ", s.as_str()),
            PoolError::SpawnFailed(s) => labelled("failed to start worker process: ", s.as_str()),
            PoolError::Rejected => "the process pool is saturated".to_owned(),
            PoolError::Discarded => "the task was discarded by the rejection policy".to_owned(),
            PoolError::Closed => "the process pool is closed".to_owned(),
            PoolError::WorkerIo(s) => labelled("worker I/O failed: ", s.as_str()),
            PoolError::Protocol(s) => labelled("worker protocol error: ", s.as_str()),
            PoolError::WorkerExited => "worker exited before returning a response".to_owned(),
            PoolError::TaskTimeout { timeout_ms } => labelled(
                "task timed out after ",
                decimal(*timeout_ms).as_str(),
            ).concat(" ms"),
            PoolError::WorkerReturned { code, message, details } => labelled(
                "worker returned error ",
                code.as_str(),
            ).concat(": ").concat(message.as_str()),
        }
    }

    /// The developer notation of the error.
    pub fn kind_text(&self) -> (text: String)
        ensures
            text@ == kind(self@),
    {
        match self {
            PoolError::NotInitialized => "NotInitialized".to_owned(),
            PoolError::AlreadyInitialized => "AlreadyInitialized".to_owned(),
            PoolError::InvalidConfig(s) => call_form("InvalidConfig(", s.as_str()),
            PoolError::SpawnFailed(s) => call_form("SpawnFailed(", s.as_str()),
            PoolError::Rejected => "Rejected".to_owned(),
            PoolError::Discarded => "Discarded".to_owned(),
            PoolError::Closed => "Closed".to_owned(),
            PoolError::WorkerIo(s) => call_form("WorkerIo(", s.as_str()),
            PoolError::Protocol(s) => call_form("Protocol(", s.as_str()),
            PoolError::WorkerExited => "WorkerExited".to_owned(),
            PoolError::TaskTimeout { timeout_ms } => labelled(
                "TaskTimeout { timeout_ms: ",
                decimal(*timeout_ms).as_str(),
            ).concat(" }"),
            PoolError::WorkerReturned { code, message, details } => {
                let details_text = match details {
                    None => "None".to_owned(),
                    Some(v) => labelled("Some(", v.to_debug().as_str()).concat(")"),
                };
                labelled("WorkerReturned { code: ", debug_str(code.as_str()).as_str()).concat(
                    ", message: ",
                ).concat(debug_str(message.as_str()).as_str()).concat(", details: ").concat(
                    details_text.as_str(),
                ).concat(" }")
            },
        }
    }
}

} // verus!
