//! The errors of the stores that keep comics and tasks.

use vstd::prelude::*;
use vstd::string::StringExecFns;

verus! {

#[verifier::external_type_specification]
#[verifier::external_body]
pub struct ExJsonValue(serde_json::Value);

#[verifier::external_type_specification]
#[verifier::external_body]
pub struct ExJsonError(serde_json::Error);

/// The text that `serde_json::Error` shows of itself through `Display`.
/// Nothing is claimed of the text.
#[verifier::external_body]
fn json_error_text(err: &serde_json::Error) -> String {
    err.to_string()
}

/// The JSON value `null`, the variant `serde_json::Value::Null`.
#[verifier::external_body]
fn json_null() -> serde_json::Value {
    serde_json::Value::Null
}

/// The words that open the message of a JSON error.
pub open spec fn json_error_prefix() -> Seq<char> {
    "JSON parse error: "@
}

/// Why a request to a store failed.
#[derive(Debug)]
pub enum StorageError {
    NotFound { task_id: i64 },
    InvalidStatusTransition { from: String, to: String },
    InvalidParams { message: String, params: serde_json::Value },
    ConcurrentUpdate,
    NetWorkError { message: String },
}

/// A store's error in words.
pub open spec fn storage_error_text(error: StorageError) -> Seq<char> {
    match error {
        StorageError::NotFound { task_id } => "Task not found: "@ + crate::text::signed_decimal(
            task_id as int,
        ),
        StorageError::InvalidStatusTransition { from, to } => "Invalid task status transition: "@
            + from@ + " -> "@ + to@,
        StorageError::InvalidParams { message, .. } => "Invalid task parameters: "@ + message@,
        StorageError::ConcurrentUpdate => "Concurrent modification detected"@,
        StorageError::NetWorkError { message } => "network error: "@ + message@,
    }
}

/// A task error in words.
pub open spec fn task_error_text(error: TaskError) -> Seq<char> {
    match error {
        TaskError::NotFound { task_id } => "Task not found: "@ + crate::text::signed_decimal(
            task_id as int,
        ),
        TaskError::InvalidStatusTransition { from, to } => "Invalid task status transition: "@
            + from@ + " -> "@ + to@,
        TaskError::InvalidParams { message, .. } => "Invalid task parameters: "@ + message@,
        TaskError::ConcurrentUpdate => "Concurrent modification detected"@,
    }
}

impl StorageError {
    /// The error in words.
    pub fn message(&self) -> (r: String)
        ensures
            r@ == storage_error_text(*self),
    {
        match self {
            StorageError::NotFound { task_id } => "Task not found: ".to_owned().concat(
                crate::text::i64_text(*task_id).as_str(),
            ),
            StorageError::InvalidStatusTransition { from, to } => "Invalid task status transition: ".to_owned().concat(
                from.as_str(),
            ).concat(" -> ").concat(to.as_str()),
            StorageError::InvalidParams { message, .. } => "Invalid task parameters: ".to_owned().concat(
                message.as_str(),
            ),
            StorageError::ConcurrentUpdate => "Concurrent modification detected".to_owned(),
            StorageError::NetWorkError { message } => "network error: ".to_owned().concat(
                message.as_str(),
            ),
        }
    }

    /// The error for JSON that could not be read: invalid parameters, with a
    /// message that starts with `JSON parse error: ` and goes on with the
    /// parser's own words.
    pub fn from_json_error(err: serde_json::Error) -> (r: Self)
        ensures
            r matches StorageError::InvalidParams { message, .. } && json_error_prefix().is_prefix_of(
                message@,
            ),
    {
        let message = "JSON parse error: ".to_owned().concat(json_error_text(&err).as_str());
        StorageError::InvalidParams { message, params: json_null() }
    }
}

/// Why a request about tasks failed.
#[derive(Debug)]
pub enum TaskError {
    NotFound { task_id: i64 },
    InvalidStatusTransition { from: String, to: String },
    InvalidParams { message: String, params: serde_json::Value },
    ConcurrentUpdate,
}

impl TaskError {
    /// The error in words.
    pub fn message(&self) -> (r: String)
        ensures
            r@ == task_error_text(*self),
    {
        match self {
            TaskError::NotFound { task_id } => "Task not found: ".to_owned().concat(
                crate::text::i64_text(*task_id).as_str(),
            ),
            TaskError::InvalidStatusTransition { from, to } => "Invalid task status transition: ".to_owned().concat(
                from.as_str(),
            ).concat(" -> ").concat(to.as_str()),
            TaskError::InvalidParams { message, .. } => "Invalid task parameters: ".to_owned().concat(
                message.as_str(),
            ),
            TaskError::ConcurrentUpdate => "Concurrent modification detected".to_owned(),
        }
    }

    /// The error for JSON that could not be read: invalid parameters, with a
    /// message that starts with `JSON parse error: ` and goes on with the
    /// parser's own words.
    pub fn from_json_error(err: serde_json::Error) -> (r: Self)
        ensures
            r matches TaskError::InvalidParams { message, .. } && json_error_prefix().is_prefix_of(
                message@,
            ),
    {
        let message = "JSON parse error: ".to_owned().concat(json_error_text(&err).as_str());
        TaskError::InvalidParams { message, params: json_null() }
    }
}

impl From<serde_json::Error> for StorageError {
    fn from(err: serde_json::Error) -> (r: Self)
        ensures
            r matches StorageError::InvalidParams { message, .. } && json_error_prefix().is_prefix_of(
                message@,
            ),
    {
        StorageError::from_json_error(err)
    }
}

impl vstd::std_specs::convert::FromSpecImpl<serde_json::Error> for StorageError {
    open spec fn obeys_from_spec() -> bool {
        false
    }

    open spec fn from_spec(err: serde_json::Error) -> Self {
        StorageError::ConcurrentUpdate
    }
}

impl From<serde_json::Error> for TaskError {
    fn from(err: serde_json::Error) -> (r: Self)
        ensures
            r matches TaskError::InvalidParams { message, .. } && json_error_prefix().is_prefix_of(
                message@,
            ),
    {
        TaskError::from_json_error(err)
    }
}

impl vstd::std_specs::convert::FromSpecImpl<serde_json::Error> for TaskError {
    open spec fn obeys_from_spec() -> bool {
        false
    }

    open spec fn from_spec(err: serde_json::Error) -> Self {
        TaskError::ConcurrentUpdate
    }
}

} // verus!
