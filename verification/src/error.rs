//! What can go wrong, and how it is told to the user.

use vstd::prelude::*;

use crate::text;

verus! {

/// A failure of a command.
#[derive(Debug)]
pub enum LokinError {
    /// The user gave something that no command accepts.
    InvalidInput(String),
    /// The session is not in a state that the command can start from.
    InvalidTransition(String),
    /// The command needs an active session.
    NoActiveSession,
    /// No session has the given reference.
    UnknownSession(String),
    /// The event log contradicts itself or cannot be read as events.
    CorruptLog(String),
    /// An event was stored under a schema version that this library does not know.
    UnsupportedSchemaVersion(u16),
    /// The system names no directory for application data.
    DataDirectoryUnavailable,
    /// The settings for the language model are incomplete.
    LlmConfiguration(String),
    /// The language model gave no usable plan.
    LlmInference(String),
    /// The dialogue with the user broke off.
    InteractiveInput(String),
    /// The storage failed.
    Io(String),
    /// An event could not be written as JSON.
    Json(String),
}

/// The model of [`LokinError`].
pub enum ErrorView {
    InvalidInput(Seq<char>),
    InvalidTransition(Seq<char>),
    NoActiveSession,
    UnknownSession(Seq<char>),
    CorruptLog(Seq<char>),
    UnsupportedSchemaVersion(u16),
    DataDirectoryUnavailable,
    LlmConfiguration(Seq<char>),
    LlmInference(Seq<char>),
    InteractiveInput(Seq<char>),
    Io(Seq<char>),
    Json(Seq<char>),
}

impl View for LokinError {
    type V = ErrorView;

    open spec fn view(&self) -> ErrorView {
        match self {
            LokinError::InvalidInput(message) => ErrorView::InvalidInput(message@),
            LokinError::InvalidTransition(message) => ErrorView::InvalidTransition(message@),
            LokinError::NoActiveSession => ErrorView::NoActiveSession,
            LokinError::UnknownSession(reference) => ErrorView::UnknownSession(reference@),
            LokinError::CorruptLog(message) => ErrorView::CorruptLog(message@),
            LokinError::UnsupportedSchemaVersion(version) => ErrorView::UnsupportedSchemaVersion(
                *version,
            ),
            LokinError::DataDirectoryUnavailable => ErrorView::DataDirectoryUnavailable,
            LokinError::LlmConfiguration(message) => ErrorView::LlmConfiguration(message@),
            LokinError::LlmInference(message) => ErrorView::LlmInference(message@),
            LokinError::InteractiveInput(message) => ErrorView::InteractiveInput(message@),
            LokinError::Io(error) => ErrorView::Io(error@),
            LokinError::Json(error) => ErrorView::Json(error@),
        }
    }
}

/// The model of a command's result.
pub open spec fn result_view<T: View>(res: Result<T, LokinError>) -> Result<T::V, ErrorView> {
    match res {
        Ok(value) => Ok(value@),
        Err(error) => Err(error@),
    }
}

impl ErrorView {
    /// The sentence that the user reads.
    pub open spec fn message(self) -> Seq<char> {
        match self {
            ErrorView::InvalidInput(message) => message,
            ErrorView::InvalidTransition(message) => message,
            ErrorView::NoActiveSession => "No active Lokin session."@,
            ErrorView::UnknownSession(reference) => "No session matches '"@ + reference + "'."@,
            ErrorView::CorruptLog(message) => "Event log is invalid: "@ + message,
            ErrorView::UnsupportedSchemaVersion(version) => "Unsupported event schema version "@
                + text::decimal(version as nat) + "."@,
            ErrorView::DataDirectoryUnavailable =>
                "Could not determine the local application-data directory."@,
            ErrorView::LlmConfiguration(message) => "LLM configuration error: "@ + message,
            ErrorView::LlmInference(message) => "LLM inference failed: "@ + message,
            ErrorView::InteractiveInput(message) => "Interactive planning error: "@ + message,
            ErrorView::Io(error) => "Storage error: "@ + error,
            ErrorView::Json(error) => "JSON error: "@ + error,
        }
    }
}

impl LokinError {
    /// The sentence that the user reads.
    pub fn message(&self) -> (res: String)
        ensures
            res@ == self@.message(),
    {
        match self {
            LokinError::InvalidInput(message) => message.clone(),
            LokinError::InvalidTransition(message) => message.clone(),
            LokinError::NoActiveSession => "No active Lokin session.".to_owned(),
            LokinError::UnknownSession(reference) => "No session matches '".to_owned().concat(
                reference.as_str(),
            ).concat("'."),
            LokinError::CorruptLog(message) => "Event log is invalid: ".to_owned().concat(
                message.as_str(),
            ),
            LokinError::UnsupportedSchemaVersion(version) =>
                "Unsupported event schema version ".to_owned().concat(
                text::decimal_text(*version as u128).as_str(),
            ).concat("."),
            LokinError::DataDirectoryUnavailable =>
                "Could not determine the local application-data directory.".to_owned(),
            LokinError::LlmConfiguration(message) => "LLM configuration error: ".to_owned().concat(
                message.as_str(),
            ),
            LokinError::LlmInference(message) => "LLM inference failed: ".to_owned().concat(
                message.as_str(),
            ),
            LokinError::InteractiveInput(message) =>
                "Interactive planning error: ".to_owned().concat(message.as_str()),
            LokinError::Io(error) => "Storage error: ".to_owned().concat(error.as_str()),
            LokinError::Json(error) => "JSON error: ".to_owned().concat(error.as_str()),
        }
    }
}

/// The sentence that the user reads tells what the failure holds.
pub proof fn a_failure_is_told_with_what_it_holds(error: ErrorView)
    ensures
        error.message() == match error {
            ErrorView::InvalidInput(what) => what,
            ErrorView::InvalidTransition(what) => what,
            ErrorView::NoActiveSession => "No active Lokin session."@,
            ErrorView::UnknownSession(what) => "No session matches '"@ + what + "'."@,
            ErrorView::CorruptLog(what) => "Event log is invalid: "@ + what,
            ErrorView::UnsupportedSchemaVersion(version) => "Unsupported event schema version "@
                + text::decimal(version as nat) + "."@,
            ErrorView::DataDirectoryUnavailable =>
                "Could not determine the local application-data directory."@,
            ErrorView::LlmConfiguration(what) => "LLM configuration error: "@ + what,
            ErrorView::LlmInference(what) => "LLM inference failed: "@ + what,
            ErrorView::InteractiveInput(what) => "Interactive planning error: "@ + what,
            ErrorView::Io(what) => "Storage error: "@ + what,
            ErrorView::Json(what) => "JSON error: "@ + what,
        },
{
}

} // verus!
