//! Global error handling.
//!
//! `AppError` is the internal error used across the backend; where an outside
//! library failed it carries that library's message. `CommandError` is the thin
//! form handed to the frontend.

use vstd::prelude::*;

verus! {

/// Internal error type for the whole backend.
#[derive(Debug)]
pub enum AppError {
    Database(String),
    Io(String),
    Serde(String),
    Notify(String),
    Llm(String),
    WorkerUnavailable,
    Config(String),
    Other(String),
}

pub type AppResult<T> = Result<T, AppError>;

impl AppError {
    /// What the error says.
    pub open spec fn says(self) -> Seq<char> {
        match self {
            AppError::Database(s) => "database error: "@ + s@,
            AppError::Io(s) => "io error: "@ + s@,
            AppError::Serde(s) => "serialization error: "@ + s@,
            AppError::Notify(s) => "notification error: "@ + s@,
            AppError::Llm(s) => "llm error: "@ + s@,
            AppError::WorkerUnavailable => "the LLM worker channel is closed"@,
            AppError::Config(s) => "configuration error: "@ + s@,
            AppError::Other(s) => s@,
        }
    }

    /// Which kind of error it is.
    pub open spec fn kind_name(self) -> Seq<char> {
        match self {
            AppError::Database(_) => "database"@,
            AppError::Io(_) => "io"@,
            AppError::Serde(_) => "serde"@,
            AppError::Notify(_) => "notify"@,
            AppError::Llm(_) => "llm"@,
            AppError::WorkerUnavailable => "worker"@,
            AppError::Config(_) => "config"@,
            AppError::Other(_) => "other"@,
        }
    }

    /// What the error says, for people.
    pub fn message(&self) -> (r: String)
        ensures
            r@ == self.says(),
    {
        match self {
            AppError::Database(s) => "database error: ".to_string().concat(s.as_str()),
            AppError::Io(s) => "io error: ".to_string().concat(s.as_str()),
            AppError::Serde(s) => "serialization error: ".to_string().concat(s.as_str()),
            AppError::Notify(s) => "notification error: ".to_string().concat(s.as_str()),
            AppError::Llm(s) => "llm error: ".to_string().concat(s.as_str()),
            AppError::WorkerUnavailable => "the LLM worker channel is closed".to_string(),
            AppError::Config(s) => "configuration error: ".to_string().concat(s.as_str()),
            AppError::Other(s) => s.clone(),
        }
    }

    /// Which kind of error it is, for the frontend.
    pub fn kind(&self) -> (r: &'static str)
        ensures
            r@ == self.kind_name(),
    {
        match self {
            AppError::Database(_) => "database",
            AppError::Io(_) => "io",
            AppError::Serde(_) => "serde",
            AppError::Notify(_) => "notify",
            AppError::Llm(_) => "llm",
            AppError::WorkerUnavailable => "worker",
            AppError::Config(_) => "config",
            AppError::Other(_) => "other",
        }
    }
}

/// Frontend-safe error.
#[derive(Debug)]
pub struct CommandError {
    pub message: String,
    pub kind: String,
}

impl CommandError {
    /// The frontend's form of an internal error.
    pub fn from(err: AppError) -> (r: Self)
        ensures
            r.message@ == err.says(),
            r.kind@ == err.kind_name(),
    {
        CommandError { message: err.message(), kind: err.kind().to_string() }
    }

    /// The error as one line: its kind, then its message.
    pub fn text(&self) -> (r: String)
        ensures
            r@ == self.kind@ + ": "@ + self.message@,
    {
        self.kind.clone().concat(": ").concat(self.message.as_str())
    }

    /// A failure of the window system.
    pub fn window(message: String) -> (r: Self)
        ensures
            r.message == message,
            r.kind@ == "window"@,
    {
        CommandError { message, kind: "window".to_string() }
    }
}

/// Map a blocking-join failure into a frontend-safe error.
pub fn join_err(message: String) -> (r: CommandError)
    ensures
        r.message == message,
        r.kind@ == "join"@,
{
    CommandError { message, kind: "join".to_string() }
}

/// An error says what kind of failure it is, and its cause in full.
pub proof fn law_error_keeps_its_cause(why: String)
    ensures
        AppError::Database(why).says() == "database error: "@ + why@,
        AppError::Io(why).says() == "io error: "@ + why@,
        AppError::Serde(why).says() == "serialization error: "@ + why@,
        AppError::Notify(why).says() == "notification error: "@ + why@,
        AppError::Llm(why).says() == "llm error: "@ + why@,
        AppError::WorkerUnavailable.says() == "the LLM worker channel is closed"@,
        AppError::Config(why).says() == "configuration error: "@ + why@,
        AppError::Other(why).says() == why@,
{
}

/// The frontend tells errors of one kind from those of another by their kind
/// alone: it does not depend on the cause.
pub proof fn law_kind_is_of_the_variant(why: String)
    ensures
        AppError::Database(why).kind_name() == "database"@,
        AppError::Io(why).kind_name() == "io"@,
        AppError::Serde(why).kind_name() == "serde"@,
        AppError::Notify(why).kind_name() == "notify"@,
        AppError::Llm(why).kind_name() == "llm"@,
        AppError::WorkerUnavailable.kind_name() == "worker"@,
        AppError::Config(why).kind_name() == "config"@,
        AppError::Other(why).kind_name() == "other"@,
{
}

} // verus!
