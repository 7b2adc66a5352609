//! The error type shared by every operation.

use vstd::prelude::*;

verus! {

/// What went wrong in an operation.
#[derive(Debug, PartialEq, Eq)]
pub enum AppError {
    /// A required directory could not be resolved.
    Config(String),
    /// A file could not be read or written; `source` is the system's message.
    Io { path: String, source: String },
    /// Persisted data at `path` was malformed.
    Json { path: String, source: String },
    /// A value could not be written out as JSON.
    JsonSerialize { source: String },
    /// A plain message.
    Message(String),
    /// The record table failed.
    Database(String),
    /// The caller asked for something that is not allowed.
    InvalidInput(String),
}

/// The mathematical value of an [`AppError`].
pub enum AppErrorView {
    Config(Seq<char>),
    Io { path: Seq<char>, source: Seq<char> },
    Json { path: Seq<char>, source: Seq<char> },
    JsonSerialize { source: Seq<char> },
    Message(Seq<char>),
    Database(Seq<char>),
    InvalidInput(Seq<char>),
}

impl View for AppError {
    type V = AppErrorView;

    open spec fn view(&self) -> AppErrorView {
        match self {
            AppError::Config(m) => AppErrorView::Config(m@),
            AppError::Io { path, source } => AppErrorView::Io { path: path@, source: source@ },
            AppError::Json { path, source } => AppErrorView::Json { path: path@, source: source@ },
            AppError::JsonSerialize { source } => AppErrorView::JsonSerialize { source: source@ },
            AppError::Message(m) => AppErrorView::Message(m@),
            AppError::Database(m) => AppErrorView::Database(m@),
            AppError::InvalidInput(m) => AppErrorView::InvalidInput(m@),
        }
    }
}

/// The text that an error is shown as.
pub open spec fn error_text(e: AppErrorView) -> Seq<char> {
    match e {
        AppErrorView::Config(m) => "Config error: "@ + m,
        AppErrorView::Io { path, source } => "IO error: "@ + path + ": "@ + source,
        AppErrorView::Json { path, source } => "JSON parse error: "@ + path + ": "@ + source,
        AppErrorView::JsonSerialize { source } => "JSON serialize error: "@ + source,
        AppErrorView::Message(m) => m,
        AppErrorView::Database(m) => "Database error: "@ + m,
        AppErrorView::InvalidInput(m) => "Invalid input: "@ + m,
    }
}

impl AppError {
    /// An I/O failure on `path`.
    pub fn io(path: &str, source: &str) -> (e: AppError)
        ensures
            e@ == (AppErrorView::Io { path: path@, source: source@ }),
    {
        AppError::Io { path: path.to_owned(), source: source.to_owned() }
    }

    /// Malformed JSON at `path`.
    pub fn json(path: &str, source: &str) -> (e: AppError)
        ensures
            e@ == (AppErrorView::Json { path: path@, source: source@ }),
    {
        AppError::Json { path: path.to_owned(), source: source.to_owned() }
    }

    /// The text shown to the caller.
    pub fn message(&self) -> (r: String)
        ensures
            r@ == error_text(self@),
    {
        match self {
            AppError::Config(m) => String::from_str("Config error: ").concat(m.as_str()),
            AppError::Io { path, source } => String::from_str("IO error: ").concat(
                path.as_str(),
            ).concat(": ").concat(source.as_str()),
            AppError::Json { path, source } => String::from_str("JSON parse error: ").concat(
                path.as_str(),
            ).concat(": ").concat(source.as_str()),
            AppError::JsonSerialize { source } => String::from_str(
                "JSON serialize error: ",
            ).concat(source.as_str()),
            AppError::Message(m) => m.clone(),
            AppError::Database(m) => String::from_str("Database error: ").concat(m.as_str()),
            AppError::InvalidInput(m) => String::from_str("Invalid input: ").concat(m.as_str()),
        }
    }
}

} // verus!
