//! The failures that the library reports.

use vstd::prelude::*;

verus! {

/// A failure, with the text that says what went wrong.
#[derive(Debug)]
pub enum AppError {
    /// The configuration could not be located, read or written.
    Config(String),
    /// A database session could not be set up.
    DatabaseConnection(String),
    /// The container runtime could not be run or reported a failure.
    Docker(String),
    /// A database type was named that the library does not know.
    UnknownDatabaseType(String),
    /// No connection is stored under the alias.
    AliasNotFound(String),
    /// An identifier does not fit the grammar it is held to.
    ValidationError(String),
    /// Reading or writing failed below the library.
    Io(String),
    /// The stored configuration could not be encoded or decoded.
    Yaml(String),
    /// Anything else.
    Other(String),
}

/// The mathematical value of an [`AppError`]: the same cases over sequences
/// of characters.
pub ghost enum AppErrorView {
    Config(Seq<char>),
    DatabaseConnection(Seq<char>),
    Docker(Seq<char>),
    UnknownDatabaseType(Seq<char>),
    AliasNotFound(Seq<char>),
    ValidationError(Seq<char>),
    Io(Seq<char>),
    Yaml(Seq<char>),
    Other(Seq<char>),
}

impl AppErrorView {
    /// The line shown to the user for this failure.
    pub open spec fn message(self) -> Seq<char> {
        match self {
            AppErrorView::Config(m) => "Config error: "@ + m,
            AppErrorView::DatabaseConnection(m) => "Database connection error: "@ + m,
            AppErrorView::Docker(m) => "Docker error: "@ + m,
            AppErrorView::UnknownDatabaseType(m) => "Unknown database type: "@ + m,
            AppErrorView::AliasNotFound(m) => "Alias '"@ + m + "' not found"@,
            AppErrorView::ValidationError(m) => "Validation error: "@ + m,
            AppErrorView::Io(m) => "I/O error: "@ + m,
            AppErrorView::Yaml(m) => "YAML error: "@ + m,
            AppErrorView::Other(m) => "Error: "@ + m,
        }
    }
}

impl View for AppError {
    type V = AppErrorView;

    open spec fn view(&self) -> AppErrorView {
        match self {
            AppError::Config(m) => AppErrorView::Config(m@),
            AppError::DatabaseConnection(m) => AppErrorView::DatabaseConnection(m@),
            AppError::Docker(m) => AppErrorView::Docker(m@),
            AppError::UnknownDatabaseType(m) => AppErrorView::UnknownDatabaseType(m@),
            AppError::AliasNotFound(m) => AppErrorView::AliasNotFound(m@),
            AppError::ValidationError(m) => AppErrorView::ValidationError(m@),
            AppError::Io(m) => AppErrorView::Io(m@),
            AppError::Yaml(m) => AppErrorView::Yaml(m@),
            AppError::Other(m) => AppErrorView::Other(m@),
        }
    }
}

impl AppError {
    /// The line shown to the user for this failure.
    pub fn to_string(&self) -> (s: String)
        ensures
            s@ == self@.message(),
    {
        match self {
            AppError::Config(m) => String::from_str("Config error: ").concat(m.as_str()),
            AppError::DatabaseConnection(m) => String::from_str(
                "Database connection error: ",
            ).concat(m.as_str()),
            AppError::Docker(m) => String::from_str("Docker error: ").concat(m.as_str()),
            AppError::UnknownDatabaseType(m) => String::from_str("Unknown database type: ").concat(
                m.as_str(),
            ),
            AppError::AliasNotFound(m) => String::from_str("Alias '").concat(m.as_str()).concat(
                "' not found",
            ),
            AppError::ValidationError(m) => String::from_str("Validation error: ").concat(
                m.as_str(),
            ),
            AppError::Io(m) => String::from_str("I/O error: ").concat(m.as_str()),
            AppError::Yaml(m) => String::from_str("YAML error: ").concat(m.as_str()),
            AppError::Other(m) => String::from_str("Error: ").concat(m.as_str()),
        }
    }
}

} // verus!
