//! Errors of process tools.

use vstd::prelude::*;

verus! {

/// Why an operation was refused or failed.
#[derive(Debug, PartialEq, Eq)]
pub enum Error {
    /// A tool reports a failure.
    Tool { tool: String, message: String },
    /// The input of a call is not acceptable.
    Validation(String),
}

/// What an error says.
pub enum ErrorModel {
    Tool { tool: Seq<char>, message: Seq<char> },
    Validation(Seq<char>),
}

impl View for Error {
    type V = ErrorModel;

    open spec fn view(&self) -> ErrorModel {
        match self {
            Error::Tool { tool, message } => ErrorModel::Tool { tool: tool@, message: message@ },
            Error::Validation(message) => ErrorModel::Validation(message@),
        }
    }
}

impl ErrorModel {
    /// The text of the error.
    pub open spec fn text(self) -> Seq<char> {
        match self {
            ErrorModel::Tool { tool: _, message } => message,
            ErrorModel::Validation(message) => message,
        }
    }
}

impl Error {
    /// A failure that a tool reports.
    pub fn tool(tool: &str, message: String) -> (r: Self)
        ensures
            r@ == (ErrorModel::Tool { tool: tool@, message: message@ }),
    {
        Error::Tool { tool: tool.to_owned(), message }
    }

    /// Input that is not acceptable.
    pub fn validation(message: String) -> (r: Self)
        ensures
            r@ == ErrorModel::Validation(message@),
    {
        Error::Validation(message)
    }

    /// The text of the error.
    pub fn message(&self) -> (r: &str)
        ensures
            r@ == self@.text(),
    {
        match self {
            Error::Tool { tool: _, message } => message.as_str(),
            Error::Validation(message) => message.as_str(),
        }
    }
}

} // verus!
