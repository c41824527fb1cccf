//! What can go wrong, and how it is told.

use vstd::prelude::*;
use vstd::string::StringExecFns;

verus! {

/// A failure of the tool.
///
/// The first two end the program at start-up: without a log that can be read
/// in full there is nothing to show. The last two arise while the operator
/// works; they are shown, and the session goes on.
#[derive(Debug)]
pub enum Error {
    /// An outside command could not be run, or did not end well.
    CommandExecutionFailure,
    /// A record of the log is not a commit. Holds the record as it was read.
    MalformedLogRecord { record: String },
    /// The configuration is already there; it is left as it is.
    ConfigAlreadyExists,
    /// The configuration could not be written.
    ConfigWriteFailure,
}

/// What an [`Error`] is in contracts.
pub enum ErrorView {
    CommandExecutionFailure,
    MalformedLogRecord { record: Seq<char> },
    ConfigAlreadyExists,
    ConfigWriteFailure,
}

impl View for Error {
    type V = ErrorView;

    open spec fn view(&self) -> ErrorView {
        match self {
            Error::CommandExecutionFailure => ErrorView::CommandExecutionFailure,
            Error::MalformedLogRecord { record } => ErrorView::MalformedLogRecord {
                record: record@,
            },
            Error::ConfigAlreadyExists => ErrorView::ConfigAlreadyExists,
            Error::ConfigWriteFailure => ErrorView::ConfigWriteFailure,
        }
    }
}

impl ErrorView {
    /// Whether the program cannot go on after this failure.
    pub open spec fn is_fatal(self) -> bool {
        self is CommandExecutionFailure || self is MalformedLogRecord
    }

    /// The words that tell the operator of this failure.
    pub open spec fn message(self) -> Seq<char> {
        match self {
            ErrorView::CommandExecutionFailure => "the command could not be run"@,
            ErrorView::MalformedLogRecord { record } => "malformed log record: "@ + record,
            ErrorView::ConfigAlreadyExists => "the configuration already exists"@,
            ErrorView::ConfigWriteFailure => "the configuration could not be written"@,
        }
    }
}

impl Clone for Error {
    fn clone(&self) -> (res: Error)
        ensures
            res@ == self@,
    {
        match self {
            Error::CommandExecutionFailure => Error::CommandExecutionFailure,
            Error::MalformedLogRecord { record } => Error::MalformedLogRecord {
                record: record.clone(),
            },
            Error::ConfigAlreadyExists => Error::ConfigAlreadyExists,
            Error::ConfigWriteFailure => Error::ConfigWriteFailure,
        }
    }
}

impl PartialEq for Error {
    fn eq(&self, other: &Error) -> (res: bool) {
        match (self, other) {
            (Error::CommandExecutionFailure, Error::CommandExecutionFailure) => true,
            (Error::MalformedLogRecord { record: mine }, Error::MalformedLogRecord { record: theirs }) => {
                *mine == *theirs
            },
            (Error::ConfigAlreadyExists, Error::ConfigAlreadyExists) => true,
            (Error::ConfigWriteFailure, Error::ConfigWriteFailure) => true,
            _ => false,
        }
    }
}

impl vstd::std_specs::cmp::PartialEqSpecImpl for Error {
    open spec fn obeys_eq_spec() -> bool {
        true
    }

    open spec fn eq_spec(&self, other: &Error) -> bool {
        self@ == other@
    }
}

impl Eq for Error {

}

impl Error {
    /// Whether the program cannot go on after this failure.
    pub fn is_fatal(&self) -> (res: bool)
        ensures
            res == self@.is_fatal(),
    {
        match self {
            Error::CommandExecutionFailure => true,
            Error::MalformedLogRecord { .. } => true,
            Error::ConfigAlreadyExists => false,
            Error::ConfigWriteFailure => false,
        }
    }

    /// The words that tell the operator of this failure. A malformed record is
    /// given in full.
    pub fn message(&self) -> (res: String)
        ensures
            res@ == self@.message(),
    {
        match self {
            Error::CommandExecutionFailure => String::from_str("the command could not be run"),
            Error::MalformedLogRecord { record } => String::from_str(
                "malformed log record: ",
            ).concat(record.as_str()),
            Error::ConfigAlreadyExists => String::from_str("the configuration already exists"),
            Error::ConfigWriteFailure => String::from_str(
                "the configuration could not be written",
            ),
        }
    }
}

} // verus!
