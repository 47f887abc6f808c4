//! What can stop a parse, or the delivery of its result.

use vstd::prelude::*;
use vstd::string::StringExecFns;

verus! {

/// The reasons for which no record is produced. Each of them ends the parse
/// or the request at hand; none is retried.
#[derive(Debug, PartialEq, Eq)]
pub enum ErrorKind {
    /// The text of a number field is no 32-bit integer once its grouping
    /// separators are taken out. Holds the field as it stood in the log.
    MalformedNumber(String),
    /// A measurement came before any section had been opened.
    ItemWithoutSuite,
    /// The text of the log could not be obtained. The parser never reports
    /// this itself: it is for the code that fetches the log.
    SourceUnavailable,
}

/// The mathematical content of an [`ErrorKind`].
pub enum ErrorView {
    MalformedNumber(Seq<char>),
    ItemWithoutSuite,
    SourceUnavailable,
}

impl View for ErrorKind {
    type V = ErrorView;

    open spec fn view(&self) -> ErrorView {
        match *self {
            ErrorKind::MalformedNumber(token) => ErrorView::MalformedNumber(token@),
            ErrorKind::ItemWithoutSuite => ErrorView::ItemWithoutSuite,
            ErrorKind::SourceUnavailable => ErrorView::SourceUnavailable,
        }
    }
}

impl DeepView for ErrorKind {
    type V = ErrorView;

    open spec fn deep_view(&self) -> ErrorView {
        self@
    }
}

/// The sentence that tells a reader of the error what went wrong.
pub open spec fn message_of(error: ErrorView) -> Seq<char> {
    match error {
        ErrorView::MalformedNumber(token) => "Couldn't parse a number from '"@ + token + "'"@,
        ErrorView::ItemWithoutSuite => "Encountered a result without seeing a suite name first"@,
        ErrorView::SourceUnavailable => "Benchmark log file not available on the server"@,
    }
}

impl ErrorKind {
    /// A sentence for the reader of the error.
    pub fn message(&self) -> (text: String)
        ensures
            text@ == message_of(self@),
    {
        match self {
            ErrorKind::MalformedNumber(token) => {
                let text = String::from_str("Couldn't parse a number from '");
                let text = text.concat(token.as_str());
                text.concat("'")
            },
            ErrorKind::ItemWithoutSuite => String::from_str(
                "Encountered a result without seeing a suite name first",
            ),
            ErrorKind::SourceUnavailable => String::from_str(
                "Benchmark log file not available on the server",
            ),
        }
    }
}

} // verus!
