//! Lexical errors and the reports that carry them to the caller.

use vstd::prelude::*;
use vstd::string::StringExecFns;

verus! {

/// The lexical errors that a scan can meet. Each is recoverable: the scan
/// goes on with the next unconsumed character.
#[derive(Debug, Clone, Copy, PartialEq, Eq, Structural)]
pub enum ErrorKind {
    /// A character that starts no token and is neither blank nor a newline.
    UnexpectedCharacter,
    /// The input ended inside a string literal.
    UnterminatedString,
    /// The text of a number token is not a decimal numeral.
    InvalidNumberLiteral,
}

impl ErrorKind {
    /// The message that a report of this kind carries.
    pub open spec fn message_text(self) -> Seq<char> {
        match self {
            ErrorKind::UnexpectedCharacter => "Unexpected character."@,
            ErrorKind::UnterminatedString => "Unterminated string."@,
            ErrorKind::InvalidNumberLiteral => "Invalid number literal"@,
        }
    }

    pub fn message(&self) -> (text: String)
        ensures
            text@ == self.message_text(),
    {
        match self {
            ErrorKind::UnexpectedCharacter => String::from_str("Unexpected character."),
            ErrorKind::UnterminatedString => String::from_str("Unterminated string."),
            ErrorKind::InvalidNumberLiteral => String::from_str("Invalid number literal"),
        }
    }

    /// The report of this error on the given line, with no location.
    pub fn report_at(&self, line: usize) -> (report: Report)
        ensures
            report@ == report_of(*self, line as int),
    {
        Report::new(line, String::new(), self.message())
    }
}

/// One lexical error, as the scanner hands it to the caller.
#[derive(Debug)]
pub struct Report {
    pub line: usize,
    /// Where on the line the error lies; may be empty.
    pub location: String,
    pub msg: String,
}

/// The mathematical value of a [`Report`].
pub ghost struct ReportView {
    pub line: int,
    pub location: Seq<char>,
    pub msg: Seq<char>,
}

/// The report that the scanner makes of an error of `kind` on `line`.
pub open spec fn report_of(kind: ErrorKind, line: int) -> ReportView {
    ReportView { line, location: Seq::empty(), msg: kind.message_text() }
}

impl View for Report {
    type V = ReportView;

    open spec fn view(&self) -> ReportView {
        ReportView { line: self.line as int, location: self.location@, msg: self.msg@ }
    }
}

impl Report {
    pub fn new(line: usize, location: String, msg: String) -> (report: Self)
        ensures
            report.line == line,
            report.location == location,
            report.msg == msg,
    {
        Report { line, location, msg }
    }
}

/// The views of a sequence of reports, in order.
pub open spec fn report_views(reports: Seq<Report>) -> Seq<ReportView> {
    Seq::new(reports.len(), |i: int| reports[i]@)
}

} // verus!
