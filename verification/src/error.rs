//! The closed error taxonomy of the extraction pipeline.
//!
//! Each variant stands for one precise way an invocation can fail, and
//! carries only the context needed for diagnosis: the offending text of a
//! field that would not parse, or the number of values actually found.

use vstd::prelude::*;
use crate::numbers::dec_str;
use crate::numbers::usize_to_string;

verus! {

/// The mathematical form of a [`ScrapeError`]: the same variants, with text
/// as a sequence of characters.
pub enum ScrapeErrorSpec {
    /// The fetch came back with a non-success status.
    InvalidIdentifier,
    /// The summary table or the histogram container is absent.
    TableNotFound,
    /// The name element is absent.
    NameNotFound,
    /// A summary-table value cell is not a valid integer.
    ParseError(Seq<char>),
    /// Fewer than three summary values parsed; holds the number found.
    InsufficientData(int),
    /// A histogram year label is not a valid integer.
    YearParseError(Seq<char>),
    /// A histogram citation-count label is not a valid integer.
    CitationParseError(Seq<char>),
}

/// One error per way the page can fail to match expectations.
#[derive(Debug, PartialEq, Eq)]
pub enum ScrapeError {
    /// The fetch came back with a non-success status: no such profile, or
    /// the identifier is malformed.
    InvalidIdentifier,
    /// The summary table or the histogram container is absent from the page.
    TableNotFound,
    /// The name element is absent from the page.
    NameNotFound,
    /// A summary-table value cell is not a valid integer; holds its text.
    ParseError(String),
    /// Fewer than three summary values parsed; holds the number found.
    InsufficientData(usize),
    /// A histogram year label is not a valid integer; holds its text.
    YearParseError(String),
    /// A histogram citation-count label is not a valid integer; holds its
    /// text.
    CitationParseError(String),
}

impl View for ScrapeError {
    type V = ScrapeErrorSpec;

    open spec fn view(&self) -> ScrapeErrorSpec {
        match self {
            ScrapeError::InvalidIdentifier => ScrapeErrorSpec::InvalidIdentifier,
            ScrapeError::TableNotFound => ScrapeErrorSpec::TableNotFound,
            ScrapeError::NameNotFound => ScrapeErrorSpec::NameNotFound,
            ScrapeError::ParseError(s) => ScrapeErrorSpec::ParseError(s@),
            ScrapeError::InsufficientData(n) => ScrapeErrorSpec::InsufficientData(*n as int),
            ScrapeError::YearParseError(s) => ScrapeErrorSpec::YearParseError(s@),
            ScrapeError::CitationParseError(s) => ScrapeErrorSpec::CitationParseError(s@),
        }
    }
}

/// The human-readable description of each error.
pub open spec fn error_text(e: ScrapeErrorSpec) -> Seq<char> {
    match e {
        ScrapeErrorSpec::InvalidIdentifier => "Website not found. Check the ID."@,
        ScrapeErrorSpec::TableNotFound => "Failed to find the citation table on the website"@,
        ScrapeErrorSpec::NameNotFound => "Failed to find the name on the website"@,
        ScrapeErrorSpec::ParseError(s) => "Failed to parse value: "@ + s,
        ScrapeErrorSpec::InsufficientData(n) => "Insufficient data: expected 3 values, found "@
            + dec_str(n as nat),
        ScrapeErrorSpec::YearParseError(s) => "Failed to parse year: "@ + s,
        ScrapeErrorSpec::CitationParseError(s) => "Failed to parse citation count: "@ + s,
    }
}

impl ScrapeError {
    /// Renders the error as its human-readable description, for the display
    /// boundary where every failure becomes plain text.
    pub fn describe(&self) -> (r: String)
        ensures
            r@ == error_text(self@),
    {
        match self {
            ScrapeError::InvalidIdentifier => String::from_str("Website not found. Check the ID."),
            ScrapeError::TableNotFound => String::from_str(
                "Failed to find the citation table on the website",
            ),
            ScrapeError::NameNotFound => String::from_str("Failed to find the name on the website"),
            ScrapeError::ParseError(s) => {
                let mut r = String::from_str("Failed to parse value: ");
                r.append(s.as_str());
                r
            },
            ScrapeError::InsufficientData(n) => {
                let mut r = String::from_str("Insufficient data: expected 3 values, found ");
                let num = usize_to_string(*n);
                r.append(num.as_str());
                r
            },
            ScrapeError::YearParseError(s) => {
                let mut r = String::from_str("Failed to parse year: ");
                r.append(s.as_str());
                r
            },
            ScrapeError::CitationParseError(s) => {
                let mut r = String::from_str("Failed to parse citation count: ");
                r.append(s.as_str());
                r
            },
        }
    }
}

} // verus!
