//! Error taxonomy: extraction failures (bad page content) and fetch failures
//! (a page that could not be retrieved or whose shape is not recognized).

use vstd::prelude::*;

verus! {

/// A failure while extracting structured data from page content.
#[derive(Debug, Clone, Copy, PartialEq, Eq, Structural)]
pub enum ExtractionError {
    /// The marker string that introduces an embedded JSON block is absent.
    MarkerNotFound,
    /// Bracket depth never returned to zero before the input was exhausted.
    UnbalancedBrackets,
    /// A required attribute or JSON field is absent.
    MissingField,
    /// A timestamp failed to parse.
    MalformedTimestamp,
}

/// A failure while turning a fetched page into a typed record.
#[derive(Debug, Clone, Copy, PartialEq, Eq, Structural)]
pub enum FetchError {
    /// The page could not be retrieved at all.
    NotFound,
    /// The page was retrieved but its shape matched no known layout.
    UnrecognizedLayout,
}

impl ExtractionError {
    /// A short human-readable description.
    pub fn describe(&self) -> (r: &'static str)
        ensures
            self is MarkerNotFound ==> r@ == "marker not found"@,
            self is UnbalancedBrackets ==> r@ == "unbalanced brackets"@,
            self is MissingField ==> r@ == "missing field"@,
            self is MalformedTimestamp ==> r@ == "malformed timestamp"@,
    {
        match self {
            ExtractionError::MarkerNotFound => "marker not found",
            ExtractionError::UnbalancedBrackets => "unbalanced brackets",
            ExtractionError::MissingField => "missing field",
            ExtractionError::MalformedTimestamp => "malformed timestamp",
        }
    }
}

impl FetchError {
    /// A short human-readable description.
    pub fn describe(&self) -> (r: &'static str)
        ensures
            self is NotFound ==> r@ == "not found"@,
            self is UnrecognizedLayout ==> r@ == "unrecognized layout"@,
    {
        match self {
            FetchError::NotFound => "not found",
            FetchError::UnrecognizedLayout => "unrecognized layout",
        }
    }
}

} // verus!
