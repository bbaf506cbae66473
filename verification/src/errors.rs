//! The error taxonomy of the crawler. Outside failures reach the library
//! as plain text; structural failures carry the context that names the
//! missing element.

use vstd::prelude::*;

verus! {

/// What can go wrong during a crawl: a transport failure, a failure of
/// the CSV sink, malformed embedded JSON, an I/O failure, a missing
/// structural element, or retry exhaustion on one URL.
#[derive(Debug)]
pub enum ScraperError {
    Request(String),
    Csv(String),
    Json(String),
    Io(String),
    DataNotFound(String),
    MaxRetriesExceeded(String),
}

impl ScraperError {
    /// The one-line description of the error.
    pub open spec fn spec_message(self) -> Seq<char> {
        match self {
            ScraperError::Request(s) => "Request error: "@ + s@,
            ScraperError::Csv(s) => "CSV error: "@ + s@,
            ScraperError::Json(s) => "JSON parsing error: "@ + s@,
            ScraperError::Io(s) => "IO error: "@ + s@,
            ScraperError::DataNotFound(s) => "Data not found: "@ + s@,
            ScraperError::MaxRetriesExceeded(s) => "Max retries exceeded for URL: "@ + s@,
        }
    }

    /// Renders the error as one line of text.
    pub fn message(&self) -> (r: String)
        ensures
            r@ == self.spec_message(),
    {
        match self {
            ScraperError::Request(s) => {
                let mut m = String::from_str("Request error: ");
                m.append(s.as_str());
                m
            },
            ScraperError::Csv(s) => {
                let mut m = String::from_str("CSV error: ");
                m.append(s.as_str());
                m
            },
            ScraperError::Json(s) => {
                let mut m = String::from_str("JSON parsing error: ");
                m.append(s.as_str());
                m
            },
            ScraperError::Io(s) => {
                let mut m = String::from_str("IO error: ");
                m.append(s.as_str());
                m
            },
            ScraperError::DataNotFound(s) => {
                let mut m = String::from_str("Data not found: ");
                m.append(s.as_str());
                m
            },
            ScraperError::MaxRetriesExceeded(s) => {
                let mut m = String::from_str("Max retries exceeded for URL: ");
                m.append(s.as_str());
                m
            },
        }
    }
}

} // verus!
