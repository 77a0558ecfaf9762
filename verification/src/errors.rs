//! Error taxonomy for the whole library.
//!
//! Completion-provider failures are fatal to a request, tool-provider
//! failures are folded back into the conversation, and validation
//! failures are rejected before any event stream is opened.

use vstd::prelude::*;

verus! {

/// All failures the library reports.
#[derive(Debug)]
pub enum AppError {
    /// The completion provider call failed; fatal to the request.
    Ollama(String),
    /// The search provider call failed; non-fatal, folded into the turn.
    BraveSearch(String),
    /// The page fetch failed; non-fatal, folded into the turn.
    PageFetch(String),
    /// The request named no known session.
    SessionNotFound,
    /// The request itself was malformed (for example an empty message).
    InvalidRequest(String),
}

impl AppError {
    /// The human-readable description of the error.
    pub open spec fn spec_message(&self) -> Seq<char> {
        match self {
            AppError::Ollama(s) => "Ollama error: "@ + s@,
            AppError::BraveSearch(s) => "Brave search error: "@ + s@,
            AppError::PageFetch(s) => "Page fetch error: "@ + s@,
            AppError::SessionNotFound => "Session not found"@,
            AppError::InvalidRequest(s) => "Invalid request: "@ + s@,
        }
    }

    /// Renders the human-readable description of the error.
    pub fn message(&self) -> (r: String)
        ensures
            r@ == self.spec_message(),
    {
        match self {
            AppError::Ollama(s) => {
                let mut r = String::new();
                r.append("Ollama error: ");
                r.append(s.as_str());
                proof {
                    assert(r@ =~= self.spec_message());
                }
                r
            },
            AppError::BraveSearch(s) => {
                let mut r = String::new();
                r.append("Brave search error: ");
                r.append(s.as_str());
                proof {
                    assert(r@ =~= self.spec_message());
                }
                r
            },
            AppError::PageFetch(s) => {
                let mut r = String::new();
                r.append("Page fetch error: ");
                r.append(s.as_str());
                proof {
                    assert(r@ =~= self.spec_message());
                }
                r
            },
            AppError::SessionNotFound => "Session not found".to_owned(),
            AppError::InvalidRequest(s) => {
                let mut r = String::new();
                r.append("Invalid request: ");
                r.append(s.as_str());
                proof {
                    assert(r@ =~= self.spec_message());
                }
                r
            },
        }
    }

    /// The HTTP status code this error maps to at the transport boundary.
    pub fn status_code(&self) -> (code: u16)
        ensures
            code == match self {
                AppError::SessionNotFound => 404u16,
                AppError::InvalidRequest(_) => 400u16,
                _ => 500u16,
            },
    {
        match self {
            AppError::SessionNotFound => 404,
            AppError::InvalidRequest(_) => 400,
            _ => 500,
        }
    }
}

} // verus!
