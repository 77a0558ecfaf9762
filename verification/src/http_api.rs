//! Shapes of the chat protocol's plain request and response bodies.

use vstd::prelude::*;

verus! {

/// The body of one chat request: free-text user content. The session
/// identity travels separately, as a cookie.
#[derive(Debug)]
pub struct ChatInput {
    pub message: String,
}

/// The health report: process status, completion provider reachability,
/// and how many sessions the store holds.
#[derive(Debug)]
pub struct HealthResponse {
    pub status: String,
    pub ollama: String,
    pub sessions: usize,
}

} // verus!
