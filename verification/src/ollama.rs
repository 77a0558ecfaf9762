//! Completion provider wire shapes the library reads.

use vstd::prelude::*;

use crate::session::ChatMessage;

verus! {

/// One response unit of the completion provider: in a non-streaming call
/// the single complete answer, in a streaming call one delta.
#[derive(Debug)]
pub struct OllamaChatChunk {
    pub model: String,
    pub message: ChatMessage,
    pub done: bool,
    pub done_reason: Option<String>,
}

} // verus!
