//! Tool executor result shaping.
//!
//! The executor never raises a propagating failure: every tool outcome —
//! success or failure — becomes one [`ToolResult`] whose `success` flag and
//! formatted `content` block carry the whole story. The network calls live
//! with the application, which hands their outcomes to the shapers here.

use vstd::prelude::*;

use crate::errors::AppError;
use crate::search::{
    format_results, format_search_error, results_view, spec_format_results,
    spec_format_search_error, SearchResult,
};
use crate::fetch::{format_fetch_error, spec_format_fetch_error};

verus! {

/// What one tool invocation produced. Failure is encoded, never raised:
/// `success` is false and `content` holds a formatted failure block. The
/// content is always wrapped in explicit begin/end markers, so it stays
/// distinguishable from model-authored text when re-injected into history.
#[derive(Debug)]
pub struct ToolResult {
    pub tool: String,
    pub success: bool,
    pub content: String,
}

/// Shapes one search outcome into a tool result. A provider success — even
/// with zero hits — is a success; only a failed provider call fails, its
/// message rendered into the block.
pub fn search_result_of(query: &str, outcome: Result<Vec<SearchResult>, AppError>) -> (r:
    ToolResult)
    ensures
        r.tool@ == "search"@,
        outcome matches Ok(results) ==> r.success && r.content@ == spec_format_results(
            query@,
            results_view(results@),
        ),
        outcome matches Err(e) ==> !r.success && r.content@ == spec_format_search_error(
            e.spec_message(),
        ),
{
    match outcome {
        Ok(results) => ToolResult {
            tool: "search".to_owned(),
            success: true,
            content: format_results(query, &results),
        },
        Err(e) => {
            let msg = e.message();
            ToolResult {
                tool: "search".to_owned(),
                success: false,
                content: format_search_error(msg.as_str()),
            }
        },
    }
}

/// Shapes one fetch outcome into a tool result: a fetched block passes
/// through unchanged, a failure is rendered into an error block.
pub fn fetch_result_of(url: &str, outcome: Result<String, AppError>) -> (r: ToolResult)
    ensures
        r.tool@ == "fetch"@,
        outcome matches Ok(content) ==> r.success && r.content@ == content@,
        outcome matches Err(e) ==> !r.success && r.content@ == spec_format_fetch_error(
            url@,
            e.spec_message(),
        ),
{
    match outcome {
        Ok(content) => ToolResult { tool: "fetch".to_owned(), success: true, content },
        Err(e) => {
            let msg = e.message();
            ToolResult {
                tool: "fetch".to_owned(),
                success: false,
                content: format_fetch_error(url, msg.as_str()),
            }
        },
    }
}

} // verus!
