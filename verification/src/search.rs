//! Search provider data model and result formatting.
//!
//! The network call itself lives with the application; this module owns the
//! shapes a search exchanges and the exact text of the blocks fed back into
//! the conversation.

use vstd::prelude::*;

use crate::text::{spec_dec, u64_to_string};

verus! {

/// The fixed ceiling on hits requested from the search provider.
pub const SEARCH_RESULT_COUNT: u8 = 10;

/// One search hit: title, address and snippet.
#[derive(Debug)]
pub struct SearchResult {
    pub title: String,
    pub url: String,
    pub description: String,
    pub age: Option<String>,
}

/// The parts of a [`SearchResult`] its rendering depends on.
#[verifier::ext_equal]
pub struct SearchResultView {
    pub title: Seq<char>,
    pub url: Seq<char>,
    pub description: Seq<char>,
}

impl View for SearchResult {
    type V = SearchResultView;

    open spec fn view(&self) -> SearchResultView {
        SearchResultView {
            title: self.title@,
            url: self.url@,
            description: self.description@,
        }
    }
}

/// The values of a sequence of hits.
pub open spec fn results_view(s: Seq<SearchResult>) -> Seq<SearchResultView> {
    s.map_values(|r: SearchResult| r@)
}

/// The hit list block of the search provider's response envelope.
#[derive(Debug)]
pub struct WebResults {
    pub results: Vec<SearchResult>,
}

/// The search provider's response envelope.
#[derive(Debug)]
pub struct BraveSearchResponse {
    pub web: Option<WebResults>,
}

impl BraveSearchResponse {
    /// The hits the envelope carries; an absent `web` block means none.
    pub fn into_results(self) -> (r: Vec<SearchResult>)
        ensures
            self.web matches Some(w) ==> r@ == w.results@,
            self.web is None ==> r@.len() == 0,
    {
        match self.web {
            Some(w) => w.results,
            None => Vec::new(),
        }
    }
}

/// One hit as a text block for the model's context window.
pub open spec fn spec_format_for_context(r: SearchResultView) -> Seq<char> {
    "Title: "@ + r.title + "\nURL: "@ + r.url + "\nSnippet: "@ + r.description
}

impl SearchResult {
    /// Renders the hit as a text block for the model's context window.
    pub fn format_for_context(&self) -> (out: String)
        ensures
            out@ == spec_format_for_context(self@),
    {
        let mut out = String::new();
        out.append("Title: ");
        out.append(self.title.as_str());
        out.append("\nURL: ");
        out.append(self.url.as_str());
        out.append("\nSnippet: ");
        out.append(self.description.as_str());
        proof {
            assert(out@ =~= spec_format_for_context(self@));
        }
        out
    }
}

/// The numbered hit list: entry `i` reads `"{i+1}. {hit block}"` followed by
/// a blank line.
pub open spec fn spec_numbered(rs: Seq<SearchResultView>) -> Seq<char>
    decreases rs.len(),
{
    if rs.len() == 0 {
        Seq::empty()
    } else {
        spec_numbered(rs.drop_last()) + spec_dec(rs.len() as int) + ". "@
            + spec_format_for_context(rs.last()) + "\n\n"@
    }
}

/// One whole search block: the quoted query, then the numbered hits — or an
/// explicit note when there are none (zero hits still count as success).
pub open spec fn spec_format_results(query: Seq<char>, rs: Seq<SearchResultView>) -> Seq<char> {
    "[Tool Result: search]\nQuery: \""@ + query + "\"\n\n"@ + (if rs.len() == 0 {
        "No results found.\n"@
    } else {
        spec_numbered(rs)
    }) + "[End Tool Result]"@
}

/// Renders the provider's hits for `query` as one tool result block.
pub fn format_results(query: &str, results: &Vec<SearchResult>) -> (out: String)
    ensures
        out@ == spec_format_results(query@, results_view(results@)),
{
    let mut out = String::new();
    out.append("[Tool Result: search]\nQuery: \"");
    out.append(query);
    out.append("\"\n\n");
    if results.len() == 0 {
        out.append("No results found.\n");
    } else {
        let ghost rvs = results_view(results@);
        let ghost prefix = out@;
        let mut i: usize = 0;
        while i < results.len()
            invariant
                i <= results.len(),
                rvs == results_view(results@),
                out@ == prefix + spec_numbered(rvs.take(i as int)),
            decreases results.len() - i,
        {
            let num = u64_to_string((i + 1) as u64);
            out.append(num.as_str());
            out.append(". ");
            let block = results[i].format_for_context();
            out.append(block.as_str());
            out.append("\n\n");
            proof {
                assert(rvs.take(i + 1).drop_last() =~= rvs.take(i as int));
                assert(rvs.take(i + 1).last() == rvs[i as int]);
                assert(out@ =~= prefix + spec_numbered(rvs.take(i + 1)));
            }
            i += 1;
        }
        proof {
            assert(rvs.take(rvs.len() as int) =~= rvs);
        }
    }
    out.append("[End Tool Result]");
    proof {
        assert(out@ =~= spec_format_results(query@, results_view(results@)));
    }
    out
}

/// A failed search call as one tool result block.
pub open spec fn spec_format_search_error(error: Seq<char>) -> Seq<char> {
    "[Tool Result: search]\nError: "@ + error + "\n[End Tool Result]"@
}

/// Renders a failed search call as one tool result block.
pub fn format_search_error(error: &str) -> (out: String)
    ensures
        out@ == spec_format_search_error(error@),
{
    let mut out = String::new();
    out.append("[Tool Result: search]\nError: ");
    out.append(error);
    out.append("\n[End Tool Result]");
    proof {
        assert(out@ =~= spec_format_search_error(error@));
    }
    out
}

} // verus!
