//! Tool invocation parser.
//!
//! Model responses may request tools through inline markup spans:
//! `<search>query</search>` and `<fetch>url</fetch>`. Spans are matched
//! non-greedily, may span several lines, and captures that are empty after
//! trimming are dropped. All search calls are returned first, in order of
//! appearance, then all fetch calls, in order of appearance: the two kinds
//! are deliberately not interleaved in textual order.

use vstd::prelude::*;

use crate::text::{chars_to_string, copy_range, spec_trim, to_char_vec, trim_vec};

verus! {

/// One tool invocation requested by the model.
#[derive(Debug)]
pub enum ToolCall {
    Search { query: String },
    Fetch { url: String },
}

/// The mathematical value of a [`ToolCall`].
pub enum CallView {
    Search { query: Seq<char> },
    Fetch { url: Seq<char> },
}

impl View for ToolCall {
    type V = CallView;

    open spec fn view(&self) -> CallView {
        match self {
            ToolCall::Search { query } => CallView::Search { query: query@ },
            ToolCall::Fetch { url } => CallView::Fetch { url: url@ },
        }
    }
}

impl Clone for ToolCall {
    /// Cloning preserves the call's value.
    fn clone(&self) -> (r: ToolCall)
        ensures
            r@ == self@,
    {
        match self {
            ToolCall::Search { query } => ToolCall::Search { query: query.clone() },
            ToolCall::Fetch { url } => ToolCall::Fetch { url: url.clone() },
        }
    }
}

impl ToolCall {
    /// The wire name of the requested tool.
    pub fn name(&self) -> (r: &'static str)
        ensures
            self is Search ==> r@ == "search"@,
            self is Fetch ==> r@ == "fetch"@,
    {
        match self {
            ToolCall::Search { .. } => "search",
            ToolCall::Fetch { .. } => "fetch",
        }
    }

    /// The capture the call carries: the query of a search, the url of a fetch.
    pub open spec fn spec_query(&self) -> Seq<char> {
        match self {
            ToolCall::Search { query } => query@,
            ToolCall::Fetch { url } => url@,
        }
    }

    /// The capture the call carries: the query of a search, the url of a fetch.
    pub fn query(&self) -> (r: &str)
        ensures
            r@ == self.spec_query(),
    {
        match self {
            ToolCall::Search { query } => query.as_str(),
            ToolCall::Fetch { url } => url.as_str(),
        }
    }
}

/// `pat` occurs in `hay` starting at position `i`.
pub open spec fn match_at(hay: Seq<char>, pat: Seq<char>, i: int) -> bool {
    0 <= i && i + pat.len() <= hay.len() && hay.subrange(i, i + pat.len() as int) == pat
}

/// The position of the first occurrence of `pat` in `hay` at or after `from`.
pub open spec fn spec_find_from(hay: Seq<char>, pat: Seq<char>, from: int) -> Option<int>
    decreases hay.len() - from,
{
    if pat.len() == 0 || from + pat.len() > hay.len() {
        None
    } else if match_at(hay, pat, from) {
        Some(from)
    } else {
        spec_find_from(hay, pat, from + 1)
    }
}

/// What a `Some` answer of [`spec_find_from`] means: a first match.
proof fn lemma_find_from_some(hay: Seq<char>, pat: Seq<char>, from: int, s: int)
    requires
        spec_find_from(hay, pat, from) == Some(s),
    ensures
        from <= s,
        s + pat.len() <= hay.len(),
        match_at(hay, pat, s),
        forall|k: int| from <= k < s ==> !match_at(hay, pat, k),
    decreases hay.len() - from,
{
    if pat.len() == 0 || from + pat.len() > hay.len() {
    } else if match_at(hay, pat, from) {
    } else {
        lemma_find_from_some(hay, pat, from + 1, s);
    }
}

/// The captures of all `open .. close` spans of `hay` at or after `from`,
/// scanning left to right, each span closed by the nearest later `close`.
pub open spec fn spec_captures_from(
    hay: Seq<char>,
    open: Seq<char>,
    close: Seq<char>,
    from: int,
) -> Seq<Seq<char>>
    decreases hay.len() - from,
    via spec_captures_from_dec
{
    if open.len() == 0 || close.len() == 0 {
        Seq::empty()
    } else {
        match spec_find_from(hay, open, from) {
            Option::None => Seq::empty(),
            Option::Some(s) => match spec_find_from(hay, close, s + open.len()) {
                Option::None => Seq::empty(),
                Option::Some(e) => Seq::empty().push(hay.subrange(s + open.len(), e))
                    + spec_captures_from(hay, open, close, e + close.len()),
            },
        }
    }
}

#[via_fn]
proof fn spec_captures_from_dec(hay: Seq<char>, open: Seq<char>, close: Seq<char>, from: int) {
    if open.len() > 0 && close.len() > 0 {
        match spec_find_from(hay, open, from) {
            Option::None => {},
            Option::Some(s) => {
                lemma_find_from_some(hay, open, from, s);
                match spec_find_from(hay, close, s + open.len()) {
                    Option::None => {},
                    Option::Some(e) => {
                        lemma_find_from_some(hay, close, s + open.len() as int, e);
                    },
                }
            },
        }
    }
}

/// The captures of `caps` trimmed, with those that trim to nothing dropped.
pub open spec fn trim_nonempty(caps: Seq<Seq<char>>) -> Seq<Seq<char>>
    decreases caps.len(),
{
    if caps.len() == 0 {
        Seq::empty()
    } else {
        let rest = trim_nonempty(caps.drop_last());
        let t = spec_trim(caps.last());
        if t.len() > 0 {
            rest.push(t)
        } else {
            rest
        }
    }
}

/// The text of `spans` spans of `text`.
pub open spec fn spans_text(text: Seq<char>, spans: Seq<(usize, usize)>) -> Seq<Seq<char>> {
    spans.map_values(|p: (usize, usize)| text.subrange(p.0 as int, p.1 as int))
}

/// The parse result: all trimmed non-empty search captures, as search calls,
/// followed by all trimmed non-empty fetch captures, as fetch calls.
pub open spec fn spec_parse_tool_calls(text: Seq<char>) -> Seq<CallView> {
    trim_nonempty(spec_captures_from(text, "<search>"@, "</search>"@, 0)).map_values(
        |q: Seq<char>| CallView::Search { query: q },
    ) + trim_nonempty(spec_captures_from(text, "<fetch>"@, "</fetch>"@, 0)).map_values(
        |u: Seq<char>| CallView::Fetch { url: u },
    )
}

/// A full `open .. close` span exists in `text`: the markup syntax occurs,
/// whether or not its capture survives trimming.
pub open spec fn spec_has_tool_calls(text: Seq<char>) -> bool {
    spec_captures_from(text, "<search>"@, "</search>"@, 0).len() > 0
    || spec_captures_from(text, "<fetch>"@, "</fetch>"@, 0).len() > 0
}

/// The views of a sequence of calls.
pub open spec fn calls_view(s: Seq<ToolCall>) -> Seq<CallView> {
    s.map_values(|c: ToolCall| c@)
}

pub(crate) fn match_window(hay: &Vec<char>, pat: &Vec<char>, i: usize) -> (r: bool)
    requires
        i + pat.len() <= hay.len(),
    ensures
        r == match_at(hay@, pat@, i as int),
{
    let m = pat.len();
    let mut k: usize = 0;
    while k < m
        invariant
            m == pat.len(),
            i + m <= hay.len(),
            k <= m,
            forall|t: int| 0 <= t < k ==> hay@[i + t] == pat@[t],
        decreases m - k,
    {
        if hay[i + k] != pat[k] {
            proof {
                assert(hay@.subrange(i as int, i + m as int)[k as int] != pat@[k as int]);
            }
            return false;
        }
        k += 1;
    }
    proof {
        assert(hay@.subrange(i as int, i + m as int) =~= pat@);
    }
    true
}

/// The first occurrence of `pat` in `hay` at or after `from`, if any.
pub(crate) fn find_from(hay: &Vec<char>, pat: &Vec<char>, from: usize) -> (r: Option<usize>)
    requires
        pat.len() >= 1,
    ensures
        r is Some ==> spec_find_from(hay@, pat@, from as int) == Some(r->Some_0 as int),
        r is None ==> spec_find_from(hay@, pat@, from as int) is None,
{
    let n = hay.len();
    let m = pat.len();
    if m > n {
        return None;
    }
    if from > n - m {
        return None;
    }
    let mut i: usize = from;
    while i <= n - m
        invariant
            1 <= m <= n,
            n == hay.len(),
            m == pat.len(),
            from <= i <= n - m + 1,
            spec_find_from(hay@, pat@, from as int) == spec_find_from(hay@, pat@, i as int),
        decreases n - i,
    {
        if match_window(hay, pat, i) {
            return Some(i);
        }
        i += 1;
    }
    None
}

/// All `open .. close` capture spans of `text`, in order of appearance.
/// Each span is the half-open character range of one capture.
fn raw_captures(text: &Vec<char>, open: &Vec<char>, close: &Vec<char>) -> (spans: Vec<
    (usize, usize),
>)
    requires
        open.len() >= 1,
        close.len() >= 1,
    ensures
        spans_text(text@, spans@) == spec_captures_from(text@, open@, close@, 0),
        forall|k: int| 0 <= k < spans@.len() ==> (#[trigger] spans@[k]).0 <= spans@[k].1 <= text@.len(),
{
    let mut spans: Vec<(usize, usize)> = Vec::new();
    let mut pos: usize = 0;
    loop
        invariant
            open.len() >= 1,
            close.len() >= 1,
            pos <= text.len(),
            spec_captures_from(text@, open@, close@, 0) == spans_text(text@, spans@)
                + spec_captures_from(text@, open@, close@, pos as int),
            forall|k: int| 0 <= k < spans@.len() ==> (#[trigger] spans@[k]).0 <= spans@[k].1 <= text@.len(),
        ensures
            spans_text(text@, spans@) == spec_captures_from(text@, open@, close@, 0),
            forall|k: int| 0 <= k < spans@.len() ==> (#[trigger] spans@[k]).0 <= spans@[k].1 <= text@.len(),
        decreases text.len() - pos,
    {
        let found_open = find_from(text, open, pos);
        match found_open {
            None => {
                proof {
                    assert(spec_captures_from(text@, open@, close@, pos as int)
                        =~= Seq::<Seq<char>>::empty());
                    assert(spans_text(text@, spans@) + Seq::<Seq<char>>::empty()
                        =~= spans_text(text@, spans@));
                }
                break;
            },
            Some(s) => {
                proof {
                    lemma_find_from_some(text@, open@, pos as int, s as int);
                }
                let cap_start = s + open.len();
                let found_close = find_from(text, close, cap_start);
                match found_close {
                    None => {
                        proof {
                            assert(spec_captures_from(text@, open@, close@, pos as int)
                                =~= Seq::<Seq<char>>::empty());
                            assert(spans_text(text@, spans@) + Seq::<Seq<char>>::empty()
                                =~= spans_text(text@, spans@));
                        }
                        break;
                    },
                    Some(e) => {
                        proof {
                            lemma_find_from_some(text@, close@, cap_start as int, e as int);
                            let cap = text@.subrange(cap_start as int, e as int);
                            assert(spans_text(text@, spans@.push((cap_start, e)))
                                =~= spans_text(text@, spans@).push(cap));
                            assert(spec_captures_from(text@, open@, close@, pos as int)
                                =~= Seq::<Seq<char>>::empty().push(cap)
                                + spec_captures_from(text@, open@, close@, e + close@.len()));
                            assert(spans_text(text@, spans@).push(cap)
                                + spec_captures_from(text@, open@, close@, e + close@.len())
                                =~= spans_text(text@, spans@)
                                + (Seq::<Seq<char>>::empty().push(cap)
                                    + spec_captures_from(text@, open@, close@, e + close@.len())));
                        }
                        spans.push((cap_start, e));
                        pos = e + close.len();
                    },
                }
            },
        }
    }
    spans
}

/// Turns the spans of one kind of capture into trimmed, non-empty strings.
fn extract_trimmed(text: &Vec<char>, spans: &Vec<(usize, usize)>) -> (out: Vec<String>)
    requires
        forall|k: int| 0 <= k < spans@.len() ==> (#[trigger] spans@[k]).0 <= spans@[k].1 <= text@.len(),
    ensures
        out@.map_values(|s: String| s@) == trim_nonempty(spans_text(text@, spans@)),
{
    let mut out: Vec<String> = Vec::new();
    let mut i: usize = 0;
    while i < spans.len()
        invariant
            i <= spans.len(),
            forall|k: int| 0 <= k < spans@.len() ==> (#[trigger] spans@[k]).0 <= spans@[k].1 <= text@.len(),
            out@.map_values(|s: String| s@) == trim_nonempty(spans_text(text@, spans@.take(i as int))),
        decreases spans.len() - i,
    {
        let (a, b) = spans[i];
        let cap = copy_range(text, a, b);
        let trimmed = trim_vec(&cap);
        proof {
            let prefix = spans_text(text@, spans@.take(i as int));
            let next = spans_text(text@, spans@.take(i + 1));
            assert(next.drop_last() =~= prefix);
            assert(next.last() == text@.subrange(
                spans@[i as int].0 as int,
                spans@[i as int].1 as int,
            ));
        }
        if trimmed.len() > 0 {
            let ghost prev = out@;
            out.push(chars_to_string(&trimmed));
            proof {
                assert(out@.map_values(|s: String| s@) =~= prev.map_values(
                    |s: String| s@,
                ).push(trimmed@));
            }
        }
        i += 1;
    }
    proof {
        assert(spans@.take(spans@.len() as int) =~= spans@);
    }
    out
}

/// Extracts the ordered tool invocations of one model response.
///
/// All search spans come first, in order of appearance, then all fetch
/// spans, in order of appearance. A capture that is empty after trimming
/// is dropped.
pub fn parse_tool_calls(text: &str) -> (calls: Vec<ToolCall>)
    ensures
        calls_view(calls@) == spec_parse_tool_calls(text@),
{
    let cs = to_char_vec(text);
    let sopen = to_char_vec("<search>");
    let sclose = to_char_vec("</search>");
    let fopen = to_char_vec("<fetch>");
    let fclose = to_char_vec("</fetch>");
    proof {
        reveal_strlit("<search>");
        reveal_strlit("</search>");
        reveal_strlit("<fetch>");
        reveal_strlit("</fetch>");
    }
    let sspans = raw_captures(&cs, &sopen, &sclose);
    let fspans = raw_captures(&cs, &fopen, &fclose);
    let queries = extract_trimmed(&cs, &sspans);
    let urls = extract_trimmed(&cs, &fspans);

    let ghost qs = queries@.map_values(|s: String| s@);
    let ghost us = urls@.map_values(|s: String| s@);

    let mut calls: Vec<ToolCall> = Vec::new();
    let mut i: usize = 0;
    while i < queries.len()
        invariant
            i <= queries.len(),
            qs == queries@.map_values(|s: String| s@),
            calls@.len() == i,
            forall|k: int| 0 <= k < i ==> (#[trigger] calls@[k])@ == (CallView::Search {
                query: qs[k],
            }),
        decreases queries.len() - i,
    {
        let q = &queries[i];
        calls.push(ToolCall::Search { query: q.clone() });
        i += 1;
    }
    let mut j: usize = 0;
    while j < urls.len()
        invariant
            j <= urls.len(),
            qs == queries@.map_values(|s: String| s@),
            us == urls@.map_values(|s: String| s@),
            calls@.len() == qs.len() + j,
            forall|k: int| 0 <= k < qs.len() ==> (#[trigger] calls@[k])@ == (CallView::Search {
                query: qs[k],
            }),
            forall|k: int| 0 <= k < j ==> (#[trigger] calls@[qs.len() + k])@ == (CallView::Fetch {
                url: us[k],
            }),
        decreases urls.len() - j,
    {
        let u = &urls[j];
        calls.push(ToolCall::Fetch { url: u.clone() });
        j += 1;
    }
    proof {
        let result = spec_parse_tool_calls(text@);
        assert forall|k: int| 0 <= k < calls@.len() implies calls_view(calls@)[k] == result[k] by {
            assert(calls_view(calls@)[k] == calls@[k]@);
            if k < qs.len() {
                assert(calls@[k]@ == (CallView::Search { query: qs[k] }));
                assert(result[k] == (CallView::Search { query: qs[k] }));
            } else {
                assert(calls@[qs.len() + (k - qs.len())]@ == (CallView::Fetch {
                    url: us[k - qs.len()],
                }));
                assert(result[k] == (CallView::Fetch { url: us[k - qs.len()] }));
            }
        }
        assert(calls_view(calls@) =~= result);
    }
    calls
}

/// Whether the response text holds any complete tool markup span at all,
/// even one whose capture would be dropped after trimming.
pub fn has_tool_calls(text: &str) -> (r: bool)
    ensures
        r == spec_has_tool_calls(text@),
{
    let cs = to_char_vec(text);
    let sopen = to_char_vec("<search>");
    let sclose = to_char_vec("</search>");
    let fopen = to_char_vec("<fetch>");
    let fclose = to_char_vec("</fetch>");
    proof {
        reveal_strlit("<search>");
        reveal_strlit("</search>");
        reveal_strlit("<fetch>");
        reveal_strlit("</fetch>");
    }
    let sspans = raw_captures(&cs, &sopen, &sclose);
    if sspans.len() > 0 {
        proof {
            assert(spans_text(text@, sspans@).len() > 0);
        }
        return true;
    }
    let fspans = raw_captures(&cs, &fopen, &fclose);
    proof {
        assert(spans_text(text@, sspans@).len() == 0);
        if fspans@.len() > 0 {
            assert(spans_text(text@, fspans@).len() > 0);
        } else {
            assert(spans_text(text@, fspans@).len() == 0);
        }
    }
    fspans.len() > 0
}

/// In any parse result, once a fetch call appears, every later call is a
/// fetch call too: search calls always precede fetch calls.
pub proof fn lemma_search_before_fetch(text: Seq<char>, i: int, j: int)
    requires
        0 <= i < j < spec_parse_tool_calls(text).len(),
        spec_parse_tool_calls(text)[i] is Fetch,
    ensures
        spec_parse_tool_calls(text)[j] is Fetch,
{
    let searches = trim_nonempty(spec_captures_from(text, "<search>"@, "</search>"@, 0)).map_values(
        |q: Seq<char>| CallView::Search { query: q },
    );
    let fetches = trim_nonempty(spec_captures_from(text, "<fetch>"@, "</fetch>"@, 0)).map_values(
        |u: Seq<char>| CallView::Fetch { url: u },
    );
    assert(forall|k: int| 0 <= k < searches.len() ==> #[trigger] searches[k] is Search);
    assert(forall|k: int| 0 <= k < fetches.len() ==> #[trigger] fetches[k] is Fetch);
    assert(i >= searches.len());
}

} // verus!
