//! Page fetch pipeline: scheme validation, size gates, readable-text
//! extraction and result rendering.
//!
//! The network call itself lives with the application. Everything decided
//! about a fetch — which URLs are even attempted, which payload sizes are
//! tolerated (checked both from the declared size header and from the bytes
//! actually received), how readable text is chosen and how the block fed
//! back into the conversation reads — is decided here.

use vstd::prelude::*;

use crate::errors::AppError;
use crate::parser::{match_at, match_window};
use crate::text::{
    chars_to_string, is_space, is_space_char, join_blank, spec_dec, spec_join_blank, spec_trim,
    to_char_vec, trim_vec, u64_to_string,
};

verus! {

/// Largest tolerated fetched payload, in bytes.
pub const MAX_CONTENT_SIZE: usize = 1000000;

/// Longest rendered page text, in characters.
pub const MAX_OUTPUT_CHARS: usize = 4000;

/// Seconds before the application's fetch client gives up on a call.
pub const FETCH_TIMEOUT_SECS: u64 = 10;

/// What the markup document yields for a selector: for each matching
/// element of the parsed document, in document order, the element's text
/// nodes joined by single spaces. Named here because stating a full markup
/// parse is beyond a contract; the result is a function of the two
/// arguments alone.
pub uninterp spec fn texts_in(html: Seq<char>, selector: Seq<char>) -> Seq<Seq<char>>;

/// Relies on scraper's `Html::parse_document`, `Selector::parse` and
/// `ElementRef::text`: returns, for each element matching `selector` in
/// document order, the element's text joined by single spaces. An
/// unparsable selector selects nothing.
#[verifier::external_body]
fn texts_matching(html: &str, selector: &str) -> (r: Vec<String>)
    ensures
        r@.map_values(|s: String| s@) == texts_in(html@, selector@),
{
    let doc = scraper::Html::parse_document(html);
    match scraper::Selector::parse(selector) {
        Ok(sel) => doc.select(&sel).map(
            |e| e.text().collect::<Vec<_>>().join(" "),
        ).collect(),
        Err(_) => Vec::new(),
    }
}

/// What lossy UTF-8 decoding yields for a byte payload. Named here because
/// stating the whole decoding is beyond a contract; the result is a
/// function of the bytes alone.
pub uninterp spec fn lossy_utf8(bytes: Seq<u8>) -> Seq<char>;

/// Relies on `String::from_utf8_lossy`: decodes the bytes as UTF-8,
/// replacing invalid sequences; the result depends on the bytes alone.
#[verifier::external_body]
fn decode_utf8_lossy(bytes: &Vec<u8>) -> (r: String)
    ensures
        r@ == lossy_utf8(bytes@),
{
    String::from_utf8_lossy(bytes).into_owned()
}

/// The whitespace-collapsed text of `s` from position `i` on; `prev_space`
/// tells whether a collapsed space was just written.
pub open spec fn spec_collapse_from(s: Seq<char>, i: int, prev_space: bool) -> Seq<char>
    decreases s.len() - i,
{
    if i < 0 || i >= s.len() {
        Seq::empty()
    } else if is_space_char(s[i]) {
        if prev_space {
            spec_collapse_from(s, i + 1, true)
        } else {
            seq![' '] + spec_collapse_from(s, i + 1, true)
        }
    } else {
        seq![s[i]] + spec_collapse_from(s, i + 1, false)
    }
}

/// Whitespace runs collapsed to single spaces, ends trimmed.
pub open spec fn spec_clean_text(s: Seq<char>) -> Seq<char> {
    spec_trim(spec_collapse_from(s, 0, false))
}

/// Collapses every whitespace run of `v` to a single space and trims the
/// ends.
pub fn clean_text(v: &Vec<char>) -> (r: Vec<char>)
    ensures
        r@ == spec_clean_text(v@),
{
    let mut out: Vec<char> = Vec::new();
    let mut prev_space = false;
    let mut i: usize = 0;
    while i < v.len()
        invariant
            i <= v.len(),
            spec_collapse_from(v@, 0, false) == out@ + spec_collapse_from(
                v@,
                i as int,
                prev_space,
            ),
        decreases v.len() - i,
    {
        let c = v[i];
        let ghost before = out@;
        let ghost was_space = prev_space;
        if is_space(c) {
            if !prev_space {
                out.push(' ');
            }
            prev_space = true;
        } else {
            out.push(c);
            prev_space = false;
        }
        proof {
            assert(spec_collapse_from(v@, 0, false) =~= out@ + spec_collapse_from(
                v@,
                i + 1,
                prev_space,
            ));
        }
        i += 1;
    }
    proof {
        assert(out@ =~= spec_collapse_from(v@, 0, false));
    }
    trim_vec(&out)
}

/// The cleaned texts of `texts` long enough to count as content: each
/// cleaned, kept when longer than 100 characters.
pub open spec fn spec_content_hits(texts: Seq<Seq<char>>) -> Seq<Seq<char>>
    decreases texts.len(),
{
    if texts.len() == 0 {
        Seq::empty()
    } else {
        let rest = spec_content_hits(texts.drop_last());
        let c = spec_clean_text(texts.last());
        if c.len() > 100 {
            rest.push(c)
        } else {
            rest
        }
    }
}

/// Every text of `texts`, cleaned.
pub open spec fn spec_cleaned_all(texts: Seq<Seq<char>>) -> Seq<Seq<char>>
    decreases texts.len(),
{
    if texts.len() == 0 {
        Seq::empty()
    } else {
        spec_cleaned_all(texts.drop_last()).push(spec_clean_text(texts.last()))
    }
}

fn content_hits(texts: &Vec<String>) -> (out: Vec<String>)
    ensures
        out@.map_values(|s: String| s@) == spec_content_hits(texts@.map_values(|s: String| s@)),
{
    let ghost tv = texts@.map_values(|s: String| s@);
    let mut out: Vec<String> = Vec::new();
    let mut i: usize = 0;
    while i < texts.len()
        invariant
            i <= texts.len(),
            tv == texts@.map_values(|s: String| s@),
            out@.map_values(|s: String| s@) == spec_content_hits(tv.take(i as int)),
        decreases texts.len() - i,
    {
        let cs = to_char_vec(texts[i].as_str());
        let cleaned = clean_text(&cs);
        proof {
            assert(tv.take(i + 1).drop_last() =~= tv.take(i as int));
            assert(tv.take(i + 1).last() == tv[i as int]);
        }
        if cleaned.len() > 100 {
            let ghost prev = out@;
            out.push(chars_to_string(&cleaned));
            proof {
                assert(out@.map_values(|s: String| s@) =~= prev.map_values(|s: String| s@).push(
                    cleaned@,
                ));
            }
        }
        i += 1;
    }
    proof {
        assert(tv.take(tv.len() as int) =~= tv);
    }
    out
}

fn cleaned_all(texts: &Vec<String>) -> (out: Vec<String>)
    ensures
        out@.map_values(|s: String| s@) == spec_cleaned_all(texts@.map_values(|s: String| s@)),
{
    let ghost tv = texts@.map_values(|s: String| s@);
    let mut out: Vec<String> = Vec::new();
    let mut i: usize = 0;
    while i < texts.len()
        invariant
            i <= texts.len(),
            tv == texts@.map_values(|s: String| s@),
            out@.map_values(|s: String| s@) == spec_cleaned_all(tv.take(i as int)),
        decreases texts.len() - i,
    {
        let cs = to_char_vec(texts[i].as_str());
        let cleaned = clean_text(&cs);
        let ghost prev = out@;
        out.push(chars_to_string(&cleaned));
        proof {
            assert(tv.take(i + 1).drop_last() =~= tv.take(i as int));
            assert(tv.take(i + 1).last() == tv[i as int]);
            assert(out@.map_values(|s: String| s@) =~= prev.map_values(|s: String| s@).push(
                cleaned@,
            ));
        }
        i += 1;
    }
    proof {
        assert(tv.take(tv.len() as int) =~= tv);
    }
    out
}

/// The content regions tried, most article-like first.
pub open spec fn spec_region_selectors() -> Seq<Seq<char>> {
    seq![
        "article"@,
        "main"@,
        "[role=\"main\"]"@,
        ".content"@,
        "#content"@,
        ".post-content"@,
        ".article-content"@,
    ]
}

/// The first region selector (from `idx` on) whose content hits are
/// non-empty decides the main content; none qualifying yields nothing.
pub open spec fn spec_main_content_from(html: Seq<char>, idx: int) -> Seq<Seq<char>>
    decreases spec_region_selectors().len() - idx,
{
    if idx < 0 || idx >= spec_region_selectors().len() {
        Seq::empty()
    } else {
        let hits = spec_content_hits(texts_in(html, spec_region_selectors()[idx]));
        if hits.len() > 0 {
            hits
        } else {
            spec_main_content_from(html, idx + 1)
        }
    }
}

/// The page's text parts: its main regions when any qualifies, else the
/// whole body text.
pub open spec fn spec_page_parts(html: Seq<char>) -> Seq<Seq<char>> {
    let main = spec_main_content_from(html, 0);
    if main.len() > 0 {
        main
    } else {
        spec_cleaned_all(texts_in(html, "body"@))
    }
}

/// The page's text parts with a `Title:` line prepended when the document
/// carries a non-empty title element.
pub open spec fn spec_parts_with_title(html: Seq<char>) -> Seq<Seq<char>> {
    let parts = spec_page_parts(html);
    let titles = texts_in(html, "title"@);
    if titles.len() > 0 && titles[0].len() > 0 {
        seq!["Title: "@ + spec_trim(titles[0]) + "\n"@] + parts
    } else {
        parts
    }
}

/// The readable text of a markup document: main/article-like regions are
/// preferred, the full body text is the fallback, the document title leads
/// when present, and the parts are joined by blank lines.
pub open spec fn spec_extract_text(html: Seq<char>) -> Seq<char> {
    spec_join_blank(spec_parts_with_title(html))
}

/// Extracts readable text from a markup document.
pub fn extract_text(html: &str) -> (r: String)
    ensures
        r@ == spec_extract_text(html@),
{
    let selectors: Vec<&str> = vec![
        "article",
        "main",
        "[role=\"main\"]",
        ".content",
        "#content",
        ".post-content",
        ".article-content",
    ];
    proof {
        assert(selectors@.len() == spec_region_selectors().len());
        assert(selectors@[0]@ == spec_region_selectors()[0]);
        assert(selectors@[1]@ == spec_region_selectors()[1]);
        assert(selectors@[2]@ == spec_region_selectors()[2]);
        assert(selectors@[3]@ == spec_region_selectors()[3]);
        assert(selectors@[4]@ == spec_region_selectors()[4]);
        assert(selectors@[5]@ == spec_region_selectors()[5]);
        assert(selectors@[6]@ == spec_region_selectors()[6]);
    }
    let mut parts: Vec<String> = Vec::new();
    let mut found = false;
    let mut k: usize = 0;
    while k < selectors.len()
        invariant
            k <= selectors@.len(),
            selectors@.len() == spec_region_selectors().len(),
            forall|t: int|
                0 <= t < selectors@.len() ==> (#[trigger] selectors@[t])@
                    == spec_region_selectors()[t],
            !found ==> parts@.len() == 0 && spec_main_content_from(html@, 0)
                == spec_main_content_from(html@, k as int),
            found ==> parts@.map_values(|s: String| s@) == spec_main_content_from(html@, 0)
                && parts@.len() > 0,
        decreases selectors@.len() - k,
    {
        if !found {
            let texts = texts_matching(html, selectors[k]);
            let hits = content_hits(&texts);
            if hits.len() > 0 {
                parts = hits;
                found = true;
            }
        }
        k += 1;
    }
    if !found {
        let texts = texts_matching(html, "body");
        parts = cleaned_all(&texts);
    }
    let ghost page_parts = parts@.map_values(|s: String| s@);
    proof {
        assert(page_parts == spec_page_parts(html@));
    }
    let titles = texts_matching(html, "title");
    if titles.len() > 0 && !titles[0].as_str().is_empty() {
        let tc = to_char_vec(titles[0].as_str());
        let tt = trim_vec(&tc);
        let mut tp = String::new();
        tp.append("Title: ");
        tp.append(chars_to_string(&tt).as_str());
        tp.append("\n");
        let ghost before = parts@;
        parts.insert(0, tp);
        proof {
            assert(tp@ =~= "Title: "@ + spec_trim(texts_in(html@, "title"@)[0]) + "\n"@);
            assert(parts@.map_values(|s: String| s@) =~= seq![tp@] + before.map_values(
                |s: String| s@,
            ));
            assert(parts@.map_values(|s: String| s@) =~= spec_parts_with_title(html@));
        }
    } else {
        proof {
            assert(parts@.map_values(|s: String| s@) =~= spec_parts_with_title(html@));
        }
    }
    join_blank(&parts)
}

/// The size-rejection message for a payload of `n` bytes.
pub open spec fn spec_size_error(n: int) -> Seq<char> {
    "Content too large: "@ + spec_dec(n) + " bytes (max "@ + spec_dec(MAX_CONTENT_SIZE as int)
        + ")"@
}

fn size_error(n: u64) -> (r: String)
    ensures
        r@ == spec_size_error(n as int),
{
    let mut r = String::new();
    r.append("Content too large: ");
    let digits = u64_to_string(n);
    r.append(digits.as_str());
    r.append(" bytes (max ");
    let max_digits = u64_to_string(MAX_CONTENT_SIZE as u64);
    r.append(max_digits.as_str());
    r.append(")");
    proof {
        assert(r@ =~= spec_size_error(n as int));
    }
    r
}

/// Size gate on the declared size header: a payload reporting more than
/// [`MAX_CONTENT_SIZE`] bytes is rejected before any byte is downloaded;
/// exactly [`MAX_CONTENT_SIZE`] still passes.
pub fn check_content_length(len: u64) -> (r: Result<(), AppError>)
    ensures
        r is Ok <==> len <= MAX_CONTENT_SIZE as u64,
        r matches Err(e) ==> e matches AppError::PageFetch(m) && m@ == spec_size_error(
            len as int,
        ),
{
    if len > MAX_CONTENT_SIZE as u64 {
        Err(AppError::PageFetch(size_error(len)))
    } else {
        Ok(())
    }
}

/// Size gate on the bytes actually received, covering an absent or wrong
/// declared size: one byte over [`MAX_CONTENT_SIZE`] fails, exactly the
/// limit passes.
pub fn check_body_size(body: &Vec<u8>) -> (r: Result<(), AppError>)
    ensures
        r is Ok <==> body@.len() <= MAX_CONTENT_SIZE,
        r matches Err(e) ==> e matches AppError::PageFetch(m) && m@ == spec_size_error(
            body@.len() as int,
        ),
{
    if body.len() > MAX_CONTENT_SIZE {
        Err(AppError::PageFetch(size_error(body.len() as u64)))
    } else {
        Ok(())
    }
}

/// A URL is attempted only under the `http` or `https` scheme.
pub open spec fn spec_valid_scheme(u: Seq<char>) -> bool {
    match_at(u, "http://"@, 0) || match_at(u, "https://"@, 0)
}

/// Scheme gate, checked before any network call: only `http://` and
/// `https://` URLs are attempted, anything else fails fast.
pub fn validate_url(url: &str) -> (r: Result<(), AppError>)
    ensures
        r is Ok <==> spec_valid_scheme(url@),
        r matches Err(e) ==> e matches AppError::PageFetch(m) && m@
            == "Invalid URL: must start with http:// or https://"@,
{
    let cs = to_char_vec(url);
    let p1 = to_char_vec("http://");
    let p2 = to_char_vec("https://");
    proof {
        reveal_strlit("http://");
        reveal_strlit("https://");
    }
    let ok1 = cs.len() >= 7 && match_window(&cs, &p1, 0);
    let ok2 = cs.len() >= 8 && match_window(&cs, &p2, 0);
    if ok1 || ok2 {
        Ok(())
    } else {
        Err(AppError::PageFetch("Invalid URL: must start with http:// or https://".to_owned()))
    }
}

/// The page text truncated to [`MAX_OUTPUT_CHARS`] characters, an explicit
/// marker appended when truncation occurred.
pub open spec fn spec_truncated(text: Seq<char>) -> Seq<char> {
    if text.len() > MAX_OUTPUT_CHARS {
        text.subrange(0, MAX_OUTPUT_CHARS as int) + "\n\n[Content truncated at "@ + spec_dec(
            MAX_OUTPUT_CHARS as int,
        ) + " characters]"@
    } else {
        text
    }
}

/// One whole fetch block: address, content type, the untruncated length in
/// characters, then the (possibly truncated) page text.
pub open spec fn spec_format_result(
    url: Seq<char>,
    content_type: Seq<char>,
    text: Seq<char>,
) -> Seq<char> {
    "[Tool Result: fetch]\nURL: "@ + url + "\nContent-Type: "@ + content_type + "\nLength: "@
        + spec_dec(text.len() as int) + " characters\n\n"@ + spec_truncated(text)
        + "\n[End Tool Result]"@
}

/// Renders one fetched page as a tool result block.
pub fn format_result(url: &str, content_type: &str, text: &str) -> (out: String)
    ensures
        out@ == spec_format_result(url@, content_type@, text@),
{
    let n = text.unicode_len();
    let mut out = String::new();
    out.append("[Tool Result: fetch]\nURL: ");
    out.append(url);
    out.append("\nContent-Type: ");
    out.append(content_type);
    out.append("\nLength: ");
    let digits = u64_to_string(n as u64);
    out.append(digits.as_str());
    out.append(" characters\n\n");
    if n > MAX_OUTPUT_CHARS {
        let head = text.substring_char(0, MAX_OUTPUT_CHARS);
        out.append(head);
        out.append("\n\n[Content truncated at ");
        let max_digits = u64_to_string(MAX_OUTPUT_CHARS as u64);
        out.append(max_digits.as_str());
        out.append(" characters]");
    } else {
        out.append(text);
    }
    out.append("\n[End Tool Result]");
    proof {
        assert(out@ =~= spec_format_result(url@, content_type@, text@));
    }
    out
}

/// The complete post-download pipeline for one fetched page: rejects an
/// oversized payload, decodes the bytes, extracts readable text and renders
/// the block. Succeeds exactly when the payload fits [`MAX_CONTENT_SIZE`].
pub fn process_fetch_body(url: &str, content_type: &str, body: &Vec<u8>) -> (r: Result<
    String,
    AppError,
>)
    ensures
        r is Ok <==> body@.len() <= MAX_CONTENT_SIZE,
        r matches Ok(s) ==> s@ == spec_format_result(
            url@,
            content_type@,
            spec_extract_text(lossy_utf8(body@)),
        ),
        r matches Err(e) ==> e matches AppError::PageFetch(m) && m@ == spec_size_error(
            body@.len() as int,
        ),
{
    match check_body_size(body) {
        Err(e) => Err(e),
        Ok(()) => {
            let html = decode_utf8_lossy(body);
            let text = extract_text(html.as_str());
            Ok(format_result(url, content_type, text.as_str()))
        },
    }
}

/// A failed fetch as one tool result block.
pub open spec fn spec_format_fetch_error(url: Seq<char>, error: Seq<char>) -> Seq<char> {
    "[Tool Result: fetch]\nURL: "@ + url + "\nError: "@ + error + "\n[End Tool Result]"@
}

/// Renders a failed fetch as one tool result block.
pub fn format_fetch_error(url: &str, error: &str) -> (out: String)
    ensures
        out@ == spec_format_fetch_error(url@, error@),
{
    let mut out = String::new();
    out.append("[Tool Result: fetch]\nURL: ");
    out.append(url);
    out.append("\nError: ");
    out.append(error);
    out.append("\n[End Tool Result]");
    proof {
        assert(out@ =~= spec_format_fetch_error(url@, error@));
    }
    out
}

} // verus!
