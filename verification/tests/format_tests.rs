use ferret::{
    fetch_result_of, format_results, format_search_error, normalize_user_message,
    search_result_of, AppError, BraveSearchResponse, SearchResult, WebResults,
};
use ferret::text::u64_to_string;

fn hit(title: &str, url: &str, snippet: &str) -> SearchResult {
    SearchResult {
        title: title.to_string(),
        url: url.to_string(),
        description: snippet.to_string(),
        age: None,
    }
}

#[test]
fn test_format_results_numbered_list() {
    let results = vec![hit("A", "http://a", "first"), hit("B", "http://b", "second")];
    let out = format_results("rust", &results);
    assert_eq!(
        out,
        "[Tool Result: search]\nQuery: \"rust\"\n\n\
         1. Title: A\nURL: http://a\nSnippet: first\n\n\
         2. Title: B\nURL: http://b\nSnippet: second\n\n\
         [End Tool Result]"
    );
}

#[test]
fn test_format_results_empty_is_success_with_note() {
    let out = format_results("nothing", &vec![]);
    assert_eq!(
        out,
        "[Tool Result: search]\nQuery: \"nothing\"\n\nNo results found.\n[End Tool Result]"
    );
}

#[test]
fn test_format_for_context() {
    let h = hit("T", "U", "S");
    assert_eq!(h.format_for_context(), "Title: T\nURL: U\nSnippet: S");
}

#[test]
fn test_search_error_block() {
    assert_eq!(
        format_search_error("boom"),
        "[Tool Result: search]\nError: boom\n[End Tool Result]"
    );
}

#[test]
fn test_search_result_of_success_and_failure() {
    let ok = search_result_of("q", Ok(vec![hit("T", "U", "S")]));
    assert_eq!(ok.tool, "search");
    assert!(ok.success);
    assert!(ok.content.contains("1. Title: T"));

    let err = search_result_of("q", Err(AppError::BraveSearch("429".to_string())));
    assert_eq!(err.tool, "search");
    assert!(!err.success);
    assert_eq!(
        err.content,
        "[Tool Result: search]\nError: Brave search error: 429\n[End Tool Result]"
    );
}

#[test]
fn test_fetch_result_of_success_and_failure() {
    let ok = fetch_result_of("https://e.com", Ok("already formatted".to_string()));
    assert_eq!(ok.tool, "fetch");
    assert!(ok.success);
    assert_eq!(ok.content, "already formatted");

    let err = fetch_result_of(
        "https://e.com",
        Err(AppError::PageFetch("HTTP 404".to_string())),
    );
    assert_eq!(err.tool, "fetch");
    assert!(!err.success);
    assert_eq!(
        err.content,
        "[Tool Result: fetch]\nURL: https://e.com\nError: Page fetch error: HTTP 404\n[End Tool Result]"
    );
}

#[test]
fn test_into_results() {
    let with = BraveSearchResponse { web: Some(WebResults { results: vec![hit("T", "U", "S")] }) };
    assert_eq!(with.into_results().len(), 1);
    let without = BraveSearchResponse { web: None };
    assert_eq!(without.into_results().len(), 0);
}

#[test]
fn test_error_messages_and_status_codes() {
    let e = AppError::Ollama("down".to_string());
    assert_eq!(e.message(), "Ollama error: down");
    assert_eq!(e.status_code(), 500);
    assert_eq!(
        AppError::BraveSearch("x".to_string()).message(),
        "Brave search error: x"
    );
    assert_eq!(AppError::PageFetch("y".to_string()).message(), "Page fetch error: y");
    assert_eq!(AppError::SessionNotFound.message(), "Session not found");
    assert_eq!(AppError::SessionNotFound.status_code(), 404);
    let bad = AppError::InvalidRequest("no".to_string());
    assert_eq!(bad.message(), "Invalid request: no");
    assert_eq!(bad.status_code(), 400);
}

#[test]
fn test_normalize_user_message() {
    assert_eq!(normalize_user_message("  hi there \n").unwrap(), "hi there");
    match normalize_user_message("   \t\n") {
        Err(AppError::InvalidRequest(m)) => assert_eq!(m, "Message cannot be empty"),
        _ => panic!("Expected a validation error"),
    }
    match normalize_user_message("") {
        Err(AppError::InvalidRequest(_)) => {}
        _ => panic!("Expected a validation error"),
    }
}

#[test]
fn test_decimal_rendering() {
    assert_eq!(u64_to_string(0), "0");
    assert_eq!(u64_to_string(7), "7");
    assert_eq!(u64_to_string(12345), "12345");
    assert_eq!(u64_to_string(1000000), "1000000");
}
