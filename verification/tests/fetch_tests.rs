use ferret::{
    check_body_size, check_content_length, extract_text, format_result, process_fetch_body,
    validate_url, AppError, MAX_CONTENT_SIZE,
};

#[test]
fn test_content_length_at_limit_passes() {
    assert!(check_content_length(1_000_000).is_ok());
    assert!(check_content_length(0).is_ok());
}

#[test]
fn test_content_length_one_over_fails() {
    match check_content_length(1_000_001) {
        Err(AppError::PageFetch(m)) => {
            assert_eq!(m, "Content too large: 1000001 bytes (max 1000000)")
        }
        _ => panic!("Expected a size error"),
    }
}

#[test]
fn test_body_size_at_limit_passes() {
    let body = vec![b'x'; MAX_CONTENT_SIZE];
    assert!(check_body_size(&body).is_ok());
}

#[test]
fn test_body_size_one_over_fails() {
    let body = vec![b'x'; MAX_CONTENT_SIZE + 1];
    match check_body_size(&body) {
        Err(AppError::PageFetch(m)) => {
            assert_eq!(m, "Content too large: 1000001 bytes (max 1000000)")
        }
        _ => panic!("Expected a size error"),
    }
}

#[test]
fn test_validate_url_schemes() {
    assert!(validate_url("http://example.com").is_ok());
    assert!(validate_url("https://example.com/a?b=c").is_ok());
    match validate_url("ftp://example.com") {
        Err(AppError::PageFetch(m)) => {
            assert_eq!(m, "Invalid URL: must start with http:// or https://")
        }
        _ => panic!("Expected a scheme error"),
    }
    assert!(validate_url("example.com").is_err());
    assert!(validate_url("").is_err());
}

#[test]
fn test_extract_text_prefers_title_and_body() {
    let html = "<html><head><title> My Page </title></head>\
                <body><p>hello   world</p></body></html>";
    let text = extract_text(html);
    assert_eq!(text, "Title: My Page\n\n\nhello world");
}

#[test]
fn test_extract_text_prefers_article_regions() {
    let long = "a".repeat(150);
    let html = format!(
        "<html><body><nav>menu</nav><article>{long}</article><p>short</p></body></html>"
    );
    let text = extract_text(&html);
    assert_eq!(text, long);
}

#[test]
fn test_format_result_without_truncation() {
    let out = format_result("https://e.com", "text/html", "abc");
    assert_eq!(
        out,
        "[Tool Result: fetch]\nURL: https://e.com\nContent-Type: text/html\n\
         Length: 3 characters\n\nabc\n[End Tool Result]"
    );
}

#[test]
fn test_format_result_truncates_at_limit() {
    let text = "y".repeat(4001);
    let out = format_result("u", "t", &text);
    let expected_body = format!(
        "{}\n\n[Content truncated at 4000 characters]",
        "y".repeat(4000)
    );
    assert_eq!(
        out,
        format!(
            "[Tool Result: fetch]\nURL: u\nContent-Type: t\nLength: 4001 characters\n\n{}\n[End Tool Result]",
            expected_body
        )
    );

    let exact = "y".repeat(4000);
    let out = format_result("u", "t", &exact);
    assert!(!out.contains("[Content truncated"));
}

#[test]
fn test_process_fetch_body_pipeline() {
    let html = "<html><head><title>T</title></head><body><p>hi there</p></body></html>";
    let body: Vec<u8> = html.as_bytes().to_vec();
    let out = process_fetch_body("https://e.com", "text/html", &body).unwrap();
    let text = "Title: T\n\n\nhi there";
    assert_eq!(
        out,
        format!(
            "[Tool Result: fetch]\nURL: https://e.com\nContent-Type: text/html\nLength: {} characters\n\n{}\n[End Tool Result]",
            text.chars().count(),
            text
        )
    );
}

#[test]
fn test_process_fetch_body_rejects_oversize() {
    let body = vec![b'x'; MAX_CONTENT_SIZE + 1];
    match process_fetch_body("https://e.com", "text/html", &body) {
        Err(AppError::PageFetch(m)) => assert!(m.starts_with("Content too large")),
        _ => panic!("Expected a size error"),
    }
}
