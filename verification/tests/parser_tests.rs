use ferret::{has_tool_calls, parse_tool_calls, ToolCall};

#[test]
fn test_parse_search() {
    let text = "Let me search for that. <search>rust async streams</search>";
    let calls = parse_tool_calls(text);
    assert_eq!(calls.len(), 1);
    match &calls[0] {
        ToolCall::Search { query } => assert_eq!(query, "rust async streams"),
        _ => panic!("Expected search call"),
    }
}

#[test]
fn test_parse_fetch() {
    let text = "<fetch>https://example.com/page</fetch>";
    let calls = parse_tool_calls(text);
    assert_eq!(calls.len(), 1);
    match &calls[0] {
        ToolCall::Fetch { url } => assert_eq!(url, "https://example.com/page"),
        _ => panic!("Expected fetch call"),
    }
}

#[test]
fn test_parse_multiple() {
    let text = "Let me search and fetch.\n<search>query</search>\n<fetch>https://example.com</fetch>";
    let calls = parse_tool_calls(text);
    assert_eq!(calls.len(), 2);
}

#[test]
fn test_empty_query() {
    let text = "<search></search>";
    let calls = parse_tool_calls(text);
    assert_eq!(calls.len(), 0);
}

#[test]
fn test_search_results_precede_fetch_results() {
    let text = "<fetch>A</fetch><search>B</search><search>C</search>";
    let calls = parse_tool_calls(text);
    assert_eq!(calls.len(), 3);
    match &calls[0] {
        ToolCall::Search { query } => assert_eq!(query, "B"),
        _ => panic!("Expected search call first"),
    }
    match &calls[1] {
        ToolCall::Search { query } => assert_eq!(query, "C"),
        _ => panic!("Expected second search call"),
    }
    match &calls[2] {
        ToolCall::Fetch { url } => assert_eq!(url, "A"),
        _ => panic!("Expected fetch call last"),
    }
}

#[test]
fn test_parse_single_word_query() {
    let calls = parse_tool_calls("<search>foo</search>");
    assert_eq!(calls.len(), 1);
    match &calls[0] {
        ToolCall::Search { query } => assert_eq!(query, "foo"),
        _ => panic!("Expected search call"),
    }
}

#[test]
fn test_multiline_span() {
    let text = "<search>rust\nverification</search>";
    let calls = parse_tool_calls(text);
    assert_eq!(calls.len(), 1);
    match &calls[0] {
        ToolCall::Search { query } => assert_eq!(query, "rust\nverification"),
        _ => panic!("Expected search call"),
    }
}

#[test]
fn test_capture_is_trimmed() {
    let text = "<search>  padded query \n</search>";
    let calls = parse_tool_calls(text);
    assert_eq!(calls.len(), 1);
    match &calls[0] {
        ToolCall::Search { query } => assert_eq!(query, "padded query"),
        _ => panic!("Expected search call"),
    }
}

#[test]
fn test_whitespace_only_capture_is_dropped() {
    let calls = parse_tool_calls("<fetch>   </fetch>");
    assert_eq!(calls.len(), 0);
}

#[test]
fn test_has_tool_calls_sees_empty_span() {
    // A complete span counts as markup even when its capture trims away.
    assert!(has_tool_calls("<search></search>"));
    assert!(has_tool_calls("text <fetch>u</fetch> more"));
    assert!(!has_tool_calls("no markup here"));
    assert!(!has_tool_calls("<search>unclosed"));
}

#[test]
fn test_call_name_and_query() {
    let s = ToolCall::Search { query: "q".to_string() };
    let f = ToolCall::Fetch { url: "u".to_string() };
    assert_eq!(s.name(), "search");
    assert_eq!(f.name(), "fetch");
    assert_eq!(s.query(), "q");
    assert_eq!(f.query(), "u");
}

#[test]
fn test_non_greedy_matching() {
    // The span closes at the nearest close tag.
    let calls = parse_tool_calls("<search>a</search> x <search>b</search>");
    assert_eq!(calls.len(), 2);
    match (&calls[0], &calls[1]) {
        (ToolCall::Search { query: a }, ToolCall::Search { query: b }) => {
            assert_eq!(a, "a");
            assert_eq!(b, "b");
        }
        _ => panic!("Expected two search calls"),
    }
}
