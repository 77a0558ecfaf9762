use ferret::{
    search_result_of, Engine, EngineAction, Outcome, Role, Session, StreamEvent, ToolResult,
    SYSTEM_PROMPT,
};
use ferret::SearchResult;

fn start(user_message: &str) -> Engine {
    let session = Session::new(7);
    Engine::new(session, user_message.to_string())
}

#[test]
fn test_new_appends_user_message() {
    let engine = start("hello");
    let msgs = engine.messages();
    assert_eq!(msgs.len(), 1);
    assert_eq!(msgs[0].role, Role::User);
    assert_eq!(msgs[0].content, "hello");
    assert_eq!(engine.session_id(), 7);
}

#[test]
fn test_provider_request_has_system_prompt_first() {
    let engine = start("hello");
    match engine.next_action() {
        EngineAction::CallProvider(msgs) => {
            assert_eq!(msgs.len(), 2);
            assert_eq!(msgs[0].role, Role::System);
            assert_eq!(msgs[0].content, SYSTEM_PROMPT);
            assert_eq!(msgs[1].role, Role::User);
            assert_eq!(msgs[1].content, "hello");
        }
        _ => panic!("Expected a completion call"),
    }
}

#[test]
fn test_tool_free_response_yields_chunk_then_done() {
    let mut engine = start("hi");
    let events = engine.provider_succeeded("Plain answer.".to_string());
    assert_eq!(events.len(), 2);
    match &events[0] {
        StreamEvent::Chunk { content } => assert_eq!(content, "Plain answer."),
        _ => panic!("Expected a chunk first"),
    }
    assert!(matches!(events[1], StreamEvent::Done));
    let msgs = engine.messages();
    assert_eq!(msgs.len(), 2);
    assert_eq!(msgs[1].role, Role::Assistant);
    assert_eq!(msgs[1].content, "Plain answer.");
    match engine.next_action() {
        EngineAction::Finished(o) => assert_eq!(o, Outcome::Answered),
        _ => panic!("Expected the run to be over"),
    }
}

#[test]
fn test_provider_failure_emits_error_then_done_and_commits_nothing() {
    let mut engine = start("hi");
    let events = engine.provider_failed("connection refused".to_string());
    assert_eq!(events.len(), 2);
    match &events[0] {
        StreamEvent::Error { message } => assert_eq!(message, "connection refused"),
        _ => panic!("Expected an error first"),
    }
    assert!(matches!(events[1], StreamEvent::Done));
    assert_eq!(engine.messages().len(), 1);
    match engine.next_action() {
        EngineAction::Finished(o) => assert_eq!(o, Outcome::Errored),
        _ => panic!("Expected the run to be over"),
    }
}

#[test]
fn test_weather_scenario() {
    let session = Session::new(1);
    let mut engine = Engine::new(session, "What's the weather in London?".to_string());

    let events = engine.provider_succeeded(
        "Let me check. <search>weather London</search>".to_string(),
    );
    assert_eq!(events.len(), 1);
    match &events[0] {
        StreamEvent::ToolStart { tool, query } => {
            assert_eq!(tool, "search");
            assert_eq!(query, "weather London");
        }
        _ => panic!("Expected a tool start"),
    }
    let call = match engine.next_action() {
        EngineAction::RunTool(c) => c,
        _ => panic!("Expected a tool run"),
    };
    assert_eq!(call.name(), "search");

    let hit = SearchResult {
        title: "BBC Weather".to_string(),
        url: "https://bbc.com/weather".to_string(),
        description: "London: 10C, cloudy".to_string(),
        age: None,
    };
    let result = search_result_of("weather London", Ok(vec![hit]));
    assert!(result.success);
    let result_block = result.content.clone();
    let events = engine.tool_finished(result);
    assert_eq!(events.len(), 1);
    match &events[0] {
        StreamEvent::ToolEnd { tool, success } => {
            assert_eq!(tool, "search");
            assert!(*success);
        }
        _ => panic!("Expected a tool end"),
    }

    let events = engine.provider_succeeded("10°C, cloudy.".to_string());
    assert_eq!(events.len(), 2);
    match &events[0] {
        StreamEvent::Chunk { content } => assert_eq!(content, "10°C, cloudy."),
        _ => panic!("Expected a chunk"),
    }
    assert!(matches!(events[1], StreamEvent::Done));

    let msgs = engine.messages();
    assert_eq!(msgs.len(), 3);
    assert_eq!(msgs[0].role, Role::User);
    assert_eq!(msgs[0].content, "What's the weather in London?");
    assert_eq!(msgs[1].role, Role::Assistant);
    assert_eq!(
        msgs[1].content,
        format!("Let me check. <search>weather London</search>\n\n{}", result_block)
    );
    assert_eq!(msgs[2].role, Role::Assistant);
    assert_eq!(msgs[2].content, "10°C, cloudy.");
}

#[test]
fn test_multiple_calls_in_one_turn_run_in_order() {
    let mut engine = start("compare");
    let events = engine.provider_succeeded(
        "<search>alpha</search><fetch>https://example.com</fetch>".to_string(),
    );
    assert_eq!(events.len(), 1);
    match &events[0] {
        StreamEvent::ToolStart { tool, query } => {
            assert_eq!(tool, "search");
            assert_eq!(query, "alpha");
        }
        _ => panic!("Expected the search to start first"),
    }
    let events = engine.tool_finished(ToolResult {
        tool: "search".to_string(),
        success: true,
        content: "block one".to_string(),
    });
    assert_eq!(events.len(), 2);
    match &events[0] {
        StreamEvent::ToolEnd { tool, success } => {
            assert_eq!(tool, "search");
            assert!(*success);
        }
        _ => panic!("Expected the search to end"),
    }
    match &events[1] {
        StreamEvent::ToolStart { tool, query } => {
            assert_eq!(tool, "fetch");
            assert_eq!(query, "https://example.com");
        }
        _ => panic!("Expected the fetch to start next"),
    }
    let events = engine.tool_finished(ToolResult {
        tool: "fetch".to_string(),
        success: false,
        content: "block two".to_string(),
    });
    assert_eq!(events.len(), 1);
    match &events[0] {
        StreamEvent::ToolEnd { tool, success } => {
            assert_eq!(tool, "fetch");
            assert!(!*success);
        }
        _ => panic!("Expected the fetch to end"),
    }
    let msgs = engine.messages();
    assert_eq!(msgs.len(), 2);
    assert_eq!(
        msgs[1].content,
        "<search>alpha</search><fetch>https://example.com</fetch>\n\nblock one\n\nblock two"
    );
}

#[test]
fn test_iteration_limit() {
    let mut engine = start("loop forever");
    for round in 0..5 {
        match engine.next_action() {
            EngineAction::CallProvider(_) => {}
            _ => panic!("Expected a completion call in round {round}"),
        }
        let events = engine.provider_succeeded("<search>again</search>".to_string());
        assert_eq!(events.len(), 1);
        let events = engine.tool_finished(ToolResult {
            tool: "search".to_string(),
            success: true,
            content: "nothing new".to_string(),
        });
        if round < 4 {
            assert_eq!(events.len(), 1);
            assert!(matches!(events[0], StreamEvent::ToolEnd { .. }));
        } else {
            // The fifth completion call was the last one allowed.
            assert_eq!(events.len(), 3);
            assert!(matches!(events[0], StreamEvent::ToolEnd { .. }));
            match &events[1] {
                StreamEvent::Error { message } => {
                    assert_eq!(message, "Too many tool iterations")
                }
                _ => panic!("Expected the limit error"),
            }
            assert!(matches!(events[2], StreamEvent::Done));
        }
    }
    match engine.next_action() {
        EngineAction::Finished(o) => assert_eq!(o, Outcome::IterationLimitExceeded),
        _ => panic!("Expected the run to be over"),
    }
    // One user turn plus five committed tool turns.
    assert_eq!(engine.messages().len(), 6);
}
