use ferret::{
    append_message, clear_session, create_session_manager, get_or_create_session, session_count,
    update_session, ChatMessage, Role, Session,
};

fn msg(role: Role, content: &str) -> ChatMessage {
    ChatMessage { role, content: content.to_string() }
}

#[test]
fn test_get_or_create_creates_once() {
    let mut store = create_session_manager();
    assert_eq!(session_count(&store), 0);
    let s = get_or_create_session(&mut store, 42);
    assert_eq!(s.id, 42);
    assert_eq!(s.messages.len(), 0);
    assert_eq!(session_count(&store), 1);
    let again = get_or_create_session(&mut store, 42);
    assert_eq!(again.id, 42);
    assert_eq!(session_count(&store), 1);
    get_or_create_session(&mut store, 43);
    assert_eq!(session_count(&store), 2);
}

#[test]
fn test_update_session_overwrites() {
    let mut store = create_session_manager();
    get_or_create_session(&mut store, 1);
    let mut replacement = Session::new(1);
    replacement.add_message(msg(Role::User, "kept"));
    update_session(&mut store, replacement);
    let stored = get_or_create_session(&mut store, 1);
    assert_eq!(stored.messages.len(), 1);
    assert_eq!(stored.messages[0].content, "kept");
    assert_eq!(session_count(&store), 1);
}

#[test]
fn test_append_message_hits_live_entry() {
    let mut store = create_session_manager();
    get_or_create_session(&mut store, 9);
    assert!(append_message(&mut store, 9, msg(Role::User, "one")));
    assert!(append_message(&mut store, 9, msg(Role::Assistant, "two")));
    let stored = get_or_create_session(&mut store, 9);
    assert_eq!(stored.messages.len(), 2);
    assert_eq!(stored.messages[0].content, "one");
    assert_eq!(stored.messages[1].content, "two");
    // An unknown id appends nothing and changes nothing.
    assert!(!append_message(&mut store, 10, msg(Role::User, "lost")));
    assert_eq!(session_count(&store), 1);
}

#[test]
fn test_interleaved_appends_lose_nothing() {
    // Two requests working on the same session append through the store's
    // atomic operation; both messages survive, whichever order the lock
    // grants.
    let mut store = create_session_manager();
    get_or_create_session(&mut store, 5);
    append_message(&mut store, 5, msg(Role::User, "from request one"));
    append_message(&mut store, 5, msg(Role::User, "from request two"));
    append_message(&mut store, 5, msg(Role::Assistant, "answer one"));
    append_message(&mut store, 5, msg(Role::Assistant, "answer two"));
    let stored = get_or_create_session(&mut store, 5);
    let contents: Vec<&str> =
        stored.messages.iter().map(|m| m.content.as_str()).collect();
    assert!(contents.contains(&"from request one"));
    assert!(contents.contains(&"from request two"));
    assert!(contents.contains(&"answer one"));
    assert!(contents.contains(&"answer two"));
    assert_eq!(stored.messages.len(), 4);
}

#[test]
fn test_clear_session_is_idempotent() {
    let mut store = create_session_manager();
    get_or_create_session(&mut store, 3);
    append_message(&mut store, 3, msg(Role::User, "soon gone"));
    append_message(&mut store, 3, msg(Role::Assistant, "also gone"));

    clear_session(&mut store, 3);
    let once = get_or_create_session(&mut store, 3);
    assert_eq!(once.messages.len(), 0);

    clear_session(&mut store, 3);
    let twice = get_or_create_session(&mut store, 3);
    assert_eq!(twice.messages.len(), 0);

    // The session itself survives a clear.
    assert_eq!(session_count(&store), 1);
    // Clearing an unknown id is harmless.
    clear_session(&mut store, 99);
    assert_eq!(session_count(&store), 1);
}

#[test]
fn test_session_clear_on_value_is_idempotent() {
    let mut s = Session::new(2);
    s.add_message(msg(Role::User, "a"));
    s.clear();
    assert_eq!(s.messages.len(), 0);
    s.clear();
    assert_eq!(s.messages.len(), 0);
    assert_eq!(s.id, 2);
}
