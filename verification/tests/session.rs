use chat_bridge::{
    attempt_login, chat_handles, handle_chat_input, handle_chat_message_received_event_system,
    handle_chat_message_sent_started_event_system, handle_chat_message_sent_success_event_system,
    try_login, Call, ChatHandle, ChatMessage, ChatMessageReceivedEvent,
    ChatMessageSentSuccessEvent, ChatMessageText, LoginResult, UiState,
};

fn msg(handle: &str, text: &str) -> ChatMessage {
    ChatMessage {
        message: ChatMessageText(text.to_string()),
        handle: ChatHandle(handle.to_string()),
    }
}

#[test]
fn attempt_login_accepts_registry_contents() {
    let reg = chat_handles();
    for name in ["tete", "pepe"] {
        match attempt_login(&reg, &name.to_string()) {
            LoginResult::Accepted(h) => assert_eq!(h.0, name),
            LoginResult::Rejected => panic!("{} should be accepted", name),
        }
    }
}

#[test]
fn attempt_login_rejects_everything_else() {
    let reg = chat_handles();
    for name in ["", "Tete", "tete ", "pep", "pepee", "admin"] {
        assert!(matches!(attempt_login(&reg, &name.to_string()), LoginResult::Rejected));
    }
}

#[test]
fn login_transitions_on_registered_handle() {
    let reg = chat_handles();
    for name in ["tete", "pepe"] {
        let mut state = UiState::default();
        state.login_input_text = name.to_string();
        try_login(&mut state, &reg);
        assert_eq!(state.chat_handle.as_ref().unwrap().0, name);
        assert_eq!(state.login_input_text, "");
    }
}

#[test]
fn login_never_transitions_on_unregistered_handle() {
    let reg = chat_handles();
    for name in ["", "Tete", "TETE", "tete ", " pepe", "hacker"] {
        let mut state = UiState::default();
        state.login_input_text = name.to_string();
        try_login(&mut state, &reg);
        assert!(state.chat_handle.is_none(), "{} must not log in", name);
        assert_eq!(state.login_input_text, name);
    }
}

#[test]
fn login_leaves_a_logged_in_session_alone() {
    let reg = chat_handles();
    let mut state = UiState::default();
    state.chat_handle = Some(ChatHandle("tete".to_string()));
    state.login_input_text = "pepe".to_string();
    try_login(&mut state, &reg);
    assert_eq!(state.chat_handle.as_ref().unwrap().0, "tete");
    assert_eq!(state.login_input_text, "pepe");
}

#[test]
fn submit_sets_gating_flag_and_clears_input() {
    let mut state = UiState::default();
    state.chat_handle = Some(ChatHandle("tete".to_string()));
    state.chat_input_text = "hello".to_string();
    let started = handle_chat_input(&mut state).expect("non-empty input submits");
    assert_eq!(started.0, "hello");
    assert!(state.sending_chat_message);
    assert_eq!(state.chat_input_text, "");
}

#[test]
fn submit_with_empty_input_does_nothing() {
    let mut state = UiState::default();
    state.chat_handle = Some(ChatHandle("tete".to_string()));
    assert!(handle_chat_input(&mut state).is_none());
    assert!(!state.sending_chat_message);
}

#[test]
fn send_gating_flag_clears_only_on_ack() {
    let mut state = UiState::default();
    state.chat_handle = Some(ChatHandle("tete".to_string()));
    state.chat_input_text = "hello".to_string();

    // Submit raises the flag immediately.
    let started = handle_chat_input(&mut state).unwrap();
    assert!(state.sending_chat_message);

    // Issuing the bridge call does not touch the flag.
    let calls = handle_chat_message_sent_started_event_system(&state, &vec![started]);
    assert_eq!(calls.len(), 1);
    match &calls[0] {
        Call::NewLine(h, line) => {
            assert_eq!(h.0, "tete");
            assert_eq!(line, "hello");
        }
    }
    assert!(state.sending_chat_message);

    // Messages arriving meanwhile do not touch the flag either.
    handle_chat_message_received_event_system(
        &mut state,
        &vec![ChatMessageReceivedEvent(msg("pepe", "hi"))],
    );
    assert!(state.sending_chat_message);

    // Only the bridge's acceptance clears it.
    handle_chat_message_sent_success_event_system(
        &mut state,
        &vec![ChatMessageSentSuccessEvent("hello".to_string())],
    );
    assert!(!state.sending_chat_message);
}

#[test]
fn ack_without_events_changes_nothing() {
    let mut state = UiState::default();
    state.sending_chat_message = true;
    handle_chat_message_sent_success_event_system(&mut state, &Vec::new());
    assert!(state.sending_chat_message);
}

#[test]
fn received_messages_append_in_order() {
    let mut state = UiState::default();
    let events = vec![
        ChatMessageReceivedEvent(msg("tete", "one")),
        ChatMessageReceivedEvent(msg("pepe", "two")),
        ChatMessageReceivedEvent(msg("tete", "three")),
    ];
    handle_chat_message_received_event_system(&mut state, &events);
    handle_chat_message_received_event_system(
        &mut state,
        &vec![ChatMessageReceivedEvent(msg("tete", "one"))],
    );
    let texts: Vec<&str> = state.messages.iter().map(|m| m.message.0.as_str()).collect();
    // Echoes and repeats are kept: the log never deduplicates.
    assert_eq!(texts, ["one", "two", "three", "one"]);
    assert_eq!(state.messages[0].handle.0, "tete");
    assert_eq!(state.messages[1].handle.0, "pepe");
}
