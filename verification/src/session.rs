//! The application-visible session state machine.
//!
//! One session starts logged out, becomes logged in at most once (there
//! is no logout path in scope), accumulates an append-only message log
//! in arrival order, and gates local sends behind a single
//! `sending_chat_message` flag: the flag is raised when the input is
//! submitted and cleared only when the bridge has accepted the send
//! call. The machine is driven by plain event values; the surrounding
//! application owns the render loop and the network runtime.

use crate::protocol::{Call, ChatHandle, ChatMessage};
use crate::registry::HandleRegistry;
use vstd::prelude::*;

verus! {

/// A login attempt was accepted for this handle.
#[derive(Debug)]
pub struct LoggedIn(pub ChatHandle);

/// The consumer submitted this text from the input box.
#[derive(Debug)]
pub struct ChatMessageSentStartedEvent(pub String);

/// The bridge accepted the send call for this text.
#[derive(Debug)]
pub struct ChatMessageSentSuccessEvent(pub String);

/// One decoded message drained from the bridge's queue.
#[derive(Debug)]
pub struct ChatMessageReceivedEvent(pub ChatMessage);

/// What a login attempt decided.
#[derive(Debug)]
pub enum LoginResult {
    Accepted(ChatHandle),
    Rejected,
}

/// The session's whole consumer-visible state.
#[derive(Debug)]
pub struct UiState {
    pub chat_input_text: String,
    pub login_input_text: String,
    pub sending_chat_message: bool,
    pub chat_handle: Option<ChatHandle>,
    pub messages: Vec<ChatMessage>,
}

impl UiState {
    /// `LoggedIn` is exactly "a handle has been set".
    pub open spec fn logged_in(&self) -> bool {
        self.chat_handle is Some
    }

    pub fn new() -> (r: UiState)
        ensures
            !r.logged_in(),
            r.sending_chat_message == false,
            r.chat_input_text@ == Seq::<char>::empty(),
            r.login_input_text@ == Seq::<char>::empty(),
            r.messages@ == Seq::<ChatMessage>::empty(),
    {
        UiState {
            chat_input_text: String::new(),
            login_input_text: String::new(),
            sending_chat_message: false,
            chat_handle: None,
            messages: Vec::new(),
        }
    }
}

impl Default for UiState {
    fn default() -> (r: UiState)
        ensures
            !r.logged_in(),
            r.sending_chat_message == false,
            r.chat_input_text@ == Seq::<char>::empty(),
            r.login_input_text@ == Seq::<char>::empty(),
            r.messages@ == Seq::<ChatMessage>::empty(),
    {
        UiState::new()
    }
}

/// Decides one login attempt: accepted exactly when the candidate is in
/// the registry, with the accepted handle spelled exactly like the
/// candidate. Rejection is silent — no error, no state.
pub fn attempt_login(registry: &HandleRegistry, candidate: &String) -> (r: LoginResult)
    ensures
        registry.contains_handle(candidate@) ==> (r matches LoginResult::Accepted(h) && h@
            == candidate@),
        !registry.contains_handle(candidate@) ==> r is Rejected,
{
    if registry.is_valid(candidate) {
        LoginResult::Accepted(ChatHandle(candidate.clone()))
    } else {
        LoginResult::Rejected
    }
}

/// The login gate's decision for the current input: no event while
/// logged in, and otherwise an event exactly when the typed candidate
/// is in the registry.
pub fn login_ui_system(state: &UiState, registry: &HandleRegistry) -> (r: Option<LoggedIn>)
    ensures
        state.logged_in() ==> r is None,
        !state.logged_in() && registry.contains_handle(state.login_input_text@) ==> (r matches Some(e) && e.0@ == state.login_input_text@),
        !state.logged_in() && !registry.contains_handle(state.login_input_text@) ==> r is None,
{
    if state.chat_handle.is_some() {
        return None;
    }
    match attempt_login(registry, &state.login_input_text) {
        LoginResult::Accepted(h) => Some(LoggedIn(h)),
        LoginResult::Rejected => None,
    }
}

/// Applies accepted logins: the last one sets the handle and clears the
/// login input; with no event the state is untouched.
pub fn logged_in_system(state: &mut UiState, events: &Vec<LoggedIn>)
    ensures
        events@.len() == 0 ==> *final(state) == *old(state),
        events@.len() > 0 ==> final(state).chat_handle == Some(events@.last().0)
            && final(state).login_input_text@ == Seq::<char>::empty()
            && final(state).chat_input_text == old(state).chat_input_text
            && final(state).sending_chat_message == old(state).sending_chat_message
            && final(state).messages == old(state).messages,
{
    let mut i: usize = 0;
    while i < events.len()
        invariant
            i <= events@.len(),
            i == 0 ==> *state == *old(state),
            i > 0 ==> state.chat_handle == Some(events@[i - 1].0) && state.login_input_text@
                == Seq::<char>::empty(),
            state.chat_input_text == old(state).chat_input_text,
            state.sending_chat_message == old(state).sending_chat_message,
            state.messages == old(state).messages,
        decreases events@.len() - i,
    {
        state.chat_handle = Some(events[i].0.clone());
        state.login_input_text = String::new();
        i += 1;
    }
}

/// One whole login attempt on the typed candidate.
///
/// Law: for every string not in the handle registry, and for every
/// session already logged in, the attempt leaves the state exactly as
/// it was — a candidate outside the registry never transitions the
/// session to logged in. A registered candidate logs in, sets the
/// handle to the candidate and clears the login input.
pub fn try_login(state: &mut UiState, registry: &HandleRegistry)
    ensures
        old(state).logged_in() ==> *final(state) == *old(state),
        !old(state).logged_in() && !registry.contains_handle(old(state).login_input_text@) ==> (
        *final(state) == *old(state)),
        !old(state).logged_in() && registry.contains_handle(old(state).login_input_text@) ==> (
        (final(state).chat_handle matches Some(h) && h@ == old(state).login_input_text@)
            && final(state).login_input_text@ == Seq::<char>::empty()
            && final(state).chat_input_text == old(state).chat_input_text
            && final(state).sending_chat_message == old(state).sending_chat_message
            && final(state).messages == old(state).messages),
{
    match login_ui_system(state, registry) {
        Some(e) => {
            let events: Vec<LoggedIn> = vec![e];
            logged_in_system(state, &events);
        },
        None => {},
    }
}

/// The input box's submit step: a non-empty input raises the gating
/// flag immediately, clears the input and hands its text out as an
/// event; an empty input does nothing.
pub fn handle_chat_input(state: &mut UiState) -> (r: Option<ChatMessageSentStartedEvent>)
    ensures
        old(state).chat_input_text@.len() > 0 ==> ((r matches Some(e)
            && e.0 == old(state).chat_input_text)
            && final(state).sending_chat_message == true
            && final(state).chat_input_text@ == Seq::<char>::empty()
            && final(state).login_input_text == old(state).login_input_text
            && final(state).chat_handle == old(state).chat_handle
            && final(state).messages == old(state).messages),
        old(state).chat_input_text@.len() == 0 ==> r is None && *final(state) == *old(state),
{
    if !state.chat_input_text.as_str().is_empty() {
        state.sending_chat_message = true;
        let text = state.chat_input_text.clone();
        state.chat_input_text = String::new();
        Some(ChatMessageSentStartedEvent(text))
    } else {
        None
    }
}

/// Issues one bridge call per submitted text, each tagged with the
/// session's own handle. May only run while logged in — a send without
/// a handle has no meaning.
pub fn handle_chat_message_sent_started_event_system(
    state: &UiState,
    events: &Vec<ChatMessageSentStartedEvent>,
) -> (r: Vec<Call>)
    requires
        state.logged_in(),
    ensures
        r@.len() == events@.len(),
        forall|i: int|
            0 <= i < events@.len() ==> r@[i] == Call::NewLine(
                state.chat_handle.unwrap(),
                events@[i].0,
            ),
{
    let mut calls: Vec<Call> = Vec::new();
    let mut i: usize = 0;
    while i < events.len()
        invariant
            state.logged_in(),
            i <= events@.len(),
            calls@.len() == i,
            forall|j: int|
                0 <= j < i ==> calls@[j] == Call::NewLine(
                    state.chat_handle.unwrap(),
                    events@[j].0,
                ),
        decreases events@.len() - i,
    {
        let handle = match &state.chat_handle {
            Some(h) => h.clone(),
            None => {
                proof {
                    assert(false);
                }
                ChatHandle(String::new())
            },
        };
        calls.push(Call::NewLine(handle, events[i].0.clone()));
        i += 1;
    }
    calls
}

/// The ack step: once the bridge has accepted at least one send call,
/// the gating flag drops; nothing else changes, and with no event the
/// state is untouched.
pub fn handle_chat_message_sent_success_event_system(
    state: &mut UiState,
    events: &Vec<ChatMessageSentSuccessEvent>,
)
    ensures
        events@.len() == 0 ==> *final(state) == *old(state),
        events@.len() > 0 ==> (final(state).sending_chat_message == false
            && final(state).chat_input_text == old(state).chat_input_text
            && final(state).login_input_text == old(state).login_input_text
            && final(state).chat_handle == old(state).chat_handle
            && final(state).messages == old(state).messages),
{
    if events.len() > 0 {
        state.sending_chat_message = false;
    }
}

/// Appends every drained message to the log unconditionally, in arrival
/// order — the core does not deduplicate, not even echoes of the local
/// handle.
pub fn handle_chat_message_received_event_system(
    state: &mut UiState,
    events: &Vec<ChatMessageReceivedEvent>,
)
    ensures
        final(state).messages@ == old(state).messages@ + events@.map_values(
            |e: ChatMessageReceivedEvent| e.0,
        ),
        final(state).chat_input_text == old(state).chat_input_text,
        final(state).login_input_text == old(state).login_input_text,
        final(state).sending_chat_message == old(state).sending_chat_message,
        final(state).chat_handle == old(state).chat_handle,
{
    let mut i: usize = 0;
    while i < events.len()
        invariant
            i <= events@.len(),
            state.messages@.len() == old(state).messages@.len() + i,
            forall|j: int|
                0 <= j < old(state).messages@.len()
                    ==> #[trigger] state.messages@[j] == old(state).messages@[j],
            forall|j: int|
                old(state).messages@.len() <= j < old(state).messages@.len() + i
                    ==> #[trigger] state.messages@[j]
                        == events@[j - old(state).messages@.len()].0,
            state.chat_input_text == old(state).chat_input_text,
            state.login_input_text == old(state).login_input_text,
            state.sending_chat_message == old(state).sending_chat_message,
            state.chat_handle == old(state).chat_handle,
        decreases events@.len() - i,
    {
        state.messages.push(events[i].0.clone());
        i += 1;
    }
    proof {
        assert(state.messages@ =~= old(state).messages@ + events@.map_values(
            |e: ChatMessageReceivedEvent| e.0,
        ));
    }
}

} // verus!
