//! A verified core for a minimal chat client.
//!
//! The library owns the wire message protocol (a flat JSON text frame
//! with a `handle` and a `message` field), the registry of handles that
//! may log in, the session state machine driven by a polling consumer,
//! and the bounded inbound queue that decouples the network side from
//! that consumer.

mod bridge;
pub mod codec;
mod protocol;
pub mod queue;
mod registry;
mod session;

pub use bridge::{
    is_ws_url, new_inbound_channel, on_binary, on_call, on_text, process_frame,
    read_stream_system, validate_ws_url, InboundPoll, StreamReceiver, StreamSender, WsUrl,
};
pub use registry::{chat_handles, HandleRegistry};
pub use session::{
    attempt_login, handle_chat_input, handle_chat_message_received_event_system,
    handle_chat_message_sent_started_event_system, handle_chat_message_sent_success_event_system,
    logged_in_system, login_ui_system, try_login, ChatMessageReceivedEvent,
    ChatMessageSentStartedEvent, ChatMessageSentSuccessEvent, LoggedIn, LoginResult, UiState,
};
pub use protocol::{
    BridgeError, Call, ChatHandle, ChatMessage, ChatMessageText, Frame, OutMessage,
};
