//! The connection bridge: the seam between the network runtime's
//! execution context and the polling consumer.
//!
//! The two sides share exactly one structure, a bounded channel of
//! decoded messages. The network side decodes each inbound text frame
//! (a decode failure is fatal to the background task) and forwards the
//! message; the consumer side drains without ever blocking. Outbound,
//! a send call is packaged as one encoded text frame for the socket.
//! Connecting itself — the socket, the runtime, the handshake — lives
//! in the application shell around this library; the bridge owns the
//! decisions.

use crate::codec::{decode_chat_message, encode_frame, encode_out_message, parse_frame};
use crate::protocol::{BridgeError, Call, ChatMessage, Frame, OutMessage};
use crate::queue::INBOUND_QUEUE_BOUND;
use crate::session::ChatMessageReceivedEvent;
use vstd::prelude::*;
use vstd::string::StrSliceExecFns;

verus! {

#[verifier::external_type_specification]
#[verifier::external_body]
#[verifier::reject_recursive_types(T)]
pub struct ExSender<T>(crossbeam_channel::Sender<T>);

#[verifier::external_type_specification]
#[verifier::external_body]
#[verifier::reject_recursive_types(T)]
pub struct ExReceiver<T>(crossbeam_channel::Receiver<T>);

/// The network side's end of the bridge's inbound queue.
pub struct StreamSender(pub crossbeam_channel::Sender<ChatMessage>);

/// The consumer's end of the bridge's inbound queue.
pub struct StreamReceiver(pub crossbeam_channel::Receiver<ChatMessage>);

/// What one non-blocking poll of the inbound queue found.
pub enum InboundPoll {
    Message(ChatMessage),
    Empty,
    Disconnected,
}

/// Relies on crossbeam_channel::bounded: a first-in first-out queue
/// with room for `cap` messages, its two ends shareable across threads.
#[verifier::external_body]
fn bounded_channel(cap: usize) -> (r: (
    crossbeam_channel::Sender<ChatMessage>,
    crossbeam_channel::Receiver<ChatMessage>,
))
{
    crossbeam_channel::bounded(cap)
}

/// Relies on crossbeam_channel::Sender::send: blocks while the queue is
/// full — backpressure on the network side, never a silent drop — and
/// hands the message back only when every receiver is gone.
#[verifier::external_body]
fn send_message(tx: &crossbeam_channel::Sender<ChatMessage>, m: ChatMessage) -> (r: Result<
    (),
    ChatMessage,
>)
    ensures
        r matches Err(back) ==> back == m,
{
    tx.send(m).map_err(|e| e.0)
}

/// Relies on crossbeam_channel::Receiver::try_recv: never blocks, and
/// tells an empty queue apart from one whose senders are all gone.
#[verifier::external_body]
fn try_recv_message(rx: &crossbeam_channel::Receiver<ChatMessage>) -> (r: InboundPoll)
{
    match rx.try_recv() {
        Ok(m) => InboundPoll::Message(m),
        Err(crossbeam_channel::TryRecvError::Empty) => InboundPoll::Empty,
        Err(crossbeam_channel::TryRecvError::Disconnected) => InboundPoll::Disconnected,
    }
}

/// The bridge's queue, created once per connection with the fixed
/// inbound bound.
pub fn new_inbound_channel() -> (StreamSender, StreamReceiver) {
    let (tx, rx) = bounded_channel(INBOUND_QUEUE_BOUND);
    (StreamSender(tx), StreamReceiver(rx))
}

/// The network side's handler for one inbound text frame: decode, then
/// forward into the queue. `DecodeError` exactly when the frame is
/// outside the wire grammar — fatal to the background task, which must
/// stop; `TransportError` when the consumer side is gone.
pub fn on_text(tx: &StreamSender, text: &String) -> (r: Result<(), BridgeError>)
    ensures
        r is Ok ==> parse_frame(text@) is Some,
        parse_frame(text@) is None <==> (r matches Err(e) && e == BridgeError::DecodeError),
        r matches Err(e) ==> e == BridgeError::DecodeError || e == BridgeError::TransportError,
{
    match decode_chat_message(text.as_str()) {
        Ok(m) => match send_message(&tx.0, m) {
            Ok(u) => Ok(u),
            Err(_) => Err(BridgeError::TransportError),
        },
        Err(_) => Err(BridgeError::DecodeError),
    }
}

/// The network side's handler for one inbound binary frame: accepted
/// and intentionally ignored — the protocol is text-only, and binary
/// frames are reserved for future use.
pub fn on_binary(_bytes: &Vec<u8>) -> (r: Result<(), BridgeError>)
    ensures
        r is Ok,
{
    Ok(())
}

/// One whole inbound frame, whichever kind the socket delivered.
pub fn process_frame(tx: &StreamSender, frame: &Frame) -> (r: Result<(), BridgeError>)
    ensures
        frame matches Frame::Binary(b) ==> r is Ok,
        frame matches Frame::Text(t) ==> (r is Ok ==> parse_frame(t@) is Some),
        frame matches Frame::Text(t) ==> (parse_frame(t@) is None <==> (r matches Err(e) && e
            == BridgeError::DecodeError)),
        r matches Err(e) ==> e == BridgeError::DecodeError || e == BridgeError::TransportError,
{
    match frame {
        Frame::Text(text) => on_text(tx, text),
        Frame::Binary(bytes) => on_binary(bytes),
    }
}

/// The outbound handler: packages one send call as exactly the wire
/// frame the encoder writes for the call's handle and line. The socket
/// write itself happens beside the socket, in the application shell.
pub fn on_call(call: &Call) -> (r: String)
    ensures
        call matches Call::NewLine(h, line) ==> r@ == encode_frame(h@, line@),
{
    match call {
        Call::NewLine(handle, line) => {
            let msg = OutMessage { handle: handle.clone(), message: line.clone() };
            encode_out_message(&msg)
        },
    }
}

/// The consumer's poll: drains what the queue holds, never blocking,
/// and wraps each message as a received event in the order the queue
/// hands them out. One poll takes at most the queue's bound — all the
/// queue can hold when the poll starts; later arrivals wait for the
/// next poll. The second result reports whether the network side is
/// gone (every sender dropped) — the signal a caller can watch to add
/// reconnecting without changing the bridge.
pub fn read_stream_system(receiver: &StreamReceiver) -> (r: (Vec<ChatMessageReceivedEvent>, bool))
    ensures
        r.0@.len() <= INBOUND_QUEUE_BOUND,
{
    let mut events: Vec<ChatMessageReceivedEvent> = Vec::new();
    let mut disconnected = false;
    let mut remaining: usize = INBOUND_QUEUE_BOUND;
    while remaining > 0
        invariant
            events@.len() + remaining <= INBOUND_QUEUE_BOUND,
        decreases remaining,
    {
        match try_recv_message(&receiver.0) {
            InboundPoll::Message(m) => {
                events.push(ChatMessageReceivedEvent(m));
                remaining -= 1;
            },
            InboundPoll::Empty => {
                remaining = 0;
            },
            InboundPoll::Disconnected => {
                disconnected = true;
                remaining = 0;
            },
        }
    }
    (events, disconnected)
}

/// The relay's address, as configured at startup.
#[derive(Debug)]
pub struct WsUrl(pub String);

/// A well-formed connection address for this client: a `ws://` or
/// `wss://` scheme with at least one character after it. The full
/// parse of what follows belongs to the transport layer.
pub open spec fn is_ws_url(s: Seq<char>) -> bool {
    (s.len() > 5 && s[0] == 'w' && s[1] == 's' && s[2] == ':' && s[3] == '/' && s[4] == '/') || (
    s.len() > 6 && s[0] == 'w' && s[1] == 's' && s[2] == 's' && s[3] == ':' && s[4] == '/' && s[5]
        == '/')
}

/// Whether `url::Url::parse` accepts an address: the parse is
/// deterministic, settled by the characters alone.
pub uninterp spec fn url_parses(s: Seq<char>) -> bool;

#[verifier::external_type_specification]
#[verifier::external_body]
pub struct ExUrl(url::Url);

/// Relies on url::Url::parse: a pure parse with no base URL and no
/// environment, so whether an address parses — and to what — depends on
/// its characters alone.
#[verifier::external_body]
fn parse_url_address(s: &str) -> (r: Option<url::Url>)
    ensures
        r is Some <==> url_parses(s@),
{
    url::Url::parse(s).ok()
}

/// Screens a configured address before a connect is attempted: the
/// scheme must be `ws://` or `wss://`, and the whole address must parse
/// as a URL. A malformed address fails with `ConnectionError` here,
/// synchronously, before anything is dialled; on success the parsed
/// address is handed back for the transport.
pub fn validate_ws_url(url: &String) -> (r: Result<(WsUrl, url::Url), BridgeError>)
    ensures
        is_ws_url(url@) && url_parses(url@) ==> (r matches Ok((w, a)) && w.0 == *url),
        !(is_ws_url(url@) && url_parses(url@)) ==> (r matches Err(e) && e
            == BridgeError::ConnectionError),
{
    let s = url.as_str();
    let n = s.unicode_len();
    let scheme_ok = if n > 6 && s.get_char(2) == 's' {
        s.get_char(0) == 'w' && s.get_char(1) == 's' && s.get_char(3) == ':' && s.get_char(4) == '/'
            && s.get_char(5) == '/'
    } else if n > 5 {
        s.get_char(0) == 'w' && s.get_char(1) == 's' && s.get_char(2) == ':' && s.get_char(3) == '/'
            && s.get_char(4) == '/'
    } else {
        false
    };
    if scheme_ok {
        match parse_url_address(s) {
            Some(address) => Ok((WsUrl(url.clone()), address)),
            None => Err(BridgeError::ConnectionError),
        }
    } else {
        Err(BridgeError::ConnectionError)
    }
}

} // verus!
