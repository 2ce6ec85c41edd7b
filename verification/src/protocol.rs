//! Wire-level message shapes and the bridge's error taxonomy.

use vstd::prelude::*;

verus! {

/// A chat participant's display identifier: a wrapped string, compared
/// and displayed by its underlying characters.
#[derive(Debug)]
pub struct ChatHandle(pub String);

impl View for ChatHandle {
    type V = Seq<char>;

    open spec fn view(&self) -> Seq<char> {
        self.0@
    }
}

impl ChatHandle {
    pub fn new(name: String) -> (r: ChatHandle)
        ensures
            r@ == name@,
    {
        ChatHandle(name)
    }

    /// The underlying string, for display by a consumer.
    pub fn as_str(&self) -> (r: &str)
        ensures
            r@ == self@,
    {
        self.0.as_str()
    }
}

impl Clone for ChatHandle {
    fn clone(&self) -> (r: Self)
        ensures
            r == *self,
    {
        ChatHandle(self.0.clone())
    }
}

/// The content of one chat message: a wrapped string with no length or
/// content validation (left to the relay).
#[derive(Debug)]
pub struct ChatMessageText(pub String);

impl View for ChatMessageText {
    type V = Seq<char>;

    open spec fn view(&self) -> Seq<char> {
        self.0@
    }
}

impl ChatMessageText {
    pub fn new(text: String) -> (r: ChatMessageText)
        ensures
            r@ == text@,
    {
        ChatMessageText(text)
    }

    /// The underlying string, for display by a consumer.
    pub fn as_str(&self) -> (r: &str)
        ensures
            r@ == self@,
    {
        self.0.as_str()
    }
}

impl Clone for ChatMessageText {
    fn clone(&self) -> (r: Self)
        ensures
            r == *self,
    {
        ChatMessageText(self.0.clone())
    }
}

/// An inbound chat message in model form, produced by decoding one wire
/// frame and owned by the session's message log afterwards.
#[derive(Debug)]
pub struct ChatMessage {
    pub message: ChatMessageText,
    pub handle: ChatHandle,
}

impl Clone for ChatMessage {
    fn clone(&self) -> (r: Self)
        ensures
            r == *self,
    {
        ChatMessage { message: self.message.clone(), handle: self.handle.clone() }
    }
}

/// The wire form of one outbound send, constructed transiently for a
/// single frame and not retained.
#[derive(Debug)]
pub struct OutMessage {
    pub handle: ChatHandle,
    pub message: String,
}

/// A request accepted by the connection bridge's outbound handle.
#[derive(Debug)]
pub enum Call {
    NewLine(ChatHandle, String),
}

/// One discrete frame of the transport: the protocol is text/JSON-only,
/// and binary frames are accepted but never interpreted.
#[derive(Debug)]
pub enum Frame {
    Text(String),
    Binary(Vec<u8>),
}

/// The bridge's error taxonomy.
///
/// Encoding needs no variant of its own: the outbound encoder is total,
/// so an encode failure cannot occur.
#[derive(Clone, Copy, Debug, PartialEq, Eq, Structural)]
pub enum BridgeError {
    /// The connection address is malformed, or the handshake failed.
    ConnectionError,
    /// An inbound frame does not match the expected JSON shape; fatal to
    /// the background task.
    DecodeError,
    /// The underlying transport failed during a read or a write.
    TransportError,
}

} // verus!
