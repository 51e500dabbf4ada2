//! What travels between clients, the registry and those who watch it.
use vstd::prelude::*;

verus! {

/// A command for a client. `payload` is what the client reads; nothing here does.
#[derive(Clone, Debug, PartialEq, Eq)]
pub struct CloudCommand {
    pub command_id: String,
    pub payload: Vec<u8>,
}

/// A client's answer to the command whose id it carries.
#[derive(Clone, Debug, PartialEq, Eq)]
pub struct CommandResponse {
    pub command_id: String,
    pub payload: Vec<u8>,
}

/// What the holder of a token may call itself, and until when.
#[derive(Clone, Debug)]
pub struct Claims {
    /// Hardware id of the client.
    pub sub: String,
    /// Expiration timestamp.
    pub exp: usize,
}

/// A client came or went.
#[derive(Clone, Debug)]
pub enum ConnectionEvent {
    Connected(String),
    Disconnected(String),
}

/// A connection event with the client id as a sequence of characters.
pub enum EventView {
    Connected(Seq<char>),
    Disconnected(Seq<char>),
}

impl View for ConnectionEvent {
    type V = EventView;

    open spec fn view(&self) -> EventView {
        match self {
            ConnectionEvent::Connected(id) => EventView::Connected(id@),
            ConnectionEvent::Disconnected(id) => EventView::Disconnected(id@),
        }
    }
}

/// First message of a client: its id and the version it runs.
#[derive(Clone, Debug)]
pub struct Registration {
    pub client_id: String,
    pub version: String,
}

/// What a client sends over its stream.
#[derive(Clone, Debug)]
pub enum ClientMessage {
    Register(Registration),
    Ping,
    Refresh { new_jwt: String },
    Response(CommandResponse),
    Log { level: String, message: String },
}

} // verus!
