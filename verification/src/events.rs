//! Payloads exchanged with clients, and the broadcast request.

use vstd::prelude::*;

verus! {

/// The content of one message exchanged with a client.
#[derive(Clone, Debug, PartialEq, Eq)]
pub enum NetworkPayload {
    Text(String),
    Binary(Vec<u8>),
    Ping(Vec<u8>),
    Pong(Vec<u8>),
}

/// A message from a client, as handed to the systems: the entity of the
/// connection, the connection's id and what was sent.
pub struct MessageReceived {
    pub entity: u64,
    pub client_id: u64,
    pub payload: NetworkPayload,
}

/// A client disconnected: the entity of the connection and its id.
pub struct UserDisconnected {
    pub entity: u64,
    pub client_id: u64,
}

/// A request to deliver one payload to every connected client.
pub struct BroadcastMessage {
    pub msg: NetworkPayload,
}

} // verus!
