//! Event and payload types shared by the registry, the workers and the
//! per-connection state machine.

use vstd::prelude::*;

verus! {

/// Errors raised by registry and worker handling.
#[derive(Clone, Debug)]
pub enum ActorError {
    /// A session with the same identity is already registered.
    RoomAlreadyExisted(String),
    /// The addressed room or session is not registered.
    RoomNotExisted(String),
    /// An inbound frame could not be decoded.
    DataDecodeError,
}

/// Answer returned by a worker for a connect, disconnect or message event.
#[derive(Clone, Debug)]
pub enum ActorMsg {
    /// The event was accepted.
    Accepted,
    /// The connection was rejected by business logic.
    ConnectError { info: String },
}

/// An outbound payload queued towards one connection's socket.
#[derive(Default, Debug, Clone)]
pub struct OutMessage {
    /// The frame body, written to the socket as one binary frame.
    pub data: Vec<u8>,
}

/// An outbound payload of the older lobby-style channel.
#[derive(Default, Debug, Clone)]
pub struct BinSendMessage {
    /// The frame body.
    pub data: Vec<u8>,
}

/// The payload of an inbound data frame: the wire protocol mandates binary
/// frames, and a text frame is a protocol violation.
#[derive(Clone, Debug)]
pub enum MsgType {
    /// A text frame (rejected by the connection state machine).
    MsgText { data: String },
    /// A binary frame.
    MsgBinary { data: Vec<u8> },
}

/// Immutable per-connection metadata, created once at handshake and cloned
/// into every event that refers to that connection.
#[derive(Debug, Default)]
pub struct ConnInfo {
    /// The peer address the connection came from.
    pub ip: String,
    /// The business namespace taken from the connection path.
    pub business: String,
    /// The connection id; sessions sharing it form one room.
    pub connid: String,
    /// The role name; it disambiguates sessions within one room.
    pub actor: String,
    /// The opaque auth token; an absent token is kept as the empty string.
    pub token: String,
}

impl Clone for ConnInfo {
    /// An exact copy, field by field.
    fn clone(&self) -> (r: Self)
        ensures
            r == *self,
    {
        ConnInfo {
            ip: self.ip.clone(),
            business: self.business.clone(),
            connid: self.connid.clone(),
            actor: self.actor.clone(),
            token: self.token.clone(),
        }
    }
}

impl ConnInfo {
    /// The session identity as a sequence of characters:
    /// the actor, an underscore, then the connection id.
    pub open spec fn spec_session_id(self) -> Seq<char> {
        self.actor@ + seq!['_'] + self.connid@
    }

    /// The room identity: the connection id alone.
    pub open spec fn spec_room_id(self) -> Seq<char> {
        self.connid@
    }

    /// The composite key under which this connection is registered,
    /// unique per live connection.
    pub fn get_session_id(&self) -> (r: String)
        ensures
            r@ == self.spec_session_id(),
    {
        let mut id = self.actor.clone();
        id.append("_");
        id.append(self.connid.as_str());
        proof {
            reveal_strlit("_");
            assert(id@ =~= self.spec_session_id());
        }
        id
    }

    /// The room this connection belongs to.
    pub fn get_room_id(&self) -> (r: String)
        ensures
            r@ == self.spec_room_id(),
    {
        self.connid.clone()
    }
}

/// A connect event: the handshake metadata together with the output channel
/// on which payloads for this connection are queued. The channel type is the
/// embedder's; this crate only stores and hands back such handles.
pub struct Connect<C> {
    /// The output channel handle of the new connection.
    pub addr: C,
    /// The handshake metadata.
    pub conn: ConnInfo,
}

/// A disconnect event for a previously registered connection.
pub struct Disconnect {
    /// The metadata of the connection being torn down.
    pub conn: ConnInfo,
}

} // verus!
