//! The per-connection lifecycle state machine.
//!
//! One instance lives for one socket. The embedding application owns the
//! socket, the timers and the actor mailbox; it feeds every event into this
//! machine and performs the single action the machine returns. All
//! decisions — what a frame does, when the heartbeat gives up on a peer,
//! whether a teardown notifies the registry — are made and proved here.

use vstd::prelude::*;

use crate::msg::{ActorMsg, ConnInfo};

verus! {

/// How often the heartbeat fires and sends a liveness probe, in
/// milliseconds.
pub const HEARTBEAT_INTERVAL_MS: u64 = 10000;

/// How long the peer may stay silent before the connection is torn down, in
/// milliseconds.
pub const CLIENT_TIMEOUT_MS: u64 = 20000;

/// Where a connection stands in its life.
#[derive(Clone, Copy, Debug, PartialEq, Eq, Structural)]
pub enum ConnState {
    /// The socket is accepted and the connect event is with a worker.
    Connecting,
    /// The handshake succeeded and the session is registered.
    InRoom,
    /// Teardown has begun; the socket is about to close.
    Closing,
    /// The socket is closed and the teardown notification, if one was owed,
    /// has been issued.
    Closed,
}

/// One inbound socket event, as the transport reports it.
#[derive(Debug)]
pub enum FrameEvent {
    /// A ping control frame with its payload.
    Ping { payload: Vec<u8> },
    /// A pong control frame.
    Pong,
    /// The peer asked to close.
    Close,
    /// A continuation frame, which this protocol does not use.
    Continuation,
    /// A no-op frame.
    Nop,
    /// A binary data frame: the only data frame the protocol admits.
    Binary { data: Vec<u8> },
    /// A text data frame: a protocol violation on this binary-only channel.
    Text,
    /// The transport reported a protocol error on the stream.
    StreamError,
}

/// The single action the embedder performs after feeding one event in.
#[derive(Debug)]
pub enum WsAction {
    /// Nothing to do.
    DoNothing,
    /// Answer a ping with this pong payload.
    SendPong { payload: Vec<u8> },
    /// Send a liveness probe.
    SendPing,
    /// Hand this binary frame to a worker as an inbound message.
    ForwardToWorker { data: Vec<u8> },
    /// Write this diagnostic to the peer as a binary frame, then stop: the
    /// peer sent a text frame on a binary-only channel.
    RejectText { warning: String },
    /// Close the socket in answer to the peer's close, then stop.
    CloseConnection,
    /// Stop the connection actor; teardown follows.
    Stop,
    /// Dispatch the disconnect event for this connection to a worker.
    SendDisconnect,
}

/// The state machine of one connection.
pub struct WsConn {
    /// When the peer last showed life, in the embedder's clock (millis).
    pub hb: u64,
    /// The peer address.
    pub ip: String,
    /// The business namespace from the connection path.
    pub business: String,
    /// The connection id; doubles as the room name.
    pub connid: String,
    /// The role name.
    pub actor: String,
    /// The auth token; empty when the client sent none.
    pub token: String,
    /// Where the connection stands.
    pub state: ConnState,
    /// Whether the session was registered (the handshake was accepted).
    pub in_room: bool,
    /// Whether the teardown notification has been issued.
    pub disconnect_sent: bool,
}

impl WsConn {
    /// The metadata these fields describe.
    pub open spec fn spec_conn_info(self) -> ConnInfo {
        ConnInfo {
            ip: self.ip,
            business: self.business,
            connid: self.connid,
            actor: self.actor,
            token: self.token,
        }
    }

    /// A fresh machine for a just-accepted socket: connecting, not yet
    /// registered, with the liveness clock started at `now`.
    pub fn new(
        ip: String,
        business: String,
        connid: String,
        actor: String,
        token: String,
        now: u64,
    ) -> (r: WsConn)
        ensures
            r.ip == ip,
            r.business == business,
            r.connid == connid,
            r.actor == actor,
            r.token == token,
            r.hb == now,
            r.state is Connecting,
            !r.in_room,
            !r.disconnect_sent,
    {
        WsConn {
            hb: now,
            ip,
            business,
            connid,
            actor,
            token,
            state: ConnState::Connecting,
            in_room: false,
            disconnect_sent: false,
        }
    }

    /// A copy of this connection's metadata, cloned into every event that
    /// refers to it.
    pub fn get_conn_info(&self) -> (r: ConnInfo)
        ensures
            r == self.spec_conn_info(),
    {
        ConnInfo {
            ip: self.ip.clone(),
            business: self.business.clone(),
            connid: self.connid.clone(),
            actor: self.actor.clone(),
            token: self.token.clone(),
        }
    }

    /// Takes the worker's answer to the connect event. Acceptance enters
    /// the room and marks the session registered; a business rejection, a
    /// registry rejection or a transport failure begins teardown without
    /// the registered mark ever being set.
    pub fn on_connect_result<E>(&mut self, res: &Result<ActorMsg, E>) -> (r: WsAction)
        requires
            old(self).state is Connecting,
        ensures
            res matches Ok(ActorMsg::Accepted) ==> final(self).state is InRoom && final(self).in_room && (r is DoNothing),
            !(res matches Ok(ActorMsg::Accepted)) ==> final(self).state is Closing && !final(self).in_room && (r is Stop),
            final(self).hb == old(self).hb,
            final(self).ip == old(self).ip,
            final(self).business == old(self).business,
            final(self).connid == old(self).connid,
            final(self).actor == old(self).actor,
            final(self).token == old(self).token,
            final(self).disconnect_sent == old(self).disconnect_sent,
    {
        match res {
            Ok(ActorMsg::Accepted) => {
                self.in_room = true;
                self.state = ConnState::InRoom;
                WsAction::DoNothing
            },
            _ => {
                self.in_room = false;
                self.state = ConnState::Closing;
                WsAction::Stop
            },
        }
    }

    /// Feeds one inbound socket event into the machine.
    ///
    /// Control frames keep the liveness clock; the peer's close and a
    /// continuation frame begin teardown; a binary frame — and only a
    /// binary frame — is forwarded to a worker; a text frame is answered
    /// with a diagnostic and closes the connection, so business logic never
    /// sees text content.
    pub fn handle_frame(&mut self, msg: FrameEvent, now: u64) -> (r: WsAction)
        requires
            old(self).state is InRoom,
        ensures
            (r is ForwardToWorker) <==> (msg is Binary),
            match msg {
                FrameEvent::Ping { payload } => (r matches WsAction::SendPong { payload: p } && p@
                    == payload@) && final(self).hb == now && final(self).state is InRoom,
                FrameEvent::Pong => (r is DoNothing) && final(self).hb == now && final(self).state is InRoom,
                FrameEvent::Close => (r is CloseConnection) && final(self).hb == old(self).hb
                    && final(self).state is Closing,
                FrameEvent::Continuation => (r is Stop) && final(self).hb == old(self).hb && final(self).state is Closing,
                FrameEvent::Nop => (r is DoNothing) && *final(self) == *old(self),
                FrameEvent::Binary { data } => (r matches WsAction::ForwardToWorker {
                    data: d,
                } && d@ == data@) && final(self).hb == old(self).hb && final(self).state is InRoom,
                FrameEvent::Text => (r matches WsAction::RejectText { warning } && warning@
                    == "BinaryOnly"@) && final(self).hb == old(self).hb && final(self).state is Closing,
                FrameEvent::StreamError => (r is DoNothing) && *final(self) == *old(self),
            },
            final(self).ip == old(self).ip,
            final(self).business == old(self).business,
            final(self).connid == old(self).connid,
            final(self).actor == old(self).actor,
            final(self).token == old(self).token,
            final(self).in_room == old(self).in_room,
            final(self).disconnect_sent == old(self).disconnect_sent,
    {
        match msg {
            FrameEvent::Ping { payload } => {
                self.hb = now;
                WsAction::SendPong { payload }
            },
            FrameEvent::Pong => {
                self.hb = now;
                WsAction::DoNothing
            },
            FrameEvent::Close => {
                self.state = ConnState::Closing;
                WsAction::CloseConnection
            },
            FrameEvent::Continuation => {
                self.state = ConnState::Closing;
                WsAction::Stop
            },
            FrameEvent::Nop => WsAction::DoNothing,
            FrameEvent::Binary { data } => WsAction::ForwardToWorker { data },
            FrameEvent::Text => {
                self.state = ConnState::Closing;
                WsAction::RejectText { warning: binary_only_warning() }
            },
            FrameEvent::StreamError => WsAction::DoNothing,
        }
    }

    /// One heartbeat tick at time `now`: a peer silent for longer than the
    /// timeout window is torn down; a live one is probed with a ping. A
    /// connection is never torn down for silence within the window.
    pub fn heartbeat_tick(&mut self, now: u64) -> (r: WsAction)
        requires
            old(self).state is InRoom,
        ensures
            now > old(self).hb + CLIENT_TIMEOUT_MS ==> (r is Stop) && final(self).state is Closing,
            now <= old(self).hb + CLIENT_TIMEOUT_MS ==> (r is SendPing) && *final(self) == *old(self),
            final(self).hb == old(self).hb,
            final(self).in_room == old(self).in_room,
            final(self).disconnect_sent == old(self).disconnect_sent,
            final(self).ip == old(self).ip,
            final(self).business == old(self).business,
            final(self).connid == old(self).connid,
            final(self).actor == old(self).actor,
            final(self).token == old(self).token,
    {
        if now > self.hb && now - self.hb > CLIENT_TIMEOUT_MS {
            self.state = ConnState::Closing;
            WsAction::Stop
        } else {
            WsAction::SendPing
        }
    }

    /// The teardown step, run when the connection stops for whatever
    /// reason: the disconnect event is dispatched exactly when the session
    /// had been registered and the notification has not been issued before,
    /// so it is issued exactly once however many conditions triggered
    /// teardown — and never for a connection that was refused a place in
    /// the registry.
    pub fn stopping(&mut self) -> (r: WsAction)
        ensures
            old(self).in_room && !old(self).disconnect_sent ==> (r is SendDisconnect) && final(self).disconnect_sent,
            !(old(self).in_room && !old(self).disconnect_sent) ==> (r is DoNothing) && final(self).disconnect_sent == old(self).disconnect_sent,
            Self::stopping_step(*old(self), *final(self), r),
            final(self).state is Closed,
            final(self).hb == old(self).hb,
            final(self).in_room == old(self).in_room,
            final(self).ip == old(self).ip,
            final(self).business == old(self).business,
            final(self).connid == old(self).connid,
            final(self).actor == old(self).actor,
            final(self).token == old(self).token,
    {
        self.state = ConnState::Closed;
        if self.in_room && !self.disconnect_sent {
            self.disconnect_sent = true;
            WsAction::SendDisconnect
        } else {
            WsAction::DoNothing
        }
    }

    /// However teardown is reached and repeated, the disconnect event goes
    /// out at most once, and only for a connection that was registered.
    pub proof fn lemma_disconnect_at_most_once(c0: Self, c1: Self, c2: Self, r1: WsAction, r2: WsAction)
        requires
            Self::stopping_step(c0, c1, r1),
            Self::stopping_step(c1, c2, r2),
        ensures
            !(r1 is SendDisconnect && r2 is SendDisconnect),
            !c0.in_room ==> !(r1 is SendDisconnect) && !(r2 is SendDisconnect),
    {
    }

    /// What one teardown step does (the contract of [`WsConn::stopping`],
    /// as a relation).
    pub open spec fn stopping_step(pre: Self, post: Self, r: WsAction) -> bool {
        &&& pre.in_room && !pre.disconnect_sent ==> (r is SendDisconnect) && post.disconnect_sent
        &&& !(pre.in_room && !pre.disconnect_sent) ==> (r is DoNothing) && post.disconnect_sent
            == pre.disconnect_sent
        &&& post.in_room == pre.in_room
    }
}

/// The diagnostic sent to a peer that used a text frame on this binary-only
/// channel.
fn binary_only_warning() -> (r: String)
    ensures
        r@ == "BinaryOnly"@,
{
    let s: &str = "BinaryOnly";
    s.to_owned()
}

} // verus!
