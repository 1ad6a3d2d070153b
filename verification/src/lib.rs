//! A server-side substrate for connection-oriented messaging: a session
//! registry that groups live connections into rooms, a pool of workers that
//! fan inbound frames out to business logic, a per-connection lifecycle state
//! machine, and a command/response correlation engine that turns a
//! fire-and-wait-for-reply exchange into a pollable value with a deadline.
//!
//! The modules here hold the logic and its proofs; transport, timers and
//! serialization live with the embedding application.

pub mod access_token;
pub mod command;
pub mod msg;
pub mod permission;
pub mod response;
pub mod room;
pub mod worker;
pub mod wsconn;

pub use access_token::{create_access_token, create_refresh_token, AccessToken};
pub use command::{lookup_target, CommandError, ServerCommand, WaitOutcome, WakerManager};
pub use msg::{
    ActorError, ActorMsg, BinSendMessage, ConnInfo, Connect, Disconnect, MsgType, OutMessage,
};
pub use permission::{
    RpAction, RpConfig, RpError, RpGroup, RpInputPermission, RpInputRole, RpItem,
};
pub use response::{ErrData, NoneBodyData, OkData, Response};
pub use room::Room;
pub use worker::{assign_worker, handle_connect, handle_disconnect, worker_pool_size};
pub use wsconn::{ConnState, FrameEvent, WsAction, WsConn};
