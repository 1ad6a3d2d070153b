//! One connection's life from handshake to teardown, and a command round
//! trip between two clients of the same room, driven end to end through the
//! registry, the workers, the connection machines and the correlation
//! engine.

use webhttp::command::{ServerCommand, WaitOutcome};
use webhttp::msg::{ActorMsg, ConnInfo, Connect, Disconnect};
use webhttp::room::Room;
use webhttp::worker::{handle_connect, handle_disconnect};
use webhttp::wsconn::{WsAction, WsConn};

fn client(actor: &str) -> WsConn {
    WsConn::new(
        "127.0.0.1:9".to_string(),
        "chat".to_string(),
        "room1".to_string(),
        actor.to_string(),
        String::new(),
        0,
    )
}

fn connect(room: &mut Room<u32>, machine: &mut WsConn, chan: u32) {
    let info = machine.get_conn_info();
    // The worker asks business logic, which accepts, and registers the
    // session; the connection machine takes the worker's answer.
    let status = handle_connect(room, Connect { addr: chan, conn: info }, Ok(ActorMsg::Accepted));
    machine.on_connect_result(&status);
}

#[test]
fn two_clients_one_command_round_trip() {
    let mut room: Room<u32> = Room::new();
    let mut engine: ServerCommand<Vec<u8>> = ServerCommand::new();

    // Client A connects to business "chat", actor "user", connid "room1";
    // client B with the same business and connid, actor "admin".
    let mut a = client("user");
    let mut b = client("admin");
    connect(&mut room, &mut a, 1);
    connect(&mut room, &mut b, 2);
    assert!(a.in_room);
    assert!(b.in_room);
    assert_eq!(room.rooms.len(), 1);
    assert_eq!(room.rooms[0].1.len(), 2);

    // The server issues a command to B with a five-second deadline.
    let (eid, chan_b) = engine.send_command_prepare(&room, &"admin_room1".to_string()).unwrap();
    assert_eq!(chan_b, 2);

    // B's business logic replies "pong" under the same correlation id;
    // the awaited result is "pong", well before the deadline.
    assert!(engine.resolve(&eid, b"pong".to_vec()));
    match engine.poll_wait(&eid, 5000, 120) {
        WaitOutcome::Ready(v) => assert_eq!(v, b"pong".to_vec()),
        _ => panic!("the reply should be ready"),
    }

    // Disconnecting A leaves the room with B alone ...
    assert!(matches!(a.stopping(), WsAction::SendDisconnect));
    handle_disconnect(&mut room, &Disconnect { conn: a.get_conn_info() });
    assert_eq!(room.rooms.len(), 1);
    assert_eq!(room.rooms[0].1, vec!["admin_room1"]);

    // ... and disconnecting B removes the room entirely.
    assert!(matches!(b.stopping(), WsAction::SendDisconnect));
    handle_disconnect(&mut room, &Disconnect { conn: b.get_conn_info() });
    assert_eq!(room.rooms.len(), 0);
    assert_eq!(room.sessions.len(), 0);
}
