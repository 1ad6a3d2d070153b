use webhttp::msg::{ActorError, ActorMsg, ConnInfo, Connect};
use webhttp::room::Room;
use webhttp::worker::{assign_worker, handle_connect, handle_disconnect, worker_pool_size};
use webhttp::wsconn::{ConnState, FrameEvent, WsAction, WsConn, CLIENT_TIMEOUT_MS};

fn fresh_conn() -> WsConn {
    WsConn::new(
        "127.0.0.1:9".to_string(),
        "chat".to_string(),
        "room1".to_string(),
        "user".to_string(),
        String::new(),
        1000,
    )
}

fn in_room_conn() -> WsConn {
    let mut c = fresh_conn();
    let r = c.on_connect_result::<String>(&Ok(ActorMsg::Accepted));
    assert!(matches!(r, WsAction::DoNothing));
    c
}

#[test]
fn accepted_handshake_enters_the_room() {
    let c = in_room_conn();
    assert_eq!(c.state, ConnState::InRoom);
    assert!(c.in_room);
}

#[test]
fn rejected_handshake_never_registers() {
    let mut c = fresh_conn();
    let r = c.on_connect_result(&Err::<ActorMsg, String>("business said no".to_string()));
    assert!(matches!(r, WsAction::Stop));
    assert_eq!(c.state, ConnState::Closing);
    assert!(!c.in_room);
    // Teardown of a never-registered connection sends no disconnect.
    assert!(matches!(c.stopping(), WsAction::DoNothing));
}

#[test]
fn business_rejection_also_tears_down() {
    let mut c = fresh_conn();
    let r = c.on_connect_result::<String>(&Ok(ActorMsg::ConnectError {
        info: "full".to_string(),
    }));
    assert!(matches!(r, WsAction::Stop));
    assert!(!c.in_room);
}

#[test]
fn text_frame_is_rejected_and_never_forwarded() {
    let mut c = in_room_conn();
    match c.handle_frame(FrameEvent::Text, 2000) {
        WsAction::RejectText { warning } => assert_eq!(warning, "BinaryOnly"),
        other => panic!("expected the text rejection, got {:?}", other),
    }
    assert_eq!(c.state, ConnState::Closing);
}

#[test]
fn binary_frame_is_forwarded_verbatim() {
    let mut c = in_room_conn();
    match c.handle_frame(FrameEvent::Binary { data: vec![1, 2, 3] }, 2000) {
        WsAction::ForwardToWorker { data } => assert_eq!(data, vec![1, 2, 3]),
        other => panic!("expected a forward, got {:?}", other),
    }
    assert_eq!(c.state, ConnState::InRoom);
}

#[test]
fn control_frames_keep_the_liveness_clock() {
    let mut c = in_room_conn();
    match c.handle_frame(FrameEvent::Ping { payload: vec![9] }, 2000) {
        WsAction::SendPong { payload } => assert_eq!(payload, vec![9]),
        other => panic!("expected a pong, got {:?}", other),
    }
    assert_eq!(c.hb, 2000);

    assert!(matches!(c.handle_frame(FrameEvent::Pong, 3500), WsAction::DoNothing));
    assert_eq!(c.hb, 3500);

    assert!(matches!(c.handle_frame(FrameEvent::Nop, 4000), WsAction::DoNothing));
    assert_eq!(c.hb, 3500);
}

#[test]
fn peer_close_and_continuation_stop_the_connection() {
    let mut c = in_room_conn();
    assert!(matches!(c.handle_frame(FrameEvent::Close, 2000), WsAction::CloseConnection));
    assert_eq!(c.state, ConnState::Closing);

    let mut c2 = in_room_conn();
    assert!(matches!(c2.handle_frame(FrameEvent::Continuation, 2000), WsAction::Stop));
    assert_eq!(c2.state, ConnState::Closing);
}

#[test]
fn heartbeat_probes_within_the_window_and_gives_up_after_it() {
    let mut c = in_room_conn();
    // hb == 1000: at the edge of the window the peer is still probed.
    assert!(matches!(c.heartbeat_tick(1000 + CLIENT_TIMEOUT_MS), WsAction::SendPing));
    assert_eq!(c.state, ConnState::InRoom);
    // One tick past the window the connection is torn down.
    assert!(matches!(c.heartbeat_tick(1001 + CLIENT_TIMEOUT_MS), WsAction::Stop));
    assert_eq!(c.state, ConnState::Closing);
}

#[test]
fn disconnect_is_dispatched_exactly_once() {
    let mut c = in_room_conn();
    assert!(matches!(c.stopping(), WsAction::SendDisconnect));
    assert_eq!(c.state, ConnState::Closed);
    // However many teardown conditions fired, only the first issues it.
    assert!(matches!(c.stopping(), WsAction::DoNothing));
}

#[test]
fn conn_info_copies_the_handshake_metadata() {
    let c = fresh_conn();
    let info = c.get_conn_info();
    assert_eq!(info.get_session_id(), "user_room1");
    assert_eq!(info.business, "chat");
    assert_eq!(info.token, "");
}

#[test]
fn worker_accepts_then_registers() {
    let mut room: Room<u32> = Room::new();
    let c = fresh_conn().get_conn_info();
    let r = handle_connect(&mut room, Connect { addr: 3, conn: c.clone() }, Ok(ActorMsg::Accepted));
    assert!(matches!(r, Ok(ActorMsg::Accepted)));
    assert_eq!(room.sessions.len(), 1);

    // The same session id again: the registry rejects the duplicate.
    let r2 = handle_connect(&mut room, Connect { addr: 4, conn: c.clone() }, Ok(ActorMsg::Accepted));
    assert!(matches!(r2, Err(ActorError::RoomAlreadyExisted(_))));
    assert_eq!(room.sessions.len(), 1);

    // A business rejection never reaches the registry.
    let mut room2: Room<u32> = Room::new();
    let r3 = handle_connect(
        &mut room2,
        Connect { addr: 5, conn: c.clone() },
        Ok(ActorMsg::ConnectError { info: "no".to_string() }),
    );
    assert!(matches!(r3, Ok(ActorMsg::ConnectError { .. })));
    assert_eq!(room2.sessions.len(), 0);

    // Disconnect removes first; the consumer is notified afterwards.
    let r4 = handle_disconnect(&mut room, &webhttp::msg::Disconnect { conn: c });
    assert!(matches!(r4, Ok(ActorMsg::Accepted)));
    assert_eq!(room.sessions.len(), 0);
}

#[test]
fn worker_assignment_stays_within_the_pool() {
    assert_eq!(assign_worker(0), None);
    for _ in 0..64 {
        let i = assign_worker(5).unwrap();
        assert!(i < 5);
    }
    assert_eq!(assign_worker(1), Some(0));
}

#[test]
fn pool_size_doubles_the_thread_count() {
    assert_eq!(worker_pool_size(None), 6);
    assert_eq!(worker_pool_size(Some(4)), 8);
    assert_eq!(worker_pool_size(Some(1)), 2);
}
