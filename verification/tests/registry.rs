use webhttp::msg::{ActorError, ActorMsg, ConnInfo, Connect, Disconnect};
use webhttp::room::Room;

fn conn(ip: &str, business: &str, connid: &str, actor: &str) -> ConnInfo {
    ConnInfo {
        ip: ip.to_string(),
        business: business.to_string(),
        connid: connid.to_string(),
        actor: actor.to_string(),
        token: String::new(),
    }
}

#[test]
fn session_id_joins_actor_and_connid() {
    let c = conn("127.0.0.1:9", "chat", "room1", "user");
    assert_eq!(c.get_session_id(), "user_room1");
    assert_eq!(c.get_room_id(), "room1");
}

#[test]
fn add_succeeds_then_duplicate_rejected() {
    let mut room: Room<u32> = Room::new();
    let c = conn("127.0.0.1:9", "chat", "room1", "user");
    let r1 = room.add(Connect { addr: 7, conn: c.clone() });
    assert!(matches!(r1, Ok(ActorMsg::Accepted)));
    assert_eq!(room.sessions.len(), 1);
    assert_eq!(room.rooms.len(), 1);

    // A second add for the same session id fails and mutates nothing.
    let r2 = room.add(Connect { addr: 8, conn: c.clone() });
    match r2 {
        Err(ActorError::RoomAlreadyExisted(s)) => assert_eq!(s, "user_room1"),
        other => panic!("expected duplicate rejection, got {:?}", other),
    }
    assert_eq!(room.sessions.len(), 1);
    assert_eq!(room.sessions[0].2, 7);
    assert_eq!(room.rooms.len(), 1);
    assert_eq!(room.rooms[0].1.len(), 1);
}

#[test]
fn room_exists_exactly_while_members_remain() {
    let mut room: Room<u32> = Room::new();
    let a = conn("1.1.1.1:1", "chat", "room1", "user");
    let b = conn("2.2.2.2:2", "chat", "room1", "admin");
    assert!(room.add(Connect { addr: 1, conn: a.clone() }).is_ok());
    assert!(room.add(Connect { addr: 2, conn: b.clone() }).is_ok());
    assert_eq!(room.rooms.len(), 1);
    assert_eq!(room.rooms[0].0, "room1");
    assert_eq!(room.rooms[0].1.len(), 2);

    assert!(matches!(room.remove(&Disconnect { conn: a }), Ok(ActorMsg::Accepted)));
    assert_eq!(room.rooms.len(), 1);
    assert_eq!(room.rooms[0].1.len(), 1);
    assert_eq!(room.rooms[0].1[0], "admin_room1");

    assert!(matches!(room.remove(&Disconnect { conn: b }), Ok(ActorMsg::Accepted)));
    // The last member's removal deletes the room entry: no empty rooms.
    assert_eq!(room.rooms.len(), 0);
    assert_eq!(room.sessions.len(), 0);
}

#[test]
fn remove_unknown_session_is_a_noop() {
    let mut room: Room<u32> = Room::new();
    let a = conn("1.1.1.1:1", "chat", "room1", "user");
    assert!(room.add(Connect { addr: 1, conn: a }).is_ok());
    let ghostly = conn("9.9.9.9:9", "chat", "elsewhere", "nobody");
    assert!(matches!(room.remove(&Disconnect { conn: ghostly }), Ok(ActorMsg::Accepted)));
    assert_eq!(room.sessions.len(), 1);
    assert_eq!(room.rooms.len(), 1);
}

#[test]
fn listings_report_sessions_in_order() {
    let mut room: Room<u32> = Room::new();
    let a = conn("1.1.1.1:1", "chat", "room1", "user");
    let b = conn("2.2.2.2:2", "game", "room2", "user");
    room.add(Connect { addr: 10, conn: a }).unwrap();
    room.add(Connect { addr: 20, conn: b }).unwrap();

    assert_eq!(room.get_client_id_list(), vec!["user_room1", "user_room2"]);
    let infos = room.get_client_conn_info_list();
    assert_eq!(infos.len(), 2);
    assert_eq!(infos[0].business, "chat");
    assert_eq!(infos[1].business, "game");
    assert_eq!(room.get_client_conn_addr_list(), vec![10, 20]);
}

#[test]
fn lookup_by_connection_id() {
    let mut room: Room<u32> = Room::new();
    let a = conn("1.1.1.1:1", "chat", "room1", "user");
    room.add(Connect { addr: 1, conn: a }).unwrap();

    assert!(room.has_client_conn(&"room1".to_string()));
    assert!(!room.has_client_conn(&"room2".to_string()));
    assert_eq!(room.get_client_id_by_conn(&"room1".to_string()), Some("user_room1".to_string()));
    assert_eq!(room.get_client_id_by_conn(&"room2".to_string()), None);
}

#[test]
fn broadcast_reaches_all_members_and_counts_failures() {
    let mut room: Room<u32> = Room::new();
    for (i, actor) in ["user", "admin", "watcher"].iter().enumerate() {
        let c = conn("1.1.1.1:1", "chat", "room1", actor);
        room.add(Connect { addr: i as u32, conn: c }).unwrap();
    }
    let targets = room.broadcast_to_room(&"room1".to_string());
    assert_eq!(targets.len(), 3);
    let names: Vec<String> = targets.iter().map(|t| t.0.clone()).collect();
    assert_eq!(names, vec!["user_room1", "admin_room1", "watcher_room1"]);

    // One member's channel is dead: delivery still reaches the other two,
    // and exactly one failure is reported.
    let dead_channel: u32 = 1;
    let mut outcomes: Vec<bool> = Vec::new();
    let mut delivered = 0;
    for (_, chan) in &targets {
        if *chan == dead_channel {
            outcomes.push(false);
        } else {
            outcomes.push(true);
            delivered += 1;
        }
    }
    assert_eq!(delivered, 2);
    assert_eq!(Room::<u32>::broadcast_report(&outcomes), 1);
}

#[test]
fn broadcast_to_unknown_room_is_empty() {
    let room: Room<u32> = Room::new();
    assert_eq!(room.broadcast_to_room(&"nowhere".to_string()).len(), 0);
    assert_eq!(Room::<u32>::broadcast_report(&Vec::new()), 0);
}
