use webhttp::command::{lookup_target, CommandError, ServerCommand, WaitOutcome, WakerManager};
use webhttp::msg::{ConnInfo, Connect};
use webhttp::room::Room;

fn engine() -> ServerCommand<String> {
    ServerCommand::new()
}

#[test]
fn reply_is_delivered_exactly_once() {
    let mut q = engine();
    let id = "cmd-1".to_string();
    q.insert_pending(&id);
    assert_eq!(q.queue.len(), 1);

    // No reply yet: nothing to take.
    assert_eq!(q.take_ready(&id), None);

    assert!(q.resolve(&id, "pong".to_string()));
    // The first poll consumes the reply and removes the entry ...
    assert_eq!(q.take_ready(&id), Some("pong".to_string()));
    assert_eq!(q.queue.len(), 0);
    // ... and a second poll of the same correlation id gets nothing.
    assert_eq!(q.take_ready(&id), None);
}

#[test]
fn late_reply_is_dropped() {
    let mut q = engine();
    let id = "cmd-2".to_string();
    q.insert_pending(&id);
    q.cancel_pending(&id);
    assert_eq!(q.queue.len(), 0);
    // The entry was removed by timeout before the reply arrived: the reply
    // is dropped, nothing is re-inserted.
    assert!(!q.resolve(&id, "tardy".to_string()));
    assert_eq!(q.queue.len(), 0);
    assert_eq!(q.take_ready(&id), None);
}

#[test]
fn poll_suspends_until_reply() {
    let mut q = engine();
    let mut wakers: WakerManager<u8> = WakerManager::new();
    let id = "cmd-3".to_string();
    q.insert_pending(&id);

    // Not ready: the caller's token joins the waker set.
    assert_eq!(q.poll(&mut wakers, &id, 41), None);
    assert_eq!(q.poll(&mut wakers, &id, 42), None);
    assert_eq!(wakers.wakers.len(), 2);

    // The reaper drains every token at once, oldest first.
    let drained = wakers.drain();
    assert_eq!(drained, vec![41, 42]);
    assert_eq!(wakers.wakers.len(), 0);

    q.resolve(&id, "done".to_string());
    assert_eq!(q.poll(&mut wakers, &id, 43), Some("done".to_string()));
    // A consuming poll registers no token.
    assert_eq!(wakers.wakers.len(), 0);
}

#[test]
fn wait_times_out_no_earlier_than_the_deadline() {
    let mut q = engine();
    let id = "cmd-4".to_string();
    q.insert_pending(&id);

    // The target never replies: before the deadline the caller keeps
    // waiting, ...
    assert!(matches!(q.poll_wait(&id, 5000, 0), WaitOutcome::NotReady));
    assert!(matches!(q.poll_wait(&id, 5000, 4999), WaitOutcome::NotReady));
    assert_eq!(q.queue.len(), 1);
    // ... and from the deadline on the wait ends as a timeout and the
    // entry is dropped.
    assert!(matches!(q.poll_wait(&id, 5000, 5000), WaitOutcome::TimedOut));
    assert_eq!(q.queue.len(), 0);
}

#[test]
fn wait_returns_the_reply_when_it_arrived_first() {
    let mut q = engine();
    let id = "cmd-5".to_string();
    q.insert_pending(&id);
    q.resolve(&id, "pong".to_string());
    match q.poll_wait(&id, 5000, 123) {
        WaitOutcome::Ready(v) => assert_eq!(v, "pong"),
        _ => panic!("expected the reply"),
    }
    assert_eq!(q.queue.len(), 0);
}

#[test]
fn prepare_refuses_an_unknown_target() {
    let mut q = engine();
    let room: Room<u32> = Room::new();
    let r = q.send_command_prepare(&room, &"admin_room1".to_string());
    assert!(matches!(r, Err(CommandError::TargetNotFound)));
    assert_eq!(q.queue.len(), 0);
}

#[test]
fn prepare_draws_a_fresh_id_and_files_it() {
    let mut q = engine();
    let mut room: Room<u32> = Room::new();
    let c = ConnInfo {
        ip: "1.1.1.1:1".to_string(),
        business: "chat".to_string(),
        connid: "room1".to_string(),
        actor: "admin".to_string(),
        token: String::new(),
    };
    room.add(Connect { addr: 9, conn: c }).unwrap();

    let (eid, chan) = q.send_command_prepare(&room, &"admin_room1".to_string()).unwrap();
    assert_eq!(chan, 9);
    // A hyphenated v4 UUID: 36 ASCII characters.
    assert_eq!(eid.len(), 36);
    assert_eq!(eid.chars().count(), 36);
    assert_eq!(q.queue.len(), 1);
    assert_eq!(q.queue[0].0, eid);
    assert_eq!(q.queue[0].1, None);

    // Two prepared commands get different correlation ids.
    let (eid2, _) = q.send_command_prepare(&room, &"admin_room1".to_string()).unwrap();
    assert_ne!(eid, eid2);
}

#[test]
fn lookup_finds_the_stored_channel() {
    let mut room: Room<u32> = Room::new();
    let c = ConnInfo {
        ip: "1.1.1.1:1".to_string(),
        business: "chat".to_string(),
        connid: "room1".to_string(),
        actor: "user".to_string(),
        token: String::new(),
    };
    room.add(Connect { addr: 5, conn: c }).unwrap();
    assert_eq!(lookup_target(&room, &"user_room1".to_string()), Ok(5));
    assert_eq!(
        lookup_target(&room, &"admin_room1".to_string()),
        Err(CommandError::TargetNotFound)
    );
}

#[test]
fn reinserting_an_id_clears_its_slot() {
    let mut q = engine();
    let id = "cmd-6".to_string();
    q.insert_pending(&id);
    q.resolve(&id, "old".to_string());
    // The id is re-used for a new command: the stale reply is gone.
    q.insert_pending(&id);
    assert_eq!(q.queue.len(), 1);
    assert_eq!(q.take_ready(&id), None);
}

#[test]
fn a_second_reply_overwrites_the_first_unconsumed_one() {
    let mut q = engine();
    let id = "cmd-7".to_string();
    q.insert_pending(&id);
    assert!(q.resolve(&id, "first".to_string()));
    assert!(q.resolve(&id, "second".to_string()));
    assert_eq!(q.take_ready(&id), Some("second".to_string()));
}

#[test]
fn drain_of_an_empty_set_is_empty() {
    let mut wakers: WakerManager<u8> = WakerManager::new();
    assert_eq!(wakers.drain(), Vec::<u8>::new());
}
