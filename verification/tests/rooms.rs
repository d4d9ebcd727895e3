use sametime::room_manager::{RoomManager, CLEANUP_INTERVAL_SECS, MAX_ROOM_AGE_SECS};

fn member_ids(manager: &RoomManager, room_id: &str) -> Vec<String> {
    let room = manager.get_room(room_id).expect("room is open");
    let mut ids: Vec<String> = room.members.iter().map(|e| e.key().clone()).collect();
    ids.sort();
    ids
}

#[test]
fn new_manager_is_empty() {
    let m = RoomManager::new();
    assert_eq!(m.room_count(), 0);
    assert!(m.get_room("abc").is_none());
}

#[test]
fn create_room_opens_room_with_ready_host() {
    let mut m = RoomManager::new();
    let room = m.create_room("r1".to_string(), "Movie".to_string(), "h".to_string(), "Host".to_string());
    assert_eq!(room.id, "r1");
    assert_eq!(room.name, "Movie");
    assert_eq!(room.host_id, "h");
    assert_eq!(room.current_time, 0);
    assert!(!room.is_playing);
    assert!(room.video_hash.is_none());
    assert_eq!(room.members.len(), 1);
    let host = room.members.get("h").unwrap();
    assert_eq!(host.username, "Host");
    assert!(host.is_ready);
    assert_eq!(m.room_count(), 1);
    let now = chrono::Utc::now().timestamp();
    assert!((now - room.created_at).abs() < 60);
}

#[test]
fn create_room_with_same_id_replaces_room() {
    let mut m = RoomManager::new();
    m.create_room("r1".to_string(), "A".to_string(), "h1".to_string(), "H1".to_string());
    m.create_room("r1".to_string(), "B".to_string(), "h2".to_string(), "H2".to_string());
    assert_eq!(m.room_count(), 1);
    let room = m.get_room("r1").unwrap();
    assert_eq!(room.name, "B");
    assert_eq!(member_ids(&m, "r1"), vec!["h2".to_string()]);
}

#[test]
fn join_room_adds_member_not_ready() {
    let mut m = RoomManager::new();
    m.create_room("r1".to_string(), "A".to_string(), "h".to_string(), "Host".to_string());
    let room = m.join_room("r1", "u".to_string(), "Guest".to_string()).unwrap();
    assert_eq!(room.members.len(), 2);
    let u = room.members.get("u").unwrap();
    assert_eq!(u.username, "Guest");
    assert!(!u.is_ready);
    assert_eq!(member_ids(&m, "r1"), vec!["h".to_string(), "u".to_string()]);
}

#[test]
fn join_missing_room_is_none_and_changes_nothing() {
    let mut m = RoomManager::new();
    m.create_room("r1".to_string(), "A".to_string(), "h".to_string(), "Host".to_string());
    assert!(m.join_room("nope", "u".to_string(), "Guest".to_string()).is_none());
    assert_eq!(m.room_count(), 1);
    assert!(m.get_room("nope").is_none());
}

#[test]
fn host_rejoining_is_no_longer_ready_but_stays_host() {
    let mut m = RoomManager::new();
    m.create_room("r1".to_string(), "A".to_string(), "h".to_string(), "Host".to_string());
    let room = m.join_room("r1", "h".to_string(), "Again".to_string()).unwrap();
    assert_eq!(room.members.len(), 1);
    assert_eq!(room.host_id, "h");
    let h = room.members.get("h").unwrap();
    assert!(!h.is_ready);
    assert_eq!(h.username, "Again");
}

#[test]
fn last_member_leaving_closes_room() {
    let mut m = RoomManager::new();
    m.create_room("r1".to_string(), "A".to_string(), "h".to_string(), "Host".to_string());
    m.leave_room("r1", "h");
    assert!(m.get_room("r1").is_none());
    assert_eq!(m.room_count(), 0);
}

#[test]
fn host_leaving_hands_host_to_remaining_member() {
    let mut m = RoomManager::new();
    m.create_room("r1".to_string(), "A".to_string(), "h".to_string(), "Host".to_string());
    m.join_room("r1", "u1".to_string(), "One".to_string());
    m.join_room("r1", "u2".to_string(), "Two".to_string());
    m.leave_room("r1", "h");
    let room = m.get_room("r1").unwrap();
    assert_ne!(room.host_id, "h");
    assert!(room.host_id == "u1" || room.host_id == "u2");
    assert!(room.members.contains_key(room.host_id.as_str()));
    assert_eq!(room.members.len(), 2);
}

#[test]
fn guest_leaving_keeps_host() {
    let mut m = RoomManager::new();
    m.create_room("r1".to_string(), "A".to_string(), "h".to_string(), "Host".to_string());
    m.join_room("r1", "u".to_string(), "G".to_string());
    m.leave_room("r1", "u");
    let room = m.get_room("r1").unwrap();
    assert_eq!(room.host_id, "h");
    assert_eq!(member_ids(&m, "r1"), vec!["h".to_string()]);
}

#[test]
fn join_then_leave_restores_room() {
    let mut m = RoomManager::new();
    m.create_room("r1".to_string(), "A".to_string(), "h".to_string(), "Host".to_string());
    let before = member_ids(&m, "r1");
    m.join_room("r1", "visitor".to_string(), "V".to_string());
    m.leave_room("r1", "visitor");
    assert_eq!(member_ids(&m, "r1"), before);
    assert_eq!(m.get_room("r1").unwrap().host_id, "h");
}

#[test]
fn leaving_unknown_room_or_as_stranger_changes_nothing() {
    let mut m = RoomManager::new();
    m.create_room("r1".to_string(), "A".to_string(), "h".to_string(), "Host".to_string());
    m.leave_room("other", "h");
    m.leave_room("r1", "stranger");
    assert_eq!(m.room_count(), 1);
    assert_eq!(member_ids(&m, "r1"), vec!["h".to_string()]);
    assert_eq!(m.get_room("r1").unwrap().host_id, "h");
}

#[test]
fn sync_state_is_read_back() {
    let mut m = RoomManager::new();
    m.create_room("r1".to_string(), "A".to_string(), "h".to_string(), "Host".to_string());
    let t = 12.5f64.to_bits();
    m.update_sync_state("r1", t, true);
    let room = m.get_room("r1").unwrap();
    assert_eq!(f64::from_bits(room.current_time), 12.5);
    assert!(room.is_playing);
    m.update_sync_state("missing", t, false);
    assert_eq!(m.room_count(), 1);
}

#[test]
fn cleanup_removes_only_old_paused_rooms() {
    let mut m = RoomManager::new();
    let a = m.create_room("a".to_string(), "A".to_string(), "h".to_string(), "H".to_string());
    m.create_room("b".to_string(), "B".to_string(), "h".to_string(), "H".to_string());
    m.update_sync_state("b", 1.0f64.to_bits(), true);
    let now = a.created_at + 100;
    m.cleanup_stale_rooms_at(now, 50);
    assert!(m.get_room("a").is_none());
    assert!(m.get_room("b").is_some());
    assert_eq!(m.room_count(), 1);
}

#[test]
fn cleanup_keeps_young_rooms() {
    let mut m = RoomManager::new();
    let a = m.create_room("a".to_string(), "A".to_string(), "h".to_string(), "H".to_string());
    m.cleanup_stale_rooms_at(a.created_at + 10, 50);
    assert!(m.get_room("a").is_some());
    m.cleanup_stale_rooms_at(a.created_at + 50, 50);
    assert!(m.get_room("a").is_some());
    m.cleanup_stale_rooms_at(a.created_at + 51, 50);
    assert!(m.get_room("a").is_none());
}

#[test]
fn cleanup_by_wall_clock_keeps_fresh_rooms() {
    let mut m = RoomManager::new();
    m.create_room("a".to_string(), "A".to_string(), "h".to_string(), "H".to_string());
    m.cleanup_stale_rooms(86400);
    assert_eq!(m.room_count(), 1);
    m.cleanup_stale_rooms(-1);
    assert_eq!(m.room_count(), 0);
}

#[test]
fn room_snapshot_shares_broadcast_channel() {
    let mut m = RoomManager::new();
    m.create_room("a".to_string(), "A".to_string(), "h".to_string(), "H".to_string());
    let copy = m.get_room("a").unwrap();
    let mut rx = copy.broadcast.sender().subscribe();
    let other = m.get_room("a").unwrap();
    other
        .broadcast
        .sender()
        .send(sametime::ws_message::Delivery::Room(sametime::ws_message::WsMessage::Ping {}))
        .unwrap();
    assert_eq!(
        rx.try_recv().unwrap(),
        sametime::ws_message::Delivery::Room(sametime::ws_message::WsMessage::Ping {})
    );
    assert!(m.contains_room("a"));
    assert!(!m.contains_room("b"));
}

#[test]
fn leaving_announces_on_the_room_channel() {
    let mut m = RoomManager::new();
    m.create_room("r1".to_string(), "A".to_string(), "h".to_string(), "Host".to_string());
    let mut rx = m.get_room("r1").unwrap().broadcast.sender().subscribe();
    let (channel, notice) = m.leave_room("r1", "stranger").unwrap();
    assert_eq!(
        notice,
        sametime::ws_message::Delivery::Room(sametime::ws_message::WsMessage::UserLeft { user_id: "stranger".into() })
    );
    channel.sender().send(notice.clone()).unwrap();
    assert_eq!(rx.try_recv().unwrap(), notice);
    assert!(m.leave_room("other", "h").is_none());
    let (channel, notice) = m.leave_room("r1", "h").unwrap();
    assert!(m.get_room("r1").is_none());
    channel.sender().send(notice.clone()).unwrap();
    assert_eq!(rx.try_recv().unwrap(), notice);
}

#[test]
fn room_created_at_a_given_time() {
    let mut m = RoomManager::new();
    let r = m.create_room_at("r1".to_string(), "A".to_string(), "h".to_string(), "Host".to_string(), 1_000);
    assert_eq!(r.created_at, 1_000);
    assert_eq!(m.get_room("r1").unwrap().created_at, 1_000);
    assert_eq!(m.room_count(), 1);
    m.cleanup_stale_rooms_at(1_000 + MAX_ROOM_AGE_SECS, MAX_ROOM_AGE_SECS);
    assert_eq!(m.room_count(), 1);
    m.cleanup_stale_rooms_at(1_001 + MAX_ROOM_AGE_SECS, MAX_ROOM_AGE_SECS);
    assert_eq!(m.room_count(), 0);
}

#[test]
fn cleanup_schedule() {
    assert_eq!(CLEANUP_INTERVAL_SECS, 60);
    assert_eq!(MAX_ROOM_AGE_SECS, 86400);
}
