use sametime::models::WsQuery;
use sametime::room_manager::RoomManager;
use sametime::session::{connect, disconnect, handle_client_message, resolve_identity};
use sametime::ws_message::{reaches_user, Delivery, WsMessage};

fn manager_with_room() -> RoomManager {
    let mut m = RoomManager::new();
    m.create_room("r".to_string(), "R".to_string(), "h".to_string(), "Host".to_string());
    m
}

#[test]
fn identity_defaults() {
    let (id, name) = resolve_identity(WsQuery { user_id: None, username: None });
    assert_eq!(id.len(), 36);
    assert_eq!(name, "匿名用户");
    let (id, name) = resolve_identity(WsQuery { user_id: Some("u".to_string()), username: Some("N".to_string()) });
    assert_eq!(id, "u");
    assert_eq!(name, "N");
}

#[test]
fn connect_to_missing_room_answers_error() {
    let m = RoomManager::new();
    match connect(&m, "r", "u", "n") {
        Err(WsMessage::Error { message }) => assert_eq!(message, "Room not found"),
        _ => panic!("expected error"),
    }
}

#[test]
fn connect_announces_join() {
    let m = manager_with_room();
    let (room, msg) = connect(&m, "r", "u", "Nick").ok().unwrap();
    assert_eq!(room.id, "r");
    assert_eq!(msg, Delivery::Room(WsMessage::UserJoined { user_id: "u".to_string(), username: "Nick".to_string() }));
}

#[test]
fn sync_request_updates_room_and_broadcasts() {
    let mut m = manager_with_room();
    let t = 42.25f64.to_bits();
    let out = handle_client_message(
        &mut m,
        "r",
        "user-7",
        WsMessage::SyncRequest { room_id: "ignored".to_string(), timestamp: t, is_playing: true },
    );
    assert_eq!(out, Some(Delivery::Room(WsMessage::SyncBroadcast { timestamp: t, is_playing: true, sender_id: "user-7".to_string() })));
    let room = m.get_room("r").unwrap();
    assert_eq!(f64::from_bits(room.current_time), 42.25);
    assert!(room.is_playing);
}

#[test]
fn ping_is_answered_with_pong() {
    let mut m = manager_with_room();
    assert_eq!(handle_client_message(&mut m, "r", "u", WsMessage::Ping {}), Some(Delivery::Room(WsMessage::Pong {})));
}

#[test]
fn relayed_messages_pass_unchanged() {
    let mut m = manager_with_room();
    let msgs = vec![
        WsMessage::ChatMessage { room_id: "r".into(), content: "hi".into(), sender_id: "u".into(), sender_name: "U".into(), created_at: 3 },
        WsMessage::Danmaku { room_id: "r".into(), content: "wow".into(), video_timestamp: 1.5f64.to_bits(), color: "#fff".into(), sender_id: "u".into(), sender_name: "U".into() },
        WsMessage::ReadyStateChanged { user_id: "u".into(), is_ready: true },
        WsMessage::VideoHash { room_id: "r".into(), video_hash: "ab".into(), file_name: "f".into(), sender_id: "u".into(), sender_name: "U".into() },
    ];
    for msg in msgs {
        assert_eq!(handle_client_message(&mut m, "r", "u", msg.clone()), Some(Delivery::Room(msg)));
    }
}

#[test]
fn voice_signalling_goes_to_its_target_only() {
    let mut m = manager_with_room();
    let msgs = vec![
        WsMessage::VoiceOffer { room_id: "r".into(), target_user_id: "v".into(), offer: "sdp".into() },
        WsMessage::VoiceAnswer { room_id: "r".into(), target_user_id: "v".into(), answer: "sdp".into() },
        WsMessage::IceCandidate { room_id: "r".into(), target_user_id: "v".into(), candidate: "c".into() },
    ];
    for msg in msgs {
        let out = handle_client_message(&mut m, "r", "u", msg.clone()).unwrap();
        assert_eq!(out, Delivery::User { user_id: "v".to_string(), message: msg });
        assert!(reaches_user(&out, "v"));
        assert!(!reaches_user(&out, "u"));
        assert!(!reaches_user(&out, "h"));
        assert!(!reaches_user(&out, "v2"));
    }
}

#[test]
fn room_messages_reach_every_member() {
    let d = Delivery::Room(WsMessage::Pong {});
    assert!(reaches_user(&d, "u"));
    assert!(reaches_user(&d, "h"));
    assert!(reaches_user(&d, ""));
}

#[test]
fn other_messages_are_ignored() {
    let mut m = manager_with_room();
    let msgs = vec![
        WsMessage::Pong {},
        WsMessage::UserLeft { user_id: "x".into() },
        WsMessage::UserJoined { user_id: "x".into(), username: "y".into() },
        WsMessage::RoomState { members: vec![] },
        WsMessage::Error { message: "e".into() },
        WsMessage::SyncBroadcast { timestamp: 0, is_playing: false, sender_id: "s".into() },
    ];
    for msg in msgs {
        assert_eq!(handle_client_message(&mut m, "r", "u", msg), None);
    }
    assert!(!m.get_room("r").unwrap().is_playing);
}

#[test]
fn disconnect_announces_leaving() {
    let mut m = manager_with_room();
    m.join_room("r", "u".to_string(), "U".to_string());
    let mut rx = m.get_room("r").unwrap().broadcast.sender().subscribe();
    let out = disconnect(&mut m, "r", "u");
    let left = Delivery::Room(WsMessage::UserLeft { user_id: "u".into() });
    let notices: Vec<Delivery> = out.iter().map(|(_, d)| d.clone()).collect();
    assert_eq!(notices, vec![left.clone(), left.clone()]);
    for (channel, notice) in out {
        channel.sender().send(notice).unwrap();
    }
    assert_eq!(rx.try_recv().unwrap(), left);
    assert_eq!(rx.try_recv().unwrap(), left);
    assert!(rx.try_recv().is_err());
    let last = disconnect(&mut m, "r", "h");
    assert_eq!(last.len(), 1);
    assert_eq!(last[0].1, Delivery::Room(WsMessage::UserLeft { user_id: "h".into() }));
    last[0].0.sender().send(last[0].1.clone()).unwrap();
    assert_eq!(rx.try_recv().unwrap(), Delivery::Room(WsMessage::UserLeft { user_id: "h".into() }));
    assert!(m.get_room("r").is_none());
    assert!(disconnect(&mut m, "r", "h").is_empty());
}
