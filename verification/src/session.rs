//! The decisions of a WebSocket session in a room: who is connecting,
//! what each message from the client causes, and what leaving announces.
//! The server's async tasks do the sending and receiving.

use vstd::prelude::*;
use vstd::string::StringExecFns;
use crate::models::WsQuery;
use crate::room_manager::{leave_result, synced, user_left_notice, Room, RoomManager};
use crate::runtime::RoomChannel;
use crate::runtime::{new_uuid, uuid_shaped};
use crate::ws_message::{Delivery, WsMessage};

verus! {

/// Who a connection speaks for: the user id and name from the query
/// string, a fresh id when none is given, and `匿名用户` ("anonymous
/// user") when no name is.
pub fn resolve_identity(query: WsQuery) -> (r: (String, String))
    ensures
        match query.user_id {
            Some(u) => r.0@ == u@,
            None => uuid_shaped(r.0@),
        },
        match query.username {
            Some(n) => r.1@ == n@,
            None => r.1@ == "匿名用户"@,
        },
{
    let user_id = match query.user_id {
        Some(u) => u,
        None => new_uuid(),
    };
    let username = match query.username {
        Some(n) => n,
        None => String::from_str("匿名用户"),
    };
    (user_id, username)
}

/// Opens a session in a room: a copy of the room (sharing its broadcast
/// channel) and the announcement to the room that the user joined, or the
/// error message sent back when the room is not open.
pub fn connect(manager: &RoomManager, room_id: &str, user_id: &str, username: &str) -> (r: Result<(Room, Delivery), WsMessage>)
    ensures
        match r {
            Ok((room, announce)) => {
                &&& manager@.contains_key(room_id@)
                &&& room@ == manager@[room_id@]
                &&& announce matches Delivery::Room(WsMessage::UserJoined { user_id: u, username: n })
                    && u@ == user_id@ && n@ == username@
            },
            Err(msg) => !manager@.contains_key(room_id@) && (msg matches WsMessage::Error {
                message,
            } && message@ == "Room not found"@),
        },
{
    match manager.get_room(room_id) {
        Some(room) => {
            let announce = Delivery::Room(
                WsMessage::UserJoined {
                    user_id: String::from_str(user_id),
                    username: String::from_str(username),
                },
            );
            Ok((room, announce))
        },
        None => Err(WsMessage::Error { message: String::from_str("Room not found") }),
    }
}

/// The messages a client sends that are relayed to the whole room as they
/// are: chat, bullet comments, readiness and video hashes.
pub open spec fn relayed_to_room(msg: WsMessage) -> bool {
    ||| msg is ChatMessage
    ||| msg is Danmaku
    ||| msg is ReadyStateChanged
    ||| msg is VideoHash
}

/// The voice signalling a client sends to one other member, and that
/// member's user id.
pub open spec fn signal_target(msg: WsMessage) -> Option<Seq<char>> {
    match msg {
        WsMessage::VoiceOffer { target_user_id, .. } => Some(target_user_id@),
        WsMessage::VoiceAnswer { target_user_id, .. } => Some(target_user_id@),
        WsMessage::IceCandidate { target_user_id, .. } => Some(target_user_id@),
        _ => None,
    }
}

/// What one message from a client causes: a sync request records the
/// room's playback state and goes to the room as coming from this user; a
/// ping is answered with a pong to the room; chat, bullet comments,
/// readiness and video hashes go to the room unchanged; voice offers,
/// answers and ICE candidates go unchanged to their target user only;
/// anything else is ignored. The result is what to put on the room's
/// channel.
pub fn handle_client_message(manager: &mut RoomManager, room_id: &str, user_id: &str, msg: WsMessage) -> (r: Option<Delivery>)
    ensures
        final(manager).wf(),
        match msg {
            WsMessage::SyncRequest { timestamp, is_playing, .. } => {
                &&& final(manager)@ == if old(manager)@.contains_key(room_id@) {
                    old(manager)@.insert(
                        room_id@,
                        synced(old(manager)@[room_id@], timestamp, is_playing),
                    )
                } else {
                    old(manager)@
                }
                &&& r matches Some(Delivery::Room(WsMessage::SyncBroadcast { timestamp: t, is_playing: p, sender_id }))
                    && t == timestamp && p == is_playing && sender_id@ == user_id@
            },
            WsMessage::Ping {} => final(manager)@ == old(manager)@ && r matches Some(
                Delivery::Room(WsMessage::Pong {}),
            ),
            _ => final(manager)@ == old(manager)@ && if relayed_to_room(msg) {
                r == Some(Delivery::Room(msg))
            } else if signal_target(msg) is Some {
                r matches Some(Delivery::User { user_id: target, message }) && target@
                    == signal_target(msg)->0 && message == msg
            } else {
                r is None
            },
        },
{
    proof {
        use_type_invariant(&*manager);
    }
    let target: Option<String> = match &msg {
        WsMessage::VoiceOffer { target_user_id, .. } => Some(target_user_id.clone()),
        WsMessage::VoiceAnswer { target_user_id, .. } => Some(target_user_id.clone()),
        WsMessage::IceCandidate { target_user_id, .. } => Some(target_user_id.clone()),
        _ => None,
    };
    match msg {
        WsMessage::SyncRequest { room_id: _, timestamp, is_playing } => {
            manager.update_sync_state(room_id, timestamp, is_playing);
            Some(
                Delivery::Room(
                    WsMessage::SyncBroadcast {
                        timestamp,
                        is_playing,
                        sender_id: String::from_str(user_id),
                    },
                ),
            )
        },
        WsMessage::Ping {} => Some(Delivery::Room(WsMessage::Pong {})),
        WsMessage::ChatMessage { .. } => Some(Delivery::Room(msg)),
        WsMessage::Danmaku { .. } => Some(Delivery::Room(msg)),
        WsMessage::ReadyStateChanged { .. } => Some(Delivery::Room(msg)),
        WsMessage::VideoHash { .. } => Some(Delivery::Room(msg)),
        WsMessage::VoiceOffer { .. } | WsMessage::VoiceAnswer { .. } | WsMessage::IceCandidate {
            ..
        } => match target {
            Some(t) => Some(Delivery::User { user_id: t, message: msg }),
            None => None,
        },
        _ => None,
    }
}

/// Ends a session: the user leaves the room, and the result holds the
/// "user left" announcements, each with a handle on the room's channel to
/// send it on: one when the room was open as the user left, and one more
/// when the room is still open afterwards.
pub fn disconnect(manager: &mut RoomManager, room_id: &str, user_id: &str) -> (r: Vec<(RoomChannel, Delivery)>)
    ensures
        final(manager).wf(),
        leave_result(old(manager)@, room_id@, user_id@, final(manager)@),
        r@.len() == (if old(manager)@.contains_key(room_id@) {
            1int
        } else {
            0
        }) + (if final(manager)@.contains_key(room_id@) {
            1int
        } else {
            0
        }),
        forall|i: int|
            0 <= i < r@.len() ==> (#[trigger] r@[i]).0.id() == old(manager)@[room_id@].channel
                && user_left_notice(r@[i].1, user_id@),
{
    let mut out: Vec<(RoomChannel, Delivery)> = Vec::new();
    if let Some(notice) = manager.leave_room(room_id, user_id) {
        out.push(notice);
    }
    if let Some(room) = manager.get_room(room_id) {
        out.push(
            (room.broadcast, Delivery::Room(WsMessage::UserLeft { user_id: String::from_str(user_id) })),
        );
    }
    out
}

/// Voice signalling reaches its target and no one else; whatever goes to
/// the room reaches every member.
pub proof fn law_signalling_reaches_only_its_target(msg: WsMessage, d: Delivery, user: Seq<char>)
    requires
        signal_target(msg) is Some,
        d matches Delivery::User { user_id: target, message } && target@ == signal_target(msg)->0
            && message == msg,
    ensures
        crate::ws_message::reaches(d, user) <==> user == signal_target(msg)->0,
{
}

/// Messages the room hears as a whole reach every member.
pub proof fn law_room_messages_reach_everyone(msg: WsMessage, user: Seq<char>)
    ensures
        crate::ws_message::reaches(Delivery::Room(msg), user),
{
}

}
