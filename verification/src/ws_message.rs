//! Messages exchanged over a room's WebSocket channel.
//!
//! Playback positions travel as the IEEE-754 bit pattern of the `f64`
//! number of seconds (`f64::to_bits`); the library stores and forwards them
//! without computing on them.

use vstd::prelude::*;

verus! {

/// One member as listed in a room-state message.
#[derive(Clone, Debug, PartialEq)]
pub struct RoomStateMember {
    pub user_id: String,
    pub username: String,
    pub is_ready: bool,
}

/// Everything a client and the server say to each other inside a room.
#[derive(Clone, Debug, PartialEq)]
pub enum WsMessage {
    SyncRequest { room_id: String, timestamp: u64, is_playing: bool },
    SyncBroadcast { timestamp: u64, is_playing: bool, sender_id: String },
    ChatMessage {
        room_id: String,
        content: String,
        sender_id: String,
        sender_name: String,
        created_at: i64,
    },
    Danmaku {
        room_id: String,
        content: String,
        video_timestamp: u64,
        color: String,
        sender_id: String,
        sender_name: String,
    },
    VoiceOffer { room_id: String, target_user_id: String, offer: String },
    VoiceAnswer { room_id: String, target_user_id: String, answer: String },
    IceCandidate { room_id: String, target_user_id: String, candidate: String },
    UserJoined { user_id: String, username: String },
    UserLeft { user_id: String },
    ReadyStateChanged { user_id: String, is_ready: bool },
    RoomState { members: Vec<RoomStateMember> },
    VideoHash {
        room_id: String,
        video_hash: String,
        file_name: String,
        sender_id: String,
        sender_name: String,
    },
    Ping {},
    Pong {},
    Error { message: String },
}

/// A message put on a room's broadcast channel, with who may receive it:
/// the whole room, or one user only.
#[derive(Clone, Debug, PartialEq)]
pub enum Delivery {
    Room(WsMessage),
    User { user_id: String, message: WsMessage },
}

/// Whether the connection of `user` receives `d`.
pub open spec fn reaches(d: Delivery, user: Seq<char>) -> bool {
    match d {
        Delivery::Room(_) => true,
        Delivery::User { user_id, .. } => user_id@ == user,
    }
}

/// Whether the connection of `user_id` receives `d`.
pub fn reaches_user(d: &Delivery, user_id: &str) -> (b: bool)
    ensures
        b == reaches(*d, user_id@),
{
    match d {
        Delivery::Room(_) => true,
        Delivery::User { user_id: target, .. } => crate::text::same_text(target.as_str(), user_id),
    }
}

}
