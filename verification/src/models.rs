//! The records and request/response bodies the server stores and
//! exchanges. Floating-point playback positions are carried as the bit
//! pattern of the `f64` (`f64::to_bits`).

use vstd::prelude::*;

verus! {

/// A chat message as stored.
#[derive(Debug, Clone)]
pub struct Message {
    pub id: String,
    pub room_id: String,
    pub user_id: String,
    pub content: String,
    pub created_at: i64,
}

/// A bullet comment as stored; `video_timestamp` is the bit pattern of the
/// `f64` position in the video, in seconds.
#[derive(Debug, Clone)]
pub struct DanmakuRecord {
    pub id: String,
    pub room_id: String,
    pub user_id: String,
    pub content: String,
    pub video_timestamp: u64,
    pub color: String,
    pub created_at: i64,
}

/// An uploaded file as stored.
#[derive(Debug, Clone)]
pub struct FileRecord {
    pub id: String,
    pub filename: String,
    pub file_hash: String,
    pub file_size: i64,
    pub uploader_id: String,
    pub room_id: Option<String>,
    pub created_at: i64,
}

/// A room as stored.
#[derive(Debug, Clone)]
pub struct RoomRecord {
    pub id: String,
    pub name: String,
    pub host_id: String,
    pub password_hash: Option<String>,
    pub created_at: i64,
    pub closed_at: Option<i64>,
}

/// The body of a request to open a room.
#[derive(Debug)]
pub struct CreateRoomRequest {
    pub name: String,
    pub password: Option<String>,
}

/// The body of a request to join a room.
#[derive(Debug)]
pub struct JoinRoomRequest {
    pub password: Option<String>,
}

/// The body the join endpoint reads.
#[derive(Debug)]
pub struct JoinRoomBody {
    pub password: Option<String>,
}

/// What the room endpoints answer; `current_time` is the bit pattern of
/// the `f64` playback position in seconds.
#[derive(Debug)]
pub struct RoomResponse {
    pub id: String,
    pub name: String,
    pub host_id: String,
    pub current_time: u64,
    pub is_playing: bool,
    pub created_at: i64,
}

/// The query string of a WebSocket connection.
#[derive(Debug)]
pub struct WsQuery {
    pub user_id: Option<String>,
    pub username: Option<String>,
}

/// The body of a registration request.
#[derive(Debug)]
pub struct RegisterRequest {
    pub username: String,
    pub password: String,
}

/// The body of a login request.
#[derive(Debug)]
pub struct LoginRequest {
    pub username: String,
    pub password: String,
}

/// What registration and login answer.
#[derive(Debug)]
pub struct AuthResponse {
    pub user_id: String,
    pub username: String,
    pub token: String,
}

}
