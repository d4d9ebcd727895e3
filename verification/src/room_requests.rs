//! The decisions behind the room endpoints: opening, looking up and
//! joining rooms.

use vstd::prelude::*;
use vstd::string::StringExecFns;
use crate::credentials::{bcrypt_check, bcrypt_salted_of, bcrypt_verify, draw_salt};
use crate::auth::{hash_password_with_salt, PASSWORD_COST};
use crate::error::AppError;
use crate::models::{CreateRoomRequest, RoomResponse};
use crate::room_manager::{fresh_room, joined, synced, Room, RoomManager, RoomView};
use crate::runtime::{new_uuid, timestamp_bound, unix_now, uuid_shaped};
use crate::text::{blank, chars_of, is_blank, string_of};

verus! {

/// What is decided before a room is stored: its id, name, host, password
/// hash and creation time.
pub struct RoomPlan {
    pub room_id: String,
    pub name: String,
    pub host_id: String,
    pub password_hash: Option<String>,
    pub created_at: i64,
}

/// Whether `s` is a short room id: eight lowercase hexadecimal digits, the
/// head of a fresh uuid.
pub open spec fn short_room_id(s: Seq<char>) -> bool {
    &&& s.len() == 8
    &&& forall|i: int| 0 <= i < 8 ==> ('0' <= #[trigger] s[i] <= '9') || ('a' <= s[i] <= 'f')
}

/// Whether a room password was given: present and not empty.
pub open spec fn password_given(p: Option<String>) -> bool {
    match p {
        Some(pw) => pw@.len() > 0,
        None => false,
    }
}

/// Decides a new room created at time `now`: refuses a blank name;
/// otherwise draws an eight-digit id, makes `anonymous` the host and, when
/// a password is given, draws a salt and hashes the password with it at
/// `PASSWORD_COST`. Only the salt draw can fail, with an `Internal` error.
pub fn plan_room_at(req: CreateRoomRequest, now: i64) -> (r: Result<RoomPlan, AppError>)
    ensures
        blank(req.name@) ==> (r matches Err(AppError::BadRequest(m)) && m@
            == "Room name cannot be empty"@),
        !blank(req.name@) && !password_given(req.password) ==> r is Ok,
        r matches Ok(p) ==> {
            &&& !blank(req.name@)
            &&& p.name@ == req.name@
            &&& short_room_id(p.room_id@)
            &&& p.host_id@ == "anonymous"@
            &&& p.created_at == now
            &&& match req.password {
                Some(pw) => if pw@.len() > 0 {
                    p.password_hash matches Some(h) && (exists|salt: Seq<u8>|
                        salt.len() == 16 && h@ == #[trigger] bcrypt_salted_of(pw@, PASSWORD_COST, salt))
                        && h@.len() == 60 && h@.take(7) == "$2b$10$"@ && bcrypt_check(pw@, h@) == Some(
                        true,
                    )
                } else {
                    p.password_hash is None
                },
                None => p.password_hash is None,
            }
        },
        r matches Err(e) ==> blank(req.name@) || (password_given(req.password) && e is Internal),
{
    if is_blank(req.name.as_str()) {
        return Err(AppError::BadRequest(String::from_str("Room name cannot be empty")));
    }
    let uuid = new_uuid();
    let cs = chars_of(uuid.as_str());
    let room_id = string_of(vstd::slice::slice_subrange(cs.as_slice(), 0, 8));
    assert forall|i: int| 0 <= i < 8 implies ('0' <= #[trigger] room_id@[i] <= '9') || (
    'a' <= room_id@[i] <= 'f') by {
        assert(room_id@[i] == uuid@[i]);
        assert(i != 8 && i != 13 && i != 18 && i != 23);
    }
    let created_at = now;
    let host_id = String::from_str("anonymous");
    let password_hash = match &req.password {
        Some(pw) => {
            if pw.as_str().is_empty() {
                None
            } else {
                match draw_salt() {
                    Ok(salt) => Some(hash_password_with_salt(pw.as_str(), salt)),
                    Err(e) => {
                        return Err(AppError::Internal(e.to_string()));
                    },
                }
            }
        },
        None => None,
    };
    Ok(RoomPlan { room_id, name: req.name, host_id, password_hash, created_at })
}

/// Decides a new room created now, by the wall clock, as `plan_room_at`
/// does at that time: refuses a blank name; otherwise draws an eight-digit
/// id, makes `anonymous` the host and, when a password is given, draws a
/// salt and hashes the password with it at `PASSWORD_COST`. Only the salt
/// draw can fail, with an `Internal` error.
pub fn plan_room(req: CreateRoomRequest) -> (r: Result<RoomPlan, AppError>)
    ensures
        blank(req.name@) ==> (r matches Err(AppError::BadRequest(m)) && m@
            == "Room name cannot be empty"@),
        !blank(req.name@) && !password_given(req.password) ==> r is Ok,
        r matches Ok(p) ==> {
            &&& !blank(req.name@)
            &&& p.name@ == req.name@
            &&& short_room_id(p.room_id@)
            &&& p.host_id@ == "anonymous"@
            &&& -timestamp_bound() <= p.created_at <= timestamp_bound()
            &&& match req.password {
                Some(pw) => if pw@.len() > 0 {
                    p.password_hash matches Some(h) && (exists|salt: Seq<u8>|
                        salt.len() == 16 && h@ == #[trigger] bcrypt_salted_of(pw@, PASSWORD_COST, salt))
                        && h@.len() == 60 && h@.take(7) == "$2b$10$"@ && bcrypt_check(pw@, h@) == Some(
                        true,
                    )
                } else {
                    p.password_hash is None
                },
                None => p.password_hash is None,
            }
        },
        r matches Err(e) ==> blank(req.name@) || (password_given(req.password) && e is Internal),
{
    let now = unix_now();
    plan_room_at(req, now)
}

/// What the room endpoints answer about a room.
pub open spec fn response_of(r: RoomView, resp: RoomResponse) -> bool {
    &&& resp.id@ == r.id
    &&& resp.name@ == r.name
    &&& resp.host_id@ == r.host_id
    &&& resp.current_time == r.current_time
    &&& resp.is_playing == r.is_playing
    &&& resp.created_at == r.created_at
}

/// The answer describing a room.
pub fn room_response(room: &Room) -> (resp: RoomResponse)
    ensures
        response_of(room@, resp),
{
    RoomResponse {
        id: room.id.clone(),
        name: room.name.clone(),
        host_id: room.host_id.clone(),
        current_time: room.current_time,
        is_playing: room.is_playing,
        created_at: room.created_at,
    }
}

/// Opens a planned room in memory, with its host named `Host`, and answers
/// with the room as planned: paused at zero, created at the planned time.
pub fn open_room(manager: &mut RoomManager, plan: &RoomPlan) -> (resp: RoomResponse)
    ensures
        final(manager).wf(),
        exists|t: int, c: int|
            final(manager)@ == old(manager)@.insert(
                plan.room_id@,
                #[trigger] fresh_room(plan.room_id@, plan.name@, plan.host_id@, "Host"@, t, c),
            ),
        resp.id@ == plan.room_id@,
        resp.name@ == plan.name@,
        resp.host_id@ == plan.host_id@,
        resp.current_time == 0,
        !resp.is_playing,
        resp.created_at == plan.created_at,
{
    let room = manager.create_room(
        plan.room_id.clone(),
        plan.name.clone(),
        plan.host_id.clone(),
        String::from_str("Host"),
    );
    assert(manager@ == old(manager)@.insert(
        plan.room_id@,
        fresh_room(
            plan.room_id@,
            plan.name@,
            plan.host_id@,
            "Host"@,
            room@.created_at,
            room@.channel,
        ),
    ));
    RoomResponse {
        id: plan.room_id.clone(),
        name: plan.name.clone(),
        host_id: plan.host_id.clone(),
        current_time: 0,
        is_playing: false,
        created_at: plan.created_at,
    }
}

/// Looks a room up: its description, or `NotFound` when no room has this
/// id.
pub fn find_room(manager: &RoomManager, id: &str) -> (r: Result<RoomResponse, AppError>)
    ensures
        match r {
            Ok(resp) => manager@.contains_key(id@) && response_of(manager@[id@], resp),
            Err(e) => !manager@.contains_key(id@) && (e matches AppError::NotFound(m) && m@
                == "Room not found"@),
        },
{
    match manager.get_room(id) {
        Some(room) => Ok(room_response(&room)),
        None => Err(AppError::NotFound(String::from_str("Room not found"))),
    }
}

/// Whether the password given lets a user into a room stored with
/// `stored`: always for a room without a password, and for a protected
/// room when a non-empty password is given that bcrypt accepts.
pub open spec fn password_accepted(stored: Option<Option<String>>, provided: Option<String>) -> bool {
    match stored {
        Some(Some(hash)) => password_given(provided) && bcrypt_check(provided->0@, hash@) == Some(
            true,
        ),
        _ => true,
    }
}

/// Whether `e` is the error a refused password gets: a protected room
/// without a password given needs one (`此房间需要密码`); a wrong one is
/// refused (`密码错误`); a stored hash bcrypt cannot read is an internal
/// error.
pub open spec fn password_refusal(stored: Option<Option<String>>, provided: Option<String>, e: AppError) -> bool {
    match stored {
        Some(Some(hash)) => if !password_given(provided) {
            e matches AppError::Unauthorized(m) && m@ == "此房间需要密码"@
        } else {
            match bcrypt_check(provided->0@, hash@) {
                Some(true) => false,
                Some(false) => e matches AppError::Unauthorized(m) && m@ == "密码错误"@,
                None => e is Internal,
            }
        },
        _ => false,
    }
}

/// Checks the password given to join a room against the stored room
/// record (`None` when the room is not stored, `Some(None)` when it has no
/// password). A password-protected room needs a non-empty password that
/// bcrypt accepts.
pub fn check_room_password(stored: Option<Option<String>>, provided: Option<String>) -> (r: Result<(), AppError>)
    ensures
        r is Ok <==> password_accepted(stored, provided),
        r matches Err(e) ==> password_refusal(stored, provided, e),
{
    match stored {
        Some(Some(hash)) => {
            let given = match provided {
                Some(p) => p,
                None => String::new(),
            };
            if given.as_str().is_empty() {
                return Err(AppError::Unauthorized(String::from_str("此房间需要密码")));
            }
            match bcrypt_verify(given.as_str(), hash.as_str()) {
                Ok(true) => Ok(()),
                Ok(false) => Err(AppError::Unauthorized(String::from_str("密码错误"))),
                Err(e) => Err(AppError::Internal(e.to_string())),
            }
        },
        _ => Ok(()),
    }
}

/// Lets a guest into a room: checks the password, then adds a fresh user
/// named `Guest` and describes the room. A refused password gets the error
/// `check_room_password` gives; an accepted one for a room that is not open
/// gets `NotFound`; either way the rooms are unchanged.
pub fn enter_room(
    manager: &mut RoomManager,
    id: &str,
    stored: Option<Option<String>>,
    provided: Option<String>,
) -> (r: Result<RoomResponse, AppError>)
    ensures
        final(manager).wf(),
        !password_accepted(stored, provided) ==> (r matches Err(e) && password_refusal(
            stored,
            provided,
            e,
        ) && final(manager)@ == old(manager)@),
        password_accepted(stored, provided) && !old(manager)@.contains_key(id@) ==> (r matches Err(
            AppError::NotFound(m),
        ) && m@ == "Room not found"@ && final(manager)@ == old(manager)@),
        password_accepted(stored, provided) && old(manager)@.contains_key(id@) ==> (r matches Ok(
            resp,
        ) && exists|user_id: Seq<char>|
            uuid_shaped(user_id) && final(manager)@ == old(manager)@.insert(
                id@,
                #[trigger] joined(old(manager)@[id@], user_id, "Guest"@),
            ) && response_of(final(manager)@[id@], resp)),
{
    proof {
        use_type_invariant(&*manager);
    }
    check_room_password(stored, provided)?;
    let user_id = new_uuid();
    match manager.join_room(id, user_id, String::from_str("Guest")) {
        Some(room) => Ok(room_response(&room)),
        None => Err(AppError::NotFound(String::from_str("Room not found"))),
    }
}


/// The password a room was opened with lets a guest in: the hash
/// `plan_room` stores for a non-empty password is one that
/// `check_room_password` accepts that password against.
pub proof fn law_room_password_admits_its_owner(password: String, hash: String)
    requires
        password@.len() > 0,
        bcrypt_check(password@, hash@) == Some(true),
    ensures
        password_accepted(Some(Some(hash)), Some(password)),
{
}


/// A room described after its playback was recorded reports that playback:
/// when `after` is what recording `timestamp` and `is_playing` for an open
/// room makes of `before`, any description of that room in `after` carries
/// that position and that state, and still the room's own id, name, host
/// and creation time.
pub proof fn law_description_reports_recorded_playback(
    before: Map<Seq<char>, RoomView>,
    after: Map<Seq<char>, RoomView>,
    room_id: Seq<char>,
    timestamp: u64,
    is_playing: bool,
    resp: RoomResponse,
)
    requires
        before.contains_key(room_id),
        after == before.insert(room_id, synced(before[room_id], timestamp, is_playing)),
        response_of(after[room_id], resp),
    ensures
        resp.current_time == timestamp,
        resp.is_playing == is_playing,
        resp.id@ == before[room_id].id,
        resp.name@ == before[room_id].name,
        resp.host_id@ == before[room_id].host_id,
        resp.created_at == before[room_id].created_at,
{
}


/// A guest who joins is told where the room's playback stands: when
/// `after` is what adding a user to an open room makes of `before`, any
/// description of that room in `after` carries the position and state the
/// room had before the join.
pub proof fn law_join_reports_current_playback(
    before: Map<Seq<char>, RoomView>,
    after: Map<Seq<char>, RoomView>,
    room_id: Seq<char>,
    user_id: Seq<char>,
    username: Seq<char>,
    resp: RoomResponse,
)
    requires
        before.contains_key(room_id),
        after == before.insert(room_id, joined(before[room_id], user_id, username)),
        response_of(after[room_id], resp),
    ensures
        resp.current_time == before[room_id].current_time,
        resp.is_playing == before[room_id].is_playing,
        resp.host_id@ == before[room_id].host_id,
        resp.created_at == before[room_id].created_at,
{
}

}
