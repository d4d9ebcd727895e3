//! The rooms that are open right now, their members and their playback
//! state.
//!
//! Every operation takes the manager by `&mut`; a server shares it behind a
//! lock, so each operation is atomic: leaving a room and closing it once it
//! is empty happen in one step.

use vstd::prelude::*;
use vstd::string::StringExecFns;
use crate::runtime::{timestamp_bound, unix_now, RoomChannel};
use crate::tables::{
    member_entries, member_table_copy, member_table_first_id, member_table_insert,
    member_table_is_empty, member_table_remove, new_member_table, new_room_table, no_members,
    room_entries, room_table_contains, room_table_copy_of, room_table_insert, room_table_keys,
    room_table_len, room_table_take,
};
use crate::text::same_text;
use crate::ws_message::{Delivery, WsMessage};

verus! {

/// A user taking part in a room.
#[derive(Clone, Debug)]
pub struct RoomMember {
    pub user_id: String,
    pub username: String,
    pub is_ready: bool,
}

/// What a member is, as plain values.
pub struct RoomMemberView {
    pub user_id: Seq<char>,
    pub username: Seq<char>,
    pub is_ready: bool,
}

impl View for RoomMember {
    type V = RoomMemberView;

    open spec fn view(&self) -> RoomMemberView {
        RoomMemberView { user_id: self.user_id@, username: self.username@, is_ready: self.is_ready }
    }
}

/// A room that is open in memory.
///
/// `current_time` is the bit pattern of the `f64` playback position in
/// seconds; `created_at` is a UNIX timestamp in seconds.
pub struct Room {
    pub id: String,
    pub name: String,
    pub host_id: String,
    pub video_hash: Option<String>,
    pub current_time: u64,
    pub is_playing: bool,
    pub members: dashmap::DashMap<String, RoomMember>,
    pub broadcast: RoomChannel,
    pub created_at: i64,
}

/// What a room is, as plain values; `channel` identifies the broadcast
/// channel its sender feeds.
pub struct RoomView {
    pub id: Seq<char>,
    pub name: Seq<char>,
    pub host_id: Seq<char>,
    pub video_hash: Option<Seq<char>>,
    pub current_time: u64,
    pub is_playing: bool,
    pub members: Map<Seq<char>, RoomMemberView>,
    pub created_at: int,
    pub channel: int,
}

/// The members of a member table, as plain values.
pub open spec fn member_views(t: dashmap::DashMap<String, RoomMember>) -> Map<
    Seq<char>,
    RoomMemberView,
> {
    member_entries(t).map_values(|m: RoomMember| m@)
}

/// An optional string, as plain characters.
pub open spec fn opt_view(o: Option<String>) -> Option<Seq<char>> {
    match o {
        Some(s) => Some(s@),
        None => None,
    }
}

impl View for Room {
    type V = RoomView;

    open spec fn view(&self) -> RoomView {
        RoomView {
            id: self.id@,
            name: self.name@,
            host_id: self.host_id@,
            video_hash: opt_view(self.video_hash),
            current_time: self.current_time,
            is_playing: self.is_playing,
            members: member_views(self.members),
            created_at: self.created_at as int,
            channel: self.broadcast.id(),
        }
    }
}

/// How often the server sweeps stale rooms, in seconds.
pub const CLEANUP_INTERVAL_SECS: u64 = 60;

/// The age, in seconds, beyond which a room that is not playing is stale.
pub const MAX_ROOM_AGE_SECS: i64 = 86400;

/// A member as stored: keyed by its own user id.
pub open spec fn member_view_of(user_id: Seq<char>, username: Seq<char>, ready: bool) -> RoomMemberView {
    RoomMemberView { user_id, username, is_ready: ready }
}

/// A room is well formed under `key` when `key` is its id, its host is one of
/// its members (so it has at least one), and every member is keyed by its
/// own user id.
pub open spec fn room_wf(r: RoomView, key: Seq<char>) -> bool {
    &&& r.id == key
    &&& r.members.contains_key(r.host_id)
    &&& forall|k: Seq<char>| #[trigger] r.members.contains_key(k) ==> r.members[k].user_id == k
}

/// The room `create_room` opens: the host is its only member and is ready,
/// playback is paused at zero and no video is chosen.
pub open spec fn fresh_room(
    id: Seq<char>,
    name: Seq<char>,
    host_id: Seq<char>,
    host_name: Seq<char>,
    created_at: int,
    channel: int,
) -> RoomView {
    RoomView {
        id,
        name,
        host_id,
        video_hash: None,
        current_time: 0,
        is_playing: false,
        members: Map::<Seq<char>, RoomMemberView>::empty().insert(
            host_id,
            member_view_of(host_id, host_name, true),
        ),
        created_at,
        channel,
    }
}

/// `r` after `user_id` joins it: the user is a member, not yet ready,
/// replacing any earlier entry for that id.
pub open spec fn joined(r: RoomView, user_id: Seq<char>, username: Seq<char>) -> RoomView {
    RoomView { members: r.members.insert(user_id, member_view_of(user_id, username, false)), ..r }
}

/// Whether `d` announces to the whole room that `user_id` left.
pub open spec fn user_left_notice(d: Delivery, user_id: Seq<char>) -> bool {
    d matches Delivery::Room(WsMessage::UserLeft { user_id: u }) && u@ == user_id
}

/// `r` after `user_id` leaves it, the host being `host` afterwards.
pub open spec fn left(r: RoomView, user_id: Seq<char>, host: Seq<char>) -> RoomView {
    RoomView { members: r.members.remove(user_id), host_id: host, ..r }
}

/// Whether the host may stay `host` after `user_id` leaves `r`: it stays
/// when someone else left, and passes to one of the remaining members when
/// the host left.
pub open spec fn host_after_leave(r: RoomView, user_id: Seq<char>, host: Seq<char>) -> bool {
    if r.host_id == user_id {
        r.members.remove(user_id).contains_key(host)
    } else {
        host == r.host_id
    }
}

/// Whether the rooms `after` are what leaving gives: nothing changes when
/// the room is not open; the room closes when its last member leaves;
/// otherwise the member is gone and the host is as `host_after_leave` says.
pub open spec fn leave_result(
    before: Map<Seq<char>, RoomView>,
    room_id: Seq<char>,
    user_id: Seq<char>,
    after: Map<Seq<char>, RoomView>,
) -> bool {
    if !before.contains_key(room_id) {
        after == before
    } else if before[room_id].members.remove(user_id) == Map::<
        Seq<char>,
        RoomMemberView,
    >::empty() {
        after == before.remove(room_id)
    } else {
        &&& after.contains_key(room_id)
        &&& host_after_leave(before[room_id], user_id, after[room_id].host_id)
        &&& after == before.insert(
            room_id,
            left(before[room_id], user_id, after[room_id].host_id),
        )
    }
}

/// `r` with its playback state set.
pub open spec fn synced(r: RoomView, timestamp: u64, is_playing: bool) -> RoomView {
    RoomView { current_time: timestamp, is_playing, ..r }
}

/// Whether cleanup removes `r` at time `now`: it has no members, or it is
/// older than `max_age_secs` and not playing.
pub open spec fn stale(r: RoomView, now: int, max_age_secs: int) -> bool {
    r.members == Map::<Seq<char>, RoomMemberView>::empty() || (now - r.created_at > max_age_secs
        && !r.is_playing)
}

/// The rooms that survive a cleanup at time `now`.
pub open spec fn swept(rooms: Map<Seq<char>, RoomView>, now: int, max_age_secs: int) -> Map<
    Seq<char>,
    RoomView,
> {
    Map::new(
        |k: Seq<char>| rooms.contains_key(k) && !stale(rooms[k], now, max_age_secs),
        |k: Seq<char>| rooms[k],
    )
}

/// A member table holds nothing exactly when its plain view holds nothing.
proof fn lemma_no_members_view(t: dashmap::DashMap<String, RoomMember>)
    ensures
        no_members(member_entries(t)) <==> member_views(t) == Map::<
            Seq<char>,
            RoomMemberView,
        >::empty(),
{
    if member_views(t) == Map::<Seq<char>, RoomMemberView>::empty() {
        assert(member_entries(t) =~= Map::<Seq<char>, RoomMember>::empty()) by {
            assert forall|k: Seq<char>| !#[trigger] member_entries(t).contains_key(k) by {
                assert(!member_views(t).contains_key(k));
            }
        }
    }
    if no_members(member_entries(t)) {
        assert(member_views(t) =~= Map::<Seq<char>, RoomMemberView>::empty());
    }
}

impl Room {
    /// A copy of this room that shares its broadcast channel.
    pub fn snapshot(&self) -> (r: Room)
        ensures
            r@ == self@,
    {
        let video_hash = match &self.video_hash {
            Some(h) => Some(h.clone()),
            None => None,
        };
        Room {
            id: self.id.clone(),
            name: self.name.clone(),
            host_id: self.host_id.clone(),
            video_hash,
            current_time: self.current_time,
            is_playing: self.is_playing,
            members: member_table_copy(&self.members),
            broadcast: self.broadcast.handle(),
            created_at: self.created_at,
        }
    }
}

/// All rooms that are open, by id.
pub struct RoomManager {
    rooms: dashmap::DashMap<String, Room>,
}

impl View for RoomManager {
    type V = Map<Seq<char>, RoomView>;

    closed spec fn view(&self) -> Map<Seq<char>, RoomView> {
        table_view(self.rooms)
    }
}

/// The rooms a table holds, each by its view.
spec fn table_view(t: dashmap::DashMap<String, Room>) -> Map<Seq<char>, RoomView> {
    room_entries(t).map_values(|r: Room| r@)
}

/// Finitely many rooms, each well formed under its key.
pub open spec fn rooms_wf(rooms: Map<Seq<char>, RoomView>) -> bool {
    &&& rooms.dom().finite()
    &&& forall|k: Seq<char>| #[trigger] rooms.contains_key(k) ==> room_wf(rooms[k], k)
}

impl RoomManager {
    #[verifier::type_invariant]
    pub(crate) open spec fn always_wf(self) -> bool {
        self.wf()
    }

    /// Finitely many rooms are open, and every room is well formed under
    /// its key. Every manager is: this holds of each value of the type.
    pub open spec fn wf(&self) -> bool {
        rooms_wf(self@)
    }

    /// Takes the table out, leaving an empty one in its place.
    fn take_table(&mut self) -> (t: dashmap::DashMap<String, Room>)
        ensures
            table_view(t) == old(self)@,
            final(self)@ == Map::<Seq<char>, RoomView>::empty(),
    {
        let mut t = new_room_table();
        assert(table_view(t) =~= Map::<Seq<char>, RoomView>::empty());
        std::mem::swap(&mut t, &mut self.rooms);
        t
    }

    /// A manager with no rooms.
    pub fn new() -> (m: Self)
        ensures
            m.wf(),
            m@ == Map::<Seq<char>, RoomView>::empty(),
    {
        let rooms = new_room_table();
        assert(table_view(rooms) =~= Map::<Seq<char>, RoomView>::empty());
        RoomManager { rooms }
    }

    /// Opens a room created now (by the wall clock) with its host as the
    /// only member, replacing any room that had the same id, and returns a
    /// copy of it.
    pub fn create_room(&mut self, room_id: String, name: String, host_id: String, host_name: String) -> (r: Room)
        ensures
            final(self).wf(),
            -timestamp_bound() <= r@.created_at <= timestamp_bound(),
            r@ == fresh_room(room_id@, name@, host_id@, host_name@, r@.created_at, r@.channel),
            final(self)@ == old(self)@.insert(room_id@, r@),
            final(self)@.len() == if old(self)@.contains_key(room_id@) {
                old(self)@.len()
            } else {
                old(self)@.len() + 1
            },
    {
        let now = unix_now();
        self.create_room_at(room_id, name, host_id, host_name, now)
    }

    /// Opens a room created at time `now` with its host as the only member,
    /// replacing any room that had the same id, and returns a copy of it.
    pub fn create_room_at(
        &mut self,
        room_id: String,
        name: String,
        host_id: String,
        host_name: String,
        now: i64,
    ) -> (r: Room)
        ensures
            final(self).wf(),
            r@ == fresh_room(room_id@, name@, host_id@, host_name@, now as int, r@.channel),
            final(self)@ == old(self)@.insert(room_id@, r@),
            final(self)@.len() == if old(self)@.contains_key(room_id@) {
                old(self)@.len()
            } else {
                old(self)@.len() + 1
            },
    {
        proof {
            use_type_invariant(&*self);
        }
        let broadcast = RoomChannel::open();
        let created_at = now;
        let mut members = new_member_table();
        let host = RoomMember { user_id: host_id.clone(), username: host_name, is_ready: true };
        member_table_insert(&mut members, host_id.clone(), host);
        let room = Room {
            id: room_id.clone(),
            name,
            host_id,
            video_hash: None,
            current_time: 0,
            is_playing: false,
            members,
            broadcast,
            created_at,
        };
        let copy = room.snapshot();
        proof {
            assert(room@.members =~= fresh_room(
                room_id@,
                room@.name,
                room@.host_id,
                member_entries(room.members)[room@.host_id].username@,
                created_at as int,
                room@.channel,
            ).members);
        }
        let mut rooms = self.take_table();
        room_table_insert(&mut rooms, room_id, room);
        proof {
            let now = table_view(rooms);
            assert(now =~= old(self)@.insert(room@.id, room@));
            if old(self)@.contains_key(room@.id) {
                assert(now.dom() =~= old(self)@.dom());
            } else {
                assert(now.dom() =~= old(self)@.dom().insert(room@.id));
            }
            assert forall|k: Seq<char>| #[trigger] now.contains_key(k) implies room_wf(now[k], k) by {
                if k != room@.id {
                    assert(old(self)@.contains_key(k));
                }
            }
        }
        self.rooms = rooms;
        copy
    }

    /// A copy of the room with this id, if it is open.
    pub fn get_room(&self, room_id: &str) -> (r: Option<Room>)
        ensures
            match r {
                Some(room) => self@.contains_key(room_id@) && room@ == self@[room_id@],
                None => !self@.contains_key(room_id@),
            },
    {
        room_table_copy_of(&self.rooms, room_id)
    }

    /// Whether a room with this id is open.
    pub fn contains_room(&self, room_id: &str) -> (b: bool)
        ensures
            b == self@.contains_key(room_id@),
    {
        room_table_contains(&self.rooms, room_id)
    }

    /// Adds a user, not yet ready, to an open room and returns a copy of
    /// the room; `None` when no room has this id.
    pub fn join_room(&mut self, room_id: &str, user_id: String, username: String) -> (r: Option<Room>)
        ensures
            final(self).wf(),
            match r {
                Some(room) => {
                    &&& old(self)@.contains_key(room_id@)
                    &&& final(self)@ == old(self)@.insert(
                        room_id@,
                        joined(old(self)@[room_id@], user_id@, username@),
                    )
                    &&& room@ == final(self)@[room_id@]
                },
                None => !old(self)@.contains_key(room_id@) && final(self)@ == old(self)@,
            },
    {
        proof {
            use_type_invariant(&*self);
        }
        let mut rooms = self.take_table();
        let r = match room_table_take(&mut rooms, room_id) {
            None => {
                proof {
                    assert(table_view(rooms) =~= old(self)@);
                }
                None
            },
            Some(mut room) => {
                let ghost before = room@;
                assert(old(self)@.contains_key(room_id@));
                let member = RoomMember {
                    user_id: user_id.clone(),
                    username,
                    is_ready: false,
                };
                let ghost mv = member@;
                member_table_insert(&mut room.members, user_id, member);
                assert(room@.members =~= before.members.insert(user_id@, mv));
                assert(room@ =~= joined(before, user_id@, mv.username));
                let copy = room.snapshot();
                let key = room.id.clone();
                room_table_insert(&mut rooms, key, room);
                proof {
                    let now = table_view(rooms);
                    assert(now =~= old(self)@.insert(room_id@, room@));
                    assert(now.dom() =~= old(self)@.dom());
                    assert forall|k: Seq<char>| #[trigger] now.contains_key(k) implies room_wf(now[k], k) by {
                        if k != room_id@ {
                            assert(old(self)@.contains_key(k));
                        } else {
                            assert(old(self)@.contains_key(room_id@));
                        }
                    }
                }
                Some(copy)
            },
        };
        self.rooms = rooms;
        r
    }

    /// Removes a user from a room. The room closes when its last member
    /// leaves; when the host leaves a room that still has members, one of
    /// them becomes host. When the room was open, the result is the
    /// announcement that the user left, with a handle on the room's own
    /// channel to send it on (whether or not the user was a member).
    pub fn leave_room(&mut self, room_id: &str, user_id: &str) -> (r: Option<(RoomChannel, Delivery)>)
        ensures
            final(self).wf(),
            leave_result(old(self)@, room_id@, user_id@, final(self)@),
            r is Some <==> old(self)@.contains_key(room_id@),
            r matches Some((c, d)) ==> c.id() == old(self)@[room_id@].channel && user_left_notice(
                d,
                user_id@,
            ),
    {
        proof {
            use_type_invariant(&*self);
        }
        let mut rooms = self.take_table();
        let r = match room_table_take(&mut rooms, room_id) {
            None => {
                proof {
                    assert(table_view(rooms) =~= old(self)@);
                }
                None
            },
            Some(mut room) => {
                let ghost before = room@;
                let notice = Delivery::Room(WsMessage::UserLeft { user_id: String::from_str(user_id) });
                let channel = room.broadcast.handle();
                assert(old(self)@.contains_key(room_id@));
                assert(room_wf(before, room_id@));
                member_table_remove(&mut room.members, user_id);
                assert(room@.members =~= before.members.remove(user_id@));
                proof {
                    lemma_no_members_view(room.members);
                }
                if member_table_is_empty(&room.members) {
                    proof {
                        let now = table_view(rooms);
                        assert(room@.members =~= Map::<Seq<char>, RoomMemberView>::empty());
                        assert(now =~= old(self)@.remove(room_id@));
                        assert(now.dom() =~= old(self)@.dom().remove(room_id@));
                        assert forall|k: Seq<char>| #[trigger] now.contains_key(k) implies room_wf(now[k], k) by {
                            assert(old(self)@.contains_key(k));
                        }
                    }
                } else {
                    assert(room@.members != Map::<Seq<char>, RoomMemberView>::empty());
                    if same_text(room.host_id.as_str(), user_id) {
                        match member_table_first_id(&room.members) {
                            Some(h) => {
                                let ghost k = choose|k: Seq<char>|
                                    #[trigger] member_entries(room.members).contains_key(k)
                                        && member_entries(room.members)[k].user_id@ == h@;
                                assert(room@.members.contains_key(k));
                                room.host_id = h;
                            },
                            None => {},
                        }
                    }
                    assert(room@ =~= left(before, user_id@, room@.host_id));
                    let key = room.id.clone();
                    room_table_insert(&mut rooms, key, room);
                    proof {
                        let now = table_view(rooms);
                        assert(now =~= old(self)@.insert(room_id@, room@));
                        assert(now.dom() =~= old(self)@.dom());
                        assert forall|k: Seq<char>| #[trigger] now.contains_key(k) implies room_wf(now[k], k) by {
                            if k != room_id@ {
                                assert(old(self)@.contains_key(k));
                            }
                        }
                    }
                }
                Some((channel, notice))
            },
        };
        self.rooms = rooms;
        r
    }

    /// Records the playback position and state of a room; nothing happens
    /// when no room has this id.
    pub fn update_sync_state(&mut self, room_id: &str, timestamp: u64, is_playing: bool)
        ensures
            final(self).wf(),
            final(self)@ == if old(self)@.contains_key(room_id@) {
                old(self)@.insert(room_id@, synced(old(self)@[room_id@], timestamp, is_playing))
            } else {
                old(self)@
            },
    {
        proof {
            use_type_invariant(&*self);
        }
        let mut rooms = self.take_table();
        match room_table_take(&mut rooms, room_id) {
            None => {
                proof {
                    assert(table_view(rooms) =~= old(self)@);
                }
            },
            Some(mut room) => {
                let ghost before = room@;
                assert(old(self)@.contains_key(room_id@));
                room.current_time = timestamp;
                room.is_playing = is_playing;
                assert(room@ =~= synced(before, timestamp, is_playing));
                let key = room.id.clone();
                room_table_insert(&mut rooms, key, room);
                proof {
                    let now = table_view(rooms);
                    assert(now =~= old(self)@.insert(room_id@, room@));
                    assert(now.dom() =~= old(self)@.dom());
                    assert forall|k: Seq<char>| #[trigger] now.contains_key(k) implies room_wf(now[k], k) by {
                        if k != room_id@ {
                            assert(old(self)@.contains_key(k));
                        }
                    }
                }
            },
        }
        self.rooms = rooms;
    }

    /// Removes the rooms that are stale at time `now`: those with no
    /// members, and those older than `max_age_secs` that are not playing.
    pub fn cleanup_stale_rooms_at(&mut self, now: i64, max_age_secs: i64)
        ensures
            final(self).wf(),
            final(self)@ == swept(old(self)@, now as int, max_age_secs as int),
    {
        proof {
            use_type_invariant(&*self);
        }
        let mut rooms = self.take_table();
        let keys = room_table_keys(&rooms);
        let n = keys.len();
        let ghost start = table_view(rooms);
        for i in 0..n
            invariant
                n == keys@.len(),
                start == old(self)@,
                old(self).wf(),
                forall|j: int| 0 <= j < n ==> start.contains_key(#[trigger] keys@[j]@),
                forall|k: Seq<char>|
                    #[trigger] start.contains_key(k) ==> exists|j: int|
                        0 <= j < n && keys@[j]@ == k,
                forall|a: int, b: int| 0 <= a < b < n ==> keys@[a]@ != keys@[b]@,
                forall|k: Seq<char>|
                    #[trigger] table_view(rooms).contains_key(k) <==> (start.contains_key(k) && ((exists|j: int|
                        i <= j < n && keys@[j]@ == k) || !stale(
                        start[k],
                        now as int,
                        max_age_secs as int,
                    ))),
                forall|k: Seq<char>| #[trigger] table_view(rooms).contains_key(k) ==> table_view(rooms)[k] == start[k],
        {
            let key = &keys[i];
            let ghost kv = key@;
            let ghost pre = table_view(rooms);
            assert(i <= i < n && keys@[i as int]@ == kv);
            assert(pre.contains_key(kv));
            assert(room_entries(rooms).contains_key(kv));
            let ghost entries_before = room_entries(rooms);
            let taken = room_table_take(&mut rooms, key.as_str());
            match taken {
                None => {
                    assert(false);
                },
                Some(room) => {
                    let remove = if member_table_is_empty(&room.members) {
                        true
                    } else {
                        (now as i128) - (room.created_at as i128) > (max_age_secs as i128)
                            && !room.is_playing
                    };
                    proof {
                        lemma_no_members_view(room.members);
                        assert(room@ == pre[kv]);
                        assert(room@ == start[kv]);
                    }
                    if !remove {
                        room_table_insert(&mut rooms, key.clone(), room);
                        proof {
                            assert(room_entries(rooms) =~= entries_before);
                            assert(table_view(rooms) =~= pre);
                        }
                    } else {
                        proof {
                            assert(table_view(rooms) =~= pre.remove(kv));
                        }
                    }
                },
            }
            proof {
                assert forall|k: Seq<char>|
                    #[trigger] table_view(rooms).contains_key(k) <==> (start.contains_key(k) && ((exists|j: int|
                        i + 1 <= j < n && keys@[j]@ == k) || !stale(
                        start[k],
                        now as int,
                        max_age_secs as int,
                    ))) by {
                    if k == kv {
                        assert forall|j: int| i + 1 <= j < n implies keys@[j]@ != k by {
                            assert(keys@[i as int]@ != keys@[j]@);
                        }
                    } else {
                        if exists|j: int| i <= j < n && keys@[j]@ == k {
                            let j = choose|j: int| i <= j < n && keys@[j]@ == k;
                            assert(j != i);
                        }
                    }
                }
            }
        }
        proof {
            assert(table_view(rooms) =~= swept(start, now as int, max_age_secs as int));
            assert(table_view(rooms).dom().subset_of(start.dom()));
            vstd::set_lib::lemma_set_subset_finite(start.dom(), table_view(rooms).dom());
            assert forall|k: Seq<char>| #[trigger] table_view(rooms).contains_key(k) implies room_wf(
                table_view(rooms)[k],
                k,
            ) by {
                assert(start.contains_key(k));
            }
        }
        self.rooms = rooms;
    }

    /// Removes the rooms that are stale now (by the wall clock).
    pub fn cleanup_stale_rooms(&mut self, max_age_secs: i64)
        ensures
            final(self).wf(),
            exists|now: int|
                -timestamp_bound() <= now <= timestamp_bound() && final(self)@ == swept(
                    old(self)@,
                    now,
                    max_age_secs as int,
                ),
    {
        let now = unix_now();
        self.cleanup_stale_rooms_at(now, max_age_secs);
    }

    /// How many rooms are open.
    pub fn room_count(&self) -> (n: usize)
        ensures
            n == self@.len(),
    {
        let n = room_table_len(&self.rooms);
        assert(self@.dom() =~= room_entries(self.rooms).dom());
        n
    }
}

/// Every open room has at least one member, and its host is one of them.
pub proof fn law_rooms_keep_their_host(m: RoomManager)
    requires
        m.wf(),
    ensures
        forall|k: Seq<char>| #[trigger] m@.contains_key(k) ==> {
            &&& m@[k].members.contains_key(m@[k].host_id)
            &&& m@[k].members != Map::<Seq<char>, RoomMemberView>::empty()
        },
{
    assert forall|k: Seq<char>| #[trigger] m@.contains_key(k) implies {
        &&& m@[k].members.contains_key(m@[k].host_id)
        &&& m@[k].members != Map::<Seq<char>, RoomMemberView>::empty()
    } by {
        assert(room_wf(m@[k], k));
        assert(!Map::<Seq<char>, RoomMemberView>::empty().contains_key(m@[k].host_id));
    }
}

/// When the host leaves a room that keeps other members, the host role
/// passes to one of those members, never back to the one who left.
pub proof fn law_host_handover(r: RoomView, key: Seq<char>, host: Seq<char>)
    requires
        room_wf(r, key),
        r.members.remove(r.host_id) != Map::<Seq<char>, RoomMemberView>::empty(),
        host_after_leave(r, r.host_id, host),
    ensures
        room_wf(left(r, r.host_id, host), key),
        left(r, r.host_id, host).members.contains_key(host),
        host != r.host_id,
{
    assert(!r.members.remove(r.host_id).contains_key(r.host_id));
}

/// A visitor who joins a room and leaves again leaves the room as it was:
/// same members, same host.
pub proof fn law_join_then_leave(r: RoomView, key: Seq<char>, user_id: Seq<char>, username: Seq<char>)
    requires
        room_wf(r, key),
        !r.members.contains_key(user_id),
    ensures
        joined(r, user_id, username).members.remove(user_id) != Map::<
            Seq<char>,
            RoomMemberView,
        >::empty(),
        host_after_leave(joined(r, user_id, username), user_id, r.host_id),
        left(joined(r, user_id, username), user_id, r.host_id) == r,
{
    let j = joined(r, user_id, username);
    assert(j.members.remove(user_id) =~= r.members);
    assert(j.members.remove(user_id).contains_key(r.host_id));
    assert(left(j, user_id, r.host_id) =~= r);
}

/// A room that is playing survives every cleanup, and a room that
/// survives a cleanup is unchanged by it.
pub proof fn law_cleanup_spares_playing_rooms(m: RoomManager, now: int, max_age_secs: int)
    requires
        m.wf(),
    ensures
        forall|k: Seq<char>|
            #[trigger] m@.contains_key(k) && m@[k].is_playing ==> swept(
                m@,
                now,
                max_age_secs,
            ).contains_key(k),
        forall|k: Seq<char>|
            #[trigger] swept(m@, now, max_age_secs).contains_key(k) ==> swept(
                m@,
                now,
                max_age_secs,
            )[k] == m@[k],
{
    assert forall|k: Seq<char>| #[trigger] m@.contains_key(k) && m@[k].is_playing implies swept(
        m@,
        now,
        max_age_secs,
    ).contains_key(k) by {
        assert(room_wf(m@[k], k));
        assert(m@[k].members.contains_key(m@[k].host_id));
        assert(m@[k].members != Map::<Seq<char>, RoomMemberView>::empty());
    }
}

/// What `update_sync_state` writes is what `get_room` then reads.
pub proof fn law_sync_state_read_back(r: RoomView, timestamp: u64, is_playing: bool)
    ensures
        synced(r, timestamp, is_playing).current_time == timestamp,
        synced(r, timestamp, is_playing).is_playing == is_playing,
        synced(r, timestamp, is_playing).members == r.members,
        synced(r, timestamp, is_playing).host_id == r.host_id,
{
}


/// A guest leaving does not touch the host: when a member other than the
/// host leaves an open room that stays open, the room keeps its host, and
/// its members are the earlier ones without the one who left.
pub proof fn law_guest_leaving_keeps_host(
    before: Map<Seq<char>, RoomView>,
    room_id: Seq<char>,
    user_id: Seq<char>,
    after: Map<Seq<char>, RoomView>,
)
    requires
        leave_result(before, room_id, user_id, after),
        before.contains_key(room_id),
        before[room_id].host_id != user_id,
        after.contains_key(room_id),
    ensures
        after[room_id].host_id == before[room_id].host_id,
        after[room_id].members == before[room_id].members.remove(user_id),
        forall|k: Seq<char>| k != room_id ==> after.contains_key(k) == before.contains_key(k),
{
}

/// A join and a leave racing on a room whose only member is the one
/// leaving end as one of the two orders, since each operation is atomic:
/// leave first, and the room is gone when the join comes (`join_room`
/// answers `None`); join first, and after the leave the joiner is the
/// room's only member and its host.
pub proof fn law_join_and_leave_serialize(
    rooms: Map<Seq<char>, RoomView>,
    room_id: Seq<char>,
    leaver: Seq<char>,
    joiner: Seq<char>,
    name: Seq<char>,
    after_join_then_leave: Map<Seq<char>, RoomView>,
)
    requires
        rooms.contains_key(room_id),
        room_wf(rooms[room_id], room_id),
        rooms[room_id].members.dom() == Set::<Seq<char>>::empty().insert(leaver),
        joiner != leaver,
        leave_result(
            rooms.insert(room_id, joined(rooms[room_id], joiner, name)),
            room_id,
            leaver,
            after_join_then_leave,
        ),
    ensures
        forall|after_leave: Map<Seq<char>, RoomView>|
            #[trigger] leave_result(rooms, room_id, leaver, after_leave) ==> !after_leave.contains_key(
                room_id,
            ),
        after_join_then_leave.contains_key(room_id),
        after_join_then_leave[room_id].members == Map::<Seq<char>, RoomMemberView>::empty().insert(
            joiner,
            member_view_of(joiner, name, false),
        ),
        after_join_then_leave[room_id].host_id == joiner,
{
    let r = rooms[room_id];
    assert(r.members.remove(leaver) =~= Map::<Seq<char>, RoomMemberView>::empty()) by {
        assert forall|k: Seq<char>| !r.members.remove(leaver).contains_key(k) by {
            if k != leaver {
                assert(!r.members.dom().contains(k));
            }
        }
    }
    let j = joined(r, joiner, name);
    let rooms2 = rooms.insert(room_id, j);
    assert(rooms2[room_id] == j);
    assert(j.members.remove(leaver) =~= Map::<Seq<char>, RoomMemberView>::empty().insert(
        joiner,
        member_view_of(joiner, name, false),
    )) by {
        assert forall|k: Seq<char>| #[trigger] j.members.remove(leaver).contains_key(k) implies k
            == joiner by {
            if k != joiner {
                assert(r.members.contains_key(k));
                assert(r.members.dom().contains(k));
            }
        }
    }
    assert(j.members.remove(leaver).contains_key(joiner));
    assert(r.host_id == leaver) by {
        assert(r.members.dom().contains(r.host_id));
    }
}

}
