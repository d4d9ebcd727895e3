//! The concurrent maps (dashmap) that hold rooms and their members.
//!
//! The library only changes a map through `&mut`, so what a map holds is
//! a plain function of the map value: `member_entries` and `room_entries`
//! name it, keyed by the characters of each `String` key.

use vstd::prelude::*;
use crate::room_manager::{Room, RoomMember};

verus! {

/// dashmap's concurrent hash map.
#[verifier::external_type_specification]
#[verifier::external_body]
#[verifier::reject_recursive_types(K)]
#[verifier::reject_recursive_types(V)]
#[verifier::reject_recursive_types(S)]
pub struct ExDashMap<K, V, S>(dashmap::DashMap<K, V, S>);

/// What a member table holds: each user id's characters to its member.
pub uninterp spec fn member_entries(table: dashmap::DashMap<String, RoomMember>) -> Map<
    Seq<char>,
    RoomMember,
>;

/// What a room table holds: each room id's characters to its room.
pub uninterp spec fn room_entries(table: dashmap::DashMap<String, Room>) -> Map<Seq<char>, Room>;

/// A member table that holds nothing.
pub open spec fn no_members(m: Map<Seq<char>, RoomMember>) -> bool {
    m == Map::<Seq<char>, RoomMember>::empty()
}

/// A room table that holds nothing.
pub open spec fn no_rooms(m: Map<Seq<char>, Room>) -> bool {
    m == Map::<Seq<char>, Room>::empty()
}

/// dashmap `DashMap::new`: a table that holds nothing.
#[verifier::external_body]
pub(crate) fn new_member_table() -> (t: dashmap::DashMap<String, RoomMember>)
    ensures
        no_members(member_entries(t)),
{
    dashmap::DashMap::new()
}

/// dashmap `DashMap::insert`: the key now maps to the value, replacing any
/// earlier value; other keys keep theirs.
#[verifier::external_body]
pub(crate) fn member_table_insert(
    t: &mut dashmap::DashMap<String, RoomMember>,
    key: String,
    value: RoomMember,
)
    ensures
        member_entries(*final(t)) == member_entries(*old(t)).insert(key@, value),
{
    t.insert(key, value);
}

/// dashmap `DashMap::remove`: the key no longer maps to anything; other
/// keys keep their values.
#[verifier::external_body]
pub(crate) fn member_table_remove(t: &mut dashmap::DashMap<String, RoomMember>, key: &str)
    ensures
        member_entries(*final(t)) == member_entries(*old(t)).remove(key@),
{
    t.remove(key);
}

/// dashmap `DashMap::is_empty`: whether the table holds no entry.
#[verifier::external_body]
pub(crate) fn member_table_is_empty(t: &dashmap::DashMap<String, RoomMember>) -> (b: bool)
    ensures
        b == no_members(member_entries(*t)),
{
    t.is_empty()
}

/// The user id of the member that dashmap's `iter()` yields first. That
/// order depends on a hasher seeded per process, so the claim is only that
/// the id belongs to some member, and that there is one exactly when the
/// table is not empty.
#[verifier::external_body]
pub(crate) fn member_table_first_id(t: &dashmap::DashMap<String, RoomMember>) -> (r: Option<String>)
    ensures
        r is None <==> no_members(member_entries(*t)),
        r is Some ==> exists|k: Seq<char>|
            #[trigger] member_entries(*t).contains_key(k) && member_entries(*t)[k].user_id@
                == r->0@,
{
    t.iter().next().map(|e| e.value().user_id.clone())
}

/// dashmap `Clone`: a separate table holding the same entries (members
/// are copied field by field by their derived `Clone`).
#[verifier::external_body]
pub(crate) fn member_table_copy(t: &dashmap::DashMap<String, RoomMember>) -> (c: dashmap::DashMap<String, RoomMember>)
    ensures
        member_entries(c).map_values(|m: RoomMember| m@) == member_entries(*t).map_values(
            |m: RoomMember| m@,
        ),
{
    t.clone()
}

/// dashmap `DashMap::new`: a table that holds nothing.
#[verifier::external_body]
pub(crate) fn new_room_table() -> (t: dashmap::DashMap<String, Room>)
    ensures
        no_rooms(room_entries(t)),
        room_entries(t).dom().finite(),
{
    dashmap::DashMap::new()
}

/// dashmap `DashMap::insert`: the key now maps to the room, replacing any
/// earlier one; other keys keep theirs.
#[verifier::external_body]
pub(crate) fn room_table_insert(t: &mut dashmap::DashMap<String, Room>, key: String, value: Room)
    ensures
        room_entries(*final(t)) == room_entries(*old(t)).insert(key@, value),
{
    t.insert(key, value);
}

/// dashmap `DashMap::remove`: takes the key's room out, if it has one;
/// other keys keep theirs.
#[verifier::external_body]
pub(crate) fn room_table_take(t: &mut dashmap::DashMap<String, Room>, key: &str) -> (r: Option<Room>)
    ensures
        room_entries(*final(t)) == room_entries(*old(t)).remove(key@),
        match r {
            Some(room) => room_entries(*old(t)).contains_key(key@) && room == room_entries(
                *old(t),
            )[key@],
            None => !room_entries(*old(t)).contains_key(key@),
        },
{
    t.remove(key).map(|(_, room)| room)
}

/// dashmap `DashMap::view`, which hands the room found to a closure: here
/// the library's own `Room::snapshot`, which makes the copy.
#[verifier::external_body]
pub(crate) fn room_table_copy_of(t: &dashmap::DashMap<String, Room>, key: &str) -> (r: Option<Room>)
    ensures
        match r {
            Some(room) => room_entries(*t).contains_key(key@) && room@ == room_entries(*t)[key@]@,
            None => !room_entries(*t).contains_key(key@),
        },
{
    t.view(key, |_, room| room.snapshot())
}

/// dashmap `DashMap::contains_key`: whether a room has this id.
#[verifier::external_body]
pub(crate) fn room_table_contains(t: &dashmap::DashMap<String, Room>, key: &str) -> (b: bool)
    ensures
        b == room_entries(*t).contains_key(key@),
{
    t.contains_key(key)
}

/// dashmap `DashMap::len`: how many rooms the table holds.
#[verifier::external_body]
pub(crate) fn room_table_len(t: &dashmap::DashMap<String, Room>) -> (n: usize)
    ensures
        n == room_entries(*t).len(),
{
    t.len()
}

/// The keys that dashmap's `iter()` walks, each once, in its
/// hasher-dependent order.
#[verifier::external_body]
pub(crate) fn room_table_keys(t: &dashmap::DashMap<String, Room>) -> (ks: Vec<String>)
    ensures
        forall|i: int| 0 <= i < ks@.len() ==> room_entries(*t).contains_key(#[trigger] ks@[i]@),
        forall|k: Seq<char>|
            #[trigger] room_entries(*t).contains_key(k) ==> exists|i: int|
                0 <= i < ks@.len() && ks@[i]@ == k,
        forall|i: int, j: int| 0 <= i < j < ks@.len() ==> ks@[i]@ != ks@[j]@,
{
    t.iter().map(|e| e.key().clone()).collect()
}

}
