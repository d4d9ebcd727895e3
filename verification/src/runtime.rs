//! The outside services the room logic uses: the per-room broadcast
//! channel (tokio), the wall clock (chrono) and random identifiers (uuid).

use vstd::prelude::*;
use crate::ws_message::Delivery;

verus! {

/// tokio's broadcast sender, carried opaquely inside a room.
#[verifier::external_type_specification]
#[verifier::external_body]
#[verifier::reject_recursive_types(T)]
pub struct ExBroadcastSender<T>(tokio::sync::broadcast::Sender<T>);

/// A room's broadcast channel: tokio's sending half, with a ghost identity
/// of the channel it feeds. The fields are private to this module: a
/// channel comes only from `open`, and another handle on it only from
/// `handle`, which is the one way to carry an identity over.
pub struct RoomChannel {
    sender: tokio::sync::broadcast::Sender<Delivery>,
    id: Ghost<int>,
}

impl RoomChannel {
    /// The identity of the channel this handle feeds.
    pub closed spec fn id(&self) -> int {
        self.id@
    }

    /// Opens a room's broadcast channel (tokio `broadcast::channel` with
    /// room for 256 messages) and keeps its sending half; the first
    /// receiver is dropped, as subscribers join later. Nothing is claimed
    /// of the result, so its identity is not known to be that of any other
    /// channel.
    #[verifier::external_body]
    pub(crate) fn open() -> RoomChannel {
        let (tx, _) = tokio::sync::broadcast::channel(256);
        RoomChannel { sender: tx, id: Ghost(0) }
    }

    /// Another handle on this channel, with its identity.
    pub fn handle(&self) -> (c: RoomChannel)
        ensures
            c.id() == self.id(),
    {
        RoomChannel { sender: sender_clone(&self.sender), id: Ghost(self.id@) }
    }

    /// The sending half, to subscribe to the channel or send on it.
    pub fn sender(&self) -> &tokio::sync::broadcast::Sender<Delivery> {
        &self.sender
    }
}

/// Another sending half of the same broadcast channel (tokio
/// `Sender::clone`, which shares the channel's state). Nothing is claimed
/// of the result in contracts.
#[verifier::external_body]
fn sender_clone(tx: &tokio::sync::broadcast::Sender<Delivery>) -> tokio::sync::broadcast::Sender<Delivery> {
    tx.clone()
}

/// Bound on the UNIX timestamps that chrono can represent (its dates span
/// years -262143 to 262142), in seconds.
pub open spec fn timestamp_bound() -> int {
    10_000_000_000_000
}

/// The current UNIX time in seconds (chrono `Utc::now().timestamp()`).
/// chrono panics when the system clock reads before 1970 or outside the
/// dates it can represent; when it returns, the value lies within
/// `timestamp_bound()` of zero. Nothing else is claimed: it is the time.
#[verifier::external_body]
pub(crate) fn unix_now() -> (t: i64)
    ensures
        -timestamp_bound() <= t <= timestamp_bound(),
{
    chrono::Utc::now().timestamp()
}

/// Whether `s` is written as uuid writes a random (version 4) identifier:
/// 36 characters, lowercase hexadecimal digits with hyphens at positions
/// 8, 13, 18 and 23, the version digit `4` at position 14 and a variant
/// digit `8`, `9`, `a` or `b` at position 19.
pub open spec fn uuid_shaped(s: Seq<char>) -> bool {
    &&& s.len() == 36
    &&& s[14] == '4'
    &&& (s[19] == '8' || s[19] == '9' || s[19] == 'a' || s[19] == 'b')
    &&& forall|i: int|
        0 <= i < 36 ==> if i == 8 || i == 13 || i == 18 || i == 23 {
            #[trigger] s[i] == '-'
        } else {
            ('0' <= s[i] <= '9') || ('a' <= s[i] <= 'f')
        }
}

/// A fresh random identifier (uuid `Uuid::new_v4().to_string()`).
/// Claimed: it is written in uuid's hyphenated lowercase form, with the
/// version and variant digits `new_v4` sets. Which
/// identifier comes out is chance.
#[verifier::external_body]
pub(crate) fn new_uuid() -> (s: String)
    ensures
        uuid_shaped(s@),
{
    uuid::Uuid::new_v4().to_string()
}

}
