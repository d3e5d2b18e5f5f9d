//! Realtime delivery: the partition an event goes to and the channels it is
//! published on.

use vstd::prelude::*;

use crate::error::{message_with_id, text_with_id};
use crate::ids::{id_byte, uuid_bytes};

verus! {

/// The outbox partition of a game: the first four bytes of its identifier read
/// as a little-endian number, modulo 1000.
pub open spec fn partition_of(game_id: u128) -> int {
    (id_byte(game_id, 0) + 256 * id_byte(game_id, 1) + 65536 * id_byte(game_id, 2) + 16777216
        * id_byte(game_id, 3)) % 1000
}

/// The outbox partition of a game, from 0 to 999.
pub fn calculate_partition(game_id: u128) -> (p: i32)
    ensures
        p == partition_of(game_id),
        0 <= p < 1000,
{
    let b = uuid_bytes(game_id);
    let v: u32 = (b[0] as u32) + 256 * (b[1] as u32) + 65536 * (b[2] as u32) + 16777216 * (b[3] as u32);
    (v % 1000) as i32
}

/// The channel of a game's public events.
pub fn game_channel(game_id: u128) -> (s: String)
    ensures
        s@ == text_with_id("game:"@, game_id),
{
    message_with_id("game:", game_id)
}

/// The channel of a player's private events.
pub fn personal_channel(user_id: u128) -> (s: String)
    ensures
        s@ == text_with_id("personal:#"@, user_id),
{
    message_with_id("personal:#", user_id)
}

/// The channel on which open lobbies are announced.
pub fn lobbies_channel() -> (s: &'static str)
    ensures
        s@ == "lobbies"@,
{
    "lobbies"
}

/// The outbox method events are published with.
pub fn publish_method() -> (s: &'static str)
    ensures
        s@ == "publish"@,
{
    "publish"
}

} // verus!
