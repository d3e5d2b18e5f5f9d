//! The handle a player is known by in a lobby.

use vstd::prelude::*;

use crate::error::{AppError, text_with_id};
use crate::ids::{uuid_text, uuid_to_string};
use crate::model::GamePlayer;
use crate::text::{is_blank, trimmed};

verus! {

/// The handle a player proposes: the requested one unless it is absent or
/// blank, otherwise the nickname; and whether it was requested explicitly.
pub open spec fn proposed_handle(requested: Option<Seq<char>>, nickname: Seq<char>) -> (Seq<char>, bool) {
    match requested {
        Some(h) => if trimmed(h).len() != 0 {
            (h, true)
        } else {
            (nickname, false)
        },
        None => (nickname, false),
    }
}

/// Whether some player of the lobby already goes by `handle`.
pub open spec fn handle_taken(players: Seq<GamePlayer>, handle: Seq<char>) -> bool {
    exists|i: int| 0 <= i < players.len() && #[trigger] players[i].handle@ == handle
}

/// The message of a refused explicit handle.
pub open spec fn handle_taken_message() -> Seq<char> {
    "handle already taken in this lobby"@
}

/// The handle a joining player ends up with, or none when the request is
/// refused: the proposed handle when nobody has it, else the player's
/// identifier when the handle was not asked for explicitly.
pub open spec fn resolved_handle(
    user_id: u128,
    requested: Option<Seq<char>>,
    nickname: Seq<char>,
    players: Seq<GamePlayer>,
) -> Option<Seq<char>> {
    let (proposed, explicit) = proposed_handle(requested, nickname);
    if handle_taken(players, proposed) {
        if explicit {
            None
        } else {
            Some(uuid_text(user_id))
        }
    } else {
        Some(proposed)
    }
}

/// No two players of the lobby go by the same handle.
pub open spec fn distinct_handles(players: Seq<GamePlayer>) -> bool {
    forall|i: int, j: int| 0 <= i < j < players.len() ==> #[trigger] players[i].handle@ != #[trigger] players[j].handle@
}

/// A player who joins a lobby whose handles are distinct, with the handle
/// the lobby resolves for them, keeps the handles distinct, unless the
/// identifier the lobby falls back on is already somebody's handle.
pub proof fn lemma_join_keeps_handles_distinct(
    players: Seq<GamePlayer>,
    joining: GamePlayer,
    user_id: u128,
    requested: Option<Seq<char>>,
    nickname: Seq<char>,
)
    requires
        distinct_handles(players),
        resolved_handle(user_id, requested, nickname, players) == Some(joining.handle@),
        !handle_taken(players, uuid_text(user_id)),
    ensures
        distinct_handles(players.push(joining)),
{
    let all = players.push(joining);
    assert(!handle_taken(players, joining.handle@));
    assert forall|i: int, j: int| 0 <= i < j < all.len() implies #[trigger] all[i].handle@ != #[trigger] all[j].handle@ by {
        if j == players.len() {
            assert(all[i] == players[i]);
            assert(all[j] == joining);
        } else {
            assert(all[i] == players[i]);
            assert(all[j] == players[j]);
        }
    }
}

/// Whether some player of `players` goes by `handle`.
pub fn is_handle_taken(players: &[GamePlayer], handle: &String) -> (b: bool)
    ensures
        b == handle_taken(players@, handle@),
{
    let mut i: usize = 0;
    while i < players.len()
        invariant
            0 <= i <= players@.len(),
            forall|k: int| 0 <= k < i ==> #[trigger] players@[k].handle@ != handle@,
        decreases players@.len() - i,
    {
        if players[i].handle == *handle {
            return true;
        }
        i = i + 1;
    }
    false
}

/// Resolves the handle of a player joining a lobby.
///
/// A requested handle that is not blank is used as given, and is refused with
/// a conflict when another player already goes by it. Otherwise the nickname
/// is used, and when it is taken the player's identifier is used instead.
pub fn resolve_handle(
    user_id: u128,
    requested_handle: Option<String>,
    user_nickname: String,
    existing_players: &[GamePlayer],
) -> (r: Result<String, AppError>)
    ensures
        ({
            let req = match requested_handle {
                Some(h) => Some(h@),
                None => None,
            };
            let (proposed, explicit) = proposed_handle(req, user_nickname@);
            let taken = handle_taken(existing_players@, proposed);
            &&& (taken && explicit) ==> (r matches Err(AppError::Conflict(m)) && m@ == handle_taken_message())
            &&& (taken && !explicit) ==> (r matches Ok(h) && h@ == uuid_text(user_id))
            &&& !taken ==> (r matches Ok(h) && h@ == proposed)
            &&& match resolved_handle(user_id, req, user_nickname@, existing_players@) {
                Some(h) => r matches Ok(v) && v@ == h,
                None => r is Err,
            }
        }),
{
    let (proposed, explicit) = match requested_handle {
        Some(h) => {
            if !is_blank(h.as_str()) {
                (h, true)
            } else {
                (user_nickname, false)
            }
        },
        None => (user_nickname, false),
    };
    if is_handle_taken(existing_players, &proposed) {
        if explicit {
            return Err(AppError::Conflict(String::from_str("handle already taken in this lobby")));
        } else {
            return Ok(uuid_to_string(user_id));
        }
    }
    Ok(proposed)
}

/// The nickname a player goes by: the stored username, or `player-` followed
/// by the identifier when there is none.
pub fn default_nickname(user_id: u128, username: Option<String>) -> (s: String)
    ensures
        match username {
            Some(u) => s@ == u@,
            None => s@ == text_with_id("player-"@, user_id),
        },
{
    match username {
        Some(u) => u,
        None => crate::error::message_with_id("player-", user_id),
    }
}

} // verus!
