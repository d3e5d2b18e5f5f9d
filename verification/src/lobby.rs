//! The lobby: creating a game, joining, leaving, getting ready and changing
//! the settings before the game starts.

use vstd::prelude::*;

use crate::error::{AppError, text_with_id, not_found_with_id, not_found, forbidden, conflict};
use crate::model::{Game, GameMode, GamePlayer, GameStatus, has_player, is_player};
use crate::play::require_game;

verus! {

/// The game, which must exist and still be a lobby; `refusal` is the message
/// of the conflict when it is not.
pub fn check_lobby(game_id: u128, game: Option<Game>, refusal: &str) -> (r: Result<Game, AppError>)
    ensures
        match game {
            None => r matches Err(AppError::NotFound(m)) && m@ == text_with_id("Game not found: "@, game_id),
            Some(g) => if g.status != GameStatus::Lobby {
                r matches Err(AppError::Conflict(m)) && m@ == refusal@
            } else {
                r == Ok::<Game, AppError>(g)
            },
        },
{
    let g = require_game(game_id, game)?;
    if g.status != GameStatus::Lobby {
        return Err(conflict(refusal));
    }
    Ok(g)
}

/// The game, which must exist, be hosted by `user_id` and still be a lobby.
pub fn check_host_lobby(user_id: u128, game_id: u128, game: Option<Game>, not_host: &str, not_lobby: &str) -> (r:
    Result<Game, AppError>)
    ensures
        match game {
            None => r matches Err(AppError::NotFound(m)) && m@ == text_with_id("Game not found: "@, game_id),
            Some(g) => if g.host_id != user_id {
                r matches Err(AppError::Forbidden(m)) && m@ == not_host@
            } else if g.status != GameStatus::Lobby {
                r matches Err(AppError::Conflict(m)) && m@ == not_lobby@
            } else {
                r == Ok::<Game, AppError>(g)
            },
        },
{
    let g = require_game(game_id, game)?;
    if g.host_id != user_id {
        return Err(forbidden(not_host));
    }
    if g.status != GameStatus::Lobby {
        return Err(conflict(not_lobby));
    }
    Ok(g)
}

/// A pack selected for a game must exist; `situation` tells which kind.
pub fn check_pack_found(situation: bool, pack_id: u128, found: bool) -> (r: Result<(), AppError>)
    ensures
        found ==> r is Ok,
        !found && situation ==> (r matches Err(AppError::NotFound(m)) && m@ == text_with_id(
            "Situation pack not found: "@,
            pack_id,
        )),
        !found && !situation ==> (r matches Err(AppError::NotFound(m)) && m@ == text_with_id(
            "Meme pack not found: "@,
            pack_id,
        )),
{
    if found {
        Ok(())
    } else if situation {
        Err(not_found_with_id("Situation pack not found: ", pack_id))
    } else {
        Err(not_found_with_id("Meme pack not found: ", pack_id))
    }
}

/// The name of a game mode as announced to lobby watchers.
pub fn mode_name(mode: GameMode) -> (s: &'static str)
    ensures
        mode == GameMode::SituationToMeme ==> s@ == "situation_to_meme"@,
        mode == GameMode::MemeToSituation ==> s@ == "meme_to_situation"@,
{
    match mode {
        GameMode::SituationToMeme => "situation_to_meme",
        GameMode::MemeToSituation => "meme_to_situation",
    }
}

/// A user joins a lobby only once.
pub fn check_not_joined(user_id: u128, players: &[GamePlayer]) -> (r: Result<(), AppError>)
    ensures
        !has_player(players@, user_id) ==> r is Ok,
        has_player(players@, user_id) ==> (r matches Err(AppError::Conflict(m)) && m@
            == "Player already in game"@),
{
    if is_player(players, user_id) {
        return Err(conflict("Player already in game"));
    }
    Ok(())
}

/// How many players a lobby has once one more joins.
pub fn count_after_join(players_count: usize) -> (n: i32)
    requires
        players_count + 1 <= i32::MAX,
    ensures
        n == players_count + 1,
{
    (players_count + 1) as i32
}

/// Leaving a lobby: the number of players left, or none when the user is not
/// in the lobby, which leaves it unchanged.
pub fn leave_lobby(user_id: u128, players: &[GamePlayer]) -> (n: Option<i32>)
    requires
        has_player(players@, user_id) ==> players@.len() <= i32::MAX,
    ensures
        !has_player(players@, user_id) ==> n is None,
        has_player(players@, user_id) ==> n == Some((players@.len() - 1) as i32),
{
    if !is_player(players, user_id) {
        return None;
    }
    Some(players.len() as i32 - 1)
}

/// Whether a player is someone other than `user_id`.
pub open spec fn other_than(user_id: u128) -> spec_fn(GamePlayer) -> bool {
    |p: GamePlayer| p.user_id != user_id
}

/// The players left once `user_id` has left.
pub open spec fn without_player(players: Seq<GamePlayer>, user_id: u128) -> Seq<GamePlayer> {
    players.filter(other_than(user_id))
}

proof fn lemma_filter_keeps_others(s: Seq<GamePlayer>, user_id: u128)
    requires
        forall|i: int| 0 <= i < s.len() ==> #[trigger] s[i].user_id != user_id,
    ensures
        s.filter(other_than(user_id)) == s,
    decreases s.len(),
{
    reveal(Seq::filter);
    if s.len() > 0 {
        lemma_filter_keeps_others(s.drop_last(), user_id);
        assert(s.drop_last().push(s.last()) =~= s);
    } else {
        assert(s.filter(other_than(user_id)) =~= s);
    }
}

/// Leaving twice is leaving once: once a user has left a lobby, they are no
/// longer among its players, so leaving again changes nothing (`leave_lobby`
/// then gives none, whatever the lobby's size).
pub proof fn lemma_leave_twice_is_leave_once(players: Seq<GamePlayer>, user_id: u128)
    ensures
        !has_player(without_player(players, user_id), user_id),
        without_player(without_player(players, user_id), user_id) == without_player(players, user_id),
{
    let once = without_player(players, user_id);
    assert forall|i: int| 0 <= i < once.len() implies #[trigger] once[i].user_id != user_id by {
        players.lemma_filter_pred(other_than(user_id), i);
    }
    lemma_filter_keeps_others(once, user_id);
}

/// Only a player of the lobby changes their readiness.
pub fn check_ready_player(user_id: u128, players: &[GamePlayer]) -> (r: Result<(), AppError>)
    ensures
        has_player(players@, user_id) ==> r is Ok,
        !has_player(players@, user_id) ==> (r matches Err(AppError::NotFound(m)) && m@
            == "Player not found in game"@),
{
    if !is_player(players, user_id) {
        return Err(not_found("Player not found in game"));
    }
    Ok(())
}

/// Only a player of the game receives its realtime tokens.
pub fn check_participant(user_id: u128, players: &[GamePlayer]) -> (r: Result<(), AppError>)
    ensures
        has_player(players@, user_id) ==> r is Ok,
        !has_player(players@, user_id) ==> (r matches Err(AppError::Forbidden(m)) && m@
            == "You are not a participant in this game"@),
{
    if !is_player(players, user_id) {
        return Err(forbidden("You are not a participant in this game"));
    }
    Ok(())
}

/// The settings of a lobby.
#[derive(Debug, Clone, Copy, PartialEq, Eq, Structural)]
pub struct GameSettings {
    pub mode: GameMode,
    pub max_rounds: i32,
    pub hand_size: i32,
}

/// The settings after an update: each given value replaces the game's own.
pub fn merge_settings(
    game: &Game,
    mode: Option<GameMode>,
    max_rounds: Option<i32>,
    hand_size: Option<i32>,
) -> (s: GameSettings)
    ensures
        s.mode == match mode {
            Some(m) => m,
            None => game.mode,
        },
        s.max_rounds == match max_rounds {
            Some(m) => m,
            None => game.max_rounds,
        },
        s.hand_size == match hand_size {
            Some(m) => m,
            None => game.hand_size,
        },
{
    GameSettings {
        mode: match mode {
            Some(m) => m,
            None => game.mode,
        },
        max_rounds: match max_rounds {
            Some(m) => m,
            None => game.max_rounds,
        },
        hand_size: match hand_size {
            Some(m) => m,
            None => game.hand_size,
        },
    }
}

/// The game reloaded after an update, which must still exist.
pub fn reloaded_game(game: Option<Game>) -> (r: Result<Game, AppError>)
    ensures
        match game {
            Some(g) => r == Ok::<Game, AppError>(g),
            None => r matches Err(AppError::InternalError),
        },
{
    match game {
        Some(g) => Ok(g),
        None => Err(AppError::InternalError),
    }
}

/// The game a player is in, with its status.
#[derive(Debug, Clone, Copy)]
pub struct ActiveGameInfo {
    pub game_id: u128,
    pub status: GameStatus,
}

impl ActiveGameInfo {
    /// The game found for a player.
    pub fn from_found(found: (u128, GameStatus)) -> (i: ActiveGameInfo)
        ensures
            i.game_id == found.0,
            i.status == found.1,
    {
        ActiveGameInfo { game_id: found.0, status: found.1 }
    }
}

} // verus!
