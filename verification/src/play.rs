//! Playing a round: submitting a card, voting for a submission, and closing
//! the round once every player has voted.

use vstd::prelude::*;

use crate::error::{AppError, text_with_id, not_found_with_id, not_found, forbidden, conflict, invalid};
use crate::model::{
    Game, GameAggregate, GameEvent, GameMode, GamePlayer, GamePlayerHandCard, GameRound, GameStatus,
    RoundPhase, RoundSubmission, apply_all, has_player, after_seconds, after_seconds_fits,
    deadline_after, is_player,
};

verus! {

/// The game, or `NotFound` naming it.
pub fn require_game(game_id: u128, game: Option<Game>) -> (r: Result<Game, AppError>)
    ensures
        match game {
            Some(g) => r == Ok::<Game, AppError>(g),
            None => r matches Err(AppError::NotFound(m)) && m@ == text_with_id("Game not found: "@, game_id),
        },
{
    match game {
        Some(g) => Ok(g),
        None => Err(not_found_with_id("Game not found: ", game_id)),
    }
}

/// The round, or `NotFound` naming it.
pub fn require_round(round_id: u128, round: Option<GameRound>) -> (r: Result<GameRound, AppError>)
    ensures
        match round {
            Some(g) => r == Ok::<GameRound, AppError>(g),
            None => r matches Err(AppError::NotFound(m)) && m@ == text_with_id("Round not found: "@, round_id),
        },
{
    match round {
        Some(g) => Ok(g),
        None => Err(not_found_with_id("Round not found: ", round_id)),
    }
}

/// The game, which must exist and be under way.
pub fn check_game_active(game_id: u128, game: Option<Game>) -> (r: Result<Game, AppError>)
    ensures
        match game {
            None => r matches Err(AppError::NotFound(m)) && m@ == text_with_id("Game not found: "@, game_id),
            Some(g) => if g.status != GameStatus::Playing {
                r matches Err(AppError::Conflict(m)) && m@ == "Game is not active"@
            } else {
                r == Ok::<Game, AppError>(g)
            },
        },
{
    let g = require_game(game_id, game)?;
    if g.status != GameStatus::Playing {
        return Err(conflict("Game is not active"));
    }
    Ok(g)
}

/// The round a game is playing, which must exist.
pub fn check_current_round(round: Option<GameRound>) -> (r: Result<GameRound, AppError>)
    ensures
        match round {
            Some(g) => r == Ok::<GameRound, AppError>(g),
            None => r matches Err(AppError::NotFound(m)) && m@ == "No active round found for this game"@,
        },
{
    match round {
        Some(g) => Ok(g),
        None => Err(not_found("No active round found for this game")),
    }
}

/// The round, which must exist and take submissions.
pub fn check_round_submitting(round_id: u128, round: Option<GameRound>) -> (r: Result<GameRound, AppError>)
    ensures
        match round {
            None => r matches Err(AppError::NotFound(m)) && m@ == text_with_id("Round not found: "@, round_id),
            Some(g) => if g.phase != RoundPhase::Submitting {
                r matches Err(AppError::Conflict(m)) && m@ == "Round is not in submitting phase"@
            } else {
                r == Ok::<GameRound, AppError>(g)
            },
        },
{
    let g = require_round(round_id, round)?;
    if g.phase != RoundPhase::Submitting {
        return Err(conflict("Round is not in submitting phase"));
    }
    Ok(g)
}

/// Whether a hand card is of the kind the players answer with in `mode`.
pub open spec fn answers_in_mode(mode: GameMode, card: GamePlayerHandCard) -> bool {
    match mode {
        GameMode::SituationToMeme => card.meme_id is Some,
        GameMode::MemeToSituation => card.situation_id is Some,
    }
}

/// The card a player submits, which must be an unused card of their hand of
/// the kind the mode answers with.
pub fn check_submitted_card(mode: GameMode, card: Option<GamePlayerHandCard>) -> (r: Result<
    GamePlayerHandCard,
    AppError,
>)
    ensures
        match card {
            None => r matches Err(AppError::ValidationError(m)) && m@ == "Card not in hand or already used"@,
            Some(c) => if answers_in_mode(mode, c) {
                r == Ok::<GamePlayerHandCard, AppError>(c)
            } else if mode == GameMode::SituationToMeme {
                r matches Err(AppError::ValidationError(m)) && m@
                    == "Cannot submit situation card in SituationToMeme mode"@
            } else {
                r matches Err(AppError::ValidationError(m)) && m@
                    == "Cannot submit meme card in MemeToSituation mode"@
            },
        },
{
    let c = match card {
        Some(c) => c,
        None => {
            return Err(invalid("Card not in hand or already used"));
        },
    };
    match mode {
        GameMode::SituationToMeme => {
            if c.meme_id.is_none() {
                return Err(invalid("Cannot submit situation card in SituationToMeme mode"));
            }
        },
        GameMode::MemeToSituation => {
            if c.situation_id.is_none() {
                return Err(invalid("Cannot submit meme card in MemeToSituation mode"));
            }
        },
    }
    Ok(c)
}

/// After a submission: when every player has submitted, the round moves to
/// voting, and the result is the voting deadline.
pub fn submissions_complete(submissions_count: i64, players_count: usize, now: i64, vote_time_limit: i32) -> (r:
    Option<i64>)
    requires
        after_seconds_fits(now, vote_time_limit),
    ensures
        submissions_count >= players_count ==> r == Some(after_seconds(now, vote_time_limit) as i64),
        submissions_count < players_count ==> r is None,
{
    if submissions_count as i128 >= players_count as i128 {
        Some(deadline_after(now, vote_time_limit))
    } else {
        None
    }
}

/// The round, which must exist, take votes and belong to the game.
pub fn check_round_voting(game_id: u128, round_id: u128, round: Option<GameRound>) -> (r: Result<
    GameRound,
    AppError,
>)
    ensures
        match round {
            None => r matches Err(AppError::NotFound(m)) && m@ == text_with_id("Round not found: "@, round_id),
            Some(g) => if g.phase != RoundPhase::Voting {
                r matches Err(AppError::Conflict(m)) && m@ == "Round is not in voting phase"@
            } else if g.game_id != game_id {
                r matches Err(AppError::ValidationError(m)) && m@ == "Round does not belong to this game"@
            } else {
                r == Ok::<GameRound, AppError>(g)
            },
        },
{
    let g = require_round(round_id, round)?;
    if g.phase != RoundPhase::Voting {
        return Err(conflict("Round is not in voting phase"));
    }
    if g.game_id != game_id {
        return Err(invalid("Round does not belong to this game"));
    }
    Ok(g)
}

/// Only players of the game vote.
pub fn check_voter(user_id: u128, players: &[GamePlayer]) -> (r: Result<(), AppError>)
    ensures
        has_player(players@, user_id) ==> r is Ok,
        !has_player(players@, user_id) ==> (r matches Err(AppError::Forbidden(m)) && m@
            == "Only registered players can vote"@),
{
    if !is_player(players, user_id) {
        return Err(forbidden("Only registered players can vote"));
    }
    Ok(())
}

/// A player votes once per round.
pub fn check_not_voted(already_voted: bool) -> (r: Result<(), AppError>)
    ensures
        !already_voted ==> r is Ok,
        already_voted ==> (r matches Err(AppError::Conflict(m)) && m@ == "You have already voted in this round"@),
{
    if already_voted {
        return Err(conflict("You have already voted in this round"));
    }
    Ok(())
}

/// The submission voted for, which must exist, belong to the round and not be
/// the voter's own.
pub fn check_vote_target(user_id: u128, round_id: u128, submission: Option<RoundSubmission>) -> (r:
    Result<RoundSubmission, AppError>)
    ensures
        match submission {
            None => r matches Err(AppError::NotFound(m)) && m@ == "Submission not found"@,
            Some(s) => if s.round_id != round_id {
                r matches Err(AppError::ValidationError(m)) && m@ == "Submission does not belong to this round"@
            } else if s.user_id == user_id {
                r matches Err(AppError::ValidationError(m)) && m@ == "Cannot vote for your own submission"@
            } else {
                r == Ok::<RoundSubmission, AppError>(s)
            },
        },
{
    let s = match submission {
        Some(s) => s,
        None => {
            return Err(not_found("Submission not found"));
        },
    };
    if s.round_id != round_id {
        return Err(invalid("Submission does not belong to this round"));
    }
    if s.user_id == user_id {
        return Err(invalid("Cannot vote for your own submission"));
    }
    Ok(s)
}

/// Whether every player has voted.
pub fn votes_complete(votes_count: i64, players_count: usize) -> (b: bool)
    ensures
        b == (votes_count >= players_count),
{
    votes_count as i128 >= players_count as i128
}

/// Entry `i` of the tally has the most votes, and no later entry has as many:
/// it is the entry that `Iterator::max_by_key` picks.
pub open spec fn is_last_max(tally: Seq<(u128, i64)>, i: int) -> bool {
    &&& 0 <= i < tally.len()
    &&& forall|j: int| 0 <= j < tally.len() ==> #[trigger] tally[j].1 <= tally[i].1
    &&& forall|j: int| i < j < tally.len() ==> #[trigger] tally[j].1 < tally[i].1
}

/// At most one entry is the last one with the most votes.
pub proof fn lemma_last_max_unique(tally: Seq<(u128, i64)>, i: int, j: int)
    requires
        is_last_max(tally, i),
        is_last_max(tally, j),
    ensures
        i == j,
{
    if i < j {
        assert(tally[j].1 < tally[i].1);
        assert(tally[i].1 <= tally[j].1);
    } else if j < i {
        assert(tally[i].1 < tally[j].1);
        assert(tally[j].1 <= tally[i].1);
    }
}

/// The checks made before a vote is counted, in order: the game exists and
/// is under way; the round exists, is voting and belongs to the game; the
/// voter plays the game and has not voted in the round; the submission exists,
/// belongs to the round and is not the voter's own. The first that fails is
/// the answer; when none fails, the game and the round.
pub fn vote_guards(
    user_id: u128,
    game_id: u128,
    round_id: u128,
    game: Option<Game>,
    round: Option<GameRound>,
    players: &[GamePlayer],
    already_voted: bool,
    submission: Option<RoundSubmission>,
) -> (r: Result<(Game, GameRound), AppError>)
    ensures
        match game {
            None => r matches Err(AppError::NotFound(m)) && m@ == text_with_id("Game not found: "@, game_id),
            Some(g) => if g.status != GameStatus::Playing {
                r matches Err(AppError::Conflict(m)) && m@ == "Game is not active"@
            } else {
                match round {
                    None => r matches Err(AppError::NotFound(m)) && m@ == text_with_id("Round not found: "@, round_id),
                    Some(rd) => if rd.phase != RoundPhase::Voting {
                        r matches Err(AppError::Conflict(m)) && m@ == "Round is not in voting phase"@
                    } else if rd.game_id != game_id {
                        r matches Err(AppError::ValidationError(m)) && m@ == "Round does not belong to this game"@
                    } else if !has_player(players@, user_id) {
                        r matches Err(AppError::Forbidden(m)) && m@ == "Only registered players can vote"@
                    } else if already_voted {
                        r matches Err(AppError::Conflict(m)) && m@ == "You have already voted in this round"@
                    } else {
                        match submission {
                            None => r matches Err(AppError::NotFound(m)) && m@ == "Submission not found"@,
                            Some(s) => if s.round_id != round_id {
                                r matches Err(AppError::ValidationError(m)) && m@
                                    == "Submission does not belong to this round"@
                            } else if s.user_id == user_id {
                                r matches Err(AppError::ValidationError(m)) && m@
                                    == "Cannot vote for your own submission"@
                            } else {
                                r == Ok::<(Game, GameRound), AppError>((g, rd))
                            },
                        }
                    },
                }
            },
        },
{
    let g = check_game_active(game_id, game)?;
    let rd = check_round_voting(game_id, round_id, round)?;
    check_voter(user_id, players)?;
    check_not_voted(already_voted)?;
    check_vote_target(user_id, round_id, submission)?;
    Ok((g, rd))
}

/// The submission that wins a round whose voting deadline passed: the one
/// with the most votes, the later one of a tie in tally order (the entry that
/// `Iterator::max_by_key` picks); none when nobody voted.
pub fn winning_submission(tally: &[(u128, i64)]) -> (r: Option<u128>)
    ensures
        r is None <==> tally@.len() == 0,
        r matches Some(s) ==> exists|i: int| is_last_max(tally@, i) && #[trigger] tally@[i].0 == s,
{
    if tally.len() == 0 {
        return None;
    }
    let mut best: usize = 0;
    let mut i: usize = 1;
    while i < tally.len()
        invariant
            1 <= i <= tally@.len(),
            0 <= best < i,
            forall|j: int| 0 <= j < i ==> #[trigger] tally@[j].1 <= tally@[best as int].1,
            forall|j: int| best < j < i ==> #[trigger] tally@[j].1 < tally@[best as int].1,
        decreases tally@.len() - i,
    {
        if tally[i].1 >= tally[best].1 {
            best = i;
        }
        i = i + 1;
    }
    proof {
        assert(is_last_max(tally@, best as int));
    }
    Some(tally[best].0)
}

/// Entry `i` of the tally has the most votes, and no earlier entry has as
/// many: the first maximal entry.
pub open spec fn is_first_max(tally: Seq<(u128, i64)>, i: int) -> bool {
    &&& 0 <= i < tally.len()
    &&& forall|j: int| 0 <= j < tally.len() ==> #[trigger] tally[j].1 <= tally[i].1
    &&& forall|j: int| 0 <= j < i ==> #[trigger] tally[j].1 < tally[i].1
}

/// At most one entry is the first one with the most votes.
pub proof fn lemma_first_max_unique(tally: Seq<(u128, i64)>, i: int, j: int)
    requires
        is_first_max(tally, i),
        is_first_max(tally, j),
    ensures
        i == j,
{
    if i < j {
        assert(tally[i].1 < tally[j].1);
        assert(tally[j].1 <= tally[i].1);
    } else if j < i {
        assert(tally[j].1 < tally[i].1);
        assert(tally[i].1 <= tally[j].1);
    }
}

/// The submission that wins a round closed by its last vote: the one with
/// the most votes, the first one found in tally order on a tie; none when
/// nobody voted.
pub fn first_winning_submission(tally: &[(u128, i64)]) -> (r: Option<u128>)
    ensures
        r is None <==> tally@.len() == 0,
        r matches Some(s) ==> exists|i: int| is_first_max(tally@, i) && #[trigger] tally@[i].0 == s,
{
    if tally.len() == 0 {
        return None;
    }
    let mut best: usize = 0;
    let mut i: usize = 1;
    while i < tally.len()
        invariant
            1 <= i <= tally@.len(),
            0 <= best < i,
            forall|j: int| 0 <= j < i ==> #[trigger] tally@[j].1 <= tally@[best as int].1,
            forall|j: int| 0 <= j < best ==> #[trigger] tally@[j].1 < tally@[best as int].1,
        decreases tally@.len() - i,
    {
        if tally[i].1 > tally[best].1 {
            best = i;
        }
        i = i + 1;
    }
    proof {
        assert(is_first_max(tally@, best as int));
    }
    Some(tally[best].0)
}

/// Player `i` has the highest score, and no later player has as high a one.
pub open spec fn is_last_top_scorer(players: Seq<GamePlayer>, i: int) -> bool {
    &&& 0 <= i < players.len()
    &&& forall|j: int| 0 <= j < players.len() ==> #[trigger] players[j].score <= players[i].score
    &&& forall|j: int| i < j < players.len() ==> #[trigger] players[j].score < players[i].score
}

/// The winner of a finished game: the player with the highest score, the
/// later one of a tie; the nil identifier when there is no player.
pub fn game_winner(players: &[GamePlayer]) -> (w: u128)
    ensures
        players@.len() == 0 ==> w == crate::ids::NIL_ID,
        players@.len() > 0 ==> exists|i: int| is_last_top_scorer(players@, i) && #[trigger] players@[i].user_id
            == w,
{
    if players.len() == 0 {
        return crate::ids::NIL_ID;
    }
    let mut best: usize = 0;
    let mut i: usize = 1;
    while i < players.len()
        invariant
            1 <= i <= players@.len(),
            0 <= best < i,
            forall|j: int| 0 <= j < i ==> #[trigger] players@[j].score <= players@[best as int].score,
            forall|j: int| best < j < i ==> #[trigger] players@[j].score < players@[best as int].score,
        decreases players@.len() - i,
    {
        if players[i].score >= players[best].score {
            best = i;
        }
        i = i + 1;
    }
    proof {
        assert(is_last_top_scorer(players@, best as int));
    }
    players[best].user_id
}

/// Each player's identifier and score, in order.
pub open spec fn score_list(players: Seq<GamePlayer>) -> Seq<(u128, i32)> {
    players.map_values(|p: GamePlayer| (p.user_id, p.score))
}

/// The scoreboard has one entry per player, in player order, each the
/// player's identifier and total: no player is left out or added.
pub proof fn lemma_score_list_one_per_player(players: Seq<GamePlayer>)
    ensures
        score_list(players).len() == players.len(),
        forall|i: int|
            0 <= i < players.len() ==> #[trigger] score_list(players)[i] == (players[i].user_id, players[i].score),
{
}

/// Each player's identifier and score, in order.
pub fn scores_of(players: &[GamePlayer]) -> (s: Vec<(u128, i32)>)
    ensures
        s@ == score_list(players@),
        s@.len() == players@.len(),
        forall|i: int| 0 <= i < players@.len() ==> #[trigger] s@[i] == (players@[i].user_id, players@[i].score),
{
    let mut s: Vec<(u128, i32)> = Vec::new();
    let mut i: usize = 0;
    while i < players.len()
        invariant
            0 <= i <= players@.len(),
            s@ == score_list(players@.subrange(0, i as int)),
        decreases players@.len() - i,
    {
        s.push((players[i].user_id, players[i].score));
        proof {
            assert(score_list(players@.subrange(0, i + 1)) =~= score_list(players@.subrange(0, i as int)).push(
                (players@[i as int].user_id, players@[i as int].score),
            ));
        }
        i = i + 1;
    }
    proof {
        assert(players@.subrange(0, players@.len() as int) =~= players@);
        lemma_score_list_one_per_player(players@);
    }
    s
}

/// A copy of a score list.
pub fn copy_scores(s: &[(u128, i32)]) -> (c: Vec<(u128, i32)>)
    ensures
        c@ == s@,
{
    let mut c: Vec<(u128, i32)> = Vec::new();
    let mut i: usize = 0;
    while i < s.len()
        invariant
            0 <= i <= s@.len(),
            c@ == s@.subrange(0, i as int),
        decreases s@.len() - i,
    {
        c.push(s[i]);
        proof {
            assert(s@.subrange(0, i + 1) =~= s@.subrange(0, i as int).push(s@[i as int]));
        }
        i = i + 1;
    }
    proof {
        assert(s@.subrange(0, s@.len() as int) =~= s@);
    }
    c
}

/// What a vote produces: the events in the order they are stored, and the
/// game's projection after them.
#[derive(Debug)]
pub struct VoteOutcome {
    pub events: Vec<GameEvent>,
    pub aggregate: GameAggregate,
    /// The version each event is stored under, one after the other.
    pub versions: Vec<i64>,
}

/// `e` registers the vote of `voter_id` in `round_id`.
pub open spec fn is_vote_event(e: GameEvent, round_id: u128, voter_id: u128) -> bool {
    e matches GameEvent::VoteRegistered { round_id: r, voter_id: v } && r == round_id && v == voter_id
}

/// `e` finishes `round_id` with this winner, these totals and these round scores.
pub open spec fn is_round_finished_event(
    e: GameEvent,
    round_id: u128,
    winner: Option<u128>,
    scores: Seq<(u128, i32)>,
    round_scores: Seq<(u128, i32)>,
) -> bool {
    e matches GameEvent::RoundFinished { round_id: r, winner_user_id: w, scores: s, round_scores: rs }
        && r == round_id && w == winner && s@ == scores && rs@ == round_scores
}

/// `e` finishes the game with these final scores.
pub open spec fn is_game_finished_event(e: GameEvent, scores: Seq<(u128, i32)>) -> bool {
    e matches GameEvent::GameFinished { final_scores: s } && s@ == scores
}

/// What a vote produces. The vote is always registered. When `result` is
/// given (every player has voted; it holds the winner and the fresh totals),
/// the round finishes with no per-round scores, and when the game's current
/// round had already reached the last one before this round finished (the
/// projection's `is_last_round`), the game finishes with the same totals.
/// The projection after the events is the stored game's projection with the
/// events applied.
pub fn vote_outcome(
    game: &Game,
    round_id: u128,
    voter_id: u128,
    result: Option<(Option<u128>, Vec<(u128, i32)>)>,
) -> (o: VoteOutcome)
    requires
        game.version + 3 <= i64::MAX,
        game.current_round + 1 <= i32::MAX,
    ensures
        o.aggregate == apply_all(GameAggregate::from_game_spec(*game), o.events@),
        o.aggregate.version == game.version + o.events@.len(),
        o.versions@.len() == o.events@.len(),
        forall|i: int| 0 <= i < o.versions@.len() ==> #[trigger] o.versions@[i] == game.version + 1 + i,
        is_vote_event(o.events@[0], round_id, voter_id),
        match result {
            None => o.events@.len() == 1 && o.aggregate.current_round == game.current_round
                && o.aggregate.status == game.status,
            Some((winner, scores)) => {
                &&& is_round_finished_event(o.events@[1], round_id, winner, scores@, Seq::empty())
                &&& o.aggregate.current_round == game.current_round + 1
                &&& if game.current_round >= game.max_rounds {
                    &&& o.events@.len() == 3
                    &&& is_game_finished_event(o.events@[2], scores@)
                    &&& o.aggregate.status == GameStatus::Finished
                } else {
                    &&& o.events@.len() == 2
                    &&& o.aggregate.status == game.status
                }
            },
        },
{
    let mut aggregate = GameAggregate::from_game(game);
    let ghost start = aggregate;
    assert(start == GameAggregate::from_game_spec(*game));
    let ends_game = aggregate.is_last_round();
    let mut events: Vec<GameEvent> = Vec::new();
    events.push(GameEvent::VoteRegistered { round_id, voter_id });
    match result {
        None => {
            proof {
                assert(crate::model::rounds_finished(events@) == 0) by {
                    reveal_with_fuel(crate::model::rounds_finished, 2);
                }
            }
            aggregate.apply_events(events.as_slice());
            proof {
                assert(!crate::model::finishes_game(events@));
            }
            let versions = crate::model::event_versions(game.version, events.len());
            VoteOutcome { events, aggregate, versions }
        },
        Some((winner, scores)) => {
            let final_scores = copy_scores(scores.as_slice());
            events.push(
                GameEvent::RoundFinished {
                    round_id,
                    winner_user_id: winner,
                    scores,
                    round_scores: Vec::new(),
                },
            );
            proof {
                assert(crate::model::rounds_finished(events@) == 1) by {
                    reveal_with_fuel(crate::model::rounds_finished, 3);
                }
                assert(events@[1] is RoundFinished);
            }
            let ghost first = events@;
            aggregate.apply_events(events.as_slice());
            proof {
                assert(!crate::model::finishes_game(first));
            }
            if ends_game {
                let ending = GameEvent::GameFinished { final_scores };
                let tail = vec![ending];
                proof {
                    assert(crate::model::rounds_finished(tail@) == 0) by {
                        reveal_with_fuel(crate::model::rounds_finished, 2);
                    }
                    assert(tail@[0] is GameFinished);
                    assert(crate::model::finishes_game(tail@));
                }
                let ghost mid = aggregate;
                aggregate.apply_events(tail.as_slice());
                let ghost tail_seq = tail@;
                assert(aggregate == apply_all(mid, tail_seq));
                let mut tail = tail;
                let ending = tail.pop().unwrap();
                events.push(ending);
                proof {
                    assert(tail_seq =~= seq![events@[2]]);
                    crate::model::lemma_apply_all_split(start, first, tail_seq);
                    assert(first + seq![events@[2]] =~= events@);
                    assert(aggregate == apply_all(start, events@));
                }
                let versions = crate::model::event_versions(game.version, events.len());
                VoteOutcome { events, aggregate, versions }
            } else {
                proof {
                    assert(aggregate == apply_all(start, events@));
                }
                let versions = crate::model::event_versions(game.version, events.len());
                VoteOutcome { events, aggregate, versions }
            }
        },
    }
}

} // verus!
