//! Closing a round whose phase deadline has passed: answering for players who
//! did not submit, and finishing a voting round with the votes cast so far.

use vstd::prelude::*;

use crate::model::{
    Game, GameEvent, GamePlayerHandCard, GameRound, GameStatus, PlayerSubmissionState, RoundPhase,
    after_seconds, after_seconds_fits, deadline_after,
};
use crate::play::{copy_scores, is_round_finished_event, is_game_finished_event};
use crate::effects::{ClosingStep, closing_steps};

verus! {

/// What an expired round calls for.
#[derive(Debug, Clone, Copy, PartialEq, Eq, Structural)]
pub enum TimeoutAction {
    /// The game is not under way, the deadline has not passed or was already
    /// handled, or the phase has no deadline: nothing to do.
    Ignore,
    /// Submissions close: missing players answer with a card, voting opens.
    CloseSubmissions,
    /// Voting closes: the round finishes with the votes cast.
    CloseVoting,
}

/// What an expired round calls for, at the instant `now`.
pub open spec fn timeout_action(game: Game, round: GameRound, now: i64) -> TimeoutAction {
    if game.status != GameStatus::Playing {
        TimeoutAction::Ignore
    } else {
        match round.phase_expires_at {
            None => TimeoutAction::Ignore,
            Some(at) => if at > now {
                TimeoutAction::Ignore
            } else {
                match round.phase {
                    RoundPhase::Submitting => TimeoutAction::CloseSubmissions,
                    RoundPhase::Voting => TimeoutAction::CloseVoting,
                    _ => TimeoutAction::Ignore,
                }
            },
        }
    }
}

/// A round of a game under way is closed once its deadline is reached, and
/// stays due for closing at every later instant: submissions close for a
/// submitting round, voting for a voting round. Nothing is closed before the
/// deadline, without one, in another phase, or in a game not under way.
pub proof fn lemma_timeout_closes_expired_rounds(game: Game, round: GameRound, now: i64, later: i64)
    requires
        now <= later,
    ensures
        timeout_action(game, round, now) != TimeoutAction::Ignore ==> timeout_action(game, round, later)
            == timeout_action(game, round, now),
        (game.status == GameStatus::Playing && round.phase_expires_at is Some && round.phase_expires_at->0 <= now) ==> {
            &&& round.phase == RoundPhase::Submitting ==> timeout_action(game, round, now)
                == TimeoutAction::CloseSubmissions
            &&& round.phase == RoundPhase::Voting ==> timeout_action(game, round, now) == TimeoutAction::CloseVoting
        },
        timeout_action(game, round, now) != TimeoutAction::Ignore ==> {
            &&& game.status == GameStatus::Playing
            &&& round.phase_expires_at is Some && round.phase_expires_at->0 <= now
            &&& round.phase == RoundPhase::Submitting || round.phase == RoundPhase::Voting
        },
        timeout_action(game, round, now) == TimeoutAction::CloseSubmissions ==> round.phase == RoundPhase::Submitting,
        timeout_action(game, round, now) == TimeoutAction::CloseVoting ==> round.phase == RoundPhase::Voting,
{
}

/// Decides what an expired round calls for. A deadline that lies after `now`,
/// or is absent, means another worker already moved the round on.
pub fn decide_timeout(game: &Game, round: &GameRound, now: i64) -> (a: TimeoutAction)
    ensures
        a == timeout_action(*game, *round, now),
        (game.status == GameStatus::Playing && round.phase_expires_at is Some && round.phase_expires_at->0 <= now) ==> {
            &&& round.phase == RoundPhase::Submitting ==> a == TimeoutAction::CloseSubmissions
            &&& round.phase == RoundPhase::Voting ==> a == TimeoutAction::CloseVoting
        },
        a != TimeoutAction::Ignore ==> game.status == GameStatus::Playing && round.phase_expires_at is Some
            && round.phase_expires_at->0 <= now,
{
    if game.status != GameStatus::Playing {
        return TimeoutAction::Ignore;
    }
    match round.phase_expires_at {
        None => TimeoutAction::Ignore,
        Some(at) => {
            if at > now {
                TimeoutAction::Ignore
            } else {
                match round.phase {
                    RoundPhase::Submitting => TimeoutAction::CloseSubmissions,
                    RoundPhase::Voting => TimeoutAction::CloseVoting,
                    _ => TimeoutAction::Ignore,
                }
            }
        },
    }
}

/// The players who have not submitted, in order.
pub open spec fn missing_submitters(states: Seq<PlayerSubmissionState>) -> Seq<u128>
    decreases states.len(),
{
    if states.len() == 0 {
        Seq::empty()
    } else {
        let rest = missing_submitters(states.drop_last());
        if !states.last().has_submitted {
            rest.push(states.last().user_id)
        } else {
            rest
        }
    }
}

/// The players who have not submitted, in order.
pub fn pending_submitters(states: &[PlayerSubmissionState]) -> (ids: Vec<u128>)
    ensures
        ids@ == missing_submitters(states@),
{
    let mut ids: Vec<u128> = Vec::new();
    let mut i: usize = 0;
    while i < states.len()
        invariant
            0 <= i <= states@.len(),
            ids@ == missing_submitters(states@.subrange(0, i as int)),
        decreases states@.len() - i,
    {
        proof {
            let prefix = states@.subrange(0, i as int);
            assert(states@.subrange(0, i + 1).drop_last() =~= prefix);
        }
        if !states[i].has_submitted {
            ids.push(states[i].user_id);
            proof {
                let prefix = states@.subrange(0, i as int);
                assert(missing_submitters(states@.subrange(0, i + 1)) =~= missing_submitters(prefix).push(
                    states@[i as int].user_id,
                ));
            }
        } else {
            proof {
                let prefix = states@.subrange(0, i as int);
                assert(missing_submitters(states@.subrange(0, i + 1)) =~= missing_submitters(prefix));
            }
        }
        i = i + 1;
    }
    proof {
        assert(states@.subrange(0, states@.len() as int) =~= states@);
    }
    ids
}

/// The card played for a player who did not submit in time: the first of
/// their unused cards, if they have one.
pub fn auto_submission(unused: &[GamePlayerHandCard]) -> (c: Option<GamePlayerHandCard>)
    ensures
        unused@.len() == 0 ==> c is None,
        unused@.len() > 0 ==> c == Some(unused@[0]),
{
    if unused.len() == 0 {
        None
    } else {
        Some(unused[0])
    }
}

/// The deadline of the voting phase opened when submissions close.
pub fn voting_deadline(now: i64, game: &Game) -> (t: i64)
    requires
        after_seconds_fits(now, game.vote_time_limit),
    ensures
        t == after_seconds(now, game.vote_time_limit),
{
    deadline_after(now, game.vote_time_limit)
}

/// How a voting round that timed out is closed.
#[derive(Debug)]
pub struct VotingClose {
    /// The events to store, in order.
    pub events: Vec<GameEvent>,
    /// The version each event is stored under: one after the other, following
    /// the game's version.
    pub versions: Vec<i64>,
    /// Whether the game ends with this round.
    pub finishes_game: bool,
    /// When the game goes on: the number of the round that starts, and its
    /// submission deadline.
    pub next_round: Option<(i32, i64)>,
    /// What is stored, announced and moved, in order.
    pub steps: Vec<ClosingStep>,
}

/// Closes a voting round whose deadline passed. The round (number
/// `round_number`) finishes with the given winner, totals and per-round
/// scores. When the game's current round had already reached the last one,
/// the game finishes with the same totals and `final_winner` as its winner;
/// otherwise the next round starts with a submission deadline after `now`.
#[allow(clippy::too_many_arguments)]
pub fn close_voting(
    game: &Game,
    round_id: u128,
    round_number: i32,
    winner: Option<u128>,
    scores: Vec<(u128, i32)>,
    round_scores: Vec<(u128, i32)>,
    final_winner: u128,
    now: i64,
) -> (c: VotingClose)
    requires
        game.version + 2 <= i64::MAX,
        game.current_round < game.max_rounds ==> after_seconds_fits(now, game.submit_time_limit),
    ensures
        c.finishes_game == (game.current_round >= game.max_rounds),
        is_round_finished_event(c.events@[0], round_id, winner, scores@, round_scores@),
        c.finishes_game ==> c.events@.len() == 2 && is_game_finished_event(c.events@[1], scores@)
            && c.next_round is None,
        !c.finishes_game ==> c.events@.len() == 1 && c.next_round == Some(
            ((game.current_round + 1) as i32, after_seconds(now, game.submit_time_limit) as i64),
        ),
        c.versions@.len() == c.events@.len(),
        forall|i: int| 0 <= i < c.versions@.len() ==> #[trigger] c.versions@[i] == game.version + 1 + i,
        c.steps@ == closing_steps(
            round_id,
            round_number,
            announced_winner_spec(winner),
            c.next_round,
            final_winner,
            game.version,
        ),
{
    let is_last = game.current_round >= game.max_rounds;
    let final_scores = copy_scores(scores.as_slice());
    let mut events: Vec<GameEvent> = Vec::new();
    events.push(GameEvent::RoundFinished { round_id, winner_user_id: winner, scores, round_scores });
    let mut versions: Vec<i64> = Vec::new();
    versions.push(game.version + 1);
    let first = game.version + 1;
    let mut steps: Vec<ClosingStep> = Vec::new();
    steps.push(ClosingStep::LogEvent { index: 0, version: first });
    steps.push(
        ClosingStep::AnnounceRoundFinished {
            index: 0,
            round_number,
            winner: announced_winner(winner),
            version: first,
        },
    );
    steps.push(ClosingStep::SendHands { round_id, version: first });
    if is_last {
        let second = game.version + 2;
        events.push(GameEvent::GameFinished { final_scores });
        versions.push(second);
        steps.push(ClosingStep::Bump { version: first });
        steps.push(ClosingStep::LogEvent { index: 1, version: second });
        steps.push(ClosingStep::AnnounceGameFinished { index: 1, winner: final_winner, version: second });
        steps.push(ClosingStep::Bump { version: second });
        proof {
            assert(steps@ =~= closing_steps(
                round_id,
                round_number,
                announced_winner_spec(winner),
                None,
                final_winner,
                game.version,
            ));
        }
        VotingClose { events, versions, finishes_game: true, next_round: None, steps }
    } else {
        let next = game.current_round + 1;
        let deadline = deadline_after(now, game.submit_time_limit);
        steps.push(ClosingStep::AnnounceNextRound { round_number: next, version: first });
        steps.push(ClosingStep::Bump { version: first });
        proof {
            assert(steps@ =~= closing_steps(
                round_id,
                round_number,
                announced_winner_spec(winner),
                Some((next, deadline)),
                final_winner,
                game.version,
            ));
        }
        VotingClose { events, versions, finishes_game: false, next_round: Some((next, deadline)), steps }
    }
}

/// The winner announced for a round: the nil identifier when nobody won.
pub open spec fn announced_winner_spec(winner: Option<u128>) -> u128 {
    match winner {
        Some(u) => u,
        None => crate::ids::NIL_ID,
    }
}

/// The winner announced for a round: the nil identifier when nobody won.
pub fn announced_winner(winner: Option<u128>) -> (w: u128)
    ensures
        w == announced_winner_spec(winner),
{
    match winner {
        Some(u) => u,
        None => crate::ids::NIL_ID,
    }
}

/// The kind and identifier of a round's prompt: the situation when it has one,
/// otherwise the meme.
pub fn round_prompt(round: &GameRound) -> (p: (&'static str, u128))
    requires
        round.prompt_situation_id is Some || round.prompt_meme_id is Some,
    ensures
        round.prompt_situation_id is Some ==> p.0@ == "situation"@ && Some(p.1) == round.prompt_situation_id,
        round.prompt_situation_id is None ==> p.0@ == "meme"@ && Some(p.1) == round.prompt_meme_id,
{
    match round.prompt_situation_id {
        Some(id) => ("situation", id),
        None => ("meme", round.prompt_meme_id.unwrap()),
    }
}

/// The deadline announced for a round that starts: its own deadline, or the
/// submission time limit after `now` when it has none.
pub fn announced_deadline(round: &GameRound, game: &Game, now: i64) -> (t: i64)
    requires
        round.phase_expires_at is None ==> after_seconds_fits(now, game.submit_time_limit),
    ensures
        t == match round.phase_expires_at {
            Some(at) => at as int,
            None => after_seconds(now, game.submit_time_limit),
        },
{
    match round.phase_expires_at {
        Some(at) => at,
        None => deadline_after(now, game.submit_time_limit),
    }
}

} // verus!
