//! The snapshot of a game shown to one player.

use vstd::prelude::*;

use crate::model::{Game, GameCard, GameRound, PlayerSubmissionState, RoundPhase, RoundSubmission};

verus! {

/// A submission as shown while voting or after the round: anonymous.
#[derive(Debug)]
pub struct GameStateSubmission {
    pub id: u128,
    pub card: GameCard,
}

/// A game as one player sees it.
#[derive(Debug)]
pub struct GameStateResult {
    pub game: Game,
    pub round: Option<GameRound>,
    pub prompt: Option<GameCard>,
    pub players: Vec<PlayerSubmissionState>,
    pub my_hand: Vec<GameCard>,
    pub submissions: Option<Vec<GameStateSubmission>>,
    pub my_submission: Option<GameCard>,
    pub has_voted: bool,
}

/// Whether the round's submissions are shown: while voting and once finished.
pub fn reveals_submissions(phase: RoundPhase) -> (b: bool)
    ensures
        b == (phase == RoundPhase::Voting || phase == RoundPhase::Finished),
{
    match phase {
        RoundPhase::Voting | RoundPhase::Finished => true,
        _ => false,
    }
}

/// The first submission of `user_id` in the round, if any.
pub fn own_submission(subs: &[RoundSubmission], user_id: u128) -> (r: Option<usize>)
    ensures
        r matches Some(i) ==> i < subs@.len() && subs@[i as int].user_id == user_id && forall|k: int|
            0 <= k < i ==> #[trigger] subs@[k].user_id != user_id,
        r is None ==> forall|k: int| 0 <= k < subs@.len() ==> #[trigger] subs@[k].user_id != user_id,
{
    let mut i: usize = 0;
    while i < subs.len()
        invariant
            0 <= i <= subs@.len(),
            forall|k: int| 0 <= k < i ==> #[trigger] subs@[k].user_id != user_id,
        decreases subs@.len() - i,
    {
        if subs[i].user_id == user_id {
            return Some(i);
        }
        i = i + 1;
    }
    None
}

/// Which card a submission played.
#[derive(Debug, Clone, Copy, PartialEq, Eq, Structural)]
pub enum PlayedCard {
    Meme(u128),
    Situation(u128),
}

/// The card a submission played: its meme when it has one, else its
/// situation; none when it has neither (such a submission is not shown).
pub fn played_card(sub: &RoundSubmission) -> (c: Option<PlayedCard>)
    ensures
        c == match sub.submission_meme_id {
            Some(m) => Some(PlayedCard::Meme(m)),
            None => match sub.submission_situation_id {
                Some(s) => Some(PlayedCard::Situation(s)),
                None => None,
            },
        },
{
    match sub.submission_meme_id {
        Some(m) => Some(PlayedCard::Meme(m)),
        None => match sub.submission_situation_id {
            Some(s) => Some(PlayedCard::Situation(s)),
            None => None,
        },
    }
}

/// The text of a situation found by its identifier: empty when none is found.
pub fn situation_text(found: Option<String>) -> (s: String)
    ensures
        s@ == match found {
            Some(t) => t@,
            None => Seq::<char>::empty(),
        },
{
    match found {
        Some(t) => t,
        None => String::new(),
    }
}

/// The media asset of a meme found by its identifier: none when no meme is
/// found or it has no asset.
pub fn meme_media(found: Option<Option<i64>>) -> (m: Option<i64>)
    ensures
        m == match found {
            Some(x) => x,
            None => None,
        },
{
    match found {
        Some(x) => x,
        None => None,
    }
}

} // verus!
