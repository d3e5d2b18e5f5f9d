//! The changes a step of the game makes to the store, and the records and
//! notices it produces, as plans that the caller carries out in order.

use vstd::prelude::*;

use crate::model::{GamePlayer, GamePlayerHandCard, GameStatus, RoundPhase, user_ids};
use crate::play::VoteOutcome;
use crate::timeout::VotingClose;

verus! {

/// A change to the game store.
#[derive(Debug, Clone, Copy, PartialEq, Eq, Structural)]
pub enum StoreWrite {
    /// A player's card is played in a round.
    InsertSubmission { round_id: u128, user_id: u128, meme_id: Option<u128>, situation_id: Option<u128> },
    /// A hand card is spent.
    MarkCardUsed { card_id: u128 },
    /// A round moves to a phase, with its deadline.
    SetRoundPhase { round_id: u128, phase: RoundPhase, expires_at: Option<i64> },
    /// A round finishes with its winner, if any.
    SetRoundResult { round_id: u128, winner: Option<u128> },
    /// A player gains a point.
    AwardPoint { user_id: u128 },
    /// A player draws the reserve card kept for after round `draw_order`.
    DrawReserve { user_id: u128, draw_order: i32 },
    /// The game finishes; its content is released for editing when asked.
    FinishGame { release_content: bool },
    /// The game's current round becomes `round_number`; the round is opened
    /// for submissions until the deadline, when one is given.
    AdvanceRound { round_number: i32, activate_with: Option<i64> },
}

/// The writes that finish a round: its result, a point for the winner, and,
/// when `draws`, a reserve card for every player, in player order.
pub open spec fn round_result_spec(
    round_id: u128,
    round_number: i32,
    players: Seq<u128>,
    winner: Option<u128>,
    draws: bool,
) -> Seq<StoreWrite> {
    seq![StoreWrite::SetRoundResult { round_id, winner }] + match winner {
        Some(w) => seq![StoreWrite::AwardPoint { user_id: w }],
        None => Seq::empty(),
    } + if draws {
        players.map_values(|u: u128| StoreWrite::DrawReserve { user_id: u, draw_order: round_number })
    } else {
        Seq::empty()
    }
}

/// The writes that finish a round begin with its result; they award a point
/// to the winner, when there is one, whether or not reserve cards are drawn,
/// and to nobody else; and they draw a reserve card for every player, after
/// the round's number, exactly when `draws`.
pub proof fn lemma_round_result_awards_winner(
    round_id: u128,
    round_number: i32,
    players: Seq<u128>,
    winner: Option<u128>,
    draws: bool,
)
    ensures
        ({
            let w = round_result_spec(round_id, round_number, players, winner, draws);
            &&& w.len() == 1 + (if winner is Some { 1int } else { 0int }) + (if draws {
                players.len() as int
            } else {
                0int
            })
            &&& w[0] == (StoreWrite::SetRoundResult { round_id, winner })
            &&& forall|u: u128| #[trigger] w.contains((StoreWrite::AwardPoint { user_id: u })) <==> winner == Some(u)
            &&& forall|i: int|
                0 <= i < players.len() ==> (draws <==> w.contains(
                    (StoreWrite::DrawReserve { user_id: #[trigger] players[i], draw_order: round_number }),
                ))
            &&& !draws ==> forall|i: int| 0 <= i < w.len() ==> !(#[trigger] w[i] is DrawReserve)
            &&& winner is Some ==> w[1] == (StoreWrite::AwardPoint { user_id: winner->0 })
            &&& draws ==> forall|i: int|
                0 <= i < players.len() ==> #[trigger] w[w.len() - players.len() + i] == (StoreWrite::DrawReserve {
                    user_id: players[i],
                    draw_order: round_number,
                })
        }),
{
    let w = round_result_spec(round_id, round_number, players, winner, draws);
    let head: Seq<StoreWrite> = seq![StoreWrite::SetRoundResult { round_id, winner }] + match winner {
        Some(x) => seq![StoreWrite::AwardPoint { user_id: x }],
        None => Seq::empty(),
    };
    let tail: Seq<StoreWrite> = if draws {
        players.map_values(|u: u128| StoreWrite::DrawReserve { user_id: u, draw_order: round_number })
    } else {
        Seq::empty()
    };
    assert(w == head + tail);
    assert(w[0] == head[0]);
    assert forall|u: u128| #[trigger] w.contains((StoreWrite::AwardPoint { user_id: u })) <==> winner == Some(u) by {
        if winner == Some(u) {
            assert(w[1] == head[1]);
        }
        if w.contains((StoreWrite::AwardPoint { user_id: u })) {
            let i = choose|i: int| 0 <= i < w.len() && w[i] == (StoreWrite::AwardPoint { user_id: u });
            if i < head.len() {
                assert(w[i] == head[i]);
            } else {
                assert(w[i] == tail[i - head.len()]);
            }
        }
    }
    assert forall|i: int| 0 <= i < players.len() implies (draws <==> w.contains(
        (StoreWrite::DrawReserve { user_id: #[trigger] players[i], draw_order: round_number }),
    )) by {
        let d = StoreWrite::DrawReserve { user_id: players[i], draw_order: round_number };
        if draws {
            assert(w[head.len() + i] == tail[i]);
        }
        if w.contains(d) {
            let j = choose|j: int| 0 <= j < w.len() && w[j] == d;
            if j < head.len() {
                assert(w[j] == head[j]);
            } else {
                assert(w[j] == tail[j - head.len()]);
            }
        }
    }
    assert forall|i: int| !draws && 0 <= i < w.len() implies !(#[trigger] w[i] is DrawReserve) by {
        assert(w[i] == head[i]);
    }
    if winner is Some {
        assert(w[1] == head[1]);
    }
    assert forall|i: int| draws && 0 <= i < players.len() implies #[trigger] w[w.len() - players.len() + i]
        == (StoreWrite::DrawReserve { user_id: players[i], draw_order: round_number }) by {
        assert(w[head.len() + i] == tail[i]);
    }
}

/// The writes that finish a round (see `round_result_spec`).
pub fn round_result_writes(
    round_id: u128,
    round_number: i32,
    players: &[GamePlayer],
    winner: Option<u128>,
    draws: bool,
) -> (w: Vec<StoreWrite>)
    ensures
        w@ == round_result_spec(round_id, round_number, user_ids(players@), winner, draws),
        w@[0] == (StoreWrite::SetRoundResult { round_id, winner }),
        forall|u: u128| #[trigger] w@.contains((StoreWrite::AwardPoint { user_id: u })) <==> winner == Some(u),
{
    let mut w: Vec<StoreWrite> = Vec::new();
    w.push(StoreWrite::SetRoundResult { round_id, winner });
    match winner {
        Some(u) => w.push(StoreWrite::AwardPoint { user_id: u }),
        None => {},
    }
    let ghost head = w@;
    if draws {
        let mut i: usize = 0;
        while i < players.len()
            invariant
                0 <= i <= players@.len(),
                w@ == head + user_ids(players@.subrange(0, i as int)).map_values(
                    |u: u128| StoreWrite::DrawReserve { user_id: u, draw_order: round_number },
                ),
            decreases players@.len() - i,
        {
            w.push(StoreWrite::DrawReserve { user_id: players[i].user_id, draw_order: round_number });
            proof {
                assert(players@.subrange(0, i + 1) =~= players@.subrange(0, i as int).push(players@[i as int]));
                assert(user_ids(players@.subrange(0, i + 1)).map_values(
                    |u: u128| StoreWrite::DrawReserve { user_id: u, draw_order: round_number },
                ) =~= user_ids(players@.subrange(0, i as int)).map_values(
                    |u: u128| StoreWrite::DrawReserve { user_id: u, draw_order: round_number },
                ).push(StoreWrite::DrawReserve { user_id: players@[i as int].user_id, draw_order: round_number }));
            }
            i = i + 1;
        }
        proof {
            assert(players@.subrange(0, players@.len() as int) =~= players@);
        }
    }
    proof {
        assert(w@ =~= round_result_spec(round_id, round_number, user_ids(players@), winner, draws));
        lemma_round_result_awards_winner(round_id, round_number, user_ids(players@), winner, draws);
    }
    w
}

/// The writes that follow a timed-out round: the game finishes and releases
/// its content, or the next round becomes current and opens.
pub fn timeout_progress(close: &VotingClose) -> (w: Vec<StoreWrite>)
    ensures
        w@ == match close.next_round {
            None => seq![StoreWrite::FinishGame { release_content: true }],
            Some((n, d)) => seq![StoreWrite::AdvanceRound { round_number: n, activate_with: Some(d) }],
        },
{
    let mut w: Vec<StoreWrite> = Vec::new();
    match close.next_round {
        None => w.push(StoreWrite::FinishGame { release_content: true }),
        Some((n, d)) => w.push(StoreWrite::AdvanceRound { round_number: n, activate_with: Some(d) }),
    }
    w
}

/// The writes that follow the last vote of a round: the game's current round
/// becomes the one the projection reached, and the game finishes when the
/// projection did. Nothing when the vote did not close the round.
pub fn vote_progress(outcome: &VoteOutcome, round_closed: bool) -> (w: Vec<StoreWrite>)
    ensures
        !round_closed ==> w@ == Seq::<StoreWrite>::empty(),
        round_closed && outcome.aggregate.status != GameStatus::Finished ==> w@ == seq![
            StoreWrite::AdvanceRound { round_number: outcome.aggregate.current_round, activate_with: None },
        ],
        round_closed && outcome.aggregate.status == GameStatus::Finished ==> w@ == seq![
            StoreWrite::AdvanceRound { round_number: outcome.aggregate.current_round, activate_with: None },
            StoreWrite::FinishGame { release_content: false },
        ],
{
    let mut w: Vec<StoreWrite> = Vec::new();
    if round_closed {
        w.push(StoreWrite::AdvanceRound { round_number: outcome.aggregate.current_round, activate_with: None });
        if outcome.aggregate.status == GameStatus::Finished {
            w.push(StoreWrite::FinishGame { release_content: false });
        }
    }
    w
}

/// What is recorded in a game's event log besides the domain events.
#[derive(Debug, Clone, Copy, PartialEq, Eq, Structural)]
pub enum Record {
    SubmissionReceived { round_id: u128, user_id: u128 },
    RoundPhaseChanged { round_id: u128, phase: RoundPhase },
}

impl Record {
    /// The name under which the record is logged.
    pub fn record_type(&self) -> (s: &'static str)
        ensures
            s@ == match self {
                Record::SubmissionReceived { .. } => "SubmissionReceived"@,
                Record::RoundPhaseChanged { .. } => "RoundPhaseChanged"@,
            },
    {
        match self {
            Record::SubmissionReceived { .. } => "SubmissionReceived",
            Record::RoundPhaseChanged { .. } => "RoundPhaseChanged",
        }
    }
}

/// The name a phase is written as.
pub open spec fn phase_text(phase: RoundPhase) -> Seq<char> {
    match phase {
        RoundPhase::Waiting => "waiting"@,
        RoundPhase::Submitting => "submitting"@,
        RoundPhase::Voting => "voting"@,
        RoundPhase::Finished => "finished"@,
    }
}

/// The name a phase is written as in records and notices.
pub fn phase_name(phase: RoundPhase) -> (s: &'static str)
    ensures
        s@ == phase_text(phase),
{
    match phase {
        RoundPhase::Waiting => "waiting",
        RoundPhase::Submitting => "submitting",
        RoundPhase::Voting => "voting",
        RoundPhase::Finished => "finished",
    }
}

/// What the players are told.
#[derive(Debug, Clone, Copy, PartialEq, Eq, Structural)]
pub enum Notice {
    SubmissionReceived { round_id: u128, user_id: u128, version: i64 },
    PhaseChanged { round_id: u128, phase: RoundPhase, expires_at: Option<i64>, version: i64 },
}

/// One step of a plan.
#[derive(Debug, Clone, Copy, PartialEq, Eq, Structural)]
pub enum Effect {
    /// Change the store.
    Write(StoreWrite),
    /// Move the game to the next version, which is `version`.
    Bump { version: i64 },
    /// Record in the event log under `version`.
    Log { version: i64, record: Record },
    /// Tell the players.
    Notify(Notice),
}

/// The effects of a submission of `card` by `user_id` announced under `version`.
pub open spec fn submission_effects(round_id: u128, user_id: u128, card: GamePlayerHandCard, version: i64) -> Seq<
    Effect,
> {
    played_effects(round_id, user_id, card) + seq![
        Effect::Bump { version },
        Effect::Log { version, record: Record::SubmissionReceived { round_id, user_id } },
        Effect::Notify(Notice::SubmissionReceived { round_id, user_id, version }),
    ]
}

/// The effects that open voting with `deadline`, announced under `version`.
pub open spec fn open_voting_effects(round_id: u128, deadline: i64, version: i64) -> Seq<Effect> {
    seq![
        Effect::Write(StoreWrite::SetRoundPhase {
            round_id,
            phase: RoundPhase::Voting,
            expires_at: Some(deadline),
        }),
        Effect::Bump { version },
        Effect::Log { version, record: Record::RoundPhaseChanged { round_id, phase: RoundPhase::Voting } },
        Effect::Notify(Notice::PhaseChanged {
            round_id,
            phase: RoundPhase::Voting,
            expires_at: Some(deadline),
            version,
        }),
    ]
}

/// How many of the players missing a submission have a card to play.
pub open spec fn answered(entries: Seq<(u128, Option<GamePlayerHandCard>)>) -> nat
    decreases entries.len(),
{
    if entries.len() == 0 {
        0
    } else {
        answered(entries.drop_last()) + if entries.last().1 is Some {
            1nat
        } else {
            0nat
        }
    }
}

/// The submissions made for players who missed the deadline, in order, each
/// under the next version after `base`; a player without a card is passed over.
pub open spec fn auto_submissions(round_id: u128, entries: Seq<(u128, Option<GamePlayerHandCard>)>, base: i64) -> Seq<
    Effect,
>
    decreases entries.len(),
{
    if entries.len() == 0 {
        Seq::empty()
    } else {
        let earlier = auto_submissions(round_id, entries.drop_last(), base);
        match entries.last().1 {
            Some(card) => earlier + submission_effects(
                round_id,
                entries.last().0,
                card,
                (base + answered(entries.drop_last()) + 1) as i64,
            ),
            None => earlier,
        }
    }
}

/// Closing the submissions of a round at its deadline: every player in
/// `entries` (the players who had not submitted, each with the card played
/// for them, if they have one) submits, then voting opens until `deadline`.
/// The versions follow the game's version `base` one by one.
pub fn close_submissions_plan(
    round_id: u128,
    entries: &[(u128, Option<GamePlayerHandCard>)],
    base: i64,
    deadline: i64,
) -> (p: Vec<Effect>)
    requires
        base + entries@.len() + 1 <= i64::MAX,
    ensures
        p@ == auto_submissions(round_id, entries@, base) + open_voting_effects(
            round_id,
            deadline,
            (base + answered(entries@) + 1) as i64,
        ),
{
    let mut p: Vec<Effect> = Vec::new();
    let mut version: i64 = base;
    let mut i: usize = 0;
    while i < entries.len()
        invariant
            0 <= i <= entries@.len(),
            base + entries@.len() + 1 <= i64::MAX,
            version == base + answered(entries@.subrange(0, i as int)),
            answered(entries@.subrange(0, i as int)) <= i,
            p@ == auto_submissions(round_id, entries@.subrange(0, i as int), base),
        decreases entries@.len() - i,
    {
        let (user_id, card) = entries[i];
        proof {
            assert(entries@.subrange(0, i + 1).drop_last() =~= entries@.subrange(0, i as int));
            assert(entries@.subrange(0, i + 1).last() == entries@[i as int]);
        }
        match card {
            Some(c) => {
                version = version + 1;
                p.push(
                    Effect::Write(
                        StoreWrite::InsertSubmission {
                            round_id,
                            user_id,
                            meme_id: c.meme_id,
                            situation_id: c.situation_id,
                        },
                    ),
                );
                p.push(Effect::Write(StoreWrite::MarkCardUsed { card_id: c.id }));
                p.push(Effect::Bump { version });
                p.push(Effect::Log { version, record: Record::SubmissionReceived { round_id, user_id } });
                p.push(Effect::Notify(Notice::SubmissionReceived { round_id, user_id, version }));
                proof {
                    assert(p@ =~= auto_submissions(round_id, entries@.subrange(0, i + 1), base));
                }
            },
            None => {},
        }
        i = i + 1;
    }
    proof {
        assert(entries@.subrange(0, entries@.len() as int) =~= entries@);
    }
    version = version + 1;
    p.push(
        Effect::Write(StoreWrite::SetRoundPhase { round_id, phase: RoundPhase::Voting, expires_at: Some(deadline) }),
    );
    p.push(Effect::Bump { version });
    p.push(Effect::Log { version, record: Record::RoundPhaseChanged { round_id, phase: RoundPhase::Voting } });
    p.push(
        Effect::Notify(
            Notice::PhaseChanged { round_id, phase: RoundPhase::Voting, expires_at: Some(deadline), version },
        ),
    );
    proof {
        assert(p@ =~= auto_submissions(round_id, entries@, base) + open_voting_effects(
            round_id,
            deadline,
            (base + answered(entries@) + 1) as i64,
        ));
    }
    p
}


/// The effects of a player playing `card` in a round: the submission is
/// stored and the card spent.
pub open spec fn played_effects(round_id: u128, user_id: u128, card: GamePlayerHandCard) -> Seq<Effect> {
    seq![
        Effect::Write(StoreWrite::InsertSubmission {
            round_id,
            user_id,
            meme_id: card.meme_id,
            situation_id: card.situation_id,
        }),
        Effect::Write(StoreWrite::MarkCardUsed { card_id: card.id }),
    ]
}

/// The effects of a player playing `card` (see `played_effects`).
pub fn play_card_plan(round_id: u128, user_id: u128, card: GamePlayerHandCard) -> (p: Vec<Effect>)
    ensures
        p@ == played_effects(round_id, user_id, card),
{
    let mut p: Vec<Effect> = Vec::new();
    p.push(
        Effect::Write(
            StoreWrite::InsertSubmission { round_id, user_id, meme_id: card.meme_id, situation_id: card.situation_id },
        ),
    );
    p.push(Effect::Write(StoreWrite::MarkCardUsed { card_id: card.id }));
    proof {
        assert(p@ =~= played_effects(round_id, user_id, card));
    }
    p
}

/// The effects that follow a player's submission: when it completes the round
/// (`voting` holds the voting deadline) the round moves to voting first; the
/// submission is announced under the version after `base`, and the opening
/// of voting under the one after that.
pub open spec fn announce_effects(round_id: u128, user_id: u128, base: i64, voting: Option<i64>) -> Seq<Effect> {
    let first = (base + 1) as i64;
    let second = (base + 2) as i64;
    let opening = match voting {
        Some(d) => seq![
            Effect::Write(StoreWrite::SetRoundPhase { round_id, phase: RoundPhase::Voting, expires_at: Some(d) }),
        ],
        None => Seq::empty(),
    };
    opening + seq![
        Effect::Bump { version: first },
        Effect::Log { version: first, record: Record::SubmissionReceived { round_id, user_id } },
        Effect::Notify(Notice::SubmissionReceived { round_id, user_id, version: first }),
    ] + match voting {
        Some(d) => seq![
            Effect::Bump { version: second },
            Effect::Log { version: second, record: Record::RoundPhaseChanged { round_id, phase: RoundPhase::Voting } },
            Effect::Notify(Notice::PhaseChanged {
                round_id,
                phase: RoundPhase::Voting,
                expires_at: Some(d),
                version: second,
            }),
        ],
        None => Seq::empty(),
    }
}

/// The effects that follow a player's submission (see `announce_effects`).
pub fn announce_submission_plan(round_id: u128, user_id: u128, base: i64, voting: Option<i64>) -> (p: Vec<Effect>)
    requires
        base + 2 <= i64::MAX,
    ensures
        p@ == announce_effects(round_id, user_id, base, voting),
{
    let first = base + 1;
    let mut p: Vec<Effect> = Vec::new();
    match voting {
        Some(d) => p.push(
            Effect::Write(StoreWrite::SetRoundPhase { round_id, phase: RoundPhase::Voting, expires_at: Some(d) }),
        ),
        None => {},
    }
    p.push(Effect::Bump { version: first });
    p.push(Effect::Log { version: first, record: Record::SubmissionReceived { round_id, user_id } });
    p.push(Effect::Notify(Notice::SubmissionReceived { round_id, user_id, version: first }));
    match voting {
        Some(d) => {
            let second = base + 2;
            p.push(Effect::Bump { version: second });
            p.push(
                Effect::Log {
                    version: second,
                    record: Record::RoundPhaseChanged { round_id, phase: RoundPhase::Voting },
                },
            );
            p.push(
                Effect::Notify(
                    Notice::PhaseChanged { round_id, phase: RoundPhase::Voting, expires_at: Some(d), version: second },
                ),
            );
        },
        None => {},
    }
    proof {
        assert(p@ =~= announce_effects(round_id, user_id, base, voting));
    }
    p
}

/// The versions a plan moves the game to, in order.
pub open spec fn bumps(effects: Seq<Effect>) -> Seq<i64>
    decreases effects.len(),
{
    if effects.len() == 0 {
        Seq::empty()
    } else {
        let earlier = bumps(effects.drop_last());
        match effects.last() {
            Effect::Bump { version } => earlier.push(version),
            _ => earlier,
        }
    }
}

/// `n` versions, one after the other, following `base`.
pub open spec fn successive(base: i64, n: nat) -> Seq<i64> {
    Seq::new(n, |k: int| (base + 1 + k) as i64)
}

proof fn lemma_bumps_concat(a: Seq<Effect>, b: Seq<Effect>)
    ensures
        bumps(a + b) == bumps(a) + bumps(b),
    decreases b.len(),
{
    if b.len() == 0 {
        assert(a + b =~= a);
        assert(bumps(a) + bumps(b) =~= bumps(a));
    } else {
        assert((a + b).drop_last() =~= a + b.drop_last());
        assert((a + b).last() == b.last());
        lemma_bumps_concat(a, b.drop_last());
        match b.last() {
            Effect::Bump { version } => {
                assert(bumps(a) + bumps(b.drop_last()).push(version) =~= (bumps(a) + bumps(b.drop_last())).push(version));
            },
            _ => {},
        }
    }
}

proof fn lemma_auto_submission_versions(round_id: u128, entries: Seq<(u128, Option<GamePlayerHandCard>)>, base: i64)
    requires
        base + entries.len() + 1 <= i64::MAX,
    ensures
        answered(entries) <= entries.len(),
        bumps(auto_submissions(round_id, entries, base)) == successive(base, answered(entries)),
    decreases entries.len(),
{
    if entries.len() == 0 {
        assert(bumps(Seq::<Effect>::empty()) =~= successive(base, 0));
    } else {
        let rest = entries.drop_last();
        lemma_auto_submission_versions(round_id, rest, base);
        match entries.last().1 {
            Some(card) => {
                let v = (base + answered(rest) + 1) as i64;
                lemma_bumps_concat(auto_submissions(round_id, rest, base), submission_effects(round_id, entries.last().0, card, v));
                assert(bumps(submission_effects(round_id, entries.last().0, card, v)) =~= seq![v]) by {
                    reveal_with_fuel(bumps, 6);
                }
                assert(successive(base, answered(rest)) + seq![v] =~= successive(base, answered(entries)));
            },
            None => {},
        }
    }
}

/// Closing submissions at a deadline moves the game through successive
/// versions, one per submission made and one for opening voting, starting
/// right after the game's version.
pub proof fn lemma_close_submissions_versions(
    round_id: u128,
    entries: Seq<(u128, Option<GamePlayerHandCard>)>,
    base: i64,
    deadline: i64,
)
    requires
        base + entries.len() + 1 <= i64::MAX,
    ensures
        bumps(
            auto_submissions(round_id, entries, base) + open_voting_effects(
                round_id,
                deadline,
                (base + answered(entries) + 1) as i64,
            ),
        ) == successive(base, answered(entries) + 1),
{
    lemma_auto_submission_versions(round_id, entries, base);
    let v = (base + answered(entries) + 1) as i64;
    lemma_bumps_concat(auto_submissions(round_id, entries, base), open_voting_effects(round_id, deadline, v));
    assert(bumps(open_voting_effects(round_id, deadline, v)) =~= seq![v]) by {
        reveal_with_fuel(bumps, 5);
    }
    assert(successive(base, answered(entries)) + seq![v] =~= successive(base, answered(entries) + 1));
}

/// Announcing a submission moves the game to the version after its own,
/// and, when the submission completes the round, to the one after that.
pub proof fn lemma_announce_versions(round_id: u128, user_id: u128, base: i64, voting: Option<i64>)
    requires
        base + 2 <= i64::MAX,
    ensures
        bumps(announce_effects(round_id, user_id, base, voting)) == successive(
            base,
            if voting is Some { 2nat } else { 1nat },
        ),
{
    reveal_with_fuel(bumps, 8);
    assert(bumps(announce_effects(round_id, user_id, base, voting)) =~= successive(
        base,
        if voting is Some { 2nat } else { 1nat },
    ));
}

/// A step of closing a round whose voting deadline passed.
#[derive(Debug, Clone, Copy, PartialEq, Eq, Structural)]
pub enum ClosingStep {
    /// Store the event at `index` of the closing's events under `version`.
    LogEvent { index: usize, version: i64 },
    /// Announce the finished round, with the totals and round scores of the
    /// event at `index`.
    AnnounceRoundFinished { index: usize, round_number: i32, winner: u128, version: i64 },
    /// Send every player their hand after the round.
    SendHands { round_id: u128, version: i64 },
    /// Announce that round `round_number` starts.
    AnnounceNextRound { round_number: i32, version: i64 },
    /// Announce the finished game, with the final scores of the event at
    /// `index`.
    AnnounceGameFinished { index: usize, winner: u128, version: i64 },
    /// Move the game to `version`.
    Bump { version: i64 },
}

/// The steps of closing a timed-out round: its finish is stored and announced
/// under the version after `base`, every player gets their hand, the next
/// round's start is announced when the game goes on, and the game moves to
/// that version; when the game ends instead, its finish is stored and
/// announced (with `final_winner`) under the version after that.
pub open spec fn closing_steps(
    round_id: u128,
    round_number: i32,
    winner: u128,
    next_round: Option<(i32, i64)>,
    final_winner: u128,
    base: i64,
) -> Seq<ClosingStep> {
    let first = (base + 1) as i64;
    let second = (base + 2) as i64;
    let round_end = seq![
        ClosingStep::LogEvent { index: 0, version: first },
        ClosingStep::AnnounceRoundFinished { index: 0, round_number, winner, version: first },
        ClosingStep::SendHands { round_id, version: first },
    ];
    match next_round {
        Some((n, _)) => round_end + seq![
            ClosingStep::AnnounceNextRound { round_number: n, version: first },
            ClosingStep::Bump { version: first },
        ],
        None => round_end + seq![
            ClosingStep::Bump { version: first },
            ClosingStep::LogEvent { index: 1, version: second },
            ClosingStep::AnnounceGameFinished { index: 1, winner: final_winner, version: second },
            ClosingStep::Bump { version: second },
        ],
    }
}

} // verus!
