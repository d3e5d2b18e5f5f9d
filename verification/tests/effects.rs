use meme_game::effects::{
    announce_submission_plan, close_submissions_plan, phase_name, play_card_plan, round_result_writes,
    timeout_progress, vote_progress, Effect, Notice, Record, StoreWrite,
};
use meme_game::model::{Game, GameMode, GamePlayer, GamePlayerHandCard, GameStatus, RoundPhase};
use meme_game::play::vote_outcome;
use meme_game::timeout::close_voting;

fn card(id: u128, user_id: u128, meme_id: u128) -> GamePlayerHandCard {
    GamePlayerHandCard { id, game_id: 100, user_id, meme_id: Some(meme_id), situation_id: None, is_used: false }
}

fn player(user_id: u128) -> GamePlayer {
    GamePlayer { game_id: 100, user_id, score: 0, is_ready: true, handle: format!("p{user_id}"), joined_at: 0 }
}

fn game(current_round: i32) -> Game {
    Game {
        id: 100,
        host_id: 1,
        mode: GameMode::SituationToMeme,
        status: GameStatus::Playing,
        max_rounds: 3,
        hand_size: 2,
        submit_time_limit: 60,
        vote_time_limit: 30,
        current_round,
        version: 10,
        started_at: None,
        finished_at: None,
        created_at: 0,
    }
}

fn bumps(plan: &[Effect]) -> Vec<i64> {
    plan.iter()
        .filter_map(|e| match e {
            Effect::Bump { version } => Some(*version),
            _ => None,
        })
        .collect()
}

#[test]
fn closing_submissions_answers_for_players_with_cards_then_opens_voting() {
    let entries = vec![(7, Some(card(70, 7, 700))), (8, None), (9, Some(card(90, 9, 900)))];
    let plan = close_submissions_plan(5, &entries, 10, 99);
    assert_eq!(plan.len(), 14);
    assert_eq!(
        plan[..5].to_vec(),
        vec![
            Effect::Write(StoreWrite::InsertSubmission { round_id: 5, user_id: 7, meme_id: Some(700), situation_id: None }),
            Effect::Write(StoreWrite::MarkCardUsed { card_id: 70 }),
            Effect::Bump { version: 11 },
            Effect::Log { version: 11, record: Record::SubmissionReceived { round_id: 5, user_id: 7 } },
            Effect::Notify(Notice::SubmissionReceived { round_id: 5, user_id: 7, version: 11 }),
        ]
    );
    assert_eq!(plan[5], Effect::Write(StoreWrite::InsertSubmission { round_id: 5, user_id: 9, meme_id: Some(900), situation_id: None }));
    assert_eq!(
        plan[10..].to_vec(),
        vec![
            Effect::Write(StoreWrite::SetRoundPhase { round_id: 5, phase: RoundPhase::Voting, expires_at: Some(99) }),
            Effect::Bump { version: 13 },
            Effect::Log { version: 13, record: Record::RoundPhaseChanged { round_id: 5, phase: RoundPhase::Voting } },
            Effect::Notify(Notice::PhaseChanged { round_id: 5, phase: RoundPhase::Voting, expires_at: Some(99), version: 13 }),
        ]
    );
    assert_eq!(bumps(&plan), vec![11, 12, 13]);
    let nobody = close_submissions_plan(5, &[], 10, 99);
    assert_eq!(bumps(&nobody), vec![11]);
    assert_eq!(nobody.len(), 4);
}

#[test]
fn a_submission_is_played_then_announced() {
    let c = card(3, 4, 30);
    assert_eq!(
        play_card_plan(1, 4, c),
        vec![
            Effect::Write(StoreWrite::InsertSubmission { round_id: 1, user_id: 4, meme_id: Some(30), situation_id: None }),
            Effect::Write(StoreWrite::MarkCardUsed { card_id: 3 }),
        ]
    );
    let open = announce_submission_plan(1, 4, 20, None);
    assert_eq!(open.len(), 3);
    assert_eq!(bumps(&open), vec![21]);
    let closing = announce_submission_plan(1, 4, 20, Some(777));
    assert_eq!(closing[0], Effect::Write(StoreWrite::SetRoundPhase { round_id: 1, phase: RoundPhase::Voting, expires_at: Some(777) }));
    assert_eq!(bumps(&closing), vec![21, 22]);
    assert_eq!(
        closing[6],
        Effect::Notify(Notice::PhaseChanged { round_id: 1, phase: RoundPhase::Voting, expires_at: Some(777), version: 22 })
    );
}

#[test]
fn finishing_a_round_writes_result_point_and_draws() {
    let players = vec![player(1), player(2)];
    assert_eq!(
        round_result_writes(5, 2, &players, Some(2), true),
        vec![
            StoreWrite::SetRoundResult { round_id: 5, winner: Some(2) },
            StoreWrite::AwardPoint { user_id: 2 },
            StoreWrite::DrawReserve { user_id: 1, draw_order: 2 },
            StoreWrite::DrawReserve { user_id: 2, draw_order: 2 },
        ]
    );
    assert_eq!(round_result_writes(5, 2, &players, None, false), vec![StoreWrite::SetRoundResult { round_id: 5, winner: None }]);
}

#[test]
fn what_follows_a_closed_round() {
    let going_on = close_voting(&game(1), 5, 1, None, vec![], vec![], 0, 0);
    assert_eq!(
        timeout_progress(&going_on),
        vec![StoreWrite::AdvanceRound { round_number: 2, activate_with: Some(60_000_000) }]
    );
    let ending = close_voting(&game(3), 5, 3, None, vec![], vec![], 0, 0);
    assert_eq!(timeout_progress(&ending), vec![StoreWrite::FinishGame { release_content: true }]);

    let open = vote_outcome(&game(1), 5, 7, None);
    assert!(vote_progress(&open, false).is_empty());
    let closed = vote_outcome(&game(1), 5, 7, Some((Some(2), vec![(2, 1)])));
    assert_eq!(vote_progress(&closed, true), vec![StoreWrite::AdvanceRound { round_number: 2, activate_with: None }]);
    let last = vote_outcome(&game(3), 5, 7, Some((None, vec![])));
    assert_eq!(
        vote_progress(&last, true),
        vec![
            StoreWrite::AdvanceRound { round_number: 4, activate_with: None },
            StoreWrite::FinishGame { release_content: false },
        ]
    );
}

#[test]
fn phase_names() {
    assert_eq!(phase_name(RoundPhase::Waiting), "waiting");
    assert_eq!(phase_name(RoundPhase::Submitting), "submitting");
    assert_eq!(phase_name(RoundPhase::Voting), "voting");
    assert_eq!(phase_name(RoundPhase::Finished), "finished");
    assert_eq!(Record::SubmissionReceived { round_id: 1, user_id: 2 }.record_type(), "SubmissionReceived");
    assert_eq!(Record::RoundPhaseChanged { round_id: 1, phase: RoundPhase::Voting }.record_type(), "RoundPhaseChanged");
}
