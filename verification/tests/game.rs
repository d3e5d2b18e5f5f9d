use meme_game::error::AppError;
use meme_game::lobby::{
    check_host_lobby, check_lobby, check_not_joined, check_pack_found, check_participant, check_ready_player,
    count_after_join, leave_lobby, merge_settings, mode_name, reloaded_game,
};
use meme_game::model::{
    Game, GameAggregate, GameEvent, GameMode, GamePlayer, GamePlayerHandCard, GameRound, GameStatus,
    PlayerSubmissionState, RoundPhase, RoundSubmission,
};
use meme_game::play::{
    check_current_round, check_game_active, check_not_voted, check_round_submitting, check_round_voting,
    check_submitted_card, check_vote_target, check_voter, game_winner, scores_of, submissions_complete,
    vote_guards, vote_outcome, votes_complete, winning_submission, first_winning_submission,
};
use meme_game::effects::ClosingStep;
use meme_game::timeout::{
    announced_deadline, announced_winner, auto_submission, close_voting, decide_timeout, pending_submitters,
    round_prompt, voting_deadline, TimeoutAction,
};
use uuid::Uuid;

fn game(status: GameStatus) -> Game {
    Game {
        id: 100,
        host_id: 1,
        mode: GameMode::SituationToMeme,
        status,
        max_rounds: 3,
        hand_size: 2,
        submit_time_limit: 60,
        vote_time_limit: 30,
        current_round: 1,
        version: 10,
        started_at: None,
        finished_at: None,
        created_at: 0,
    }
}

fn player(user_id: u128, score: i32, ready: bool, handle: &str) -> GamePlayer {
    GamePlayer { game_id: 100, user_id, score, is_ready: ready, handle: handle.to_string(), joined_at: 0 }
}

fn round(phase: RoundPhase, expires: Option<i64>) -> GameRound {
    GameRound {
        id: 500,
        game_id: 100,
        round_number: 1,
        prompt_situation_id: Some(7),
        prompt_meme_id: None,
        phase,
        winner_user_id: None,
        phase_expires_at: expires,
        claimed_at: None,
        claimed_by: None,
        created_at: 0,
    }
}

fn message(e: AppError) -> String {
    match e {
        AppError::NotFound(m)
        | AppError::Forbidden(m)
        | AppError::Conflict(m)
        | AppError::ValidationError(m)
        | AppError::ProviderError(m) => m,
        other => format!("{:?}", other),
    }
}

#[test]
fn aggregate_counts_events() {
    let mut a = GameAggregate::from_game(&game(GameStatus::Playing));
    a.apply_events(&[
        GameEvent::VoteRegistered { round_id: 1, voter_id: 2 },
        GameEvent::RoundFinished { round_id: 1, winner_user_id: None, scores: vec![], round_scores: vec![] },
    ]);
    assert_eq!(a.version, 12);
    assert_eq!(a.current_round, 2);
    assert_eq!(a.status, GameStatus::Playing);
    assert!(!a.is_last_round());
    a.apply_events(&[GameEvent::GameFinished { final_scores: vec![] }]);
    assert_eq!(a.version, 13);
    assert_eq!(a.status, GameStatus::Finished);
    a.apply_events(&[
        GameEvent::RoundFinished { round_id: 1, winner_user_id: None, scores: vec![], round_scores: vec![] },
    ]);
    assert!(a.is_last_round());
}

#[test]
fn aggregate_in_one_batch_or_two() {
    let mk = || {
        vec![
            GameEvent::VoteRegistered { round_id: 1, voter_id: 2 },
            GameEvent::RoundFinished { round_id: 1, winner_user_id: Some(3), scores: vec![], round_scores: vec![] },
            GameEvent::GameFinished { final_scores: vec![] },
        ]
    };
    let mut whole = GameAggregate::from_game(&game(GameStatus::Playing));
    whole.apply_events(&mk());
    let mut split = GameAggregate::from_game(&game(GameStatus::Playing));
    let ev = mk();
    split.apply_events(&ev[..1]);
    split.apply_events(&ev[1..]);
    assert_eq!(whole.version, split.version);
    assert_eq!(whole.current_round, split.current_round);
    assert_eq!(whole.status, split.status);
}

#[test]
fn event_types() {
    assert_eq!(GameEvent::VoteRegistered { round_id: 0, voter_id: 0 }.event_type(), "VoteRegistered");
    assert_eq!(
        GameEvent::RoundFinished { round_id: 0, winner_user_id: None, scores: vec![], round_scores: vec![] }
            .event_type(),
        "RoundFinished"
    );
    assert_eq!(GameEvent::GameFinished { final_scores: vec![] }.event_type(), "GameFinished");
}

#[test]
fn active_game_checks() {
    let id = Uuid::parse_str("00000000-0000-0000-0000-000000000064").unwrap().as_u128();
    assert_eq!(message(check_game_active(id, None).unwrap_err()), "Game not found: 00000000-0000-0000-0000-000000000064");
    assert_eq!(message(check_game_active(id, Some(game(GameStatus::Lobby))).unwrap_err()), "Game is not active");
    assert!(check_game_active(id, Some(game(GameStatus::Playing))).is_ok());
    assert_eq!(message(check_current_round(None).unwrap_err()), "No active round found for this game");
}

#[test]
fn submission_checks() {
    assert_eq!(message(check_round_submitting(5, None).unwrap_err()), "Round not found: 00000000-0000-0000-0000-000000000005");
    assert_eq!(
        message(check_round_submitting(5, Some(round(RoundPhase::Voting, None))).unwrap_err()),
        "Round is not in submitting phase"
    );
    assert!(check_round_submitting(5, Some(round(RoundPhase::Submitting, None))).is_ok());
    let meme = GamePlayerHandCard { id: 1, game_id: 100, user_id: 1, meme_id: Some(9), situation_id: None, is_used: false };
    let sit = GamePlayerHandCard { meme_id: None, situation_id: Some(8), ..meme };
    assert_eq!(message(check_submitted_card(GameMode::SituationToMeme, None).unwrap_err()), "Card not in hand or already used");
    assert!(check_submitted_card(GameMode::SituationToMeme, Some(meme)).is_ok());
    assert_eq!(
        message(check_submitted_card(GameMode::SituationToMeme, Some(sit)).unwrap_err()),
        "Cannot submit situation card in SituationToMeme mode"
    );
    assert_eq!(
        message(check_submitted_card(GameMode::MemeToSituation, Some(meme)).unwrap_err()),
        "Cannot submit meme card in MemeToSituation mode"
    );
    assert_eq!(submissions_complete(3, 3, 1_000, 30), Some(30_001_000));
    assert_eq!(submissions_complete(2, 3, 1_000, 30), None);
}

#[test]
fn vote_checks() {
    assert_eq!(
        message(check_round_voting(100, 5, Some(round(RoundPhase::Submitting, None))).unwrap_err()),
        "Round is not in voting phase"
    );
    assert_eq!(
        message(check_round_voting(101, 5, Some(round(RoundPhase::Voting, None))).unwrap_err()),
        "Round does not belong to this game"
    );
    assert!(check_round_voting(100, 5, Some(round(RoundPhase::Voting, None))).is_ok());
    let players = vec![player(1, 0, true, "a"), player(2, 0, true, "b")];
    assert!(check_voter(1, &players).is_ok());
    assert_eq!(message(check_voter(3, &players).unwrap_err()), "Only registered players can vote");
    assert_eq!(message(check_not_voted(true).unwrap_err()), "You have already voted in this round");
    let sub = RoundSubmission { id: 9, round_id: 5, user_id: 2, submission_meme_id: Some(1), submission_situation_id: None, submitted_at: 0 };
    assert_eq!(message(check_vote_target(1, 5, None).unwrap_err()), "Submission not found");
    assert_eq!(message(check_vote_target(1, 6, Some(sub)).unwrap_err()), "Submission does not belong to this round");
    assert_eq!(message(check_vote_target(2, 5, Some(sub)).unwrap_err()), "Cannot vote for your own submission");
    assert!(check_vote_target(1, 5, Some(sub)).is_ok());
    assert!(votes_complete(2, 2));
    assert!(!votes_complete(1, 2));
}

#[test]
fn winner_is_last_of_tied_maxima() {
    assert_eq!(winning_submission(&[]), None);
    assert_eq!(winning_submission(&[(1, 2), (2, 5), (3, 5), (4, 1)]), Some(3));
    assert_eq!(winning_submission(&[(1, 7), (2, 5)]), Some(1));
    let players = vec![player(1, 3, true, "a"), player(2, 3, true, "b"), player(3, 1, true, "c")];
    assert_eq!(game_winner(&players), 2);
    assert_eq!(game_winner(&[]), 0);
    assert_eq!(scores_of(&players), vec![(1, 3), (2, 3), (3, 1)]);
}

#[test]
fn vote_that_does_not_finish_the_round() {
    let g = game(GameStatus::Playing);
    let o = vote_outcome(&g, 5, 1, None);
    assert_eq!(o.events.len(), 1);
    assert_eq!(o.aggregate.version, 11);
    assert_eq!(o.aggregate.current_round, 1);
}

#[test]
fn vote_that_finishes_a_round() {
    let g = game(GameStatus::Playing);
    let o = vote_outcome(&g, 5, 1, Some((Some(2), vec![(1, 0), (2, 1)])));
    assert_eq!(o.events.len(), 2);
    assert_eq!(o.aggregate.version, 12);
    assert_eq!(o.aggregate.current_round, 2);
    assert_eq!(o.aggregate.status, GameStatus::Playing);
    match &o.events[1] {
        GameEvent::RoundFinished { winner_user_id, scores, round_scores, .. } => {
            assert_eq!(*winner_user_id, Some(2));
            assert_eq!(scores, &vec![(1, 0), (2, 1)]);
            assert!(round_scores.is_empty());
        }
        other => panic!("unexpected {:?}", other),
    }
}

#[test]
fn vote_that_finishes_the_game() {
    let g = Game { current_round: 3, ..game(GameStatus::Playing) };
    let o = vote_outcome(&g, 5, 1, Some((None, vec![(1, 4)])));
    assert_eq!(o.events.len(), 3);
    assert_eq!(o.aggregate.version, 13);
    assert_eq!(o.versions, vec![11, 12, 13]);
    assert_eq!(o.aggregate.status, GameStatus::Finished);
    match &o.events[2] {
        GameEvent::GameFinished { final_scores } => assert_eq!(final_scores, &vec![(1, 4)]),
        other => panic!("unexpected {:?}", other),
    }
}

#[test]
fn the_last_vote_of_a_round_before_the_last_does_not_end_the_game() {
    let g = Game { current_round: 1, max_rounds: 2, ..game(GameStatus::Playing) };
    let o = vote_outcome(&g, 5, 1, Some((Some(2), vec![(2, 1)])));
    assert_eq!(o.events.len(), 2);
    assert_eq!(o.aggregate.status, GameStatus::Playing);
    assert_eq!(o.aggregate.current_round, 2);
    let o = vote_outcome(&Game { current_round: 2, ..g }, 6, 1, Some((Some(2), vec![(2, 2)])));
    assert_eq!(o.events.len(), 3);
    assert_eq!(o.aggregate.status, GameStatus::Finished);
}

#[test]
fn the_last_vote_gives_a_tie_to_the_first_submission_found() {
    assert_eq!(first_winning_submission(&[]), None);
    assert_eq!(first_winning_submission(&[(1, 2), (2, 5), (3, 5), (4, 1)]), Some(2));
    assert_eq!(first_winning_submission(&[(1, 7), (2, 5)]), Some(1));
    assert_eq!(first_winning_submission(&[(1, 3), (2, 3)]), Some(1));
}

#[test]
fn timeout_decisions() {
    let g = game(GameStatus::Playing);
    assert_eq!(decide_timeout(&g, &round(RoundPhase::Submitting, Some(10)), 10), TimeoutAction::CloseSubmissions);
    assert_eq!(decide_timeout(&g, &round(RoundPhase::Voting, Some(5)), 10), TimeoutAction::CloseVoting);
    assert_eq!(decide_timeout(&g, &round(RoundPhase::Voting, Some(11)), 10), TimeoutAction::Ignore);
    assert_eq!(decide_timeout(&g, &round(RoundPhase::Voting, None), 10), TimeoutAction::Ignore);
    assert_eq!(decide_timeout(&g, &round(RoundPhase::Waiting, Some(1)), 10), TimeoutAction::Ignore);
    assert_eq!(
        decide_timeout(&game(GameStatus::Finished), &round(RoundPhase::Voting, Some(1)), 10),
        TimeoutAction::Ignore
    );
    assert_eq!(voting_deadline(0, &g), 30_000_000);
}

#[test]
fn timeout_submissions() {
    let st = |u: u128, done: bool| PlayerSubmissionState { user_id: u, score: 0, is_ready: true, handle: String::new(), has_submitted: done };
    assert_eq!(pending_submitters(&[st(1, true), st(2, false), st(3, false)]), vec![2, 3]);
    let c = GamePlayerHandCard { id: 4, game_id: 100, user_id: 2, meme_id: Some(1), situation_id: None, is_used: false };
    assert_eq!(auto_submission(&[]).map(|c| c.id), None);
    assert_eq!(auto_submission(&[c, GamePlayerHandCard { id: 5, ..c }]).map(|c| c.id), Some(4));
}

#[test]
fn timeout_closes_voting() {
    let g = game(GameStatus::Playing);
    let c = close_voting(&g, 5, 1, Some(2), vec![(2, 1)], vec![(2, 1)], 2, 0);
    assert!(!c.finishes_game);
    assert_eq!(c.events.len(), 1);
    assert_eq!(c.versions, vec![11]);
    assert_eq!(c.next_round, Some((2, 60_000_000)));
    assert_eq!(
        c.steps,
        vec![
            ClosingStep::LogEvent { index: 0, version: 11 },
            ClosingStep::AnnounceRoundFinished { index: 0, round_number: 1, winner: 2, version: 11 },
            ClosingStep::SendHands { round_id: 5, version: 11 },
            ClosingStep::AnnounceNextRound { round_number: 2, version: 11 },
            ClosingStep::Bump { version: 11 },
        ]
    );

    let last = Game { current_round: 3, ..g };
    let c = close_voting(&last, 5, 3, None, vec![(2, 1)], vec![], 2, 0);
    assert!(c.finishes_game);
    assert_eq!(c.events.len(), 2);
    assert_eq!(c.versions, vec![11, 12]);
    assert_eq!(c.next_round, None);
    assert_eq!(
        c.steps,
        vec![
            ClosingStep::LogEvent { index: 0, version: 11 },
            ClosingStep::AnnounceRoundFinished { index: 0, round_number: 3, winner: 0, version: 11 },
            ClosingStep::SendHands { round_id: 5, version: 11 },
            ClosingStep::Bump { version: 11 },
            ClosingStep::LogEvent { index: 1, version: 12 },
            ClosingStep::AnnounceGameFinished { index: 1, winner: 2, version: 12 },
            ClosingStep::Bump { version: 12 },
        ]
    );
    assert_eq!(announced_winner(None), 0);
    assert_eq!(announced_winner(Some(8)), 8);
}

#[test]
fn next_round_prompt_and_deadline() {
    let r = round(RoundPhase::Waiting, None);
    assert_eq!(round_prompt(&r), ("situation", 7));
    let m = GameRound { prompt_situation_id: None, prompt_meme_id: Some(9), ..r };
    assert_eq!(round_prompt(&m), ("meme", 9));
    let g = game(GameStatus::Playing);
    assert_eq!(announced_deadline(&r, &g, 5), 60_000_005);
    let timed = GameRound { phase_expires_at: Some(77), ..r };
    assert_eq!(announced_deadline(&timed, &g, 5), 77);
}

#[test]
fn lobby_checks() {
    assert_eq!(message(check_lobby(1, Some(game(GameStatus::Playing)), "Cannot join active or finished game").unwrap_err()), "Cannot join active or finished game");
    assert!(check_lobby(1, Some(game(GameStatus::Lobby)), "x").is_ok());
    assert_eq!(
        message(check_host_lobby(2, 1, Some(game(GameStatus::Lobby)), "Only host can modify game settings", "y").unwrap_err()),
        "Only host can modify game settings"
    );
    assert_eq!(message(check_pack_found(true, 3, false).unwrap_err()), "Situation pack not found: 00000000-0000-0000-0000-000000000003");
    assert_eq!(message(check_pack_found(false, 3, false).unwrap_err()), "Meme pack not found: 00000000-0000-0000-0000-000000000003");
    assert!(check_pack_found(false, 3, true).is_ok());
    assert_eq!(mode_name(GameMode::SituationToMeme), "situation_to_meme");
    assert_eq!(mode_name(GameMode::MemeToSituation), "meme_to_situation");
    let players = vec![player(1, 0, true, "a"), player(2, 0, false, "b")];
    assert_eq!(message(check_not_joined(1, &players).unwrap_err()), "Player already in game");
    assert!(check_not_joined(3, &players).is_ok());
    assert_eq!(count_after_join(2), 3);
    assert_eq!(leave_lobby(2, &players), Some(1));
    assert_eq!(leave_lobby(9, &players), None);
    assert_eq!(message(check_ready_player(9, &players).unwrap_err()), "Player not found in game");
    assert_eq!(message(check_participant(9, &players).unwrap_err()), "You are not a participant in this game");
    let s = merge_settings(&game(GameStatus::Lobby), Some(GameMode::MemeToSituation), None, Some(7));
    assert_eq!((s.mode, s.max_rounds, s.hand_size), (GameMode::MemeToSituation, 3, 7));
    assert!(matches!(reloaded_game(None), Err(AppError::InternalError)));
}

#[test]
fn vote_guards_refuse_in_order() {
    let players = vec![player(1, 0, true, "a"), player(2, 0, true, "b")];
    let voting = round(RoundPhase::Voting, None);
    let own = RoundSubmission { id: 9, round_id: 500, user_id: 1, submission_meme_id: Some(1), submission_situation_id: None, submitted_at: 0 };
    let other = RoundSubmission { user_id: 2, ..own };
    let elsewhere = RoundSubmission { round_id: 501, ..other };
    let playing = game(GameStatus::Playing);
    // a game that is not under way is refused before the round is looked at
    assert_eq!(
        message(vote_guards(1, 100, 500, Some(game(GameStatus::Lobby)), None, &players, true, None).unwrap_err()),
        "Game is not active"
    );
    assert_eq!(
        message(vote_guards(1, 100, 500, Some(playing), None, &players, true, None).unwrap_err()),
        "Round not found: 00000000-0000-0000-0000-0000000001f4"
    );
    // the round's phase comes before the round's game
    let submitting_elsewhere = GameRound { game_id: 101, ..round(RoundPhase::Submitting, None) };
    assert_eq!(
        message(vote_guards(1, 100, 500, Some(playing), Some(submitting_elsewhere), &players, true, None).unwrap_err()),
        "Round is not in voting phase"
    );
    let voting_elsewhere = GameRound { game_id: 101, ..voting };
    assert_eq!(
        message(vote_guards(3, 100, 500, Some(playing), Some(voting_elsewhere), &players, true, None).unwrap_err()),
        "Round does not belong to this game"
    );
    // membership comes before a repeated vote, which comes before the target
    assert_eq!(
        message(vote_guards(3, 100, 500, Some(playing), Some(voting), &players, true, None).unwrap_err()),
        "Only registered players can vote"
    );
    assert_eq!(
        message(vote_guards(1, 100, 500, Some(playing), Some(voting), &players, true, None).unwrap_err()),
        "You have already voted in this round"
    );
    assert_eq!(
        message(vote_guards(1, 100, 500, Some(playing), Some(voting), &players, false, None).unwrap_err()),
        "Submission not found"
    );
    assert_eq!(
        message(vote_guards(1, 100, 500, Some(playing), Some(voting), &players, false, Some(elsewhere)).unwrap_err()),
        "Submission does not belong to this round"
    );
    assert_eq!(
        message(vote_guards(1, 100, 500, Some(playing), Some(voting), &players, false, Some(own)).unwrap_err()),
        "Cannot vote for your own submission"
    );
    let (g, r) = vote_guards(1, 100, 500, Some(playing), Some(voting), &players, false, Some(other)).unwrap();
    assert_eq!((g.id, r.id), (100, 500));
    assert!(vote_guards(1, 100, 500, None, Some(voting), &players, false, Some(other)).is_err());
}
