use std::collections::HashSet;

use meme_game::error::AppError;
use meme_game::model::{Game, GameMode, GamePlayer, GameStatus, RoundPhase};
use meme_game::start::{
    check_content_available, check_start_game, check_start_players, deal, first_round_prompt,
    game_seed, plan_game_start, required_content_counts, start_game_guards,
};
use sha2::Digest;

fn game(mode: GameMode) -> Game {
    Game {
        id: 0x1234,
        host_id: 1,
        mode,
        status: GameStatus::Lobby,
        max_rounds: 2,
        hand_size: 3,
        submit_time_limit: 60,
        vote_time_limit: 30,
        current_round: 0,
        version: 1,
        started_at: None,
        finished_at: None,
        created_at: 0,
    }
}

fn player(user_id: u128, ready: bool) -> GamePlayer {
    GamePlayer { game_id: 0x1234, user_id, score: 0, is_ready: ready, handle: format!("p{}", user_id), joined_at: 0 }
}

fn message(e: AppError) -> String {
    match e {
        AppError::NotFound(m) | AppError::Forbidden(m) | AppError::Conflict(m) | AppError::ValidationError(m) => m,
        other => format!("{:?}", other),
    }
}

#[test]
fn start_requires_host_and_lobby() {
    assert_eq!(message(check_start_game(2, 9, Some(game(GameMode::SituationToMeme))).unwrap_err()), "Only host can start the game");
    let playing = Game { status: GameStatus::Playing, ..game(GameMode::SituationToMeme) };
    assert_eq!(message(check_start_game(1, 9, Some(playing)).unwrap_err()), "Game has already started or finished");
    assert!(check_start_game(1, 9, Some(game(GameMode::SituationToMeme))).is_ok());
    assert_eq!(message(check_start_game(1, 9, None).unwrap_err()), "Game not found: 00000000-0000-0000-0000-000000000009");
}

#[test]
fn start_requires_three_ready_players() {
    assert_eq!(message(check_start_players(&[player(1, true), player(2, true)]).unwrap_err()), "Need at least 3 players to start");
    assert_eq!(
        message(check_start_players(&[player(1, true), player(2, false), player(3, true)]).unwrap_err()),
        "Not all players are ready"
    );
    assert!(check_start_players(&[player(1, true), player(2, true), player(3, true)]).is_ok());
}

#[test]
fn content_requirements() {
    assert_eq!(required_content_counts(GameMode::SituationToMeme, 3, 5, 3), (24, 3));
    assert_eq!(required_content_counts(GameMode::MemeToSituation, 3, 5, 3), (3, 24));
    assert_eq!(message(check_content_available(23, 3, 24, 3).unwrap_err()), "not_enough_memes");
    assert_eq!(message(check_content_available(24, 2, 24, 3).unwrap_err()), "not_enough_situations");
    assert_eq!(message(check_content_available(24, 3, -1, 3).unwrap_err()), "not_enough_memes");
    assert!(check_content_available(24, 3, 24, 3).is_ok());
}

#[test]
fn seed_is_sha256_of_identifier_and_key() {
    let mut hasher = sha2::Sha256::new();
    hasher.update(uuid::Uuid::from_u128(0x1234).as_bytes());
    hasher.update(b"secret");
    let expected: [u8; 32] = hasher.finalize().into();
    assert_eq!(game_seed(0x1234, "secret"), expected);
}

#[test]
fn deal_lays_out_rounds_hands_and_reserves() {
    let players = [10u128, 20, 30];
    let prompts = [100u128, 101, 102];
    let answers: Vec<u128> = (0..20).map(|i| 1000 + i).collect();
    let d = deal(GameMode::SituationToMeme, &players, 2, 3, &prompts, &answers, 77);
    assert_eq!(d.rounds.len(), 3);
    assert_eq!(d.rounds[0].round_number, 1);
    assert_eq!(d.rounds[0].prompt_situation_id, Some(100));
    assert_eq!(d.rounds[0].phase, RoundPhase::Submitting);
    assert_eq!(d.rounds[0].phase_expires_at, Some(77));
    assert_eq!(d.rounds[2].phase, RoundPhase::Waiting);
    assert_eq!(d.rounds[2].phase_expires_at, None);
    assert_eq!(d.hands.len(), 6);
    assert_eq!((d.hands[2].user_id, d.hands[2].meme_id), (20, Some(1002)));
    assert_eq!(d.reserves.len(), 9);
    assert_eq!((d.reserves[4].user_id, d.reserves[4].draw_order, d.reserves[4].meme_id), (20, 2, Some(1010)));
}

#[test]
fn planned_start_uses_each_card_once() {
    let g = game(GameMode::MemeToSituation);
    let players = vec![player(1, true), player(2, true), player(3, true)];
    let memes: Vec<u128> = (0..2).map(|i| 500 + i).collect();
    let situations: Vec<u128> = (0..15).map(|i| 900 + i).collect();
    let d = plan_game_start(&g, &players, memes.clone(), situations.clone(), "key", 1_000).unwrap();
    assert_eq!(d.rounds.len(), 2);
    let prompts: HashSet<u128> = d.rounds.iter().map(|r| r.prompt_meme_id.unwrap()).collect();
    assert_eq!(prompts, memes.iter().copied().collect());
    assert_eq!(d.rounds[0].phase_expires_at, Some(60_001_000));
    let mut cards: Vec<u128> = d.hands.iter().map(|h| h.situation_id.unwrap()).collect();
    cards.extend(d.reserves.iter().map(|r| r.situation_id.unwrap()));
    assert_eq!(cards.len(), 15);
    let distinct: HashSet<u128> = cards.iter().copied().collect();
    assert_eq!(distinct.len(), 15);
    // the same game deals the same way
    let again = plan_game_start(&g, &players, memes.clone(), situations.clone(), "key", 1_000).unwrap();
    assert_eq!(again.hands.iter().map(|h| h.situation_id).collect::<Vec<_>>(), d.hands.iter().map(|h| h.situation_id).collect::<Vec<_>>());
    // the content is shuffled, and another secret shuffles it otherwise
    assert_ne!(cards, situations);
    let other = plan_game_start(&g, &players, memes, situations, "another key", 1_000).unwrap();
    let mut other_cards: Vec<u128> = other.hands.iter().map(|h| h.situation_id.unwrap()).collect();
    other_cards.extend(other.reserves.iter().map(|r| r.situation_id.unwrap()));
    assert_ne!(other_cards, cards);
}

#[test]
fn planned_start_refuses_short_content() {
    let g = game(GameMode::SituationToMeme);
    let players = vec![player(1, true), player(2, true), player(3, true)];
    let r = plan_game_start(&g, &players, vec![1, 2, 3], vec![4, 5], "k", 0);
    assert_eq!(message(r.unwrap_err()), "not_enough_memes");
    let memes: Vec<u128> = (0..15).collect();
    let r = plan_game_start(&g, &players, memes, vec![4], "k", 0);
    assert_eq!(message(r.unwrap_err()), "not_enough_situations");
}

#[test]
fn first_prompt_of_each_mode() {
    let d = deal(GameMode::MemeToSituation, &[1, 2, 3], 0, 1, &[55], &[7, 8, 9], 0);
    let r = meme_game::model::GameRound {
        id: 1,
        game_id: 2,
        round_number: 1,
        prompt_situation_id: d.rounds[0].prompt_situation_id,
        prompt_meme_id: d.rounds[0].prompt_meme_id,
        phase: RoundPhase::Submitting,
        winner_user_id: None,
        phase_expires_at: None,
        claimed_at: None,
        claimed_by: None,
        created_at: 0,
    };
    assert_eq!(first_round_prompt(GameMode::MemeToSituation, &r), ("meme", 55));
}

#[test]
fn start_guards_refuse_in_order() {
    let g = game(GameMode::SituationToMeme);
    let two = [player(1, true), player(2, false)];
    let unready = [player(1, true), player(2, false), player(3, true)];
    let ready = [player(1, true), player(2, true), player(3, true)];
    // a missing game is reported before anything about the players
    assert_eq!(message(start_game_guards(1, 9, None, &two).unwrap_err()), "Game not found: 00000000-0000-0000-0000-000000000009");
    // the host check comes before the player count
    assert_eq!(message(start_game_guards(2, 9, Some(g), &two).unwrap_err()), "Only host can start the game");
    let playing = Game { status: GameStatus::Playing, ..g };
    assert_eq!(message(start_game_guards(1, 9, Some(playing), &two).unwrap_err()), "Game has already started or finished");
    // the player count comes before readiness
    assert_eq!(message(start_game_guards(1, 9, Some(g), &two).unwrap_err()), "Need at least 3 players to start");
    assert_eq!(message(start_game_guards(1, 9, Some(g), &unready).unwrap_err()), "Not all players are ready");
    assert_eq!(start_game_guards(1, 9, Some(g), &ready).unwrap().id, g.id);
}
