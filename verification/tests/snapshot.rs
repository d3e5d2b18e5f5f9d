use meme_game::dto::{game_state_dto, player_dtos, submission_dtos};
use meme_game::model::{fits_after_seconds, Game, GameCard, GameMode, GameRound, GameStatus, PlayerSubmissionState, RoundPhase};
use meme_game::state_view::{GameStateResult, GameStateSubmission};

fn sample_game() -> Game {
    Game {
        id: 7,
        host_id: 1,
        mode: GameMode::SituationToMeme,
        status: GameStatus::Playing,
        max_rounds: 3,
        hand_size: 5,
        submit_time_limit: 60,
        vote_time_limit: 30,
        current_round: 1,
        version: 12,
        started_at: Some(5),
        finished_at: None,
        created_at: 1,
    }
}

fn sample_round() -> GameRound {
    GameRound {
        id: 70,
        game_id: 7,
        round_number: 1,
        prompt_situation_id: Some(900),
        prompt_meme_id: None,
        phase: RoundPhase::Voting,
        winner_user_id: None,
        phase_expires_at: Some(1_000_000),
        claimed_at: None,
        claimed_by: None,
        created_at: 2,
    }
}

fn player(user_id: u128, score: i32, handle: &str) -> PlayerSubmissionState {
    PlayerSubmissionState { user_id, score, is_ready: true, handle: handle.to_string(), has_submitted: score > 0 }
}

fn meme(id: u128, url: &str) -> GameCard {
    GameCard::Meme { id, media_url: url.to_string() }
}

#[test]
fn snapshot_keeps_round_details_and_order() {
    let res = GameStateResult {
        game: sample_game(),
        round: Some(sample_round()),
        prompt: Some(GameCard::Situation { id: 900, prompt_text: "When the build is green".to_string() }),
        players: vec![player(1, 2, "ann"), player(2, 0, "bob")],
        my_hand: vec![meme(11, "a.png"), meme(12, "b.png")],
        submissions: Some(vec![
            GameStateSubmission { id: 501, card: meme(21, "x.png") },
            GameStateSubmission { id: 502, card: meme(22, "y.png") },
        ]),
        my_submission: Some(meme(21, "x.png")),
        has_voted: true,
    };
    let dto = game_state_dto(res);
    assert_eq!((dto.game.id, dto.game.version), (7, 12));
    assert_eq!(dto.game.status, GameStatus::Playing);
    assert_eq!(dto.players.len(), 2);
    assert_eq!(dto.players[0].handle, "ann");
    assert_eq!(dto.players[1].user_id, 2);
    assert!(!dto.players[1].has_submitted);
    assert_eq!(dto.my_hand, vec![meme(11, "a.png"), meme(12, "b.png")]);
    let round = dto.round.expect("a current round is shown");
    assert_eq!((round.id, round.round_number, round.phase), (70, 1, RoundPhase::Voting));
    assert_eq!(round.phase_expires_at, Some(1_000_000));
    assert!(round.has_voted);
    assert_eq!(round.my_submission, Some(meme(21, "x.png")));
    assert_eq!(
        round.prompt,
        Some(GameCard::Situation { id: 900, prompt_text: "When the build is green".to_string() })
    );
    let shown = round.submissions.expect("voting shows the submissions");
    assert_eq!(shown.iter().map(|s| s.id).collect::<Vec<_>>(), vec![501, 502]);
    assert_eq!(shown[1].card, meme(22, "y.png"));
}

#[test]
fn snapshot_without_round_drops_round_details() {
    let res = GameStateResult {
        game: Game { status: GameStatus::Lobby, current_round: 0, ..sample_game() },
        round: None,
        prompt: None,
        players: vec![player(3, 0, "cy")],
        my_hand: Vec::new(),
        submissions: None,
        my_submission: None,
        has_voted: false,
    };
    let dto = game_state_dto(res);
    assert!(dto.round.is_none());
    assert_eq!(dto.game.status, GameStatus::Lobby);
    assert_eq!(dto.players.len(), 1);
    assert!(dto.my_hand.is_empty());
}

#[test]
fn snapshot_while_submitting_hides_submissions() {
    let res = GameStateResult {
        game: sample_game(),
        round: Some(GameRound { phase: RoundPhase::Submitting, ..sample_round() }),
        prompt: None,
        players: Vec::new(),
        my_hand: Vec::new(),
        submissions: None,
        my_submission: None,
        has_voted: false,
    };
    let round = game_state_dto(res).round.unwrap();
    assert!(round.submissions.is_none());
    assert_eq!(round.phase, RoundPhase::Submitting);
}

#[test]
fn list_conversions_keep_order() {
    let dtos = player_dtos(vec![player(5, 1, "e"), player(6, 0, "f"), player(7, 3, "g")]);
    assert_eq!(dtos.iter().map(|p| p.user_id).collect::<Vec<_>>(), vec![5, 6, 7]);
    assert_eq!(dtos[2].score, 3);
    assert!(player_dtos(Vec::new()).is_empty());
    let subs = submission_dtos(vec![GameStateSubmission { id: 9, card: meme(1, "u") }]);
    assert_eq!(subs.len(), 1);
    assert_eq!((subs[0].id, &subs[0].card), (9, &meme(1, "u")));
}

#[test]
fn deadline_representability() {
    assert!(fits_after_seconds(0, 60));
    assert!(fits_after_seconds(i64::MAX - 60_000_000, 60));
    assert!(!fits_after_seconds(i64::MAX - 59_999_999, 60));
    assert!(fits_after_seconds(i64::MIN + 30_000_000, -30));
    assert!(!fits_after_seconds(i64::MIN, -1));
}
