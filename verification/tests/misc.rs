use std::sync::Arc;

use meme_game::app_state::{AuthState, GameTokenGeneratorAdapter, RealtimeState};
use meme_game::auth::{
    check_login_input, check_password, require_account, session_role, stored_password_hash, AuthAsGuestCommand,
    LoginUser, LoginUserCommand, Role, UserAuth,
};
use meme_game::dto::{default_hand_size, default_max_rounds, GameDto, PlayerDto, WsTokenDto, WsTokenResult};
use meme_game::error::AppError;
use meme_game::model::{Game, GameCard, GameMode, GameStatus, PackMeme, PlayerSubmissionState, RawGameCard, RoundPhase, RoundSubmission};
use meme_game::outbox::{calculate_partition, game_channel, lobbies_channel, personal_channel};
use meme_game::packs::{check_not_locked, check_pack_author, check_pack_visible, marks_media_attached, pack_meme_details, resolve_card};
use meme_game::state_view::{own_submission, played_card, reveals_submissions, PlayedCard};
use meme_game::worker::{next_attempt, stale_claim_cutoff, ClaimOutcome, WorkerWait};
use uuid::Uuid;

#[test]
fn partition_reads_first_bytes_little_endian() {
    let id = Uuid::parse_str("01020304-0000-0000-0000-000000000000").unwrap();
    let expected = (u32::from_le_bytes([1, 2, 3, 4]) % 1000) as i32;
    assert_eq!(calculate_partition(id.as_u128()), expected);
    assert_eq!(calculate_partition(0), 0);
    let any = Uuid::new_v4();
    let b = any.as_bytes();
    assert_eq!(calculate_partition(any.as_u128()), (u32::from_le_bytes([b[0], b[1], b[2], b[3]]) % 1000) as i32);
}

#[test]
fn channel_names() {
    let id = Uuid::new_v4();
    assert_eq!(game_channel(id.as_u128()), format!("game:{}", id));
    assert_eq!(personal_channel(id.as_u128()), format!("personal:#{}", id));
    assert_eq!(lobbies_channel(), "lobbies");
}

#[test]
fn worker_backoff() {
    assert_eq!(next_attempt(4, ClaimOutcome::Processed), (1, WorkerWait::Immediately));
    assert_eq!(next_attempt(4, ClaimOutcome::Idle), (1, WorkerWait::Millis(500)));
    assert_eq!(next_attempt(4, ClaimOutcome::Failed), (8, WorkerWait::Seconds(8)));
    assert_eq!(next_attempt(8, ClaimOutcome::Failed), (16, WorkerWait::Seconds(16)));
    assert_eq!(next_attempt(16, ClaimOutcome::Failed), (16, WorkerWait::Seconds(16)));
    let mut b = 1;
    for _ in 0..10 {
        b = next_attempt(b, ClaimOutcome::Failed).0;
        assert!((1..=16).contains(&b));
    }
    assert_eq!(stale_claim_cutoff(100_000_000), 70_000_000);
}

#[test]
fn roles() {
    assert_eq!(Role::from_db("admin"), Role::Admin);
    assert_eq!(Role::from_db("user"), Role::User);
    assert_eq!(Role::from_db("Admin"), Role::User);
    assert_eq!(Role::Admin.as_str(), "admin");
    assert_eq!(Role::User.as_str(), "user");
    assert_eq!(Role::default(), Role::User);
}

#[test]
fn login_checks() {
    let full = LoginUser { handle: "h".to_string(), password: Some("p".to_string()) };
    assert!(check_login_input(&full).is_ok());
    for bad in [
        LoginUser { handle: String::new(), password: Some("p".to_string()) },
        LoginUser { handle: "h".to_string(), password: Some(String::new()) },
        LoginUser { handle: "h".to_string(), password: None },
    ] {
        assert!(matches!(check_login_input(&bad), Err(AppError::MissingCredentials)));
    }
    assert!(matches!(require_account(None), Err(AppError::UserNotFound)));
    let user = UserAuth { user_id: "u1".to_string(), password_hash: None, role: Role::User };
    assert!(matches!(stored_password_hash(&user), Err(AppError::WrongCredentials)));
    let user = UserAuth { password_hash: Some("hash".to_string()), ..user };
    assert_eq!(stored_password_hash(&user).unwrap(), "hash");
    assert!(matches!(check_password(false), Err(AppError::WrongCredentials)));
    let admins = vec!["u0".to_string(), "u1".to_string()];
    assert_eq!(session_role(&"u1".to_string(), Role::User, &admins), Role::Admin);
    assert_eq!(session_role(&"u2".to_string(), Role::User, &admins), Role::User);
    let cmd = LoginUserCommand::new(Arc::new(()), admins);
    assert_eq!(cmd.role_of(&user), Role::Admin);
    let _guest = AuthAsGuestCommand::new(Arc::new(()));
}

#[test]
fn containers_hold_what_they_are_given() {
    let s = AuthState::new(Arc::new(1), Arc::new(2), Arc::new(3), Arc::new(4), Arc::new(5));
    assert_eq!((*s.register_user, *s.user_exists), (1, 5));
    let r = RealtimeState::new(Arc::new("p"));
    assert_eq!(*r.processor, "p");
    let t = GameTokenGeneratorAdapter::new(Arc::new(7u8));
    assert_eq!(*t.token_usecase, 7);
}

#[test]
fn dto_defaults_and_conversions() {
    assert_eq!(default_max_rounds(), 3);
    assert_eq!(default_hand_size(), 5);
    let g = Game {
        id: 1, host_id: 2, mode: GameMode::MemeToSituation, status: GameStatus::Lobby, max_rounds: 3, hand_size: 5,
        submit_time_limit: 60, vote_time_limit: 30, current_round: 0, version: 4, started_at: None, finished_at: None, created_at: 0,
    };
    let d = GameDto::from(g);
    assert_eq!((d.id, d.mode, d.status, d.version), (1, GameMode::MemeToSituation, GameStatus::Lobby, 4));
    let p = PlayerDto::from(PlayerSubmissionState { user_id: 3, score: 2, is_ready: true, handle: "x".to_string(), has_submitted: false });
    assert_eq!((p.user_id, p.score, p.handle.as_str(), p.has_submitted), (3, 2, "x", false));
    let w = WsTokenDto::from(WsTokenResult { connection_token: "c".into(), game_subscription_token: "g".into(), personal_subscription_token: "p".into() });
    assert_eq!((w.connection_token.as_str(), w.game_subscription_token.as_str(), w.personal_subscription_token.as_str()), ("c", "g", "p"));
}

fn message(e: AppError) -> String {
    match e {
        AppError::NotFound(m) | AppError::Forbidden(m) | AppError::Conflict(m) => m,
        other => format!("{:?}", other),
    }
}

#[test]
fn pack_rules() {
    assert_eq!(message(check_pack_author(None, 1, "Meme pack not found", "Only pack author can update it").unwrap_err()), "Meme pack not found");
    assert_eq!(message(check_pack_author(Some(2), 1, "Meme pack not found", "Only pack author can update it").unwrap_err()), "Only pack author can update it");
    assert!(check_pack_author(Some(1), 1, "a", "b").is_ok());
    assert_eq!(message(check_not_locked(true, "Meme pack is currently in use by an active game session").unwrap_err()), "Meme pack is currently in use by an active game session");
    assert!(check_not_locked(false, "x").is_ok());
    assert_eq!(message(check_pack_visible(false, 1, 2).unwrap_err()), "Only pack author can view private pack");
    assert!(check_pack_visible(true, 1, 2).is_ok());
    assert!(check_pack_visible(false, 1, 1).is_ok());
    assert!(!marks_media_attached(&[]));
    assert!(marks_media_attached(&[5]));
    let d = pack_meme_details(PackMeme { id: 1, pack_id: 2, media_id: Some(3) }, Some("http://x".to_string()));
    assert_eq!(d.media_url, "http://x");
    let d = pack_meme_details(PackMeme { id: 1, pack_id: 2, media_id: Some(3) }, None);
    assert_eq!(d.media_url, "");
    let d = pack_meme_details(PackMeme { id: 1, pack_id: 2, media_id: None }, Some("ignored".to_string()));
    assert_eq!(d.media_url, "");
}

#[test]
fn snapshot_rules() {
    assert!(reveals_submissions(RoundPhase::Voting));
    assert!(reveals_submissions(RoundPhase::Finished));
    assert!(!reveals_submissions(RoundPhase::Submitting));
    let s = |id: u128, user: u128, meme: Option<u128>, sit: Option<u128>| RoundSubmission {
        id, round_id: 1, user_id: user, submission_meme_id: meme, submission_situation_id: sit, submitted_at: 0,
    };
    let subs = [s(1, 5, Some(9), None), s(2, 6, None, Some(8)), s(3, 6, None, None)];
    assert_eq!(own_submission(&subs, 6), Some(1));
    assert_eq!(own_submission(&subs, 7), None);
    assert_eq!(played_card(&subs[0]), Some(PlayedCard::Meme(9)));
    assert_eq!(played_card(&subs[1]), Some(PlayedCard::Situation(8)));
    assert_eq!(played_card(&subs[2]), None);
    match resolve_card(RawGameCard::Meme { id: 4, media_id: Some(1) }, Some("u".to_string())) {
        GameCard::Meme { id, media_url } => assert_eq!((id, media_url.as_str()), (4, "u")),
        _ => panic!("expected a meme"),
    }
    match resolve_card(RawGameCard::Situation { id: 4, prompt_text: "t".to_string() }, None) {
        GameCard::Situation { id, prompt_text } => assert_eq!((id, prompt_text.as_str()), (4, "t")),
        _ => panic!("expected a situation"),
    }
}
