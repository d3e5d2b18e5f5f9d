use meme_game::error::{concurrent_modification, AppError};
use meme_game::model::{event_versions, RawGameCard};
use meme_game::params::{parse_current_user_id, parse_id};
use meme_game::rows::{
    hand_card_from_row, hand_card_image, hand_card_with_media, parse_prompt_kind, prompt_card, prompt_content,
    prompt_details, prompt_lookup, round_score_entry, tally_entry, PromptKind,
};
use meme_game::seeder::{placeholder_file_id, placeholder_url};
use meme_game::text::format_i64;
use uuid::Uuid;

#[test]
fn hand_rows() {
    match hand_card_from_row(Some(1), Some(2), Some(3), Some("t".to_string())) {
        Some(RawGameCard::Meme { id, media_id }) => assert_eq!((id, media_id), (1, Some(3))),
        _ => panic!("expected a meme"),
    }
    match hand_card_from_row(None, Some(2), None, None) {
        Some(RawGameCard::Situation { id, prompt_text }) => assert_eq!((id, prompt_text.as_str()), (2, "")),
        _ => panic!("expected a situation"),
    }
    assert!(hand_card_from_row(None, None, Some(3), None).is_none());
    let c = hand_card_with_media(None, Some(5), Some(9), Some("x".to_string()));
    assert_eq!((c.id, c.kind.as_str(), c.media_id, c.text.as_deref()), (5, "situation", None, Some("x")));
    let c = hand_card_with_media(Some(4), Some(5), Some(9), Some("x".to_string()));
    assert_eq!((c.id, c.kind.as_str(), c.media_id, c.text.as_deref()), (4, "meme", Some(9), None));
}

#[test]
fn tallies_and_scores() {
    assert_eq!(tally_entry(3, None), (3, 0));
    assert_eq!(tally_entry(3, Some(7)), (3, 7));
    assert_eq!(round_score_entry(3, 2), (3, 2));
}

#[test]
fn prompts() {
    assert_eq!(parse_prompt_kind("situation").unwrap(), PromptKind::Situation);
    assert_eq!(parse_prompt_kind("meme").unwrap(), PromptKind::Meme);
    match parse_prompt_kind("video") {
        Err(AppError::ValidationError(m)) => assert_eq!(m, "Invalid prompt kind: video"),
        _ => panic!("expected a refusal"),
    }
    assert_eq!(prompt_details(PromptKind::Situation, Some("s".to_string()), None).unwrap(), (None, Some("s".to_string())));
    assert_eq!(prompt_details(PromptKind::Meme, None, Some(Some(4))).unwrap(), (Some(4), None));
    match prompt_details(PromptKind::Meme, None, None) {
        Err(AppError::NotFound(m)) => assert_eq!(m, "Meme prompt not found"),
        _ => panic!("expected not found"),
    }
    match prompt_details(PromptKind::Situation, None, None) {
        Err(AppError::NotFound(m)) => assert_eq!(m, "Situation prompt not found"),
        _ => panic!("expected not found"),
    }
    assert_eq!(prompt_lookup(Some(1), Some(2)), Some((PromptKind::Situation, 1)));
    assert_eq!(prompt_lookup(None, Some(2)), Some((PromptKind::Meme, 2)));
    assert_eq!(prompt_lookup(None, None), None);
    assert!(prompt_card(Some((PromptKind::Situation, 1)), None, None).is_none());
    match prompt_card(Some((PromptKind::Meme, 2)), None, None) {
        Some(RawGameCard::Meme { id, media_id }) => assert_eq!((id, media_id), (2, None)),
        _ => panic!("expected a meme"),
    }
    assert_eq!(prompt_content(Some(1), Some("u".to_string()), Some("t".to_string())), "u");
    assert_eq!(prompt_content(Some(1), None, Some("t".to_string())), "");
    assert_eq!(prompt_content(None, Some("u".to_string()), Some("t".to_string())), "t");
    assert_eq!(hand_card_image(None, Some("u".to_string())), None);
    assert_eq!(hand_card_image(Some(2), Some("u".to_string())), Some("u".to_string()));
}

#[test]
fn identifiers_in_requests() {
    let id = Uuid::new_v4();
    assert_eq!(parse_current_user_id(&id.to_string()).unwrap(), id.as_u128());
    assert_eq!(parse_id(&id.simple().to_string(), "Invalid game ID").unwrap(), id.as_u128());
    match parse_id("not-a-uuid", "Invalid game ID") {
        Err(AppError::ValidationError(m)) => assert_eq!(m, "Invalid game ID"),
        _ => panic!("expected a refusal"),
    }
}

#[test]
fn decimal_text() {
    for n in [0i64, 7, 10, 42, -1, -305, i64::MAX, i64::MIN] {
        assert_eq!(format_i64(n), n.to_string());
    }
}

#[test]
fn version_conflicts() {
    let id = Uuid::new_v4();
    match concurrent_modification(id.as_u128(), 12) {
        AppError::Conflict(m) => assert_eq!(
            m,
            format!("Concurrent modification detected for game {} at version {}. Please retry the operation.", id, 12)
        ),
        _ => panic!("expected a conflict"),
    }
    assert_eq!(event_versions(10, 3), vec![11, 12, 13]);
    assert!(event_versions(10, 0).is_empty());
}

#[test]
fn seed_placeholders() {
    assert_eq!(placeholder_file_id("abc"), "seed_abc");
    assert_eq!(placeholder_url("https://cdn", "abc", "a.png"), "https://cdn/local-seeds/abc/a.png");
}
