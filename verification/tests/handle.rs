use meme_game::error::AppError;
use meme_game::handle::{default_nickname, resolve_handle};
use meme_game::model::GamePlayer;
use uuid::Uuid;

fn make_mock_player(user_id: u128, handle: &str) -> GamePlayer {
    GamePlayer {
        game_id: Uuid::new_v4().as_u128(),
        user_id,
        score: 0,
        is_ready: false,
        handle: handle.to_string(),
        joined_at: 0,
    }
}

#[test]
fn test_resolve_handle_explicit_success() {
    let user_id = Uuid::new_v4().as_u128();
    let existing = vec![make_mock_player(Uuid::new_v4().as_u128(), "Alice")];

    let result = resolve_handle(user_id, Some("Bob".to_string()), "Bobby".to_string(), &existing);

    assert!(result.is_ok());
    assert_eq!(result.unwrap(), "Bob");
}

#[test]
fn test_resolve_handle_explicit_conflict() {
    let user_id = Uuid::new_v4().as_u128();
    let existing = vec![make_mock_player(Uuid::new_v4().as_u128(), "Alice")];

    let result = resolve_handle(user_id, Some("Alice".to_string()), "Bobby".to_string(), &existing);

    assert!(result.is_err());
    match result.unwrap_err() {
        AppError::Conflict(msg) => assert_eq!(msg, "handle already taken in this lobby"),
        _ => panic!("Expected conflict error"),
    }
}

#[test]
fn test_resolve_handle_default_no_conflict() {
    let user_id = Uuid::new_v4().as_u128();
    let existing = vec![make_mock_player(Uuid::new_v4().as_u128(), "Alice")];

    let result = resolve_handle(user_id, None, "Bob".to_string(), &existing);

    assert!(result.is_ok());
    assert_eq!(result.unwrap(), "Bob");
}

#[test]
fn test_resolve_handle_default_conflict_fallback_to_uuid() {
    let user_id = Uuid::new_v4();
    let existing = vec![make_mock_player(Uuid::new_v4().as_u128(), "Alice")];

    let result = resolve_handle(user_id.as_u128(), None, "Alice".to_string(), &existing);

    assert!(result.is_ok());
    assert_eq!(result.unwrap(), user_id.to_string());
}

#[test]
fn test_resolve_handle_conflict_chain() {
    let user_a_id = Uuid::new_v4();
    let user_b_id = Uuid::new_v4();

    let existing_empty: Vec<GamePlayer> = vec![];
    let handle_a =
        resolve_handle(user_a_id.as_u128(), Some("Bob".to_string()), "Alice".to_string(), &existing_empty)
            .unwrap();
    assert_eq!(handle_a, "Bob");

    let player_a = make_mock_player(user_a_id.as_u128(), &handle_a);
    let existing_with_a = vec![player_a];

    let handle_b = resolve_handle(user_b_id.as_u128(), None, "Bob".to_string(), &existing_with_a).unwrap();

    assert_eq!(handle_b, user_b_id.to_string());
}

#[test]
fn blank_requested_handle_falls_back_to_nickname() {
    let existing = vec![make_mock_player(7, "Alice")];
    let result = resolve_handle(1, Some(" \t\u{3000} ".to_string()), "Carol".to_string(), &existing);
    assert_eq!(result.unwrap(), "Carol");
}

#[test]
fn blank_requested_handle_with_taken_nickname_gives_identifier() {
    let id = Uuid::parse_str("6f9619ff-8b86-d011-b42d-00c04fc964ff").unwrap();
    let existing = vec![make_mock_player(7, "Alice")];
    let result = resolve_handle(id.as_u128(), Some("   ".to_string()), "Alice".to_string(), &existing);
    assert_eq!(result.unwrap(), "6f9619ff-8b86-d011-b42d-00c04fc964ff");
}

#[test]
fn requested_handle_with_spaces_is_kept_as_given() {
    let result = resolve_handle(1, Some("  Dan ".to_string()), "Eve".to_string(), &[]);
    assert_eq!(result.unwrap(), "  Dan ");
}

#[test]
fn nickname_defaults_to_player_and_identifier() {
    let id = Uuid::parse_str("00000000-0000-0000-0000-00000000002a").unwrap();
    assert_eq!(default_nickname(id.as_u128(), None), "player-00000000-0000-0000-0000-00000000002a");
    assert_eq!(default_nickname(id.as_u128(), Some("zed".to_string())), "zed");
}

#[test]
fn joining_one_by_one_keeps_handles_distinct() {
    let mut lobby: Vec<GamePlayer> = Vec::new();
    let wishes = [
        (Some("Bob"), "Alice"),
        (None, "Bob"),
        (None, "Carol"),
        (Some("   "), "Carol"),
        (None, "Dan"),
    ];
    for (i, (requested, nickname)) in wishes.iter().enumerate() {
        let user_id = 1000 + i as u128;
        let handle =
            resolve_handle(user_id, requested.map(|r| r.to_string()), nickname.to_string(), &lobby).unwrap();
        lobby.push(make_mock_player(user_id, &handle));
    }
    let handles: Vec<&str> = lobby.iter().map(|p| p.handle.as_str()).collect();
    for i in 0..handles.len() {
        for j in i + 1..handles.len() {
            assert_ne!(handles[i], handles[j]);
        }
    }
    assert_eq!(handles[0], "Bob");
    assert_eq!(handles[1], Uuid::from_u128(1001).to_string());
    assert_eq!(handles[2], "Carol");
    assert_eq!(handles[3], Uuid::from_u128(1003).to_string());
    assert_eq!(handles[4], "Dan");
}
