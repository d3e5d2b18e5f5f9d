use meme_game::model::ContentSafetyLevel;
use meme_game::seeder::{
    admin_username, compute_file_hash, content_type_of_lowercase, compute_text_hash, default_is_public, default_safety_level,
    detect_content_type, seed_pack_id, MemeSeedItem, MemeStep, SeedRow, SeedSync, SituationSeedItem,
    SituationStep, DEFAULT_ADMIN_USER_ID,
};
use sha2::Digest;
use uuid::Uuid;

#[test]
fn test_compute_text_hash_deterministic_and_trims() {
    let hash1 = compute_text_hash("When code works on first try");
    let hash2 = compute_text_hash("   When code works on first try   ");
    let hash3 = compute_text_hash("When code fails");

    assert_eq!(hash1, hash2, "Whitespace trimming should produce identical hashes");
    assert_ne!(hash1, hash3, "Different texts must produce different hashes");
    assert_eq!(hash1.len(), 64, "SHA-256 hex string must be 64 characters");
}

#[test]
fn test_compute_file_hash() {
    let bytes = b"dummy image file content";
    let hash1 = compute_file_hash(bytes);
    let hash2 = compute_file_hash(bytes);

    assert_eq!(hash1, hash2);
    assert_eq!(hash1.len(), 64);
}

#[test]
fn test_detect_content_type() {
    assert_eq!(detect_content_type("meme.PNG"), "image/png");
    assert_eq!(detect_content_type("photo.jpg"), "image/jpeg");
    assert_eq!(detect_content_type("photo.JPEG"), "image/jpeg");
    assert_eq!(detect_content_type("dog.webp"), "image/webp");
    assert_eq!(detect_content_type("cat.gif"), "image/gif");
    assert_eq!(detect_content_type("vector.svg"), "image/svg+xml");
    assert_eq!(detect_content_type("data.bin"), "application/octet-stream");
}

#[test]
fn text_hash_is_sha256_hex_of_trimmed_text() {
    let expected = hex::encode(sha2::Sha256::digest(b"abc"));
    assert_eq!(compute_text_hash(" abc\n"), expected);
    assert_eq!(
        compute_text_hash("abc"),
        "ba7816bf8f01cfea414140de5dae2223b00361a396177a9cb410ff61f20015ad"
    );
}

#[test]
fn file_hash_of_empty_input() {
    assert_eq!(
        compute_file_hash(b""),
        "e3b0c44298fc1c149afbf4c8996fb92427ae41e4649b934ca495991b7852b855"
    );
}

#[test]
fn seed_items_give_their_text_or_path() {
    let a = SituationSeedItem::Simple("Simple item 1".to_string());
    let b = SituationSeedItem::Detailed { prompt_text: "Detailed item 1".to_string() };
    assert_eq!(a.prompt_text(), "Simple item 1");
    assert_eq!(b.prompt_text(), "Detailed item 1");
    let c = MemeSeedItem::Simple("assets/meme1.png".to_string());
    let d = MemeSeedItem::Detailed { file: "assets/meme2.jpg".to_string() };
    assert_eq!(c.file_path(), "assets/meme1.png");
    assert_eq!(d.file_path(), "assets/meme2.jpg");
}

#[test]
fn seed_defaults() {
    assert_eq!(default_safety_level(), ContentSafetyLevel::FamilyFriendly);
    assert!(default_is_public());
}

#[test]
fn pack_id_is_configured_or_derived_from_name() {
    assert_eq!(seed_pack_id(Some(42), "Pack"), 42);
    let derived = Uuid::new_v5(&Uuid::NAMESPACE_DNS, b"Pack").as_u128();
    assert_eq!(seed_pack_id(None, "Pack"), derived);
    assert_ne!(seed_pack_id(None, "Other"), derived);
}

#[test]
fn admin_usernames() {
    assert_eq!(admin_username(DEFAULT_ADMIN_USER_ID), "admin");
    let id = Uuid::parse_str("12345678-9abc-def0-1234-56789abcdef0").unwrap();
    assert_eq!(admin_username(id.as_u128()), "admin_12345678");
}

fn row(id: u128, hash: Option<&str>, active: bool, text: Option<&str>) -> SeedRow {
    SeedRow {
        id,
        content_hash: hash.map(|h| h.to_string()),
        is_active: active,
        prompt_text: text.map(|t| t.to_string()),
        media_id: None,
    }
}

#[test]
fn situation_sync_plan() {
    let h_a = compute_text_hash("A");
    let h_b = compute_text_hash("B");
    let rows = vec![
        row(1, Some(&h_a), false, Some("A")),
        row(2, None, true, Some("B")),
        row(3, Some("stale"), true, Some("Z")),
        row(4, Some(&h_a), true, Some("A")),
    ];
    let mut sync = SeedSync::new();
    // the last row with hash A is active: unchanged
    assert!(matches!(sync.classify_situation(&rows, "  A  "), SituationStep::Unchanged));
    // repeated text: skipped
    assert!(matches!(sync.classify_situation(&rows, "A"), SituationStep::Skip));
    // blank: skipped
    assert!(matches!(sync.classify_situation(&rows, "   "), SituationStep::Skip));
    // text known without hash: rehashed
    match sync.classify_situation(&rows, "B") {
        SituationStep::Rehash { id, content_hash } => {
            assert_eq!(id, 2);
            assert_eq!(content_hash, h_b);
        }
        other => panic!("unexpected {:?}", other),
    }
    // new text: inserted
    match sync.classify_situation(&rows, " C ") {
        SituationStep::Insert { prompt_text, content_hash } => {
            assert_eq!(prompt_text, "C");
            assert_eq!(content_hash, compute_text_hash("C"));
        }
        other => panic!("unexpected {:?}", other),
    }
    // active rows whose hash was not seen: row 2 (no hash) and row 3
    assert_eq!(sync.deactivations(&rows), vec![2, 3]);
}

#[test]
fn situation_sync_reactivates_inactive_row() {
    let h_a = compute_text_hash("A");
    let rows = vec![row(9, Some(&h_a), false, Some("old A"))];
    let mut sync = SeedSync::new();
    match sync.classify_situation(&rows, "A") {
        SituationStep::Reactivate { id, prompt_text } => {
            assert_eq!(id, 9);
            assert_eq!(prompt_text, "A");
        }
        other => panic!("unexpected {:?}", other),
    }
    assert!(sync.deactivations(&rows).is_empty());
}

#[test]
fn meme_sync_plan() {
    let rows = vec![row(1, Some("h1"), false, None), row(2, Some("h2"), true, None)];
    let mut sync = SeedSync::new();
    assert_eq!(sync.classify_meme(&rows, "h1".to_string()), MemeStep::Reactivate { id: 1 });
    assert_eq!(sync.classify_meme(&rows, "h2".to_string()), MemeStep::Unchanged);
    assert_eq!(sync.classify_meme(&rows, "h2".to_string()), MemeStep::Skip);
    assert_eq!(sync.classify_meme(&rows, "h3".to_string()), MemeStep::Upload);
    assert!(sync.deactivations(&rows).is_empty());
}

#[test]
fn content_type_of_a_lowercased_name() {
    assert_eq!(content_type_of_lowercase("x.png"), "image/png");
    assert_eq!(content_type_of_lowercase("x.jpeg"), "image/jpeg");
    assert_eq!(content_type_of_lowercase("x.jpg"), "image/jpeg");
    // the name is taken as given: upper case is not recognised here
    assert_eq!(content_type_of_lowercase("X.PNG"), "application/octet-stream");
}

#[test]
fn second_situation_sync_of_unchanged_config_changes_nothing() {
    let h_a = compute_text_hash("A");
    let h_c = compute_text_hash("C");
    let rows = vec![row(1, Some(&h_a), false, Some("old A")), row(3, Some("stale"), true, Some("Z"))];
    let mut first = SeedSync::new();
    assert!(matches!(first.classify_situation(&rows, "A"), SituationStep::Reactivate { id: 1, .. }));
    assert!(matches!(first.classify_situation(&rows, "C"), SituationStep::Insert { .. }));
    assert_eq!(first.deactivations(&rows), vec![3]);
    // the store after the first sync
    let rows = vec![
        row(1, Some(&h_a), true, Some("A")),
        row(3, Some("stale"), false, Some("Z")),
        row(5, Some(&h_c), true, Some("C")),
    ];
    let mut second = SeedSync::new();
    assert!(matches!(second.classify_situation(&rows, "A"), SituationStep::Unchanged));
    assert!(matches!(second.classify_situation(&rows, "C"), SituationStep::Unchanged));
    assert!(second.deactivations(&rows).is_empty());
}

#[test]
fn a_rehashed_row_is_deactivated_and_reactivated_by_the_next_sync() {
    let h_b = compute_text_hash("B");
    let rows = vec![row(2, None, true, Some("B"))];
    let mut first = SeedSync::new();
    assert!(matches!(first.classify_situation(&rows, "B"), SituationStep::Rehash { id: 2, .. }));
    // the row had no hash before the sync, so it counts as not desired
    assert_eq!(first.deactivations(&rows), vec![2]);
    let rows = vec![row(2, Some(&h_b), false, Some("B"))];
    let mut second = SeedSync::new();
    assert!(matches!(second.classify_situation(&rows, "B"), SituationStep::Reactivate { id: 2, .. }));
}
