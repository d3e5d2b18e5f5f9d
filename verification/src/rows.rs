//! How stored rows read back as the game's values, and the small decisions the
//! storage and notification layers make on them.

use vstd::prelude::*;

use crate::error::{AppError, not_found};
use crate::model::{GamePlayerHandCardWithMedia, RawGameCard};

verus! {

/// A hand card read from its row: a meme when the row names one, else a
/// situation (with its text, or empty text), and nothing when it names neither.
pub fn hand_card_from_row(
    meme_id: Option<u128>,
    situation_id: Option<u128>,
    media_id: Option<i64>,
    prompt_text: Option<String>,
) -> (c: Option<RawGameCard>)
    ensures
        match meme_id {
            Some(m) => c matches Some(RawGameCard::Meme { id, media_id: mid }) && id == m && mid == media_id,
            None => match situation_id {
                Some(s) => c matches Some(RawGameCard::Situation { id, prompt_text: t }) && id == s
                    && t@ == match prompt_text {
                    Some(p) => p@,
                    None => Seq::<char>::empty(),
                },
                None => c is None,
            },
        },
{
    match meme_id {
        Some(m) => Some(RawGameCard::Meme { id: m, media_id }),
        None => match situation_id {
            Some(s) => Some(
                RawGameCard::Situation {
                    id: s,
                    prompt_text: match prompt_text {
                        Some(p) => p,
                        None => String::new(),
                    },
                },
            ),
            None => None,
        },
    }
}

/// A hand card with what it shows, read from its row: a meme with its media
/// asset, or else a situation with its text. A row names one or the other.
pub fn hand_card_with_media(
    meme_id: Option<u128>,
    situation_id: Option<u128>,
    media_id: Option<i64>,
    text: Option<String>,
) -> (c: GamePlayerHandCardWithMedia)
    requires
        meme_id is Some || situation_id is Some,
    ensures
        match meme_id {
            Some(m) => c.id == m && c.kind@ == "meme"@ && c.media_id == media_id && c.text is None,
            None => Some(c.id) == situation_id && c.kind@ == "situation"@ && c.media_id is None && (
            match text {
                Some(t) => c.text matches Some(x) && x@ == t@,
                None => c.text is None,
            }),
        },
{
    match meme_id {
        Some(m) => GamePlayerHandCardWithMedia { id: m, kind: String::from_str("meme"), media_id, text: None },
        None => GamePlayerHandCardWithMedia {
            id: situation_id.unwrap(),
            kind: String::from_str("situation"),
            media_id: None,
            text,
        },
    }
}

/// A tally entry: the submission and its vote count, zero when absent.
pub fn tally_entry(submission_id: u128, vote_count: Option<i64>) -> (e: (u128, i64))
    ensures
        e == (submission_id, match vote_count {
            Some(c) => c,
            None => 0,
        }),
{
    (submission_id, match vote_count {
        Some(c) => c,
        None => 0,
    })
}

/// A player's score for one round: the votes their submission received.
pub fn round_score_entry(user_id: u128, vote_count: i64) -> (e: (u128, i32))
    requires
        0 <= vote_count <= i32::MAX,
    ensures
        e == (user_id, vote_count as i32),
{
    (user_id, vote_count as i32)
}

/// Which kind of content a prompt is looked up as.
#[derive(Debug, Clone, Copy, PartialEq, Eq, Structural)]
pub enum PromptKind {
    Situation,
    Meme,
}

/// The kind named `kind`: `situation` or `meme`; any other name is refused.
pub fn parse_prompt_kind(kind: &str) -> (r: Result<PromptKind, AppError>)
    ensures
        kind@ == "situation"@ ==> r == Ok::<PromptKind, AppError>(PromptKind::Situation),
        kind@ != "situation"@ && kind@ == "meme"@ ==> r == Ok::<PromptKind, AppError>(PromptKind::Meme),
        kind@ != "situation"@ && kind@ != "meme"@ ==> (r matches Err(AppError::ValidationError(m)) && m@
            == "Invalid prompt kind: "@ + kind@),
{
    if crate::text::same_text(kind, "situation") {
        Ok(PromptKind::Situation)
    } else if crate::text::same_text(kind, "meme") {
        Ok(PromptKind::Meme)
    } else {
        Err(AppError::ValidationError(String::from_str("Invalid prompt kind: ").concat(kind)))
    }
}

/// The details of a prompt found by kind: a situation's text, or a meme's
/// media asset; a prompt that is not found is refused.
pub fn prompt_details(kind: PromptKind, situation_text: Option<String>, meme_media: Option<Option<i64>>) -> (r:
    Result<(Option<i64>, Option<String>), AppError>)
    ensures
        kind == PromptKind::Situation ==> match situation_text {
            Some(t) => r matches Ok((m, Some(x))) && m is None && x@ == t@,
            None => r matches Err(AppError::NotFound(m)) && m@ == "Situation prompt not found"@,
        },
        kind == PromptKind::Meme ==> match meme_media {
            Some(mid) => r matches Ok((m, x)) && m == mid && x is None,
            None => r matches Err(AppError::NotFound(m)) && m@ == "Meme prompt not found"@,
        },
{
    match kind {
        PromptKind::Situation => match situation_text {
            Some(t) => Ok((None, Some(t))),
            None => Err(not_found("Situation prompt not found")),
        },
        PromptKind::Meme => match meme_media {
            Some(mid) => Ok((mid, None)),
            None => Err(not_found("Meme prompt not found")),
        },
    }
}

/// What a round's prompt is looked up as: its situation when it has one, else
/// its meme, else nothing.
pub fn prompt_lookup(situation_id: Option<u128>, meme_id: Option<u128>) -> (r: Option<(PromptKind, u128)>)
    ensures
        r == match situation_id {
            Some(s) => Some((PromptKind::Situation, s)),
            None => match meme_id {
                Some(m) => Some((PromptKind::Meme, m)),
                None => None,
            },
        },
{
    match situation_id {
        Some(s) => Some((PromptKind::Situation, s)),
        None => match meme_id {
            Some(m) => Some((PromptKind::Meme, m)),
            None => None,
        },
    }
}

/// The prompt card of a round: a situation with its text (none when its text
/// is not found), or a meme with its media asset (an asset-less meme when the
/// meme is not found or has no asset).
pub fn prompt_card(lookup: Option<(PromptKind, u128)>, situation_text: Option<String>, meme_media: Option<Option<i64>>) -> (c:
    Option<RawGameCard>)
    ensures
        match lookup {
            Some((PromptKind::Situation, id)) => match situation_text {
                Some(t) => c matches Some(RawGameCard::Situation { id: i, prompt_text: x }) && i == id && x@
                    == t@,
                None => c is None,
            },
            Some((PromptKind::Meme, id)) => c matches Some(RawGameCard::Meme { id: i, media_id: m }) && i
                == id && m == match meme_media {
                Some(x) => x,
                None => None,
            },
            None => c is None,
        },
{
    match lookup {
        Some((PromptKind::Situation, id)) => match situation_text {
            Some(t) => Some(RawGameCard::Situation { id, prompt_text: t }),
            None => None,
        },
        Some((PromptKind::Meme, id)) => Some(
            RawGameCard::Meme {
                id,
                media_id: match meme_media {
                    Some(x) => x,
                    None => None,
                },
            },
        ),
        None => None,
    }
}

/// What a round-start notice shows as the prompt: the address found for the
/// prompt's image when it is a meme (empty when none was found), else the
/// prompt's text (empty when it has none).
pub fn prompt_content(media_id: Option<i64>, found_url: Option<String>, text: Option<String>) -> (s: String)
    ensures
        s@ == match media_id {
            Some(_) => match found_url {
                Some(u) => u@,
                None => Seq::<char>::empty(),
            },
            None => match text {
                Some(t) => t@,
                None => Seq::<char>::empty(),
            },
        },
{
    match media_id {
        Some(_) => match found_url {
            Some(u) => u,
            None => String::new(),
        },
        None => match text {
            Some(t) => t,
            None => String::new(),
        },
    }
}

/// The image address of a hand card in a notice: the one found for its media
/// asset, or none when it has no asset.
pub fn hand_card_image(media_id: Option<i64>, found_url: Option<String>) -> (s: Option<String>)
    ensures
        match media_id {
            Some(_) => s == found_url,
            None => s is None,
        },
{
    match media_id {
        Some(_) => found_url,
        None => None,
    }
}

} // verus!
