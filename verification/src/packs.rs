//! Content packs: who may change or see a pack, and how a pack's memes are
//! shown with the addresses of their images.

use vstd::prelude::*;

use crate::error::{AppError, forbidden, conflict, not_found};
use crate::model::{PackMeme, PackMemeDetails, RawGameCard, GameCard};

verus! {

/// The author of a pack that must exist; `missing` is the message when it does
/// not, `not_author` the message when `author_id` is not its author.
pub fn check_pack_author(pack_author: Option<u128>, author_id: u128, missing: &str, not_author: &str) -> (r:
    Result<(), AppError>)
    ensures
        match pack_author {
            None => r matches Err(AppError::NotFound(m)) && m@ == missing@,
            Some(a) => if a != author_id {
                r matches Err(AppError::Forbidden(m)) && m@ == not_author@
            } else {
                r is Ok
            },
        },
{
    match pack_author {
        None => Err(not_found(missing)),
        Some(a) => {
            if a != author_id {
                Err(forbidden(not_author))
            } else {
                Ok(())
            }
        },
    }
}

/// Content used by a game that is running cannot be deleted; `refusal` is the
/// message of the conflict.
pub fn check_not_locked(locked: bool, refusal: &str) -> (r: Result<(), AppError>)
    ensures
        !locked ==> r is Ok,
        locked ==> (r matches Err(AppError::Conflict(m)) && m@ == refusal@),
{
    if locked {
        return Err(conflict(refusal));
    }
    Ok(())
}

/// The pack an item belongs to, for an item that must exist.
pub fn require_item_pack(item_pack: Option<u128>, missing: &str) -> (r: Result<u128, AppError>)
    ensures
        match item_pack {
            Some(p) => r == Ok::<u128, AppError>(p),
            None => r matches Err(AppError::NotFound(m)) && m@ == missing@,
        },
{
    match item_pack {
        Some(p) => Ok(p),
        None => Err(not_found(missing)),
    }
}

/// A private pack is seen by its author only.
pub fn check_pack_visible(is_public: bool, author_id: u128, requestor_id: u128) -> (r: Result<(), AppError>)
    ensures
        (is_public || author_id == requestor_id) ==> r is Ok,
        !(is_public || author_id == requestor_id) ==> (r matches Err(AppError::Forbidden(m)) && m@
            == "Only pack author can view private pack"@),
{
    if !is_public && author_id != requestor_id {
        return Err(forbidden("Only pack author can view private pack"));
    }
    Ok(())
}

/// Whether media must be marked as attached after adding them: when any were
/// added.
pub fn marks_media_attached(media_ids: &[i64]) -> (b: bool)
    ensures
        b == (media_ids@.len() > 0),
{
    media_ids.len() > 0
}

/// The address shown for an image: the address found for its media asset, or
/// empty when the asset has no address or the item has no asset. `found` is
/// what the lookup of `media_id` gave.
pub fn shown_media_url(media_id: Option<i64>, found: Option<String>) -> (s: String)
    ensures
        s@ == match (media_id, found) {
            (Some(_), Some(u)) => u@,
            _ => Seq::<char>::empty(),
        },
{
    match media_id {
        Some(_) => match found {
            Some(u) => u,
            None => String::new(),
        },
        None => String::new(),
    }
}

/// A meme of a pack with the address of its image.
pub fn pack_meme_details(pm: PackMeme, found: Option<String>) -> (d: PackMemeDetails)
    ensures
        d.id == pm.id,
        d.pack_id == pm.pack_id,
        d.media_id == pm.media_id,
        d.media_url@ == match (pm.media_id, found) {
            (Some(_), Some(u)) => u@,
            _ => Seq::<char>::empty(),
        },
{
    let media_url = shown_media_url(pm.media_id, found);
    PackMemeDetails { id: pm.id, pack_id: pm.pack_id, media_id: pm.media_id, media_url }
}

/// A stored card as shown to a client: a meme with the address of its image
/// (see `shown_media_url`; `found` is the lookup's result), a situation as it is.
pub fn resolve_card(card: RawGameCard, found: Option<String>) -> (c: GameCard)
    ensures
        match card {
            RawGameCard::Meme { id, media_id } => c matches GameCard::Meme { id: i, media_url } && i == id
                && media_url@ == match (media_id, found) {
                (Some(_), Some(u)) => u@,
                _ => Seq::<char>::empty(),
            },
            RawGameCard::Situation { id, prompt_text } => c matches GameCard::Situation {
                id: i,
                prompt_text: t,
            } && i == id && t@ == prompt_text@,
        },
{
    match card {
        RawGameCard::Meme { id, media_id } => GameCard::Meme { id, media_url: shown_media_url(media_id, found) },
        RawGameCard::Situation { id, prompt_text } => GameCard::Situation { id, prompt_text },
    }
}

} // verus!
