//! The library's error type.

use vstd::prelude::*;

use crate::ids::{uuid_text, uuid_to_string};
use crate::text::{decimal, format_i64};

verus! {

/// Why a request was refused or failed.
#[derive(Debug)]
pub enum AppError {
    NotFound(String),
    Forbidden(String),
    Conflict(String),
    ValidationError(String),
    ProviderError(String),
    InternalError,
    MissingCredentials,
    UserNotFound,
    WrongCredentials,
}

/// `prefix` followed by the hyphenated form of `id`.
pub open spec fn text_with_id(prefix: Seq<char>, id: u128) -> Seq<char> {
    prefix + uuid_text(id)
}

/// Builds `prefix` followed by the hyphenated form of `id`.
pub fn message_with_id(prefix: &str, id: u128) -> (s: String)
    ensures
        s@ == text_with_id(prefix@, id),
{
    let head = String::from_str(prefix);
    let tail = uuid_to_string(id);
    head.concat(tail.as_str())
}

/// A `NotFound` error whose message is `prefix` followed by `id`.
pub fn not_found_with_id(prefix: &str, id: u128) -> (e: AppError)
    ensures
        e matches AppError::NotFound(m) && m@ == text_with_id(prefix@, id),
{
    AppError::NotFound(message_with_id(prefix, id))
}

/// The message of a write that lost a race for a game's version.
pub open spec fn concurrent_modification_text(game_id: u128, version: i64) -> Seq<char> {
    "Concurrent modification detected for game "@ + uuid_text(game_id) + " at version "@ + decimal(
        version as int,
    ) + ". Please retry the operation."@
}

/// The conflict reported when another writer already stored an event under
/// the same version of the game.
pub fn concurrent_modification(game_id: u128, version: i64) -> (e: AppError)
    ensures
        e matches AppError::Conflict(m) && m@ == concurrent_modification_text(game_id, version),
{
    let id = uuid_to_string(game_id);
    let v = format_i64(version);
    let m = String::from_str("Concurrent modification detected for game ").concat(id.as_str()).concat(
        " at version ",
    ).concat(v.as_str()).concat(". Please retry the operation.");
    AppError::Conflict(m)
}

/// An error of the given kind with the message `text`.
pub fn not_found(text: &str) -> (e: AppError)
    ensures
        e matches AppError::NotFound(m) && m@ == text@,
{
    AppError::NotFound(String::from_str(text))
}

pub fn forbidden(text: &str) -> (e: AppError)
    ensures
        e matches AppError::Forbidden(m) && m@ == text@,
{
    AppError::Forbidden(String::from_str(text))
}

pub fn conflict(text: &str) -> (e: AppError)
    ensures
        e matches AppError::Conflict(m) && m@ == text@,
{
    AppError::Conflict(String::from_str(text))
}

pub fn invalid(text: &str) -> (e: AppError)
    ensures
        e matches AppError::ValidationError(m) && m@ == text@,
{
    AppError::ValidationError(String::from_str(text))
}

} // verus!
