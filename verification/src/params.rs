//! Identifiers given as text in requests.

use vstd::prelude::*;

use crate::error::{AppError, invalid};
use crate::ids::uuid_text;

verus! {

/// What `uuid::Uuid::parse_str` gives for a text: the identifier, or none
/// when the text is not a UUID.
pub uninterp spec fn parsed_uuid(s: Seq<char>) -> Option<u128>;

/// Reads an identifier, through `uuid::Uuid::parse_str`. The claim: the result
/// depends on the text alone, and the hyphenated lowercase form of an
/// identifier reads back as that identifier.
#[verifier::external_body]
pub(crate) fn parse_uuid(s: &str) -> (r: Option<u128>)
    ensures
        r == parsed_uuid(s@),
        forall|x: u128| s@ == uuid_text(x) ==> r == Some(x),
{
    uuid::Uuid::parse_str(s).ok().map(|u| u.as_u128())
}

/// The identifier in a request, refused with `refusal` when it is not one.
pub fn parse_id(s: &str, refusal: &str) -> (r: Result<u128, AppError>)
    ensures
        match parsed_uuid(s@) {
            Some(x) => r == Ok::<u128, AppError>(x),
            None => r matches Err(AppError::ValidationError(m)) && m@ == refusal@,
        },
        forall|x: u128| s@ == uuid_text(x) ==> r == Ok::<u128, AppError>(x),
{
    match parse_uuid(s) {
        Some(x) => Ok(x),
        None => Err(invalid(refusal)),
    }
}

/// The identifier of the signed-in user.
pub fn parse_current_user_id(s: &str) -> (r: Result<u128, AppError>)
    ensures
        match parsed_uuid(s@) {
            Some(x) => r == Ok::<u128, AppError>(x),
            None => r matches Err(AppError::ValidationError(m)) && m@ == "Invalid current user ID"@,
        },
{
    parse_id(s, "Invalid current user ID")
}

} // verus!
