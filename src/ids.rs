use vstd::prelude::*;

use crate::app_error::AppError;

verus! {

/// The 128-bit value of the UUID that `text` spells, or `None` when `text`
/// is not a UUID.
pub uninterp spec fn parsed_uuid(text: Seq<char>) -> Option<u128>;

/// Relies on uuid's `Uuid::parse_str` (and `Uuid::as_u128`): the result
/// depends on the text alone.
#[verifier::external_body]
pub(crate) fn parse_uuid(text: &str) -> (r: Option<u128>)
    ensures
        r == parsed_uuid(text@),
{
    match uuid::Uuid::parse_str(text) {
        Ok(u) => Some(u.as_u128()),
        Err(_) => None,
    }
}

/// The identifier a caller supplied, given what reading it as a UUID gave:
/// `InvalidArgument` carrying the text when it was none.
pub fn identifier_from_parsed(value: &str, parsed: Option<u128>) -> (r: Result<u128, AppError>)
    ensures
        match parsed {
            Some(u) => r == Ok::<u128, AppError>(u),
            None => (r matches Err(AppError::InvalidArgument { value: v }) && v@ == value@),
        },
{
    match parsed {
        Some(u) => Ok(u),
        None => Err(AppError::InvalidArgument { value: value.to_string() }),
    }
}

/// Reads a caller-supplied identifier, which must be a UUID.
pub fn parse_identifier(value: &str) -> (r: Result<u128, AppError>)
    ensures
        match parsed_uuid(value@) {
            Some(u) => r == Ok::<u128, AppError>(u),
            None => (r matches Err(AppError::InvalidArgument { value: v }) && v@ == value@),
        },
{
    identifier_from_parsed(value, parse_uuid(value))
}

} // verus!
