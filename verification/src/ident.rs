//! Identifiers of matches and of players.
//!
//! A match is identified by a UUID, which the engine holds as the 128-bit
//! number that the UUID's sixteen bytes spell in big-endian order.

use vstd::prelude::*;

verus! {

/// What `uuid::Uuid::parse_str` makes of a text: the number of the UUID it
/// spells, or `None` where the text is no UUID in any of the accepted forms.
pub uninterp spec fn uuid_parse(text: Seq<char>) -> Option<u128>;

/// The canonical text of a UUID: what `Display` of `uuid::Uuid` writes for the
/// UUID with this number.
pub uninterp spec fn uuid_text(id: u128) -> Seq<char>;

/// A fresh random (version 4) UUID from `uuid::Uuid::new_v4`, as its number.
/// The value depends on the random source, so nothing is claimed of it.
#[verifier::external_body]
pub(crate) fn random_uuid() -> (id: u128) {
    uuid::Uuid::new_v4().as_u128()
}

/// `uuid::Uuid::parse_str`, with the error dropped and the UUID turned into
/// its number by `Uuid::as_u128`.
#[verifier::external_body]
pub(crate) fn parse_uuid(text: &str) -> (id: Option<u128>)
    ensures
        id == uuid_parse(text@),
{
    match uuid::Uuid::parse_str(text) {
        Ok(u) => Some(u.as_u128()),
        Err(_) => None,
    }
}

/// The hyphenated lower-case text of the UUID with number `id`:
/// `Uuid::from_u128(id).to_string()`.
#[verifier::external_body]
pub(crate) fn format_uuid(id: u128) -> (text: String)
    ensures
        text@ == uuid_text(id),
{
    uuid::Uuid::from_u128(id).to_string()
}

} // verus!
