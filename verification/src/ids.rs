//! Identifiers: parsing the textual UUIDs that requests carry.
use vstd::prelude::*;

verus! {

/// The UUID that `uuid::Uuid::parse_str` reads from `text`, as its 128-bit
/// value, or `None` where it rejects the text.
pub uninterp spec fn uuid_parse(text: Seq<char>) -> Option<u128>;

/// Calls `uuid::Uuid::parse_str` and keeps the 128-bit value of the UUID
/// (`Uuid::as_u128`). The accepted textual forms are those of the crate; they
/// are named by `uuid_parse`, not written out here.
#[verifier::external_body]
fn uuid_parse_str(text: &str) -> (r: Option<u128>)
    ensures
        r == uuid_parse(text@),
{
    match uuid::Uuid::parse_str(text) {
        Ok(u) => Some(u.as_u128()),
        Err(_) => None,
    }
}

/// A request field that should hold a UUID does not.
#[derive(Debug, Clone, Copy, PartialEq, Eq)]
pub struct InvalidUuid;

/// Parses the UUID in `text`.
pub fn parse_uuid(text: &str) -> (r: Result<u128, InvalidUuid>)
    ensures
        match uuid_parse(text@) {
            Some(v) => r == Ok::<u128, InvalidUuid>(v),
            None => r is Err,
        },
{
    match uuid_parse_str(text) {
        Some(v) => Ok(v),
        None => Err(InvalidUuid),
    }
}

} // verus!
