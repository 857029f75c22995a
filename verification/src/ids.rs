//! Identifiers: 128-bit values, written by callers in the usual textual forms
//! and assigned by the system when a row is created.
use vstd::prelude::*;

verus! {

/// What `uuid::Uuid::parse_str` makes of a text: the identifier it denotes,
/// or `None` where the text is not an identifier.
pub uninterp spec fn parsed_id(text: Seq<char>) -> Option<u128>;

/// Whether an identifier is marked as drawn at random: version 4 of the
/// variant that RFC 9562 defines.
pub open spec fn is_random_id(id: u128) -> bool {
    id & 0x0000_0000_0000_f000_c000_0000_0000_0000 == 0x0000_0000_0000_4000_8000_0000_0000_0000
}

/// Reads an identifier with `uuid::Uuid::parse_str`.
///
/// Trusted: the result is a function of the text alone, `None` standing for
/// every text that the parser rejects.
#[verifier::external_body]
pub(crate) fn parse_id(text: &str) -> (id: Option<u128>)
    ensures
        id == parsed_id(text@),
{
    match uuid::Uuid::parse_str(text) {
        Ok(parsed) => Some(parsed.as_u128()),
        Err(_) => None,
    }
}

/// Draws an identifier with `uuid::Uuid::new_v4`, which panics where the
/// operating system has no random bytes to give.
///
/// Trusted: the value is random but for the six bits that mark it as such.
#[verifier::external_body]
pub(crate) fn new_id() -> (id: u128)
    ensures
        is_random_id(id),
{
    uuid::Uuid::new_v4().as_u128()
}

} // verus!
