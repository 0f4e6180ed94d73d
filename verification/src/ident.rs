//! Identifiers of clips, tracks and jobs.
//!
//! An identifier is the 128-bit value of a UUID. The `uuid` crate draws new
//! ones, writes them and reads them back.

use vstd::arithmetic::power2::pow2;
use vstd::prelude::*;

verus! {

pub type ClipId = u128;

pub type TrackId = u128;

pub type JobId = u128;

/// A random (version 4) UUID of the RFC 4122 variant.
pub open spec fn is_random_id(id: u128) -> bool {
    &&& (id / 0x1000_0000_0000_0000_0000) % 16 == 4
    &&& (id / 0x4000_0000_0000_0000) % 4 == 2
}

/// A random identifier is never the nil one.
pub proof fn lemma_random_id_is_not_nil(id: u128)
    requires
        is_random_id(id),
    ensures
        id != 0,
{
}

/// `uuid::Uuid::new_v4` draws a random UUID. Whatever is drawn, its version
/// field is 4 and its variant bits are `10`; which of those UUIDs it is, is
/// left to chance.
#[verifier::external_body]
pub(crate) fn fresh_id() -> (id: u128)
    ensures
        is_random_id(id),
{
    uuid::Uuid::new_v4().as_u128()
}

/// The lower-case hexadecimal digit `d`, for `d` below sixteen.
pub open spec fn hex_digit(d: int) -> char {
    if d < 10 {
        crate::text::digit(d)
    } else if d == 10 {
        'a'
    } else if d == 11 {
        'b'
    } else if d == 12 {
        'c'
    } else if d == 13 {
        'd'
    } else if d == 14 {
        'e'
    } else {
        'f'
    }
}

/// The `n`-th of the 32 hexadecimal digits of `id`, counted from the left.
pub open spec fn nibble(id: u128, n: int) -> int {
    (id as int / pow2((4 * (31 - n)) as nat) as int) % 16
}

/// `id` in the usual form of a UUID: 32 hexadecimal digits in groups of 8, 4,
/// 4, 4 and 12 with hyphens between them.
pub open spec fn hyphenated(id: u128) -> Seq<char> {
    Seq::new(
        36,
        |i: int|
            if i == 8 || i == 13 || i == 18 || i == 23 {
                '-'
            } else if i < 8 {
                hex_digit(nibble(id, i))
            } else if i < 13 {
                hex_digit(nibble(id, i - 1))
            } else if i < 18 {
                hex_digit(nibble(id, i - 2))
            } else if i < 23 {
                hex_digit(nibble(id, i - 3))
            } else {
                hex_digit(nibble(id, i - 4))
            },
    )
}

/// The `Display` of `uuid::Uuid`, which `to_string` runs, writes the UUID
/// hyphenated and in lower case.
#[verifier::external_body]
pub(crate) fn id_text(id: u128) -> (s: String)
    ensures
        s@ == hyphenated(id),
{
    uuid::Uuid::from_u128(id).to_string()
}

/// What `uuid::Uuid::parse_str` makes of a text: the UUID's value, or nothing
/// where the text is no UUID.
pub uninterp spec fn parsed_id(s: Seq<char>) -> Option<u128>;

/// `uuid::Uuid::parse_str` reads a UUID in any of its written forms. It takes
/// back the hyphenated form that [`id_text`] writes, and no form is shorter
/// than 32 characters.
#[verifier::external_body]
pub(crate) fn parse_id(s: &str) -> (id: Option<u128>)
    ensures
        id == parsed_id(s@),
        forall|of: u128| s@ == #[trigger] hyphenated(of) ==> id == Some(of),
        s@.len() < 8 ==> id is None,
{
    uuid::Uuid::parse_str(s).ok().map(|u| u.as_u128())
}

} // verus!
