//! The progress lines that ffmpeg prints.

use vstd::prelude::*;

use crate::text;

verus! {

/// What stands before the time on a progress line.
pub open spec fn time_key() -> Seq<char> {
    "out_time_us="@
}

/// The microseconds that a progress line tells, if it tells any.
pub open spec fn time_on(line: Seq<char>) -> Option<u64> {
    if time_key().is_prefix_of(line) {
        text::parsed_u64(text::trimmed(line.skip(time_key().len() as int)))
    } else {
        None
    }
}

/// The microseconds of output that a progress line tells.
pub fn progress_us(line: &str) -> (r: Option<u64>)
    ensures
        r == time_on(line@),
{
    let key: Vec<char> = text::chars_of("out_time_us=");
    let chars: Vec<char> = text::chars_of(line);
    if !text::starts_with(&chars, &key) {
        return None;
    }
    let (from, to): (usize, usize) = text::trim_bounds(&chars, key.len());
    assert(line@.skip(key@.len() as int) =~= chars@.subrange(
        key@.len() as int,
        chars@.len() as int,
    ));
    text::parse_u64(&chars, from, to)
}

} // verus!
