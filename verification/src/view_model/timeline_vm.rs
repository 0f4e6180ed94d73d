//! The rows of the clip list.

use vstd::prelude::*;
use vstd::string::*;

use crate::domain::clip::Clip;
use crate::domain::codec::Resolution;
use crate::ident;
use crate::paths;
use crate::text;
use crate::time::Duration;

verus! {

/// A length in whole seconds as `MM:SS`, or as `HH:MM:SS` from an hour on.
pub open spec fn length_text(secs: int) -> Seq<char> {
    if secs >= 3600 {
        text::dec_padded((secs / 3600) as nat, 2) + ":"@ + text::dec_padded(
            (secs % 3600 / 60) as nat,
            2,
        ) + ":"@ + text::dec_padded((secs % 60) as nat, 2)
    } else {
        text::dec_padded((secs % 3600 / 60) as nat, 2) + ":"@ + text::dec_padded(
            (secs % 60) as nat,
            2,
        )
    }
}

/// A length in whole seconds; the rest of the second is dropped.
pub fn format_duration(d: Duration) -> (s: String)
    ensures
        s@ == length_text((d.nanos / 1_000_000_000) as int),
{
    let secs: u128 = d.as_secs();
    let mut s: String = String::new();
    if secs >= 3600 {
        text::push_dec_padded(&mut s, secs / 3600, 2);
        assert(s@ =~= text::dec_padded((secs / 3600) as nat, 2));
        s.append(":");
        text::push_dec_padded(&mut s, secs % 3600 / 60, 2);
    } else {
        text::push_dec_padded(&mut s, secs % 3600 / 60, 2);
        assert(s@ =~= text::dec_padded((secs % 3600 / 60) as nat, 2));
    }
    s.append(":");
    text::push_dec_padded(&mut s, secs % 60, 2);
    s
}

/// A position on the timeline; one before its start counts as the start.
pub open spec fn position_text(us: i64) -> Seq<char> {
    length_text(
        if us > 0 {
            us as int / 1_000_000
        } else {
            0
        },
    )
}

/// A position on the timeline.
pub fn format_us(us: i64) -> (s: String)
    ensures
        s@ == position_text(us),
{
    let whole: u64 = if us > 0 {
        us as u64
    } else {
        0
    };
    format_duration(Duration::from_micros(whole))
}

/// A size as `WxH`.
pub open spec fn size_text(r: Resolution) -> Seq<char> {
    text::dec(r.width as nat) + "x"@ + text::dec(r.height as nat)
}

/// A size as `WxH`.
pub fn format_size(r: Resolution) -> (s: String)
    ensures
        s@ == size_text(r),
{
    let mut s: String = String::new();
    text::push_dec(&mut s, r.width as u128);
    assert(s@ =~= text::dec(r.width as nat));
    s.append("x");
    text::push_dec(&mut s, r.height as u128);
    s
}

/// What the list shows of a clip.
#[derive(Debug)]
pub struct ClipRow {
    pub id: String,
    pub name: String,
    pub duration: String,
    pub resolution: String,
    /// The length of the source.
    pub length: Duration,
}

impl ClipRow {
    /// What the list shows of `clip`.
    pub fn from(clip: &Clip) -> (row: Self)
        ensures
            row.id@ == ident::hyphenated(clip@.id),
            row.name@ == paths::display_name_of(clip@.path),
            row.duration@ == length_text((clip@.info.duration.nanos / 1_000_000_000) as int),
            row.resolution@ == size_text(clip@.info.profile.resolution),
            row.length == clip@.info.duration,
    {
        ClipRow {
            id: ident::id_text(clip.id),
            name: paths::display_name(clip.path.as_str()),
            duration: format_duration(clip.info.duration),
            resolution: format_size(clip.info.profile.resolution),
            length: clip.info.duration,
        }
    }
}

} // verus!
