//! Edits of a playlist: split, trim and delete.

use vstd::prelude::*;
use vstd::string::*;

use crate::domain::clip::{Clip, ClipView};
use crate::domain::playlist;
use crate::domain::playlist::Playlist;
use crate::errors;
use crate::errors::{CoreError, CoreErrorView, CoreResult};
use crate::ident;
use crate::ident::ClipId;
use crate::text;
use crate::time::Duration;

verus! {

#[derive(Clone, Copy, Debug, PartialEq, Eq, Structural)]
pub enum TrimSide {
    Left,
    Right,
}

/// At least this much of a clip stays when it is trimmed.
pub const MIN_WINDOW_US: i64 = 100_000;

/// The place in the source that lies `local_us` after the clip's beginning.
pub open spec fn source_at(c: ClipView, local_us: i64) -> int {
    c.trim_in.us() + local_us
}

/// A span of so many microseconds.
pub open spec fn micros(us: i64) -> Duration {
    Duration { nanos: ((us as u64) * 1_000) as u128 }
}

fn duration_of(us: i64) -> (d: Duration)
    ensures
        d == micros(us),
{
    Duration::from_micros(us as u64)
}

/// A clip can be split strictly inside its window only.
pub open spec fn can_split(c: ClipView, local_us: i64) -> bool {
    local_us > 0 && source_at(c, local_us) < c.trim_out.us()
}

/// Why a clip cannot be split at a place; `unit` is how microseconds are
/// written.
pub open spec fn split_refusal(c: ClipView, local_us: i64, unit: Seq<char>) -> Seq<char> {
    "split at "@ + text::dec_signed(local_us as int) + unit + " outside trim window ("@
        + text::dec_signed(c.trim_in.us() as int) + ".."@ + text::dec_signed(
        c.trim_out.us() as int,
    ) + ")"@
}

pub(crate) fn split_refusal_text(c: &Clip, local_us: i64, unit: &str) -> (s: String)
    ensures
        s@ == split_refusal(c@, local_us, unit@),
{
    let mut s: String = "split at ".to_owned();
    text::push_dec_signed(&mut s, local_us);
    s.append(unit);
    s.append(" outside trim window (");
    text::push_dec_signed(&mut s, c.trim_in_us());
    s.append("..");
    text::push_dec_signed(&mut s, c.trim_out_us());
    s.append(")");
    s
}

/// What stays of a clip that is split: it ends at the split.
pub open spec fn left_half(c: ClipView, local_us: i64) -> ClipView {
    ClipView { trim_out: micros(source_at(c, local_us) as i64), ..c }
}

/// What comes after it: it begins at the split, follows the left half, and
/// shares the pictures and the waveform of the clip that was split.
pub open spec fn right_half(c: ClipView, local_us: i64, fresh: ClipId) -> ClipView {
    ClipView {
        id: fresh,
        trim_in: micros(source_at(c, local_us) as i64),
        origin_id: Some(c.asset()),
        start_us: None,
        ..c
    }
}

/// The clips after splitting the clip `id` at `local_us` after its beginning.
pub open spec fn split_clips(
    clips: Seq<ClipView>,
    id: ClipId,
    local_us: i64,
    fresh: ClipId,
) -> Result<Seq<ClipView>, CoreErrorView> {
    match playlist::index_of(clips, id) {
        None => Err(CoreErrorView::ClipNotFound(id)),
        Some(i) => if can_split(clips[i], local_us) {
            Ok(
                clips.update(i, left_half(clips[i], local_us)).insert(
                    i + 1,
                    right_half(clips[i], local_us, fresh),
                ),
            )
        } else {
            Err(CoreErrorView::InvalidTrim(split_refusal(clips[i], local_us, "us"@)))
        },
    }
}

/// Split the clip `id` at `local_us` after its beginning. The clip becomes the
/// left half; the right half follows it under a fresh identifier.
pub fn split_at(playlist: &mut Playlist, id: ClipId, local_us: i64) -> (r: CoreResult<()>)
    ensures
        exists|fresh: ClipId|
            ident::is_random_id(fresh) && errors::edited(
                r,
                old(playlist)@,
                final(playlist)@,
                #[trigger] split_clips(old(playlist)@, id, local_us, fresh),
            ),
{
    let fresh: ClipId = ident::fresh_id();
    let r: CoreResult<()> = split_at_with_id(playlist, id, local_us, fresh);
    assert(errors::edited(
        r,
        old(playlist)@,
        playlist@,
        split_clips(old(playlist)@, id, local_us, fresh),
    ));
    r
}

/// Split the clip `id` at `local_us` after its beginning; the right half gets
/// the identifier `fresh`.
pub fn split_at_with_id(
    playlist: &mut Playlist,
    id: ClipId,
    local_us: i64,
    fresh: ClipId,
) -> (r: CoreResult<()>)
    ensures
        errors::edited(
            r,
            old(playlist)@,
            final(playlist)@,
            split_clips(old(playlist)@, id, local_us, fresh),
        ),
{
    let idx: usize = match playlist.position(id) {
        Some(i) => i,
        None => return Err(CoreError::ClipNotFound(id)),
    };
    let c: &Clip = &playlist.clips()[idx];
    let at: i128 = c.trim_in_us() as i128 + local_us as i128;
    if local_us <= 0 || at >= c.trim_out_us() as i128 {
        return Err(CoreError::InvalidTrim(split_refusal_text(c, local_us, "us")));
    }
    let cut: Duration = duration_of(at as i64);
    let mut left: Clip = c.clone();
    let mut right: Clip = c.clone();
    left.trim_out = cut;
    right.id = fresh;
    right.trim_in = cut;
    right.origin_id = Some(c.asset_id());
    right.start_us = None;
    playlist.replace(idx, left);
    playlist.insert(idx + 1, right)
}

/// `x` brought between `low` and `high`.
pub open spec fn clamp(x: int, low: int, high: int) -> int {
    if x < low {
        low
    } else if x > high {
        high
    } else {
        x
    }
}

/// Where a clip may begin at the latest.
pub open spec fn latest_in(c: ClipView) -> int {
    if c.trim_out.us() - MIN_WINDOW_US > 0 {
        c.trim_out.us() - MIN_WINDOW_US
    } else {
        0
    }
}

/// Where a clip may end at the earliest.
pub open spec fn earliest_out(c: ClipView) -> int {
    if c.trim_in.us() + MIN_WINDOW_US < c.info.duration.us() {
        c.trim_in.us() + MIN_WINDOW_US
    } else {
        c.info.duration.us() as int
    }
}

/// A clip with one of its ends moved to `new_source_us` in the source, as far
/// as the source and the least window allow.
pub open spec fn trimmed(c: ClipView, side: TrimSide, new_source_us: i64) -> ClipView {
    match side {
        TrimSide::Left => ClipView {
            trim_in: micros(clamp(new_source_us as int, 0, latest_in(c)) as i64),
            ..c
        },
        TrimSide::Right => ClipView {
            trim_out: micros(
                clamp(new_source_us as int, earliest_out(c), c.info.duration.us() as int) as i64,
            ),
            ..c
        },
    }
}

/// The new place of the trimmed end.
pub(crate) fn trim_clip(c: &mut Clip, side: TrimSide, new_source_us: i64)
    ensures
        final(c)@ == trimmed(old(c)@, side, new_source_us),
{
    match side {
        TrimSide::Left => {
            let room: i128 = c.trim_out_us() as i128 - MIN_WINDOW_US as i128;
            let max: i64 = if room > 0 {
                room as i64
            } else {
                0
            };
            let new: i64 = if new_source_us < 0 {
                0
            } else if new_source_us > max {
                max
            } else {
                new_source_us
            };
            c.trim_in = duration_of(new);
        },
        TrimSide::Right => {
            let source: i64 = c.source_duration_us();
            let least: i128 = c.trim_in_us() as i128 + MIN_WINDOW_US as i128;
            let min: i64 = if least < source as i128 {
                least as i64
            } else {
                source
            };
            let new: i64 = if new_source_us < min {
                min
            } else if new_source_us > source {
                source
            } else {
                new_source_us
            };
            c.trim_out = duration_of(new);
        },
    }
}

/// The clips after trimming the clip `id`.
pub open spec fn trim_clips(
    clips: Seq<ClipView>,
    id: ClipId,
    side: TrimSide,
    new_source_us: i64,
) -> Result<Seq<ClipView>, CoreErrorView> {
    match playlist::index_of(clips, id) {
        None => Err(CoreErrorView::ClipNotFound(id)),
        Some(i) => Ok(clips.update(i, trimmed(clips[i], side, new_source_us))),
    }
}

/// Move one end of the clip `id` to `new_source_us` in its source, as far as
/// allowed.
pub fn trim(
    playlist: &mut Playlist,
    id: ClipId,
    side: TrimSide,
    new_source_us: i64,
) -> (r: CoreResult<()>)
    ensures
        errors::edited(
            r,
            old(playlist)@,
            final(playlist)@,
            trim_clips(old(playlist)@, id, side, new_source_us),
        ),
{
    let idx: usize = match playlist.position(id) {
        Some(i) => i,
        None => return Err(CoreError::ClipNotFound(id)),
    };
    let mut c: Clip = playlist.clips()[idx].clone();
    trim_clip(&mut c, side, new_source_us);
    playlist.replace(idx, c);
    Ok(())
}

/// Take out the clip `id`; the clips after it move up.
pub fn ripple_delete(playlist: &mut Playlist, id: ClipId) -> (r: CoreResult<Clip>)
    ensures
        match playlist::index_of(old(playlist)@, id) {
            Some(i) => r matches Ok(c) && c@ == old(playlist)@[i] && final(playlist)@
                == old(playlist)@.remove(i),
            None => r matches Err(e) && e@ == CoreErrorView::ClipNotFound(id)
                && final(playlist)@ == old(playlist)@,
        },
        r matches Ok(c) ==> c@.id == id && final(playlist)@.len() == old(playlist)@.len() - 1
            && forall|j: int|
            0 <= j < final(playlist)@.len() ==> #[trigger] final(playlist)@[j] == old(playlist)@[j]
                || final(playlist)@[j] == old(playlist)@[j + 1],
{
    playlist.remove(id)
}

/// A split loses nothing: both halves play, and together as long as the clip
/// did.
pub proof fn lemma_split_keeps_length(c: ClipView, local_us: i64, fresh: ClipId)
    requires
        c.fits_timeline(),
        can_split(c, local_us),
    ensures
        left_half(c, local_us).length().nanos > 0,
        right_half(c, local_us, fresh).length().nanos > 0,
        left_half(c, local_us).length().nanos + right_half(c, local_us, fresh).length().nanos
            == c.length().nanos,
{
    let at = source_at(c, local_us) as i64;
    assert(c.trim_in.us() == c.trim_in.nanos / 1_000);
    assert(c.trim_out.us() == c.trim_out.nanos / 1_000);
    assert(micros(at).nanos == at * 1_000);
}

/// The halves of a split show the same source, and the right half has the
/// pictures and the waveform of the clip that was split, however often that
/// had been split before.
pub proof fn lemma_split_keeps_source(c: ClipView, local_us: i64, fresh: ClipId)
    ensures
        left_half(c, local_us).path == c.path,
        right_half(c, local_us, fresh).path == c.path,
        left_half(c, local_us).asset() == c.asset(),
        right_half(c, local_us, fresh).asset() == c.asset(),
        left_half(c, local_us).start_us == c.start_us,
        right_half(c, local_us, fresh).start_us is None,
{
}

/// Whatever place is asked for, a trim never turns a window inside out, and it
/// leaves the least window where the source has room for one.
pub proof fn lemma_trim_keeps_window(c: ClipView, side: TrimSide, new_source_us: i64)
    requires
        c.fits_timeline(),
        c.trim_in.us() <= c.trim_out.us() <= c.info.duration.us(),
    ensures
        ({
            let t = trimmed(c, side, new_source_us);
            &&& 0 <= t.trim_in.us() <= t.trim_out.us() <= t.info.duration.us()
            &&& (side == TrimSide::Left && c.trim_out.us() >= MIN_WINDOW_US ==> t.trim_out.us()
                - t.trim_in.us() >= MIN_WINDOW_US)
            &&& (side == TrimSide::Right && c.info.duration.us() - c.trim_in.us()
                >= MIN_WINDOW_US ==> t.trim_out.us() - t.trim_in.us() >= MIN_WINDOW_US)
        }),
{
    let t = trimmed(c, side, new_source_us);
    assert(0 <= c.trim_in.us() && 0 <= c.trim_out.us() && 0 <= c.info.duration.us());
    match side {
        TrimSide::Left => {
            let new = clamp(new_source_us as int, 0, latest_in(c)) as i64;
            assert(t.trim_in.nanos / 1_000 == new);
        },
        TrimSide::Right => {
            let new = clamp(
                new_source_us as int,
                earliest_out(c),
                c.info.duration.us() as int,
            ) as i64;
            assert(t.trim_out.nanos / 1_000 == new);
        },
    }
}

} // verus!
