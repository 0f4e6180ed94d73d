//! Edits of a project with several tracks: split, trim, delete, move, insert
//! and append. Gaps between the clips of a track are allowed, overlaps are
//! not.

use vstd::prelude::*;
use vstd::string::*;

use super::timeline_ops;
use super::timeline_ops::TrimSide;
use crate::domain::clip::{Clip, ClipView};
use crate::domain::project;
use crate::domain::project::{Project, Track, TrackClip, TrackClipView, TrackView};
use crate::errors;
use crate::errors::{CoreError, CoreErrorView, CoreResult};
use crate::ident;
use crate::ident::ClipId;
use crate::sorting;
use crate::text;
use crate::time::Duration;

verus! {

/// The tracks with other clips on the `ti`-th one.
pub open spec fn with_clips(
    tracks: Seq<TrackView>,
    ti: int,
    clips: Seq<TrackClipView>,
) -> Seq<TrackView> {
    tracks.update(ti, TrackView { clips, ..tracks[ti] })
}

/// The right half of a split: it begins at the split.
pub open spec fn right_half_mt(c: ClipView, local_us: i64, fresh: ClipId) -> ClipView {
    ClipView {
        id: fresh,
        trim_in: timeline_ops::micros(timeline_ops::source_at(c, local_us) as i64),
        ..c
    }
}

/// The clips of a track after splitting the `ci`-th one. The right half starts
/// where the left one ends.
pub open spec fn split_placed(
    clips: Seq<TrackClipView>,
    ci: int,
    local_us: i64,
    fresh: ClipId,
) -> Seq<TrackClipView> {
    let tc = clips[ci];
    clips.update(
        ci,
        TrackClipView { clip: timeline_ops::left_half(tc.clip, local_us), ..tc },
    ).insert(
        ci + 1,
        TrackClipView {
            clip: right_half_mt(tc.clip, local_us, fresh),
            start_us: (tc.start_us + local_us) as i64,
        },
    )
}

/// The tracks after splitting the clip `id` at `local_us` after its beginning.
pub open spec fn split_tracks(
    tracks: Seq<TrackView>,
    id: ClipId,
    local_us: i64,
    fresh: ClipId,
) -> Result<Seq<TrackView>, CoreErrorView> {
    match project::find(tracks, id) {
        None => Err(CoreErrorView::ClipNotFound(id)),
        Some((ti, ci)) => if timeline_ops::can_split(tracks[ti].clips[ci].clip, local_us) {
            Ok(with_clips(tracks, ti, split_placed(tracks[ti].clips, ci, local_us, fresh)))
        } else {
            Err(
                CoreErrorView::InvalidTrim(
                    timeline_ops::split_refusal(tracks[ti].clips[ci].clip, local_us, "µs"@),
                ),
            )
        },
    }
}

/// The place of the split fits the timeline.
pub open spec fn split_fits(tracks: Seq<TrackView>, id: ClipId, local_us: i64) -> bool {
    match project::find(tracks, id) {
        None => true,
        Some((ti, ci)) => timeline_ops::can_split(tracks[ti].clips[ci].clip, local_us)
            ==> tracks[ti].clips[ci].start_us + local_us <= i64::MAX,
    }
}

/// Split the clip `clip_id` at `local_us` after its beginning. The right half
/// follows on the same track, under a fresh identifier.
pub fn split_at_mt(project: &mut Project, clip_id: ClipId, local_us: i64) -> (r: CoreResult<()>)
    requires
        split_fits(old(project)@.tracks, clip_id, local_us),
    ensures
        exists|fresh: ClipId|
            ident::is_random_id(fresh) && errors::edited(
                r,
                old(project)@.tracks,
                final(project)@.tracks,
                #[trigger] split_tracks(old(project)@.tracks, clip_id, local_us, fresh),
            ),
{
    let fresh: ClipId = ident::fresh_id();
    let r: CoreResult<()> = split_at_mt_with_id(project, clip_id, local_us, fresh);
    assert(errors::edited(
        r,
        old(project)@.tracks,
        project@.tracks,
        split_tracks(old(project)@.tracks, clip_id, local_us, fresh),
    ));
    r
}

/// Split the clip `clip_id` at `local_us` after its beginning; the right half
/// gets the identifier `fresh`.
pub fn split_at_mt_with_id(
    project: &mut Project,
    clip_id: ClipId,
    local_us: i64,
    fresh: ClipId,
) -> (r: CoreResult<()>)
    requires
        split_fits(old(project)@.tracks, clip_id, local_us),
    ensures
        errors::edited(
            r,
            old(project)@.tracks,
            final(project)@.tracks,
            split_tracks(old(project)@.tracks, clip_id, local_us, fresh),
        ),
{
    let (ti, ci): (usize, usize) = match project.find_clip(clip_id) {
        Some(p) => p,
        None => return Err(CoreError::ClipNotFound(clip_id)),
    };
    let tc: &TrackClip = &project.tracks[ti].clips[ci];
    assert(tc@ == old(project)@.tracks[ti as int].clips[ci as int]);
    let at: i128 = tc.clip.trim_in_us() as i128 + local_us as i128;
    if local_us <= 0 || at >= tc.clip.trim_out_us() as i128 {
        return Err(
            CoreError::InvalidTrim(timeline_ops::split_refusal_text(&tc.clip, local_us, "µs")),
        );
    }
    let cut: Duration = Duration::from_micros(at as i64 as u64);
    let mut left: TrackClip = tc.clone();
    let mut right: TrackClip = tc.clone();
    left.clip.trim_out = cut;
    right.clip.id = fresh;
    right.clip.trim_in = cut;
    right.start_us = tc.start_us + local_us;
    let count: usize = project.tracks[ti].clips.len();
    assert(ci < count);
    project.tracks[ti].clips.set(ci, left);
    project.tracks[ti].clips.insert(ci + 1, right);
    proof {
        let was = old(project)@.tracks;
        assert(project@.tracks[ti as int].clips =~= split_placed(
            was[ti as int].clips,
            ci as int,
            local_us,
            fresh,
        ));
        assert(project@.tracks =~= with_clips(
            was,
            ti as int,
            split_placed(was[ti as int].clips, ci as int, local_us, fresh),
        ));
    }
    Ok(())
}

/// A clip on a track with one of its ends moved. Where the beginning moves, the
/// place on the timeline moves with it, so that the other end stays.
pub open spec fn trimmed_placed(
    tc: TrackClipView,
    side: TrimSide,
    new_source_us: i64,
) -> TrackClipView {
    let clip = timeline_ops::trimmed(tc.clip, side, new_source_us);
    TrackClipView { clip, start_us: trimmed_start(tc, side, new_source_us) as i64 }
}

pub open spec fn trimmed_start(tc: TrackClipView, side: TrimSide, new_source_us: i64) -> int {
    match side {
        TrimSide::Left => tc.start_us + timeline_ops::clamp(
            new_source_us as int,
            0,
            timeline_ops::latest_in(tc.clip),
        ) - tc.clip.trim_in.us(),
        TrimSide::Right => tc.start_us as int,
    }
}

/// The tracks after trimming the clip `id`. A trim that would make the clip
/// overlap another one on its track is refused.
pub open spec fn trim_tracks(
    tracks: Seq<TrackView>,
    id: ClipId,
    side: TrimSide,
    new_source_us: i64,
) -> Result<Seq<TrackView>, CoreErrorView> {
    match project::find(tracks, id) {
        None => Err(CoreErrorView::ClipNotFound(id)),
        Some((ti, ci)) => {
            let clips = tracks[ti].clips;
            let new = trimmed_placed(clips[ci], side, new_source_us);
            if project::overlaps_any(
                clips,
                new.start_us as int,
                new.clip.dur_us() as int,
                Some(id),
            ) {
                Err(
                    CoreErrorView::InvalidTrim(
                        "clip would overlap an existing clip on this track"@,
                    ),
                )
            } else {
                Ok(with_clips(tracks, ti, clips.update(ci, new)))
            }
        },
    }
}

/// The new place of the trimmed clip fits the timeline.
pub open spec fn trim_fits(
    tracks: Seq<TrackView>,
    id: ClipId,
    side: TrimSide,
    new_source_us: i64,
) -> bool {
    match project::find(tracks, id) {
        None => true,
        Some((ti, ci)) => i64::MIN <= trimmed_start(tracks[ti].clips[ci], side, new_source_us)
            <= i64::MAX,
    }
}

/// Move one end of the clip `clip_id` to `new_source_us` in its source, as far
/// as its source allows. A trim into another clip of the track is refused.
pub fn trim_mt(
    project: &mut Project,
    clip_id: ClipId,
    side: TrimSide,
    new_source_us: i64,
) -> (r: CoreResult<()>)
    requires
        trim_fits(old(project)@.tracks, clip_id, side, new_source_us),
    ensures
        errors::edited(
            r,
            old(project)@.tracks,
            final(project)@.tracks,
            trim_tracks(old(project)@.tracks, clip_id, side, new_source_us),
        ),
{
    let (ti, ci): (usize, usize) = match project.find_clip(clip_id) {
        Some(p) => p,
        None => return Err(CoreError::ClipNotFound(clip_id)),
    };
    let mut tc: TrackClip = project.tracks[ti].clips[ci].clone();
    let ghost was = old(project)@.tracks[ti as int].clips[ci as int];
    assert(tc@ == was);
    match side {
        TrimSide::Left => {
            let room: i128 = tc.clip.trim_out_us() as i128 - timeline_ops::MIN_WINDOW_US as i128;
            let max: i128 = if room > 0 {
                room
            } else {
                0
            };
            let new: i128 = if new_source_us < 0 {
                0
            } else if new_source_us as i128 > max {
                max
            } else {
                new_source_us as i128
            };
            let start: i128 = tc.start_us as i128 + new - tc.clip.trim_in_us() as i128;
            tc.start_us = start as i64;
        },
        TrimSide::Right => {},
    }
    timeline_ops::trim_clip(&mut tc.clip, side, new_source_us);
    assert(tc@ =~= trimmed_placed(was, side, new_source_us));
    let dur_us: i64 = tc.clip.effective_duration_us();
    if project.tracks[ti].would_overlap(tc.start_us, dur_us, Some(clip_id)) {
        return Err(
            CoreError::InvalidTrim("clip would overlap an existing clip on this track".to_owned()),
        );
    }
    project.tracks[ti].clips.set(ci, tc);
    proof {
        let clips = old(project)@.tracks[ti as int].clips.update(
            ci as int,
            trimmed_placed(was, side, new_source_us),
        );
        assert(project@.tracks[ti as int].clips =~= clips);
        assert(project@.tracks =~= with_clips(old(project)@.tracks, ti as int, clips));
    }
    Ok(())
}

/// A clip moved `gap` to the left, though not past the start of the timeline,
/// where it does not start before `from`.
pub open spec fn slid(tc: TrackClipView, from: int, gap: int) -> TrackClipView {
    if tc.start_us >= from {
        TrackClipView {
            start_us: (if tc.start_us - gap > 0 {
                tc.start_us - gap
            } else {
                0
            }) as i64,
            ..tc
        }
    } else {
        tc
    }
}

/// The clips of a track after deleting the `ci`-th one: those behind it on the
/// timeline close the gap.
pub open spec fn rippled(clips: Seq<TrackClipView>, ci: int) -> Seq<TrackClipView> {
    let gone = clips[ci];
    let rest = clips.remove(ci);
    Seq::new(
        rest.len(),
        |i: int| slid(rest[i], gone.start_us as int, gone.clip.dur_us() as int),
    )
}

/// Delete the clip `clip_id`, and move the clips behind it on the same track
/// left by its length.
pub fn ripple_delete_mt(project: &mut Project, clip_id: ClipId) -> (r: CoreResult<Clip>)
    ensures
        match project::find(old(project)@.tracks, clip_id) {
            None => r matches Err(e) && e@ == CoreErrorView::ClipNotFound(clip_id)
                && final(project)@ == old(project)@,
            Some((ti, ci)) => r matches Ok(c) && c@ == old(project)@.tracks[ti].clips[ci].clip
                && final(project)@.tracks == with_clips(
                old(project)@.tracks,
                ti,
                rippled(old(project)@.tracks[ti].clips, ci),
            ),
        },
{
    let (ti, ci): (usize, usize) = match project.find_clip(clip_id) {
        Some(p) => p,
        None => return Err(CoreError::ClipNotFound(clip_id)),
    };
    let ghost was = old(project)@.tracks[ti as int].clips;
    let removed: TrackClip = project.tracks[ti].clips.remove(ci);
    assert(removed@ == was[ci as int]);
    let gap: i128 = removed.clip.effective_duration_us() as i128;
    let from: i64 = removed.start_us;
    let ghost gone = was[ci as int];
    let mut i: usize = 0;
    let n: usize = project.tracks[ti].clips.len();
    let ghost rest = was.remove(ci as int);
    assert(forall|k: int|
        0 <= k < n ==> (#[trigger] project.tracks@[ti as int].clips@[k])@ == rest[k]);
    let ghost base = project.tracks@;
    while i < n
        invariant
            i <= n,
            ti < project.tracks@.len(),
            project.tracks@.len() == base.len(),
            forall|t: int| 0 <= t < base.len() && t != ti ==> project.tracks@[t] == base[t],
            project.tracks@[ti as int] == (Track {
                clips: project.tracks@[ti as int].clips,
                ..base[ti as int]
            }),
            project.tracks@[ti as int].clips@.len() == n,
            ci < was.len(),
            was.len() == n + 1,
            rest == was.remove(ci as int),
            gone == was[ci as int],
            from == gone.start_us,
            gap == gone.clip.dur_us(),
            forall|k: int|
                0 <= k < i ==> (#[trigger] project.tracks@[ti as int].clips@[k])@ == rippled(
                    was,
                    ci as int,
                )[k],
            forall|k: int|
                i <= k < n ==> (#[trigger] project.tracks@[ti as int].clips@[k])@ == rest[k],
        decreases n - i,
    {
        let start: i64 = project.tracks[ti].clips[i].start_us;
        if start >= from {
            let moved: i128 = start as i128 - gap;
            let new: i64 = (if moved > 0 {
                moved
            } else {
                0
            }) as i64;
            project.tracks[ti].clips[i].start_us = new;
        }
        i = i + 1;
    }
    proof {
        assert(project@.tracks[ti as int].clips =~= rippled(was, ci as int));
        let expected = with_clips(old(project)@.tracks, ti as int, rippled(was, ci as int));
        assert forall|t: int| 0 <= t < expected.len() implies #[trigger] project@.tracks[t]
            == expected[t] by {
            assert(base[t].name == old(project).tracks@[t].name);
            assert(project@.tracks[t] =~= expected[t]);
        }
        assert(project@.tracks =~= with_clips(
            old(project)@.tracks,
            ti as int,
            rippled(was, ci as int),
        ));
    }
    Ok(removed.clip)
}

/// A place on the timeline: nothing starts before its start.
pub open spec fn on_timeline(start_us: i64) -> i64 {
    if start_us > 0 {
        start_us
    } else {
        0
    }
}

fn not_before_start(start_us: i64) -> (r: i64)
    ensures
        r == on_timeline(start_us),
{
    if start_us > 0 {
        start_us
    } else {
        0
    }
}

/// Why a clip cannot be moved, if it cannot: it may not overlap another one
/// where it comes to lie.
pub open spec fn move_refusal(
    tracks: Seq<TrackView>,
    id: ClipId,
    to: int,
    new_start_us: i64,
) -> Option<CoreErrorView> {
    if to >= tracks.len() {
        Some(
            CoreErrorView::InvalidTrim(
                "target track index "@ + text::dec(to as nat) + " out of range (have "@
                    + text::dec(tracks.len()) + " tracks)"@,
            ),
        )
    } else {
        match project::find(tracks, id) {
            None => Some(CoreErrorView::ClipNotFound(id)),
            Some((from, ci)) => if project::overlaps_any(
                tracks[to].clips,
                on_timeline(new_start_us) as int,
                tracks[from].clips[ci].clip.dur_us() as int,
                if from == to {
                    Some(id)
                } else {
                    None
                },
            ) {
                Some(
                    CoreErrorView::InvalidTrim(
                        "clip would overlap an existing clip on the target track"@,
                    ),
                )
            } else {
                None
            },
        }
    }
}

/// `new` are the tracks after the clip `id` was moved to track `to`. On its own
/// track it only gets another place; on another track it is put in order.
pub open spec fn moved(
    new: Seq<TrackView>,
    tracks: Seq<TrackView>,
    id: ClipId,
    to: int,
    new_start_us: i64,
) -> bool {
    match project::find(tracks, id) {
        None => false,
        Some((from, ci)) => {
            let placed = TrackClipView {
                start_us: on_timeline(new_start_us),
                ..tracks[from].clips[ci]
            };
            if from == to {
                new == with_clips(tracks, from, tracks[from].clips.update(ci, placed))
            } else {
                &&& new == with_clips(
                    with_clips(tracks, from, tracks[from].clips.remove(ci)),
                    to,
                    new[to].clips,
                )
                &&& sorting::stably_sorted(
                    new[to].clips,
                    tracks[to].clips.push(placed),
                    project::by_start(),
                )
            }
        },
    }
}

/// Move the clip `clip_id` to `new_start_us` on the track `to_track`.
pub fn move_clip(
    project: &mut Project,
    clip_id: ClipId,
    to_track: usize,
    new_start_us: i64,
) -> (r: CoreResult<()>)
    ensures
        match move_refusal(old(project)@.tracks, clip_id, to_track as int, new_start_us) {
            Some(e) => r matches Err(x) && x@ == e && final(project)@ == old(project)@,
            None => r is Ok && moved(
                final(project)@.tracks,
                old(project)@.tracks,
                clip_id,
                to_track as int,
                new_start_us,
            ),
        },
{
    let n: usize = project.tracks.len();
    if to_track >= n {
        let mut why: String = "target track index ".to_owned();
        text::push_dec(&mut why, to_track as u128);
        why.append(" out of range (have ");
        text::push_dec(&mut why, n as u128);
        why.append(" tracks)");
        return Err(CoreError::InvalidTrim(why));
    }
    let (from, ci): (usize, usize) = match project.find_clip(clip_id) {
        Some(p) => p,
        None => return Err(CoreError::ClipNotFound(clip_id)),
    };
    let ghost was = old(project)@.tracks;
    let dur_us: i64 = project.tracks[from].clips[ci].clip.effective_duration_us();
    assert(dur_us == was[from as int].clips[ci as int].clip.dur_us());
    let exclude: Option<ClipId> = if from == to_track {
        Some(clip_id)
    } else {
        None
    };
    let start_us: i64 = not_before_start(new_start_us);
    if project.tracks[to_track].would_overlap(start_us, dur_us, exclude) {
        return Err(
            CoreError::InvalidTrim(
                "clip would overlap an existing clip on the target track".to_owned(),
            ),
        );
    }
    let ghost placed = TrackClipView {
        start_us: on_timeline(new_start_us),
        ..was[from as int].clips[ci as int]
    };
    if from == to_track {
        let mut tc: TrackClip = project.tracks[from].clips[ci].clone();
        tc.start_us = start_us;
        project.tracks[from].clips.set(ci, tc);
        proof {
            let clips = was[from as int].clips.update(ci as int, placed);
            assert(project@.tracks[from as int].clips =~= clips);
            assert(project@.tracks =~= with_clips(was, from as int, clips));
        }
    } else {
        let mut tc: TrackClip = project.tracks[from].clips.remove(ci);
        tc.start_us = start_us;
        assert(tc@ =~= placed);
        project.tracks[to_track].clips.push(tc);
        assert(project@.tracks[to_track as int].clips =~= was[to_track as int].clips.push(placed));
        project.tracks[to_track].sort_clips();
        proof {
            let cut = was[from as int].clips.remove(ci as int);
            assert(project@.tracks[from as int].clips =~= cut);
            assert(project@.tracks =~= with_clips(
                with_clips(was, from as int, cut),
                to_track as int,
                project@.tracks[to_track as int].clips,
            ));
        }
    }
    Ok(())
}

/// Why a clip of length `dur_us` cannot be put on a track, if it cannot: it may
/// not overlap another one where it comes to lie.
pub open spec fn insert_refusal(
    tracks: Seq<TrackView>,
    track_idx: int,
    dur_us: i64,
    start_us: i64,
) -> Option<CoreErrorView> {
    if track_idx >= tracks.len() {
        Some(
            CoreErrorView::InvalidTrim(
                "track index "@ + text::dec(track_idx as nat) + " out of range"@,
            ),
        )
    } else if project::overlaps_any(
        tracks[track_idx].clips,
        on_timeline(start_us) as int,
        dur_us as int,
        None,
    ) {
        Some(CoreErrorView::InvalidTrim("clip would overlap an existing clip on this track"@))
    } else {
        None
    }
}

/// `new` are the tracks with the clip put on one of them, in order.
pub open spec fn inserted(
    new: Seq<TrackView>,
    tracks: Seq<TrackView>,
    track_idx: int,
    clip: ClipView,
    start_us: i64,
) -> bool {
    &&& new == with_clips(tracks, track_idx, new[track_idx].clips)
    &&& sorting::stably_sorted(
        new[track_idx].clips,
        tracks[track_idx].clips.push(TrackClipView { clip, start_us: on_timeline(start_us) }),
        project::by_start(),
    )
}

fn bad_track(track_idx: usize) -> (e: CoreError)
    ensures
        e@ == CoreErrorView::InvalidTrim(
            "track index "@ + text::dec(track_idx as nat) + " out of range"@,
        ),
{
    let mut why: String = "track index ".to_owned();
    text::push_dec(&mut why, track_idx as u128);
    why.append(" out of range");
    CoreError::InvalidTrim(why)
}

/// Put a clip at `start_us` on a track.
pub fn insert_clip(
    project: &mut Project,
    track_idx: usize,
    clip: Clip,
    start_us: i64,
) -> (r: CoreResult<()>)
    ensures
        match insert_refusal(old(project)@.tracks, track_idx as int, clip@.dur_us(), start_us) {
            Some(e) => r matches Err(x) && x@ == e && final(project)@ == old(project)@,
            None => r is Ok && inserted(
                final(project)@.tracks,
                old(project)@.tracks,
                track_idx as int,
                clip@,
                start_us,
            ),
        },
{
    if track_idx >= project.tracks.len() {
        return Err(bad_track(track_idx));
    }
    let ghost was = old(project)@.tracks;
    let dur_us: i64 = clip.effective_duration_us();
    let at_us: i64 = not_before_start(start_us);
    if project.tracks[track_idx].would_overlap(at_us, dur_us, None) {
        return Err(
            CoreError::InvalidTrim("clip would overlap an existing clip on this track".to_owned()),
        );
    }
    let ghost placed = TrackClipView { clip: clip@, start_us: on_timeline(start_us) };
    let tc: TrackClip = TrackClip { clip, start_us: at_us };
    project.tracks[track_idx].clips.push(tc);
    assert(project@.tracks[track_idx as int].clips =~= was[track_idx as int].clips.push(placed));
    project.tracks[track_idx].sort_clips();
    assert(project@.tracks =~= with_clips(
        was,
        track_idx as int,
        project@.tracks[track_idx as int].clips,
    ));
    Ok(())
}

/// Put a clip behind the last one on a track.
pub fn append_clip(project: &mut Project, track_idx: usize, clip: Clip) -> (r: CoreResult<()>)
    requires
        track_idx < old(project)@.tracks.len() ==> project::ends_fit(
            old(project)@.tracks[track_idx as int].clips,
        ),
    ensures
        if track_idx >= old(project)@.tracks.len() {
            r matches Err(x) && x@ == CoreErrorView::InvalidTrim(
                "track index "@ + text::dec(track_idx as nat) + " out of range"@,
            ) && final(project)@ == old(project)@
        } else {
            r is Ok && exists|end: i64|
                project::is_latest_end(
                    old(project)@.tracks[track_idx as int].clips,
                    end as int,
                ) && #[trigger] inserted(
                    final(project)@.tracks,
                    old(project)@.tracks,
                    track_idx as int,
                    clip@,
                    end,
                )
        },
{
    if track_idx >= project.tracks.len() {
        return Err(bad_track(track_idx));
    }
    assert(project.tracks@[track_idx as int]@ == project@.tracks[track_idx as int]);
    let end: i64 = project.tracks[track_idx].duration_us();
    insert_clip(project, track_idx, clip, end)
}

/// Putting a clip where it overlaps none keeps the clips of a track apart.
pub proof fn lemma_insert_keeps_clips_apart(
    new: Seq<TrackClipView>,
    clips: Seq<TrackClipView>,
    clip: ClipView,
    start_us: i64,
)
    requires
        project::disjoint(clips),
        !project::overlaps_any(clips, on_timeline(start_us) as int, clip.dur_us() as int, None),
        sorting::stably_sorted(
            new,
            clips.push(TrackClipView { clip, start_us: on_timeline(start_us) }),
            project::by_start(),
        ),
    ensures
        project::disjoint(new),
{
    let at = on_timeline(start_us);
    let placed = TrackClipView { clip, start_us: at };
    let input = clips.push(placed);
    sorting::lemma_stably_sorted_is_permutation(new, input, project::by_start());
    assert forall|i: int, j: int|
        #![trigger new[i], new[j]]
        0 <= i < new.len() && 0 <= j < new.len() && i != j implies !project::overlaps(
        new[i].start_us as int,
        new[i].clip.dur_us() as int,
        new[j],
    ) by {
        let (x, y) = sorting::lemma_two_places(new, input, i, j);
        if x < clips.len() && y < clips.len() {
            assert(input[x] == clips[x] && input[y] == clips[y]);
        } else if x < clips.len() {
            assert(input[x] == clips[x]);
            assert(!project::overlaps(at as int, clip.dur_us() as int, clips[x]));
        } else {
            assert(input[y] == clips[y]);
            assert(!project::overlaps(at as int, clip.dur_us() as int, clips[y]));
        }
    }
}

/// A clip appended to a track starts no earlier than any other one ends, so it
/// is never refused for overlapping.
pub proof fn lemma_append_never_overlaps(clips: Seq<TrackClipView>, end: i64, dur: int)
    requires
        project::is_latest_end(clips, end as int),
    ensures
        !project::overlaps_any(clips, on_timeline(end) as int, dur, None),
{
}

/// No two clips of a track have the same identifier.
pub open spec fn distinct_ids(clips: Seq<TrackClipView>) -> bool {
    forall|i: int, j: int|
        #![trigger clips[i], clips[j]]
        0 <= i < clips.len() && 0 <= j < clips.len() && i != j ==> clips[i].clip.id
            != clips[j].clip.id
}

proof fn lemma_replacing_keeps_clips_apart(
    clips: Seq<TrackClipView>,
    ci: int,
    placed: TrackClipView,
)
    requires
        project::disjoint(clips),
        distinct_ids(clips),
        0 <= ci < clips.len(),
        placed.clip.id == clips[ci].clip.id,
        !project::overlaps_any(
            clips,
            placed.start_us as int,
            placed.clip.dur_us() as int,
            Some(placed.clip.id),
        ),
    ensures
        project::disjoint(clips.update(ci, placed)),
{
    let now = clips.update(ci, placed);
    assert forall|i: int, j: int|
        #![trigger now[i], now[j]]
        0 <= i < now.len() && 0 <= j < now.len() && i != j implies !project::overlaps(
        now[i].start_us as int,
        now[i].clip.dur_us() as int,
        now[j],
    ) by {
        assert(clips[i].clip.id != clips[j].clip.id);
        assert(!project::overlaps(
            clips[i].start_us as int,
            clips[i].clip.dur_us() as int,
            clips[j],
        ));
    }
}

/// A trim that is not refused keeps the clips of every track apart.
pub proof fn lemma_trim_keeps_clips_apart(
    tracks: Seq<TrackView>,
    id: ClipId,
    side: TrimSide,
    new_source_us: i64,
)
    requires
        forall|t: int|
            0 <= t < tracks.len() ==> project::disjoint((#[trigger] tracks[t]).clips)
                && distinct_ids(tracks[t].clips),
    ensures
        trim_tracks(tracks, id, side, new_source_us) matches Ok(new) ==> new.len() == tracks.len()
            && forall|t: int| 0 <= t < new.len() ==> project::disjoint((#[trigger] new[t]).clips),
{
    if let Ok(new) = trim_tracks(tracks, id, side, new_source_us) {
        project::lemma_find(tracks, id);
        let (ti, ci) = project::find(tracks, id)->0;
        let clips = tracks[ti].clips;
        assert(project::disjoint(clips) && distinct_ids(clips));
        lemma_replacing_keeps_clips_apart(
            clips,
            ci,
            trimmed_placed(clips[ci], side, new_source_us),
        );
        assert forall|t: int| 0 <= t < new.len() implies project::disjoint(
            (#[trigger] new[t]).clips,
        ) by {
            if t != ti {
                assert(new[t] == tracks[t]);
            }
        }
    }
}

/// Moving a clip keeps the clips of every track apart.
pub proof fn lemma_move_keeps_clips_apart(
    new: Seq<TrackView>,
    tracks: Seq<TrackView>,
    id: ClipId,
    to: int,
    new_start_us: i64,
)
    requires
        0 <= to < tracks.len(),
        forall|t: int|
            0 <= t < tracks.len() ==> project::disjoint((#[trigger] tracks[t]).clips)
                && distinct_ids(tracks[t].clips),
        move_refusal(tracks, id, to, new_start_us) is None,
        moved(new, tracks, id, to, new_start_us),
    ensures
        forall|t: int| 0 <= t < new.len() ==> project::disjoint((#[trigger] new[t]).clips),
{
    project::lemma_find(tracks, id);
    let (from, ci) = project::find(tracks, id)->0;
    let tc = tracks[from].clips[ci];
    let clips = tracks[from].clips;
    let placed = TrackClipView { start_us: on_timeline(new_start_us), ..tc };
    assert(project::disjoint(tracks[from].clips) && project::disjoint(tracks[to].clips));
    if from == to {
        lemma_replacing_keeps_clips_apart(clips, ci, placed);
        assert forall|t: int| 0 <= t < new.len() implies project::disjoint(
            (#[trigger] new[t]).clips,
        ) by {
            if t != from {
                assert(new[t] == tracks[t]);
            }
        }
    } else {
        let cut = clips.remove(ci);
        assert forall|i: int, j: int|
            #![trigger cut[i], cut[j]]
            0 <= i < cut.len() && 0 <= j < cut.len() && i != j implies !project::overlaps(
            cut[i].start_us as int,
            cut[i].clip.dur_us() as int,
            cut[j],
        ) by {
            let x = if i < ci {
                i
            } else {
                i + 1
            };
            let y = if j < ci {
                j
            } else {
                j + 1
            };
            assert(cut[i] == clips[x] && cut[j] == clips[y]);
        }
        lemma_insert_keeps_clips_apart(new[to].clips, tracks[to].clips, tc.clip, new_start_us);
        assert forall|t: int| 0 <= t < new.len() implies project::disjoint(
            (#[trigger] new[t]).clips,
        ) by {
            if t != from && t != to {
                assert(new[t] == tracks[t]);
            }
        }
    }
}

/// The clip's window is the right way round, fits the timeline, and begins at
/// a whole microsecond.
pub open spec fn is_regular(c: ClipView) -> bool {
    &&& c.fits_timeline()
    &&& c.trim_in.nanos % 1_000 == 0
    &&& c.trim_in.nanos <= c.trim_out.nanos
}

/// A split leaves the clip's stretch of the timeline as it was: the left half
/// keeps the start, the right half starts where the left one ends and ends
/// where the clip did.
pub proof fn lemma_split_keeps_stretch(
    clips: Seq<TrackClipView>,
    ci: int,
    local_us: i64,
    fresh: ClipId,
)
    requires
        0 <= ci < clips.len(),
        is_regular(clips[ci].clip),
        timeline_ops::can_split(clips[ci].clip, local_us),
        clips[ci].start_us + local_us <= i64::MAX,
    ensures
        ({
            let new = split_placed(clips, ci, local_us, fresh);
            &&& new[ci].start_us == clips[ci].start_us
            &&& new[ci].end() == new[ci + 1].start_us
            &&& new[ci + 1].end() == clips[ci].end()
            &&& new[ci].clip.dur_us() == local_us
        }),
{
    let c = clips[ci].clip;
    let at = timeline_ops::source_at(c, local_us) as i64;
    assert(c.trim_in.us() == c.trim_in.nanos / 1_000);
    assert(c.trim_out.us() == c.trim_out.nanos / 1_000);
    assert(timeline_ops::micros(at).nanos == at * 1_000);
}

/// A split keeps the clips of a track apart.
pub proof fn lemma_split_keeps_clips_apart(
    clips: Seq<TrackClipView>,
    ci: int,
    local_us: i64,
    fresh: ClipId,
)
    requires
        0 <= ci < clips.len(),
        project::disjoint(clips),
        is_regular(clips[ci].clip),
        timeline_ops::can_split(clips[ci].clip, local_us),
        clips[ci].start_us + local_us <= i64::MAX,
    ensures
        project::disjoint(split_placed(clips, ci, local_us, fresh)),
{
    lemma_split_keeps_stretch(clips, ci, local_us, fresh);
    let new = split_placed(clips, ci, local_us, fresh);
    let c = clips[ci].clip;
    assert(c.dur_us() >= local_us) by {
        assert(c.trim_in.us() == c.trim_in.nanos / 1_000);
        assert(c.trim_out.us() == c.trim_out.nanos / 1_000);
    }
    assert forall|i: int, j: int|
        #![trigger new[i], new[j]]
        0 <= i < new.len() && 0 <= j < new.len() && i != j implies !project::overlaps(
        new[i].start_us as int,
        new[i].clip.dur_us() as int,
        new[j],
    ) by {
        let x = if i <= ci {
            i
        } else {
            i - 1
        };
        let y = if j <= ci {
            j
        } else {
            j - 1
        };
        if x != y {
            assert(!project::overlaps(
                clips[x].start_us as int,
                clips[x].clip.dur_us() as int,
                clips[y],
            ));
        }
    }
}

/// Trimming the beginning of a clip leaves its end where it was on the
/// timeline; trimming the end leaves its start.
pub proof fn lemma_trim_keeps_other_end(tc: TrackClipView, side: TrimSide, new_source_us: i64)
    requires
        is_regular(tc.clip),
        i64::MIN <= trimmed_start(tc, side, new_source_us) <= i64::MAX,
    ensures
        side == TrimSide::Left ==> trimmed_placed(tc, side, new_source_us).end() == tc.end(),
        side == TrimSide::Right ==> trimmed_placed(tc, side, new_source_us).start_us
            == tc.start_us,
{
    if side == TrimSide::Left {
        let c = tc.clip;
        let new = timeline_ops::clamp(new_source_us as int, 0, timeline_ops::latest_in(c)) as i64;
        assert(c.trim_in.us() == c.trim_in.nanos / 1_000);
        assert(c.trim_out.us() == c.trim_out.nanos / 1_000);
        assert(timeline_ops::micros(new).nanos == new * 1_000);
        assert(new * 1_000 <= c.trim_out.nanos);
    }
}

/// The clip `i` would be pushed before the start of the timeline by deleting the
/// `ci`-th one, and stops there.
pub open spec fn stops_at_start(clips: Seq<TrackClipView>, ci: int, i: int) -> bool {
    i != ci && clips[ci].start_us <= clips[i].start_us < clips[ci].clip.dur_us()
}

/// The clip `i` has no length and starts where the `ci`-th one does.
pub open spec fn is_mark_at(clips: Seq<TrackClipView>, ci: int, i: int) -> bool {
    i != ci && clips[i].start_us == clips[ci].start_us && clips[i].clip.dur_us() == 0
}

/// Where such a clip of no length comes to lie when the `ci`-th one is deleted.
pub open spec fn mark_place(clips: Seq<TrackClipView>, ci: int) -> int {
    if clips[ci].start_us > clips[ci].clip.dur_us() {
        clips[ci].start_us - clips[ci].clip.dur_us()
    } else {
        0
    }
}

/// No clip has a negative length.
pub open spec fn have_lengths(clips: Seq<TrackClipView>) -> bool {
    forall|i: int| 0 <= i < clips.len() ==> (#[trigger] clips[i]).clip.dur_us() >= 0
}

/// Deleting a clip closes the gap that it leaves: each clip that started no
/// earlier moves left by exactly its length, and the others stay. Left out is a
/// deletion by which a clip stops at the start of the timeline.
pub proof fn lemma_ripple_closes_gap(clips: Seq<TrackClipView>, ci: int)
    requires
        0 <= ci < clips.len(),
        clips[ci].clip.dur_us() >= 0,
        forall|i: int| 0 <= i < clips.len() ==> !#[trigger] stops_at_start(clips, ci, i),
    ensures
        rippled(clips, ci).len() == clips.len() - 1,
        forall|i: int|
            #![trigger rippled(clips, ci)[i]]
            0 <= i < clips.len() - 1 ==> rippled(clips, ci)[i].clip == clips.remove(ci)[i].clip
                && rippled(clips, ci)[i].start_us == (if clips.remove(ci)[i].start_us
                >= clips[ci].start_us {
                clips.remove(ci)[i].start_us - clips[ci].clip.dur_us()
            } else {
                clips.remove(ci)[i].start_us as int
            }),
{
    let rest = clips.remove(ci);
    assert forall|i: int|
        #![trigger rippled(clips, ci)[i]]
        0 <= i < clips.len() - 1 implies rippled(clips, ci)[i].clip == rest[i].clip && rippled(
        clips,
        ci,
    )[i].start_us == (if rest[i].start_us >= clips[ci].start_us {
        rest[i].start_us - clips[ci].clip.dur_us()
    } else {
        rest[i].start_us as int
    }) by {
        let x = if i < ci {
            i
        } else {
            i + 1
        };
        assert(rest[i] == clips[x]);
        assert(!stops_at_start(clips, ci, x));
    }
}

/// Where the clips of a track are apart and the deleted one starts on the
/// timeline, only a clip of no length that starts with it can stop at the start,
/// and only where the deleted one is longer than what lies before it.
pub proof fn lemma_only_marks_stop_at_start(clips: Seq<TrackClipView>, ci: int, i: int)
    requires
        0 <= ci < clips.len(),
        0 <= i < clips.len(),
        project::disjoint(clips),
        have_lengths(clips),
        clips[ci].start_us >= 0,
        stops_at_start(clips, ci, i),
    ensures
        is_mark_at(clips, ci, i),
        clips[ci].start_us < clips[ci].clip.dur_us(),
{
    assert(clips[i].clip.dur_us() >= 0);
    assert(!project::overlaps(
        clips[ci].start_us as int,
        clips[ci].clip.dur_us() as int,
        clips[i],
    ));
}

/// What deleting the `ci`-th clip does to the `i`-th one of the rest.
proof fn lemma_ripple_of_one(clips: Seq<TrackClipView>, ci: int, i: int) -> (x: int)
    requires
        0 <= ci < clips.len(),
        0 <= i < clips.len() - 1,
        project::disjoint(clips),
        have_lengths(clips),
    ensures
        x == if i < ci {
            i
        } else {
            i + 1
        },
        clips.remove(ci)[i] == clips[x],
        rippled(clips, ci)[i].clip == clips[x].clip,
        if clips[x].start_us < clips[ci].start_us {
            rippled(clips, ci)[i] == clips[x] && clips[x].end() <= clips[ci].start_us
        } else if clips[x].start_us >= clips[ci].end() {
            rippled(clips, ci)[i].start_us == (if clips[x].start_us
                > clips[ci].clip.dur_us() {
                clips[x].start_us - clips[ci].clip.dur_us()
            } else {
                0
            })
        } else {
            is_mark_at(clips, ci, x) && rippled(clips, ci)[i].start_us == mark_place(clips, ci)
        },
{
    let x = if i < ci {
        i
    } else {
        i + 1
    };
    assert(clips[x].clip.dur_us() >= 0 && clips[ci].clip.dur_us() >= 0);
    assert(!project::overlaps(
        clips[ci].start_us as int,
        clips[ci].clip.dur_us() as int,
        clips[x],
    ));
    assert(!project::overlaps(
        clips[x].start_us as int,
        clips[x].clip.dur_us() as int,
        clips[ci],
    ));
    x
}

/// Deleting a clip keeps the clips of a track apart. Left out is a deletion that
/// moves a clip of no length into an earlier one, or by which a clip that has a
/// length stops at the start of the timeline.
pub proof fn lemma_ripple_keeps_clips_apart(clips: Seq<TrackClipView>, ci: int)
    requires
        0 <= ci < clips.len(),
        project::disjoint(clips),
        have_lengths(clips),
        forall|i: int|
            0 <= i < clips.len() && #[trigger] stops_at_start(clips, ci, i) ==> is_mark_at(
                clips,
                ci,
                i,
            ),
        forall|i: int, w: int|
            0 <= i < clips.len() && 0 <= w < clips.len() && #[trigger] is_mark_at(clips, ci, i)
                && (#[trigger] clips[w]).start_us < clips[ci].start_us ==> !(clips[w].start_us
                < mark_place(clips, ci) < clips[w].end()),
    ensures
        project::disjoint(rippled(clips, ci)),
{
    let new = rippled(clips, ci);
    assert forall|i: int, j: int|
        #![trigger new[i], new[j]]
        0 <= i < new.len() && 0 <= j < new.len() && i != j implies !project::overlaps(
        new[i].start_us as int,
        new[i].clip.dur_us() as int,
        new[j],
    ) by {
        let x = lemma_ripple_of_one(clips, ci, i);
        let y = lemma_ripple_of_one(clips, ci, j);
        assert(!project::overlaps(
            clips[x].start_us as int,
            clips[x].clip.dur_us() as int,
            clips[y],
        ));
        assert(stops_at_start(clips, ci, x) ==> is_mark_at(clips, ci, x));
        assert(stops_at_start(clips, ci, y) ==> is_mark_at(clips, ci, y));
        assert(clips[x].clip.dur_us() >= 0 && clips[y].clip.dur_us() >= 0);
        assert(clips[ci].clip.dur_us() >= 0);
    }
}

/// Deleting a clip keeps clips that are in order in order. Left out is a deletion
/// that moves a clip of no length before an earlier one.
pub proof fn lemma_ripple_keeps_order(clips: Seq<TrackClipView>, ci: int)
    requires
        0 <= ci < clips.len(),
        project::disjoint(clips),
        have_lengths(clips),
        sorting::in_order(clips, project::by_start()),
        forall|i: int, w: int|
            0 <= i < clips.len() && 0 <= w < clips.len() && #[trigger] is_mark_at(clips, ci, i)
                && (#[trigger] clips[w]).start_us < clips[ci].start_us ==> clips[w].start_us
                <= mark_place(clips, ci),
    ensures
        sorting::in_order(rippled(clips, ci), project::by_start()),
{
    let new = rippled(clips, ci);
    let by_start = project::by_start();
    assert forall|i: int, j: int|
        #![trigger new[i], new[j]]
        0 <= i <= j < new.len() implies !sorting::before(by_start(new[j]), by_start(new[i])) by {
        let x = lemma_ripple_of_one(clips, ci, i);
        let y = lemma_ripple_of_one(clips, ci, j);
        assert(!sorting::before(by_start(clips[y]), by_start(clips[x])));
        assert(clips[ci].clip.dur_us() >= 0);
    }
}

} // verus!
