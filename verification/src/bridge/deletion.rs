//! What the deletion of a track leaves as it was.

use vstd::prelude::*;

use super::arrange;
use super::lanes;
use super::state::EditorView;
use super::timeline_view;
use crate::domain::clip::ClipView;
use crate::domain::playlist;
use crate::domain::project::{TrackClipView, TrackView};
use crate::seqs;

verus! {

/// No two clips have one identifier.
pub open spec fn ids_differ(clips: Seq<ClipView>) -> bool {
    forall|i: int, j: int|
        0 <= i < j < clips.len() ==> (#[trigger] clips[i]).id != (#[trigger] clips[j]).id
}

/// No two tracks stand for one number.
pub open spec fn lanes_differ(tracks: Seq<TrackView>) -> bool {
    forall|i: int, j: int|
        #![trigger tracks[i], tracks[j]]
        0 <= i < tracks.len() && 0 <= j < tracks.len() && lanes::lane_of(tracks[i]) is Some
            && lanes::lane_of(tracks[i]) == lanes::lane_of(tracks[j]) ==> i == j
}

/// The first `n` clips without those of the track `value`.
pub open spec fn kept(clips: Seq<ClipView>, value: u8, n: int) -> Seq<ClipView>
    decreases n,
{
    if n <= 0 {
        Seq::empty()
    } else if clips[n - 1].video_track == value {
        kept(clips, value, n - 1)
    } else {
        kept(clips, value, n - 1).push(clips[n - 1])
    }
}

/// The number that stands for a track once the track `removed` is gone.
pub open spec fn lane_after(value: u8, removed: u8) -> u8 {
    if value > removed {
        (value - 1) as u8
    } else {
        value
    }
}

/// Placed clips as they are once the track `removed` is gone: each at the same
/// time, and on a track of another number where it was above.
pub open spec fn lowered_row(row: Seq<TrackClipView>, removed: u8) -> Seq<TrackClipView> {
    Seq::new(
        row.len(),
        |i: int|
            TrackClipView {
                clip: arrange::lowered(row[i].clip, removed),
                start_us: row[i].start_us,
            },
    )
}

proof fn lemma_kept_is_from_clips(clips: Seq<ClipView>, value: u8, n: int, k: int) -> (i: int)
    requires
        0 <= n <= clips.len(),
        0 <= k < kept(clips, value, n).len(),
    ensures
        0 <= i < n,
        kept(clips, value, n)[k] == clips[i],
    decreases n,
{
    if clips[n - 1].video_track == value {
        lemma_kept_is_from_clips(clips, value, n - 1, k)
    } else if k == kept(clips, value, n - 1).len() {
        n - 1
    } else {
        lemma_kept_is_from_clips(clips, value, n - 1, k)
    }
}

proof fn lemma_without_ids(clips: Seq<ClipView>, value: u8, n: int)
    requires
        0 <= n <= clips.len(),
        ids_differ(clips),
    ensures
        arrange::without_ids(clips, arrange::ids_on(clips, value, n)) == kept(clips, value, n)
            + clips.skip(n),
    decreases n,
{
    if n > 0 {
        lemma_without_ids(clips, value, n - 1);
        let head = kept(clips, value, n - 1);
        let rest = head + clips.skip(n - 1);
        if clips[n - 1].video_track == value {
            let ids = arrange::ids_on(clips, value, n);
            let id = clips[n - 1].id;
            assert(ids.drop_last() =~= arrange::ids_on(clips, value, n - 1));
            let at = head.len() as int;
            assert(rest[at] == clips[n - 1]);
            assert forall|j: int| 0 <= j < at implies !playlist::has_id(id)(
                #[trigger] rest[j],
            ) by {
                let i = lemma_kept_is_from_clips(clips, value, n - 1, j);
            }
            seqs::lemma_first_where_found(rest, playlist::has_id(id), at);
            assert(rest.remove(at) =~= head + clips.skip(n));
        } else {
            assert(rest =~= kept(clips, value, n) + clips.skip(n));
        }
    } else {
        assert(clips =~= kept(clips, value, n) + clips.skip(n));
    }
}

proof fn lemma_kept_grows(clips: Seq<ClipView>, value: u8, n: int, all: int)
    requires
        0 <= n <= all <= clips.len(),
    ensures
        kept(clips, value, n).len() <= kept(clips, value, all).len(),
        forall|k: int|
            0 <= k < kept(clips, value, n).len() ==> #[trigger] kept(clips, value, all)[k]
                == kept(clips, value, n)[k],
    decreases all,
{
    if n < all {
        lemma_kept_grows(clips, value, n, all - 1);
    }
}

proof fn lemma_rest_stays(clips: Seq<ClipView>, removed: u8, value: u8, n: int)
    requires
        0 <= n <= clips.len(),
        value != removed,
    ensures
        ({
            let all = kept(clips, removed, clips.len() as int);
            let now = Seq::new(all.len(), |i: int| arrange::lowered(all[i], removed));
            let m = kept(clips, removed, n).len() as int;
            let v = lane_after(value, removed);
            &&& timeline_view::cursor(now, v, m) == timeline_view::cursor(clips, value, n)
            &&& lanes::lane_clips(now, v, m) == lowered_row(
                lanes::lane_clips(clips, value, n),
                removed,
            )
        }),
    decreases n,
{
    let all = kept(clips, removed, clips.len() as int);
    let now = Seq::new(all.len(), |i: int| arrange::lowered(all[i], removed));
    let v = lane_after(value, removed);
    let m = kept(clips, removed, n).len() as int;
    if n > 0 {
        lemma_rest_stays(clips, removed, value, n - 1);
        lemma_kept_grows(clips, removed, n, clips.len() as int);
        let c = clips[n - 1];
        if c.video_track != removed {
            assert(kept(clips, removed, n)[m - 1] == c);
            assert(now[m - 1] == arrange::lowered(c, removed));
            assert((now[m - 1].video_track == v) == (c.video_track == value));
            assert(now[m - 1].dur_us() == c.dur_us());
        }
    }
    assert(lanes::lane_clips(now, v, m) =~= lowered_row(
        lanes::lane_clips(clips, value, n),
        removed,
    ));
}

proof fn lemma_lane_of_named(t: TrackView, value: u8)
    requires
        lanes::is_lane(value)(t),
    ensures
        lanes::lane_of(t) == Some(value),
{
    seqs::lemma_first_where_found(seq![t], lanes::is_lane(value), 0);
    lanes::lemma_lane_and_track_belong_together(seq![t], value, 0);
}

proof fn lemma_lane_is_named(t: TrackView, from: int)
    requires
        from >= 0,
    ensures
        lanes::least_lane(t, from) matches Some(v) ==> lanes::is_lane(v)(t),
    decreases 256 - from,
{
    if from < 256 && !lanes::is_lane(from as u8)(t) {
        lemma_lane_is_named(t, from + 1);
    }
}

/// The number of a track once the track `removed` is gone.
proof fn lemma_moved_down(t: TrackView, removed: u8)
    requires
        lanes::lane_of(t) != Some(removed),
    ensures
        lanes::lane_of(lanes::moved_down(t, removed)) == match lanes::lane_of(t) {
            Some(v) => Some(lane_after(v, removed)),
            None => None,
        },
{
    if let Some(v) = lanes::lane_of(t) {
        lemma_lane_is_named(t, 0);
        if v > removed {
            lemma_lane_of_named(lanes::moved_down(t, removed), (v - 1) as u8);
        }
    }
}

proof fn lemma_lane_moves(tracks: Seq<TrackView>, idx: int, removed: u8, value: u8, k: int)
    requires
        0 <= idx < tracks.len(),
        0 <= k < tracks.len(),
        k != idx,
        lanes_differ(tracks),
        lanes::lane_of(tracks[idx]) == Some(removed),
        lanes::lane_of(tracks[k]) == Some(value),
    ensures
        lanes::served_lane(
            lanes::without_track(tracks, idx),
            if k < idx {
                k
            } else {
                k - 1
            },
        ) == Some(lane_after(value, removed)),
{
    let at = if k < idx {
        k
    } else {
        k - 1
    };
    let left = lanes::without_track(tracks, idx);
    let v = lane_after(value, removed);
    assert(value != removed);
    lemma_moved_down(tracks[k], removed);
    lemma_lane_is_named(left[at], 0);
    assert forall|j: int| 0 <= j < at implies !lanes::is_lane(v)(#[trigger] left[j]) by {
        let i = if j < idx {
            j
        } else {
            j + 1
        };
        assert(left[j] == lanes::moved_down(tracks[i], removed));
        if lanes::is_lane(v)(left[j]) {
            lemma_lane_of_named(left[j], v);
            assert(lanes::lane_of(tracks[i]) != Some(removed));
            lemma_moved_down(tracks[i], removed);
            assert(lanes::lane_of(tracks[i]) == Some(value));
        }
    }
    seqs::lemma_first_where_found(left, lanes::is_lane(v), at);
}

/// A track is deleted, and every other video track keeps its clips at their
/// times: only the number changes under which it goes, where it was above the
/// deleted one.
pub proof fn lemma_deleting_a_track_leaves_the_others(
    e: EditorView,
    idx: i32,
    removed: u8,
    value: u8,
    k: int,
)
    requires
        ids_differ(e.playlist),
        lanes_differ(e.project),
        0 <= idx < e.project.len(),
        0 <= k < e.project.len(),
        k != idx,
        lanes::lane_of(e.project[idx as int]) == Some(removed),
        lanes::lane_of(e.project[k]) == Some(value),
    ensures
        ({
            let after = e.track_deleted(idx).state;
            let at = if k < idx {
                k
            } else {
                k - 1
            };
            &&& lanes::lane_of(after.project[at]) == Some(lane_after(value, removed))
            &&& after.project[at].clips == lowered_row(
                lanes::lane_clips(e.playlist, value, e.playlist.len() as int),
                removed,
            )
        }),
{
    let n = e.playlist.len() as int;
    let at = if k < idx {
        k
    } else {
        k - 1
    };
    let left = lanes::without_track(e.project, idx as int);
    let all = kept(e.playlist, removed, n);
    let now = Seq::new(all.len(), |i: int| arrange::lowered(all[i], removed));
    lemma_without_ids(e.playlist, removed, n);
    assert(all + e.playlist.skip(n) =~= all);
    assert(arrange::without_lane(e.playlist, removed) =~= now);
    assert(value != removed);
    lemma_rest_stays(e.playlist, removed, value, n);
    lemma_lane_moves(e.project, idx as int, removed, value, k);
    let after = e.track_deleted(idx).state;
    assert(after.project[at].clips == lanes::lane_clips(
        now,
        lane_after(value, removed),
        now.len() as int,
    ));
    lemma_lane_of_named(after.project[at], lane_after(value, removed));
}

} // verus!
