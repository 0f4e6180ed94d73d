//! What the places of clips, and dragging them, promise.

use vstd::prelude::*;

use super::timeline_view;
use crate::domain::clip::ClipView;
use crate::ident::ClipId;
use crate::services::laws;
use crate::services::timeline_ops;

verus! {

/// A pinned clip starts at its pin, wherever the other clips are, and every clip
/// ends as much later as it plays.
pub proof fn lemma_pinned_clip_stays(clips: Seq<ClipView>, i: int, pin: i64)
    requires
        timeline_view::fits_timeline(clips),
        0 <= i < clips.len(),
    ensures
        clips[i].start_us == Some(pin) ==> timeline_view::start_at(clips, i) == pin,
        timeline_view::end_at(clips, i) == timeline_view::start_at(clips, i) + clips[i].dur_us(),
{
}

/// The clip at `i` is on `track`, and it is not the clip `id`.
pub open spec fn is_other_on(clips: Seq<ClipView>, track: u8, id: ClipId, i: int) -> bool {
    0 <= i < clips.len() && clips[i].video_track == track && clips[i].id != id
}

proof fn lemma_edges(clips: Seq<ClipView>, track: u8, id: ClipId, n: int)
    requires
        0 <= n <= clips.len(),
    ensures
        forall|i: int|
            i < n && #[trigger] is_other_on(clips, track, id, i) ==> {
                &&& timeline_view::edges(clips, track, id, n).contains(
                    timeline_view::start_at(clips, i),
                )
                &&& timeline_view::edges(clips, track, id, n).contains(
                    timeline_view::end_at(clips, i),
                )
            },
        forall|k: int|
            0 <= k < timeline_view::edges(clips, track, id, n).len() ==> is_edge(
                clips,
                track,
                id,
                #[trigger] timeline_view::edges(clips, track, id, n)[k],
            ),
    decreases n,
{
    if n > 0 {
        lemma_edges(clips, track, id, n - 1);
        let had = timeline_view::edges(clips, track, id, n - 1);
        let all = timeline_view::edges(clips, track, id, n);
        let start = timeline_view::start_at(clips, n - 1);
        let end = timeline_view::end_at(clips, n - 1);
        if is_other_on(clips, track, id, n - 1) {
            assert(all[had.len() as int] == start);
            assert(all[had.len() as int + 1] == end);
            assert forall|x: i64| had.contains(x) implies #[trigger] all.contains(x) by {
                let k = had.index_of(x);
                assert(all[k] == x);
            }
            assert forall|k: int| 0 <= k < all.len() implies is_edge(
                clips,
                track,
                id,
                #[trigger] all[k],
            ) by {
                if k < had.len() {
                    assert(all[k] == had[k]);
                }
            }
        }
        assert forall|i: int| i < n && #[trigger] is_other_on(clips, track, id, i) implies {
            &&& all.contains(timeline_view::start_at(clips, i))
            &&& all.contains(timeline_view::end_at(clips, i))
        } by {
            if i < n - 1 {
                assert(had.contains(timeline_view::start_at(clips, i)));
                assert(had.contains(timeline_view::end_at(clips, i)));
            }
        }
    }
}

/// `x` is where a clip of `track` other than `id` starts or ends.
pub open spec fn is_edge(clips: Seq<ClipView>, track: u8, id: ClipId, x: i64) -> bool {
    exists|i: int| #[trigger]
        is_other_on(clips, track, id, i) && (x == timeline_view::start_at(clips, i) || x
            == timeline_view::end_at(clips, i))
}

/// Both edges of every other clip of the track are among the points to snap to,
/// as are the start of the timeline and the playhead, and there are no others.
pub proof fn lemma_every_edge_is_a_snap_point(
    clips: Seq<ClipView>,
    track: u8,
    id: ClipId,
    playhead_us: i64,
)
    ensures
        ({
            let points = timeline_view::snap_points(clips, track, id, playhead_us);
            &&& forall|i: int| #[trigger]
                is_other_on(clips, track, id, i) ==> points.contains(
                    timeline_view::start_at(clips, i),
                ) && points.contains(timeline_view::end_at(clips, i))
            &&& points.contains(0) && points.contains(playhead_us)
            &&& forall|x: i64| #[trigger]
                points.contains(x) ==> x == 0 || x == playhead_us || is_edge(clips, track, id, x)
        }),
{
    let n = clips.len() as int;
    lemma_edges(clips, track, id, n);
    let had = timeline_view::edges(clips, track, id, n);
    let points = timeline_view::snap_points(clips, track, id, playhead_us);
    assert(points[0] == 0 && points[1] == playhead_us);
    assert forall|x: i64| had.contains(x) implies #[trigger] points.contains(x) by {
        let k = had.index_of(x);
        assert(points[k + 2] == x);
    }
    assert forall|i: int| #[trigger] is_other_on(clips, track, id, i) implies points.contains(
        timeline_view::start_at(clips, i),
    ) && points.contains(timeline_view::end_at(clips, i)) by {
        assert(had.contains(timeline_view::start_at(clips, i)));
        assert(had.contains(timeline_view::end_at(clips, i)));
    }
    assert forall|x: i64| #[trigger] points.contains(x) implies x == 0 || x == playhead_us
        || is_edge(clips, track, id, x) by {
        let k = points.index_of(x);
        if k >= 2 {
            assert(had[k - 2] == x);
        }
    }
}

/// `x` lies at most `reach` from `at`, before or behind it.
pub open spec fn is_near(x: int, at: int, reach: int) -> bool {
    at - reach <= x <= at + reach
}

/// A clip of length `dur` that was dragged to `raw` and lands at `start` was moved
/// by no more than `by`, so that its start or its end lies on the point `c`. An
/// end is not drawn to a point where the clip would start too early for the
/// timeline: it then starts with the timeline.
pub open spec fn is_drawn(c: i64, raw: int, dur: int, by: int, start: i64) -> bool {
    ||| start == c && is_near(raw, c as int, by)
    ||| start + dur == c && is_near(raw + dur, c as int, by)
    ||| start == 0 && c < dur && is_near(raw + dur, c as int, by)
}

/// A clip is drawn to a point that its start or its end comes near, and to no
/// point farther away than another one that it also comes near.
pub proof fn lemma_near_point_draws(
    points: Seq<i64>,
    raw: int,
    dur: int,
    snap: int,
    start: i64,
    x: i64,
    by: int,
)
    requires
        0 <= dur <= i64::MAX,
        raw >= 0,
        timeline_view::lands_at(points, raw, dur, snap, start),
        points.contains(x),
        x >= 0,
        0 <= by <= snap,
        is_near(raw, x as int, by) || is_near(raw + dur, x as int, by),
    ensures
        exists|c: i64| #[trigger]
            points.contains(c) && c >= 0 && is_drawn(c, raw, dur, by, start),
{
    let p = points.index_of(x);
    assert(points[p] == x);
    let k = if is_near(raw, x as int, by) {
        2 * p
    } else {
        2 * p + 1
    };
    assert(k / 2 == p && (k % 2 == 0 <==> is_near(raw, x as int, by)));
    assert(timeline_view::in_reach(points, raw, dur, snap, k));
    let m = choose|m: int|
        #[trigger] timeline_view::is_best(points, raw, dur, snap, m) && start
            == timeline_view::snap_choice(points, raw, dur, m).start;
    assert(timeline_view::is_best(points, raw, dur, snap, m));
    assert(timeline_view::in_reach(points, raw, dur, snap, m));
    let c = points[m / 2];
    assert(points.contains(c));
    assert(is_drawn(c, raw, dur, by, start));
}

/// A clip that comes near no point lands just where it was dragged to, and one
/// that lands elsewhere has been drawn to a point within reach.
pub proof fn lemma_drawn_only_to_near_points(
    points: Seq<i64>,
    raw: int,
    dur: int,
    snap: int,
    start: i64,
)
    requires
        0 <= dur <= i64::MAX,
        raw >= 0,
        timeline_view::lands_at(points, raw, dur, snap, start),
    ensures
        start == raw || exists|c: i64| #[trigger]
            points.contains(c) && c >= 0 && is_drawn(c, raw, dur, snap, start),
{
    if start != raw {
        let m = choose|m: int|
            #[trigger] timeline_view::is_best(points, raw, dur, snap, m) && start
                == timeline_view::snap_choice(points, raw, dur, m).start;
        assert(timeline_view::is_best(points, raw, dur, snap, m));
        assert(timeline_view::in_reach(points, raw, dur, snap, m));
        let c = points[m / 2];
        assert(points.contains(c));
        assert(is_drawn(c, raw, dur, snap, start));
    }
}

/// A clip that is dragged so that its start or its end comes within reach of an
/// edge of any other clip of the track never lands unsnapped: its start or its end
/// lies on such an edge, on the playhead, or on the start of the timeline.
pub proof fn lemma_drag_near_an_edge_snaps(
    clips: Seq<ClipView>,
    track: u8,
    id: ClipId,
    playhead_us: i64,
    raw: int,
    dur: int,
    snap: int,
    start: i64,
    i: int,
    edge: i64,
)
    requires
        0 <= dur <= i64::MAX,
        raw >= 0,
        timeline_view::lands_at(
            timeline_view::snap_points(clips, track, id, playhead_us),
            raw,
            dur,
            snap,
            start,
        ),
        is_other_on(clips, track, id, i),
        edge == timeline_view::start_at(clips, i) || edge == timeline_view::end_at(clips, i),
        edge >= 0,
        is_near(raw, edge as int, snap) || is_near(raw + dur, edge as int, snap),
    ensures
        start == 0 || exists|c: i64|
            (c == playhead_us || #[trigger] is_edge(clips, track, id, c)) && (start == c || start
                + dur == c),
{
    lemma_every_edge_is_a_snap_point(clips, track, id, playhead_us);
    let points = timeline_view::snap_points(clips, track, id, playhead_us);
    assert(points.contains(edge));
    lemma_near_point_draws(points, raw, dur, snap, start, edge, snap);
    let c = choose|c: i64| #[trigger]
        points.contains(c) && c >= 0 && is_drawn(c, raw, dur, snap, start);
    assert(points.contains(c));
    assert(c == 0 || c == playhead_us || is_edge(clips, track, id, c));
    if c == 0 && start != 0 {
        assert(start + dur == 0);
        timeline_view::lemma_landing_is_on_timeline(points, raw, dur, snap, start);
    }
}

/// The clip that is found under a time is on the track and plays then, and none
/// before it does; none is found where no clip of the track plays.
pub proof fn lemma_clip_under_plays(clips: Seq<ClipView>, track: u8, abs_us: i64, from: int)
    requires
        0 <= from <= clips.len(),
    ensures
        match timeline_view::clip_under(clips, track, abs_us, from) {
            Some(i) => {
                &&& from <= i < clips.len() && clips[i].video_track == track
                &&& timeline_view::start_at(clips, i) <= abs_us < timeline_view::end_at(clips, i)
                &&& forall|j: int|
                    from <= j < i && (#[trigger] clips[j]).video_track == track ==> !(
                    timeline_view::start_at(clips, j) <= abs_us < timeline_view::end_at(clips, j))
            },
            None => forall|j: int|
                from <= j < clips.len() && (#[trigger] clips[j]).video_track == track ==> !(
                timeline_view::start_at(clips, j) <= abs_us < timeline_view::end_at(clips, j)),
        },
    decreases clips.len() - from,
{
    if from < clips.len() {
        lemma_clip_under_plays(clips, track, abs_us, from + 1);
    }
}

proof fn lemma_same_cursor(a: Seq<ClipView>, b: Seq<ClipView>, track: u8, n: int)
    requires
        0 <= n <= a.len(),
        n <= b.len(),
        forall|j: int| 0 <= j < n ==> #[trigger] a[j] == b[j],
    ensures
        timeline_view::cursor(a, track, n) == timeline_view::cursor(b, track, n),
    decreases n,
{
    if n > 0 {
        assert(a[n - 1] == b[n - 1]);
        lemma_same_cursor(a, b, track, n - 1);
    }
}

proof fn lemma_split_cursor(
    clips: Seq<ClipView>,
    new: Seq<ClipView>,
    i: int,
    track: u8,
    n: int,
)
    requires
        0 <= i < n <= clips.len(),
        new.len() == clips.len() + 1,
        forall|j: int| 0 <= j < i ==> #[trigger] new[j] == clips[j],
        forall|j: int| i + 1 < j < new.len() ==> #[trigger] new[j] == clips[j - 1],
        new[i].video_track == clips[i].video_track,
        new[i + 1].video_track == clips[i].video_track,
        new[i].start_us == clips[i].start_us,
        new[i + 1].start_us is None,
        new[i].dur_us() + new[i + 1].dur_us() == clips[i].dur_us(),
        0 <= new[i].dur_us(),
        0 <= new[i + 1].dur_us(),
        timeline_view::fits_timeline(clips),
    ensures
        timeline_view::cursor(new, track, n + 1) == timeline_view::cursor(clips, track, n),
    decreases n,
{
    if n == i + 1 {
        lemma_same_cursor(clips, new, track, i);
        assert(timeline_view::start_at(clips, i) + clips[i].dur_us() <= i64::MAX);
        reveal_with_fuel(timeline_view::cursor, 3);
    } else {
        lemma_split_cursor(clips, new, i, track, n - 1);
        assert(new[n] == clips[n - 1]);
    }
}

/// After a split the right half starts on the timeline where the left half ends,
/// on the same track. Both halves together lie where the clip lay, and every
/// other clip stays where it was.
pub proof fn lemma_split_leaves_the_timeline_alone(
    clips: Seq<ClipView>,
    new: Seq<ClipView>,
    id: ClipId,
    i: int,
    local_us: i64,
    fresh: ClipId,
)
    requires
        timeline_view::fits_timeline(clips),
        laws::stands_at(clips, id, i),
        clips[i].fits_timeline(),
        clips[i].trim_in.nanos % 1_000 == 0,
        0 < local_us,
        clips[i].trim_in.nanos + local_us * 1_000 < clips[i].trim_out.nanos / 1_000 * 1_000,
        timeline_ops::split_clips(clips, id, local_us, fresh) == Ok::<
            Seq<ClipView>,
            crate::errors::CoreErrorView,
        >(new),
    ensures
        timeline_view::start_at(new, i) == timeline_view::start_at(clips, i),
        timeline_view::start_at(new, i + 1) == timeline_view::start_at(clips, i) + local_us,
        timeline_view::start_at(new, i + 1) == timeline_view::end_at(new, i),
        timeline_view::end_at(new, i + 1) == timeline_view::end_at(clips, i),
        new[i + 1].video_track == new[i].video_track,
        forall|j: int|
            0 <= j < i ==> #[trigger] timeline_view::start_at(new, j) == timeline_view::start_at(
                clips,
                j,
            ),
        forall|j: int|
            i < j < clips.len() ==> #[trigger] timeline_view::start_at(clips, j)
                == timeline_view::start_at(new, j + 1),
{
    laws::lemma_split_makes_two_of_one(clips, id, i, local_us, fresh);
    let c = clips[i];
    assert(new[i].dur_us() == local_us);
    assert(new[i + 1].trim_out == c.trim_out);
    assert(c.dur_us() == c.trim_out.nanos / 1_000 - c.trim_in.nanos / 1_000) by {
        assert(c.length().nanos == c.trim_out.nanos - c.trim_in.nanos);
    }
    assert(new[i].length().nanos == new[i].trim_out.nanos - c.trim_in.nanos);
    assert(new[i].trim_out.nanos == c.trim_in.nanos + local_us * 1_000) by {
        assert(new[i].trim_out.nanos % 1_000 == 0);
    }
    assert(new[i + 1].length().nanos == c.trim_out.nanos - new[i].trim_out.nanos);
    assert(new[i].dur_us() + new[i + 1].dur_us() == c.dur_us());
    lemma_same_cursor(clips, new, c.video_track, i);
    assert(timeline_view::start_at(clips, i) + c.dur_us() <= i64::MAX);
    assert(timeline_view::cursor(new, c.video_track, i + 1) == (timeline_view::start_at(clips, i)
        + local_us) as i64);
    assert forall|j: int| 0 <= j < i implies #[trigger] timeline_view::start_at(new, j)
        == timeline_view::start_at(clips, j) by {
        lemma_same_cursor(clips, new, new[j].video_track, j);
        assert(new[j] == clips[j]);
    }
    assert forall|j: int| i < j < clips.len() implies #[trigger] timeline_view::start_at(clips, j)
        == timeline_view::start_at(new, j + 1) by {
        assert(new[j + 1] == clips[j]);
        lemma_split_cursor(clips, new, i, clips[j].video_track, j);
    }
}

} // verus!
