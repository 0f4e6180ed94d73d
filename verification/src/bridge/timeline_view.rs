//! Where the clips of a playlist lie on the timeline.
//!
//! A clip that was dragged somewhere is pinned there; every other clip follows
//! the clip before it on its track. Positions are 64-bit microseconds.

use vstd::prelude::*;

use crate::domain::clip::{Clip, ClipView};
use crate::domain::playlist;
use crate::domain::playlist::Playlist;
use crate::ident::ClipId;

verus! {

/// Where the next clip of `track` starts that is not pinned, after the first
/// `n` clips: behind the last one of them on the track.
pub open spec fn cursor(clips: Seq<ClipView>, track: u8, n: int) -> i64
    decreases n,
{
    if n <= 0 {
        0
    } else if clips[n - 1].video_track == track {
        (start_from(clips[n - 1], cursor(clips, track, n - 1)) + clips[n - 1].dur_us()) as i64
    } else {
        cursor(clips, track, n - 1)
    }
}

/// Where a clip starts: at its pin, or at the cursor.
pub open spec fn start_from(c: ClipView, cursor: i64) -> i64 {
    match c.start_us {
        Some(pin) => pin,
        None => cursor,
    }
}

/// Where the `i`-th clip starts.
pub open spec fn start_at(clips: Seq<ClipView>, i: int) -> i64 {
    start_from(clips[i], cursor(clips, clips[i].video_track, i))
}

/// Where the `i`-th clip ends.
pub open spec fn end_at(clips: Seq<ClipView>, i: int) -> i64 {
    (start_at(clips, i) + clips[i].dur_us()) as i64
}

/// The latest end of the first `n` clips, and at least zero.
pub open spec fn latest_end(clips: Seq<ClipView>, n: int) -> i64
    decreases n,
{
    if n <= 0 {
        0
    } else if end_at(clips, n - 1) > latest_end(clips, n - 1) {
        end_at(clips, n - 1)
    } else {
        latest_end(clips, n - 1)
    }
}

/// Where a clip starts, given where the next one of its track would.
pub(crate) fn start_of(c: &Clip, cursor: i64) -> (r: i64)
    ensures
        r == start_from(c@, cursor),
{
    match c.start_us {
        Some(pin) => pin,
        None => cursor,
    }
}

/// The position `dur` behind `start`.
pub(crate) fn position_after(start: i64, dur: i64) -> (r: i64)
    ensures
        r == (start + dur) as i64,
{
    (start as i128 + dur as i128) as i64
}

/// Where the `idx`-th clip starts.
pub fn start_at_us(playlist: &Playlist, idx: usize) -> (r: i64)
    requires
        idx < playlist@.len(),
    ensures
        r == start_at(playlist@, idx as int),
{
    let clips: &[Clip] = playlist.clips();
    let track: u8 = clips[idx].video_track;
    let mut at: i64 = 0;
    let mut i: usize = 0;
    while i < idx
        invariant
            i <= idx < clips.len(),
            clips@.len() == playlist@.len(),
            forall|j: int| 0 <= j < clips@.len() ==> (#[trigger] clips@[j])@ == playlist@[j],
            at == cursor(playlist@, track, i as int),
        decreases idx - i,
    {
        let c: &Clip = &clips[i];
        if c.video_track == track {
            at = position_after(start_of(c, at), c.effective_duration_us());
        }
        i = i + 1;
    }
    start_of(&clips[idx], at)
}

/// Where the clip `clip_id` starts on the timeline.
pub fn effective_start_us(playlist: &Playlist, clip_id: ClipId) -> (r: Option<i64>)
    ensures
        match playlist::index_of(playlist@, clip_id) {
            Some(i) => r == Some(start_at(playlist@, i)),
            None => r is None,
        },
{
    match playlist.position(clip_id) {
        Some(i) => Some(start_at_us(playlist, i)),
        None => None,
    }
}

/// Where the selected clip starts, and how long it plays.
pub fn selected_clip_window(playlist: &Playlist, selected_id: Option<ClipId>) -> (r: Option<
    (i64, i64),
>)
    ensures
        match selected_id {
            Some(id) => match playlist::index_of(playlist@, id) {
                Some(i) => r == Some((start_at(playlist@, i), playlist@[i].dur_us())),
                None => r is None,
            },
            None => r is None,
        },
{
    match selected_id {
        Some(id) => match playlist.position(id) {
            Some(i) => Some(
                (start_at_us(playlist, i), playlist.clips()[i].effective_duration_us()),
            ),
            None => None,
        },
        None => None,
    }
}

/// The length of the timeline: the latest end of a clip on any track.
pub fn total_duration_us(playlist: &Playlist) -> (r: i64)
    ensures
        r == latest_end(playlist@, playlist@.len() as int),
{
    let clips: &[Clip] = playlist.clips();
    let mut cursors: Vec<i64> = Vec::new();
    let mut t: usize = 0;
    while t < 256
        invariant
            t <= 256,
            cursors@.len() == t,
            forall|k: int| 0 <= k < t ==> #[trigger] cursors@[k] == 0,
        decreases 256 - t,
    {
        cursors.push(0);
        t = t + 1;
    }
    let mut latest: i64 = 0;
    let mut i: usize = 0;
    while i < clips.len()
        invariant
            i <= clips.len(),
            clips@.len() == playlist@.len(),
            forall|j: int| 0 <= j < clips@.len() ==> (#[trigger] clips@[j])@ == playlist@[j],
            cursors@.len() == 256,
            forall|k: u8| #[trigger] cursors@[k as int] == cursor(playlist@, k, i as int),
            latest == latest_end(playlist@, i as int),
        decreases clips.len() - i,
    {
        let c: &Clip = &clips[i];
        let track: u8 = c.video_track;
        let start: i64 = start_of(c, cursors[track as usize]);
        let end: i64 = position_after(start, c.effective_duration_us());
        let ghost before = cursors@;
        cursors.set(track as usize, end);
        assert forall|k: u8| #[trigger] cursors@[k as int] == cursor(
            playlist@,
            k,
            i + 1,
        ) by {
            assert(before[k as int] == cursor(playlist@, k, i as int));
        }
        if end > latest {
            latest = end;
        }
        i = i + 1;
    }
    latest
}

/// The first clip of `track`, from the `i`-th clip on, in whose time `abs_us`
/// falls.
pub open spec fn clip_under(clips: Seq<ClipView>, track: u8, abs_us: i64, i: int) -> Option<int>
    decreases clips.len() - i,
{
    if i < 0 || i >= clips.len() {
        None
    } else if clips[i].video_track == track && start_at(clips, i) <= abs_us < end_at(clips, i) {
        Some(i)
    } else {
        clip_under(clips, track, abs_us, i + 1)
    }
}

/// The clip of `track` in whose time `abs_us` falls, and how far into it that
/// is. There is none where the time falls into a gap.
pub fn clip_at_us_on_track(playlist: &Playlist, track: u8, abs_us: i64) -> (r: Option<
    (ClipId, i64),
>)
    ensures
        match clip_under(playlist@, track, abs_us, 0) {
            Some(i) => r == Some(
                (playlist@[i].id, (abs_us - start_at(playlist@, i)) as i64),
            ),
            None => r is None,
        },
{
    let clips: &[Clip] = playlist.clips();
    let mut at: i64 = 0;
    let mut i: usize = 0;
    while i < clips.len()
        invariant
            i <= clips.len(),
            clips@.len() == playlist@.len(),
            forall|j: int| 0 <= j < clips@.len() ==> (#[trigger] clips@[j])@ == playlist@[j],
            at == cursor(playlist@, track, i as int),
            clip_under(playlist@, track, abs_us, 0) == clip_under(
                playlist@,
                track,
                abs_us,
                i as int,
            ),
        decreases clips.len() - i,
    {
        let c: &Clip = &clips[i];
        if c.video_track == track {
            let start: i64 = start_of(c, at);
            let end: i64 = position_after(start, c.effective_duration_us());
            if abs_us >= start && abs_us < end {
                return Some((c.id, (abs_us as i128 - start as i128) as i64));
            }
            at = end;
        }
        i = i + 1;
    }
    None
}

/// The edges of the clips of `track` other than `id`, among the first `n`
/// clips: of each its start and its end.
pub open spec fn edges(clips: Seq<ClipView>, track: u8, id: ClipId, n: int) -> Seq<i64>
    decreases n,
{
    if n <= 0 {
        Seq::empty()
    } else if clips[n - 1].video_track == track && clips[n - 1].id != id {
        edges(clips, track, id, n - 1).push(start_at(clips, n - 1)).push(end_at(clips, n - 1))
    } else {
        edges(clips, track, id, n - 1)
    }
}

/// What a dragged clip snaps to: the start of the timeline, the playhead, and
/// the edges of the other clips of the track.
pub open spec fn snap_points(
    clips: Seq<ClipView>,
    track: u8,
    id: ClipId,
    playhead_us: i64,
) -> Seq<i64> {
    seq![0i64, playhead_us] + edges(clips, track, id, clips.len() as int)
}

/// A way to snap: how far the clip moves for it, and where it then starts.
pub struct SnapChoice {
    pub distance: int,
    pub start: i64,
}

pub open spec fn distance(a: int, b: int) -> int {
    if a < b {
        b - a
    } else {
        a - b
    }
}

/// Snapping the start of the clip, or its end, to a point.
pub open spec fn snap_choice(points: Seq<i64>, raw: int, dur: int, k: int) -> SnapChoice {
    let c = points[k / 2] as int;
    if k % 2 == 0 {
        SnapChoice { distance: distance(raw, c), start: c as i64 }
    } else {
        SnapChoice {
            distance: distance(raw + dur, c),
            start: (if c - dur > 0 {
                c - dur
            } else {
                0
            }) as i64,
        }
    }
}

/// The `k`-th choice is within reach. Points before the start of the timeline
/// do not count.
pub open spec fn in_reach(points: Seq<i64>, raw: int, dur: int, snap: int, k: int) -> bool {
    points[k / 2] >= 0 && snap_choice(points, raw, dur, k).distance <= snap
}

/// The `k`-th choice is the nearest, and the first among equally near ones.
pub open spec fn is_best(points: Seq<i64>, raw: int, dur: int, snap: int, k: int) -> bool {
    &&& 0 <= k < 2 * points.len()
    &&& in_reach(points, raw, dur, snap, k)
    &&& forall|j: int|
        0 <= j < 2 * points.len() && #[trigger] in_reach(points, raw, dur, snap, j)
            ==> snap_choice(points, raw, dur, k).distance <= snap_choice(
            points,
            raw,
            dur,
            j,
        ).distance
    &&& forall|j: int|
        0 <= j < k && #[trigger] in_reach(points, raw, dur, snap, j) ==> snap_choice(
            points,
            raw,
            dur,
            k,
        ).distance < snap_choice(points, raw, dur, j).distance
}

/// `start` is where a clip of length `dur` lands that was dragged to `raw`:
/// where the nearest point within reach puts it, or just there.
pub open spec fn lands_at(points: Seq<i64>, raw: int, dur: int, snap: int, start: i64) -> bool {
    ||| exists|k: int|
        #[trigger] is_best(points, raw, dur, snap, k) && start == snap_choice(
            points,
            raw,
            dur,
            k,
        ).start
    ||| (forall|k: int|
        0 <= k < 2 * points.len() ==> !#[trigger] in_reach(points, raw, dur, snap, k)) && start
        == raw
}

fn snap_points_of(playlist: &Playlist, track: u8, id: ClipId, playhead_us: i64) -> (r: Vec<i64>)
    ensures
        r@ == snap_points(playlist@, track, id, playhead_us),
{
    let clips: &[Clip] = playlist.clips();
    let mut r: Vec<i64> = Vec::new();
    r.push(0);
    r.push(playhead_us);
    let ghost head = seq![0i64, playhead_us];
    let mut at: i64 = 0;
    let mut i: usize = 0;
    assert(r@ =~= head + edges(playlist@, track, id, 0));
    while i < clips.len()
        invariant
            i <= clips.len(),
            clips@.len() == playlist@.len(),
            forall|j: int| 0 <= j < clips@.len() ==> (#[trigger] clips@[j])@ == playlist@[j],
            at == cursor(playlist@, track, i as int),
            r@ == head + edges(playlist@, track, id, i as int),
        decreases clips.len() - i,
    {
        let c: &Clip = &clips[i];
        if c.video_track == track {
            let start: i64 = start_of(c, at);
            let end: i64 = position_after(start, c.effective_duration_us());
            if c.id != id {
                let ghost so_far = edges(playlist@, track, id, i as int);
                r.push(start);
                r.push(end);
                assert((head + so_far).push(start).push(end) =~= head + so_far.push(start).push(
                    end,
                ));
            }
            at = end;
        }
        i = i + 1;
    }
    r
}

fn apart(a: i128, b: i128) -> (d: i128)
    requires
        -0x1_0000_0000_0000_0000 <= a <= 0x1_0000_0000_0000_0000,
        -0x1_0000_0000_0000_0000 <= b <= 0x1_0000_0000_0000_0000,
    ensures
        d == distance(a as int, b as int),
{
    if a < b {
        b - a
    } else {
        a - b
    }
}

/// Where a clip of length `dur` lands that was dragged to `raw`.
fn snap(points: &Vec<i64>, raw: i64, dur: i64, snap_us: i64) -> (start: i64)
    ensures
        lands_at(points@, raw as int, dur as int, snap_us as int, start),
{
    let ghost (rw, dr, sn) = (raw as int, dur as int, snap_us as int);
    let mut start: i64 = raw;
    let mut best: i128 = 0;
    let mut found: bool = false;
    let ghost mut best_k: int = 0;
    let mut i: usize = 0;
    while i < points.len()
        invariant
            i <= points.len(),
            rw == raw,
            dr == dur,
            sn == snap_us,
            found ==> 0 <= best_k < 2 * i && in_reach(points@, rw, dr, sn, best_k) && best
                == snap_choice(points@, rw, dr, best_k).distance && start == snap_choice(
                points@,
                rw,
                dr,
                best_k,
            ).start,
            found ==> forall|j: int|
                0 <= j < 2 * i && #[trigger] in_reach(points@, rw, dr, sn, j) ==> best
                    <= snap_choice(points@, rw, dr, j).distance,
            found ==> forall|j: int|
                0 <= j < best_k && #[trigger] in_reach(points@, rw, dr, sn, j) ==> best
                    < snap_choice(points@, rw, dr, j).distance,
            !found ==> start == raw,
            !found ==> forall|j: int| 0 <= j < 2 * i ==> !#[trigger] in_reach(points@, rw, dr, sn, j),
        decreases points.len() - i,
    {
        let c: i64 = points[i];
        assert((2 * i) / 2 == i as int && (2 * i) % 2 == 0);
        assert((2 * i + 1) / 2 == i as int && (2 * i + 1) % 2 == 1);
        if c >= 0 {
            let lead: i128 = apart(raw as i128, c as i128);
            assert(snap_choice(points@, rw, dr, 2 * i).distance == lead);
            if lead <= snap_us as i128 && (!found || lead < best) {
                best = lead;
                start = c;
                found = true;
                proof {
                    best_k = 2 * i as int;
                }
            }
            let trail: i128 = apart(raw as i128 + dur as i128, c as i128);
            assert(snap_choice(points@, rw, dr, 2 * i + 1).distance == trail);
            if trail <= snap_us as i128 && (!found || trail < best) {
                best = trail;
                let moved: i128 = c as i128 - dur as i128;
                start = (if moved > 0 {
                    moved
                } else {
                    0
                }) as i64;
                found = true;
                proof {
                    best_k = 2 * i as int + 1;
                }
            }
        }
        proof {
            assert(in_reach(points@, rw, dr, sn, 2 * i) == (c >= 0 && snap_choice(
                points@,
                rw,
                dr,
                2 * i,
            ).distance <= sn));
            assert(in_reach(points@, rw, dr, sn, 2 * i + 1) == (c >= 0 && snap_choice(
                points@,
                rw,
                dr,
                2 * i + 1,
            ).distance <= sn));
        }
        i = i + 1;
    }
    proof {
        if found {
            assert(is_best(points@, rw, dr, sn, best_k));
        }
    }
    start
}

/// A position that is not before the start of the timeline.
pub open spec fn not_negative(us: i64) -> int {
    if us > 0 {
        us as int
    } else {
        0
    }
}

/// Where the clip `clip_id` lands on `track` when it was dragged to `raw_us`.
/// Its start or its end snaps to points that are at most `snap_us` away.
pub fn drag_on_track(
    playlist: &Playlist,
    clip_id: ClipId,
    track: u8,
    raw_us: i64,
    snap_us: i64,
    playhead_us: i64,
) -> (r: Option<i64>)
    ensures
        match playlist::index_of(playlist@, clip_id) {
            Some(i) => r matches Some(start) && lands_at(
                snap_points(playlist@, track, clip_id, playhead_us),
                not_negative(raw_us),
                playlist@[i].dur_us() as int,
                snap_us as int,
                start,
            ),
            None => r is None,
        },
{
    match playlist.position(clip_id) {
        Some(i) => {
            let dur: i64 = playlist.clips()[i].effective_duration_us();
            let points: Vec<i64> = snap_points_of(playlist, track, clip_id, playhead_us);
            let raw: i64 = if raw_us > 0 {
                raw_us
            } else {
                0
            };
            Some(snap(&points, raw, dur, snap_us))
        },
        None => None,
    }
}

/// Where the clip `clip_id` lands on its own track when it was dragged to
/// `raw_us`.
pub fn drag_to_start_us(
    playlist: &Playlist,
    clip_id: ClipId,
    raw_us: i64,
    snap_us: i64,
    playhead_us: i64,
) -> (r: Option<i64>)
    ensures
        match playlist::index_of(playlist@, clip_id) {
            Some(i) => r matches Some(start) && lands_at(
                snap_points(playlist@, playlist@[i].video_track, clip_id, playhead_us),
                not_negative(raw_us),
                playlist@[i].dur_us() as int,
                snap_us as int,
                start,
            ),
            None => r is None,
        },
{
    match playlist.position(clip_id) {
        Some(i) => {
            let track: u8 = playlist.clips()[i].video_track;
            drag_on_track(playlist, clip_id, track, raw_us, snap_us, playhead_us)
        },
        None => None,
    }
}

/// A dragged clip lands in one place only.
pub proof fn lemma_landing_is_determined(
    points: Seq<i64>,
    raw: int,
    dur: int,
    snap: int,
    a: i64,
    b: i64,
)
    requires
        lands_at(points, raw, dur, snap, a),
        lands_at(points, raw, dur, snap, b),
    ensures
        a == b,
{
    if exists|k: int| is_best(points, raw, dur, snap, k) {
        let k = choose|k: int|
            #[trigger] is_best(points, raw, dur, snap, k) && a == snap_choice(
                points,
                raw,
                dur,
                k,
            ).start;
        let m = choose|m: int|
            #[trigger] is_best(points, raw, dur, snap, m) && b == snap_choice(
                points,
                raw,
                dur,
                m,
            ).start;
        assert(is_best(points, raw, dur, snap, k));
        assert(is_best(points, raw, dur, snap, m));
        assert(in_reach(points, raw, dur, snap, k) && in_reach(points, raw, dur, snap, m));
    }
}

/// A dragged clip never lands before the start of the timeline, and where it
/// does not snap it lands where it was dragged to.
pub proof fn lemma_landing_is_on_timeline(
    points: Seq<i64>,
    raw: int,
    dur: int,
    snap: int,
    start: i64,
)
    requires
        raw >= 0,
        0 <= dur <= i64::MAX,
        lands_at(points, raw, dur, snap, start),
    ensures
        start >= 0,
        snap < 0 ==> start == raw,
{
    if exists|k: int|
        #[trigger] is_best(points, raw, dur, snap, k) && start == snap_choice(
            points,
            raw,
            dur,
            k,
        ).start {
        let k = choose|k: int|
            #[trigger] is_best(points, raw, dur, snap, k) && start == snap_choice(
                points,
                raw,
                dur,
                k,
            ).start;
        assert(in_reach(points, raw, dur, snap, k));
        assert(points[k / 2] >= 0);
    }
}

/// The times of the clips fit 64 bits, so that no position wraps around.
pub open spec fn fits_timeline(clips: Seq<ClipView>) -> bool {
    forall|i: int|
        0 <= i < clips.len() ==> i64::MIN <= (#[trigger] start_at(clips, i))
            + clips[i].dur_us() <= i64::MAX
}

/// A clip that is not pinned starts exactly where the clip before it on its
/// track ends, and the first one of a track at the start of the timeline.
pub proof fn lemma_unpinned_clip_follows(clips: Seq<ClipView>, i: int)
    requires
        fits_timeline(clips),
        0 <= i < clips.len(),
        clips[i].start_us is None,
    ensures
        (forall|j: int| 0 <= j < i ==> (#[trigger] clips[j]).video_track != clips[i].video_track)
            ==> start_at(clips, i) == 0,
        forall|p: int|
            0 <= p < i && (#[trigger] clips[p]).video_track == clips[i].video_track && (forall|
                j: int,
            |
                p < j < i ==> (#[trigger] clips[j]).video_track != clips[i].video_track)
                ==> start_at(clips, i) == start_at(clips, p) + clips[p].dur_us(),
{
    let track = clips[i].video_track;
    if forall|j: int| 0 <= j < i ==> (#[trigger] clips[j]).video_track != track {
        lemma_cursor_skips(clips, track, 0, i);
    }
    assert forall|p: int|
        0 <= p < i && (#[trigger] clips[p]).video_track == track && (forall|j: int|
            p < j < i ==> (#[trigger] clips[j]).video_track != track) implies start_at(clips, i)
        == start_at(clips, p) + clips[p].dur_us() by {
        lemma_cursor_skips(clips, track, p + 1, i);
        assert(start_at(clips, p) + clips[p].dur_us() <= i64::MAX);
    }
}

proof fn lemma_cursor_skips(clips: Seq<ClipView>, track: u8, from: int, to: int)
    requires
        0 <= from <= to <= clips.len(),
        forall|j: int| from <= j < to ==> (#[trigger] clips[j]).video_track != track,
    ensures
        cursor(clips, track, to) == cursor(clips, track, from),
    decreases to - from,
{
    if from < to {
        lemma_cursor_skips(clips, track, from, to - 1);
        assert(clips[to - 1].video_track != track);
    }
}

/// The length of the timeline is the end of some clip, no clip ends later, and
/// an empty timeline has no length.
pub proof fn lemma_total_is_latest_end(clips: Seq<ClipView>, n: int)
    requires
        0 <= n <= clips.len(),
    ensures
        latest_end(clips, n) >= 0,
        forall|i: int| 0 <= i < n ==> #[trigger] end_at(clips, i) <= latest_end(clips, n),
        latest_end(clips, n) == 0 || exists|i: int|
            0 <= i < n && #[trigger] end_at(clips, i) == latest_end(clips, n),
    decreases n,
{
    if n > 0 {
        lemma_total_is_latest_end(clips, n - 1);
        if end_at(clips, n - 1) <= latest_end(clips, n - 1) && latest_end(clips, n - 1) != 0 {
            let i = choose|i: int|
                0 <= i < n - 1 && #[trigger] end_at(clips, i) == latest_end(clips, n - 1);
            assert(end_at(clips, i) == latest_end(clips, n));
        }
    }
}

} // verus!
