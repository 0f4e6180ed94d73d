//! What edits of the timeline and plans of a merge promise.

use vstd::prelude::*;

use super::compatibility;
use super::compatibility::MergeStrategyView;
use super::merge_planner;
use super::timeline_ops;
use super::timeline_ops::{TrimSide, MIN_WINDOW_US};
use super::timeline_ops_mt;
use crate::domain::clip::ClipView;
use crate::domain::export_spec::ExportSpecView;
use crate::domain::laws;
use crate::domain::playlist;
use crate::domain::project;
use crate::domain::project::{TrackClipView, TrackView};
use crate::errors::CoreErrorView;
use crate::ident::ClipId;
use crate::seqs;
use crate::sorting;

verus! {

/// The first clip with the given identifier stands at `i`.
pub open spec fn stands_at(clips: Seq<ClipView>, id: ClipId, i: int) -> bool {
    &&& 0 <= i < clips.len()
    &&& clips[i].id == id
    &&& forall|j: int| 0 <= j < i ==> (#[trigger] clips[j]).id != id
}

/// A clip is looked for by its identifier; the first that has it is found.
pub proof fn lemma_clip_is_found_by_its_id(clips: Seq<ClipView>, id: ClipId)
    ensures
        match playlist::index_of(clips, id) {
            Some(i) => stands_at(clips, id, i),
            None => forall|j: int| 0 <= j < clips.len() ==> (#[trigger] clips[j]).id != id,
        },
{
    seqs::lemma_first_where(clips, playlist::has_id(id));
    match playlist::index_of(clips, id) {
        Some(i) => {
            assert forall|j: int| 0 <= j < i implies (#[trigger] clips[j]).id != id by {
                assert(!playlist::has_id(id)(clips[j]));
            }
        },
        None => {
            assert forall|j: int| 0 <= j < clips.len() implies (#[trigger] clips[j]).id != id by {
                assert(!playlist::has_id(id)(clips[j]));
            }
        },
    }
}

/// A clip is found where it stands.
pub proof fn lemma_found_where_it_stands(clips: Seq<ClipView>, id: ClipId, i: int)
    requires
        stands_at(clips, id, i),
    ensures
        playlist::index_of(clips, id) == Some(i),
{
    lemma_clip_is_found_by_its_id(clips, id);
    match playlist::index_of(clips, id) {
        Some(k) => {
            if k < i {
                assert(clips[k].id != id);
            } else if i < k {
                assert(clips[i].id != id);
            }
        },
        None => {
            assert(clips[i].id != id);
        },
    }
}

/// `half` is a part of `c`: it differs in nothing but its identifier, its window,
/// its pin, and where its pictures come from.
pub open spec fn is_part_of(half: ClipView, c: ClipView) -> bool {
    half == (ClipView {
        id: half.id,
        trim_in: half.trim_in,
        trim_out: half.trim_out,
        start_us: half.start_us,
        origin_id: half.origin_id,
        ..c
    })
}

/// A split strictly inside a clip makes two of it and leaves the others alone.
/// The halves stand one behind the other, on the track of the clip and with its
/// look and sound; the left one keeps identifier and pin, and the right one goes
/// on where it ends, to where the clip ended.
pub proof fn lemma_split_makes_two_of_one(
    clips: Seq<ClipView>,
    id: ClipId,
    i: int,
    local_us: i64,
    fresh: ClipId,
)
    requires
        stands_at(clips, id, i),
        clips[i].fits_timeline(),
        clips[i].trim_in.nanos % 1_000 == 0,
        0 < local_us,
        clips[i].trim_in.nanos + local_us * 1_000 < clips[i].trim_out.nanos / 1_000 * 1_000,
    ensures
        timeline_ops::split_clips(clips, id, local_us, fresh) matches Ok(new) && {
            &&& new.len() == clips.len() + 1
            &&& forall|j: int| 0 <= j < i ==> #[trigger] new[j] == clips[j]
            &&& forall|j: int| i + 1 < j < new.len() ==> #[trigger] new[j] == clips[j - 1]
            &&& is_part_of(new[i], clips[i]) && is_part_of(new[i + 1], clips[i])
            &&& new[i].video_track == clips[i].video_track
            &&& new[i + 1].video_track == clips[i].video_track
            &&& new[i].id == id && new[i + 1].id == fresh
            &&& new[i].start_us == clips[i].start_us && new[i + 1].start_us is None
            &&& new[i].origin_id == clips[i].origin_id
            &&& new[i + 1].asset() == clips[i].asset()
            &&& new[i].trim_in == clips[i].trim_in
            &&& new[i].trim_out == new[i + 1].trim_in
            &&& new[i + 1].trim_out == clips[i].trim_out
            &&& new[i].dur_us() == local_us
        },
{
    lemma_found_where_it_stands(clips, id, i);
    let c = clips[i];
    assert(c.trim_in.us() == c.trim_in.nanos / 1_000);
    assert(c.trim_out.us() == c.trim_out.nanos / 1_000);
    let at = timeline_ops::source_at(c, local_us) as i64;
    assert(timeline_ops::micros(at).nanos == at * 1_000);
}

/// A split outside a clip, at its edges, or of a clip that is not there is
/// refused.
pub proof fn lemma_split_outside_is_refused(
    clips: Seq<ClipView>,
    id: ClipId,
    local_us: i64,
    fresh: ClipId,
)
    ensures
        (forall|j: int| 0 <= j < clips.len() ==> (#[trigger] clips[j]).id != id)
            ==> timeline_ops::split_clips(clips, id, local_us, fresh) == Err::<Seq<ClipView>, _>(
            CoreErrorView::ClipNotFound(id),
        ),
        forall|i: int|
            #[trigger] stands_at(clips, id, i) && (local_us <= 0 || clips[i].trim_in.us()
                + local_us >= clips[i].trim_out.us()) ==> (timeline_ops::split_clips(
                clips,
                id,
                local_us,
                fresh,
            ) matches Err(e) && e is InvalidTrim),
{
    lemma_clip_is_found_by_its_id(clips, id);
    assert forall|i: int|
        #[trigger] stands_at(clips, id, i) && (local_us <= 0 || clips[i].trim_in.us() + local_us
            >= clips[i].trim_out.us()) implies (timeline_ops::split_clips(
        clips,
        id,
        local_us,
        fresh,
    ) matches Err(e) && e is InvalidTrim) by {
        lemma_found_where_it_stands(clips, id, i);
    }
}

/// `x` asked for, and held between two bounds.
pub open spec fn held_between(got: int, asked: int, low: int, high: int) -> bool {
    &&& asked < low ==> got == low
    &&& low <= asked <= high ==> got == asked
    &&& asked > high ==> got == high
}

/// A trim moves one end of a clip to the very place asked for, as long as that is
/// in the source and leaves the least window; beyond, it goes as far as it may.
/// Nothing else changes about the clip, nor about any other one.
pub proof fn lemma_trim_moves_one_end(
    clips: Seq<ClipView>,
    id: ClipId,
    i: int,
    side: TrimSide,
    asked_us: i64,
)
    requires
        stands_at(clips, id, i),
        clips[i].fits_timeline(),
        clips[i].trim_in.us() + MIN_WINDOW_US <= clips[i].trim_out.us(),
        clips[i].trim_out.us() <= clips[i].info.duration.us(),
    ensures
        timeline_ops::trim_clips(clips, id, side, asked_us) matches Ok(new) && {
            &&& new.len() == clips.len()
            &&& forall|j: int| 0 <= j < clips.len() && j != i ==> #[trigger] new[j] == clips[j]
            &&& side == TrimSide::Left ==> new[i] == (ClipView {
                trim_in: new[i].trim_in,
                ..clips[i]
            }) && held_between(
                new[i].trim_in.us() as int,
                asked_us as int,
                0,
                clips[i].trim_out.us() - MIN_WINDOW_US,
            )
            &&& side == TrimSide::Right ==> new[i] == (ClipView {
                trim_out: new[i].trim_out,
                ..clips[i]
            }) && held_between(
                new[i].trim_out.us() as int,
                asked_us as int,
                clips[i].trim_in.us() + MIN_WINDOW_US,
                clips[i].info.duration.us() as int,
            )
        },
{
    lemma_found_where_it_stands(clips, id, i);
    let c = clips[i];
    assert(0 <= c.trim_in.us() && 0 <= c.trim_out.us());
    let left = timeline_ops::clamp(asked_us as int, 0, timeline_ops::latest_in(c)) as i64;
    let right = timeline_ops::clamp(
        asked_us as int,
        timeline_ops::earliest_out(c),
        c.info.duration.us() as int,
    ) as i64;
    assert(timeline_ops::micros(left).us() == left);
    assert(timeline_ops::micros(right).us() == right);
}

/// A split on a track leaves every other track, and every other clip of the
/// track, as it is. Both halves have the look and sound of the clip.
pub proof fn lemma_split_on_a_track_makes_two_of_one(
    tracks: Seq<TrackView>,
    id: ClipId,
    ti: int,
    ci: int,
    local_us: i64,
    fresh: ClipId,
)
    requires
        project::found_at(tracks, id, ti, ci),
        tracks[ti].clips[ci].clip.fits_timeline(),
        0 < local_us,
        tracks[ti].clips[ci].clip.trim_in.us() + local_us
            < tracks[ti].clips[ci].clip.trim_out.us(),
        tracks[ti].clips[ci].start_us + local_us <= i64::MAX,
    ensures
        timeline_ops_mt::split_tracks(tracks, id, local_us, fresh) matches Ok(new) && {
            let was = tracks[ti].clips;
            let now = new[ti].clips;
            &&& new.len() == tracks.len()
            &&& forall|t: int| 0 <= t < tracks.len() && t != ti ==> #[trigger] new[t] == tracks[t]
            &&& new[ti] == (TrackView { clips: now, ..tracks[ti] })
            &&& now.len() == was.len() + 1
            &&& forall|j: int| 0 <= j < ci ==> #[trigger] now[j] == was[j]
            &&& forall|j: int| ci + 1 < j < now.len() ==> #[trigger] now[j] == was[j - 1]
            &&& now[ci].clip == (ClipView { trim_out: now[ci].clip.trim_out, ..was[ci].clip })
            &&& now[ci + 1].clip == (ClipView {
                id: fresh,
                trim_in: now[ci + 1].clip.trim_in,
                ..was[ci].clip
            })
            &&& now[ci].clip.trim_out == now[ci + 1].clip.trim_in
            &&& now[ci].clip.trim_out.us() == was[ci].clip.trim_in.us() + local_us
            &&& now[ci].start_us == was[ci].start_us
            &&& now[ci + 1].start_us == was[ci].start_us + local_us
        },
{
    project::lemma_found(tracks, id, ti, ci);
    let c = tracks[ti].clips[ci].clip;
    let at = timeline_ops::source_at(c, local_us) as i64;
    assert(timeline_ops::micros(at).nanos == at * 1_000);
    let now = timeline_ops_mt::split_placed(tracks[ti].clips, ci, local_us, fresh);
    let new = timeline_ops_mt::with_clips(tracks, ti, now);
    assert(new[ti].clips == now);
}

/// A clip that is put on a track starts where it was put, or at the start of the
/// timeline if that is later. The clips that were there stay as they are, and so
/// do the other tracks.
pub proof fn lemma_inserted_clip_starts_where_it_was_put(
    new: Seq<TrackView>,
    tracks: Seq<TrackView>,
    track_idx: int,
    clip: ClipView,
    start_us: i64,
)
    requires
        0 <= track_idx < tracks.len(),
        timeline_ops_mt::inserted(new, tracks, track_idx, clip, start_us),
    ensures
        new.len() == tracks.len(),
        forall|t: int| 0 <= t < tracks.len() && t != track_idx ==> #[trigger] new[t] == tracks[t],
        new[track_idx].name == tracks[track_idx].name && new[track_idx].kind
            == tracks[track_idx].kind && new[track_idx].muted == tracks[track_idx].muted,
        exists|p: TrackClipView|
            p.clip == clip && p.start_us >= 0 && (start_us >= 0 ==> p.start_us == start_us) && (
            start_us < 0 ==> p.start_us == 0) && new[track_idx].clips.to_multiset()
                == #[trigger] tracks[track_idx].clips.to_multiset().insert(p),
        forall|i: int, j: int|
            #![trigger new[track_idx].clips[i], new[track_idx].clips[j]]
            0 <= i <= j < new[track_idx].clips.len() ==> new[track_idx].clips[i].start_us
                <= new[track_idx].clips[j].start_us,
{
    let p = TrackClipView { clip, start_us: timeline_ops_mt::on_timeline(start_us) };
    let was = tracks[track_idx].clips;
    let now = new[track_idx].clips;
    lemma_sorted_with_one_more(now, was, p);
    assert(new =~= tracks.update(track_idx, TrackView { clips: now, ..tracks[track_idx] }));
    assert(now.to_multiset() == was.to_multiset().insert(p));
}

proof fn lemma_sorted_with_one_more(
    now: Seq<TrackClipView>,
    was: Seq<TrackClipView>,
    p: TrackClipView,
)
    requires
        sorting::stably_sorted(now, was.push(p), project::by_start()),
    ensures
        now.to_multiset() == was.to_multiset().insert(p),
        forall|i: int, j: int|
            #![trigger now[i], now[j]]
            0 <= i <= j < now.len() ==> now[i].start_us <= now[j].start_us,
{
    broadcast use vstd::seq_lib::group_to_multiset_ensures;

    sorting::lemma_stably_sorted_is_permutation(now, was.push(p), project::by_start());
    assert(was.push(p).to_multiset() =~= was.to_multiset().insert(p));
    assert forall|i: int, j: int|
        #![trigger now[i], now[j]]
        0 <= i <= j < now.len() implies now[i].start_us <= now[j].start_us by {
        assert(!sorting::before(project::by_start()(now[j]), project::by_start()(now[i])));
    }
}

/// A clip is put behind the last one of a track: it starts where the track ended.
pub proof fn lemma_appended_clip_follows(
    new: Seq<TrackView>,
    tracks: Seq<TrackView>,
    track_idx: int,
    clip: ClipView,
    end: i64,
)
    requires
        0 <= track_idx < tracks.len(),
        project::is_latest_end(tracks[track_idx].clips, end as int),
        end >= 0,
        timeline_ops_mt::inserted(new, tracks, track_idx, clip, end),
    ensures
        new[track_idx].clips.to_multiset() == tracks[track_idx].clips.to_multiset().insert(
            TrackClipView { clip, start_us: end },
        ),
        forall|i: int|
            0 <= i < tracks[track_idx].clips.len() ==> (
            #[trigger] tracks[track_idx].clips[i]).start_us
                + tracks[track_idx].clips[i].clip.dur_us() <= end,
        tracks[track_idx].clips.len() == 0 ==> end == 0,
{
    lemma_sorted_with_one_more(
        new[track_idx].clips,
        tracks[track_idx].clips,
        TrackClipView { clip, start_us: end },
    );
    laws::lemma_timeline_ends_with_its_last_clip(tracks[track_idx].clips, end as int);
}

/// A clip is refused a place on a track that there is just where it would have a
/// moment in common with a clip of the track, in the place where it comes to lie.
pub proof fn lemma_refused_where_it_would_overlap(
    tracks: Seq<TrackView>,
    track_idx: int,
    clip: ClipView,
    start_us: i64,
)
    requires
        clip.dur_us() > 0,
        track_idx >= 0,
        track_idx < tracks.len() ==> forall|i: int|
            0 <= i < tracks[track_idx].clips.len() ==> (
            #[trigger] tracks[track_idx].clips[i]).clip.dur_us() > 0,
    ensures
        track_idx >= tracks.len() ==> timeline_ops_mt::insert_refusal(
            tracks,
            track_idx,
            clip.dur_us(),
            start_us,
        ) is Some,
        track_idx < tracks.len() ==> (timeline_ops_mt::insert_refusal(
            tracks,
            track_idx,
            clip.dur_us(),
            start_us,
        ) is Some <==> exists|i: int, t: int|
            0 <= i < tracks[track_idx].clips.len() && #[trigger] laws::plays_at(
                tracks[track_idx].clips[i],
                t,
            ) && t >= 0 && start_us <= t && (start_us >= 0 ==> t < start_us + clip.dur_us()) && (
            start_us < 0 ==> t < clip.dur_us())),
{
    if track_idx < tracks.len() {
        let clips = tracks[track_idx].clips;
        let at = timeline_ops_mt::on_timeline(start_us);
        let placed = TrackClipView { clip, start_us: at };
        let none: Option<ClipId> = None;
        if project::overlaps_any(clips, at as int, clip.dur_us() as int, none) {
            let i = choose|i: int|
                0 <= i < clips.len() && none != Some((#[trigger] clips[i]).clip.id)
                    && project::overlaps(at as int, clip.dur_us() as int, clips[i]);
            laws::lemma_overlap_is_a_common_moment(placed, clips[i]);
            let t = choose|t: int|
                #[trigger] laws::plays_at(placed, t) && laws::plays_at(clips[i], t);
            assert(laws::plays_at(clips[i], t));
        }
        assert forall|i: int, t: int|
            0 <= i < clips.len() && #[trigger] laws::plays_at(clips[i], t) && t >= 0 && start_us
                <= t && (start_us >= 0 ==> t < start_us + clip.dur_us()) && (start_us < 0 ==> t
                < clip.dur_us()) implies project::overlaps_any(
            clips,
            at as int,
            clip.dur_us() as int,
            none,
        ) by {
            assert(laws::plays_at(placed, t));
            assert(project::overlaps(at as int, clip.dur_us() as int, clips[i]));
            assert(none != Some(clips[i].clip.id));
        }
    }
}

/// A moved clip is the same clip in another place: it starts where it was moved
/// to, and only its old and its new track change.
pub proof fn lemma_moved_clip_is_the_same(
    new: Seq<TrackView>,
    tracks: Seq<TrackView>,
    id: ClipId,
    from: int,
    ci: int,
    to: int,
    new_start_us: i64,
)
    requires
        project::found_at(tracks, id, from, ci),
        0 <= to < tracks.len(),
        new_start_us >= 0,
        timeline_ops_mt::moved(new, tracks, id, to, new_start_us),
    ensures
        new.len() == tracks.len(),
        forall|t: int|
            0 <= t < tracks.len() && t != from && t != to ==> #[trigger] new[t] == tracks[t],
        ({
            let tc = tracks[from].clips[ci];
            let placed = TrackClipView { clip: tc.clip, start_us: new_start_us };
            &&& from == to ==> new[to].clips.len() == tracks[to].clips.len() && new[to].clips[ci]
                == placed && forall|j: int|
                0 <= j < tracks[to].clips.len() && j != ci ==> #[trigger] new[to].clips[j]
                    == tracks[to].clips[j]
            &&& from != to ==> new[to].clips.to_multiset()
                == tracks[to].clips.to_multiset().insert(placed) && new[from].clips
                == tracks[from].clips.remove(ci)
        }),
{
    project::lemma_found(tracks, id, from, ci);
    let placed = TrackClipView { start_us: new_start_us, ..tracks[from].clips[ci] };
    if from != to {
        lemma_sorted_with_one_more(new[to].clips, tracks[to].clips, placed);
    }
}

/// A trim on a track changes one clip only, and of it only the end that is moved;
/// that end is where it was asked to be, as far as it may.
pub proof fn lemma_trim_on_a_track_moves_one_end(
    tracks: Seq<TrackView>,
    id: ClipId,
    ti: int,
    ci: int,
    side: TrimSide,
    asked_us: i64,
)
    requires
        project::found_at(tracks, id, ti, ci),
        tracks[ti].clips[ci].clip.fits_timeline(),
        tracks[ti].clips[ci].clip.trim_in.us() + MIN_WINDOW_US
            <= tracks[ti].clips[ci].clip.trim_out.us(),
        tracks[ti].clips[ci].clip.trim_out.us() <= tracks[ti].clips[ci].clip.info.duration.us(),
        timeline_ops_mt::trim_fits(tracks, id, side, asked_us),
    ensures
        timeline_ops_mt::trim_tracks(tracks, id, side, asked_us) matches Ok(new) ==> {
            let was = tracks[ti].clips[ci];
            let now = new[ti].clips[ci];
            &&& new.len() == tracks.len()
            &&& forall|t: int| 0 <= t < tracks.len() && t != ti ==> #[trigger] new[t] == tracks[t]
            &&& forall|j: int|
                0 <= j < tracks[ti].clips.len() && j != ci ==> #[trigger] new[ti].clips[j]
                    == tracks[ti].clips[j]
            &&& side == TrimSide::Left ==> now.clip == (ClipView {
                trim_in: now.clip.trim_in,
                ..was.clip
            }) && held_between(
                now.clip.trim_in.us() as int,
                asked_us as int,
                0,
                was.clip.trim_out.us() - MIN_WINDOW_US,
            ) && now.start_us - was.start_us == now.clip.trim_in.us() - was.clip.trim_in.us()
            &&& side == TrimSide::Right ==> now.start_us == was.start_us && now.clip == (
            ClipView { trim_out: now.clip.trim_out, ..was.clip }) && held_between(
                now.clip.trim_out.us() as int,
                asked_us as int,
                was.clip.trim_in.us() + MIN_WINDOW_US,
                was.clip.info.duration.us() as int,
            )
        },
{
    project::lemma_found(tracks, id, ti, ci);
    let c = tracks[ti].clips[ci].clip;
    assert(0 <= c.trim_in.us() && 0 <= c.trim_out.us());
    let left = timeline_ops::clamp(asked_us as int, 0, timeline_ops::latest_in(c)) as i64;
    let right = timeline_ops::clamp(
        asked_us as int,
        timeline_ops::earliest_out(c),
        c.info.duration.us() as int,
    ) as i64;
    assert(timeline_ops::micros(left).us() == left);
    assert(timeline_ops::micros(right).us() == right);
}

/// Clips can be joined as they are just where any two of them have the same
/// profile. Where they cannot, they are encoded to the profile of the first one.
pub proof fn lemma_alike_clips_are_joined(clips: Seq<ClipView>)
    requires
        clips.len() > 0,
    ensures
        compatibility::strategy_for(clips) is StreamCopy <==> forall|i: int, j: int|
            #![trigger clips[i], clips[j]]
            0 <= i < clips.len() && 0 <= j < clips.len() ==> clips[i].info.profile
                == clips[j].info.profile,
        compatibility::strategy_for(clips) matches MergeStrategyView::Reencode { target }
            ==> target == clips[0].info.profile,
{
    if compatibility::strategy_for(clips) is StreamCopy {
        assert forall|i: int, j: int|
            #![trigger clips[i], clips[j]]
            0 <= i < clips.len() && 0 <= j < clips.len() implies clips[i].info.profile
            == clips[j].info.profile by {
            assert(clips[i].info.profile == clips[0].info.profile);
            assert(clips[j].info.profile == clips[0].info.profile);
        }
    } else {
        let i = choose|i: int|
            0 <= i < clips.len() && (#[trigger] clips[i]).info.profile != clips[0].info.profile;
        assert(clips[i].info.profile != clips[0].info.profile);
    }
}

proof fn lemma_source_nanos_split(a: Seq<ClipView>, b: Seq<ClipView>, n: int)
    requires
        0 <= n <= b.len(),
    ensures
        merge_planner::source_nanos(a + b, a.len() + n) == merge_planner::source_nanos(
            a,
            a.len() as int,
        ) + merge_planner::source_nanos(b, n),
    decreases n,
{
    if n > 0 {
        lemma_source_nanos_split(a, b, n - 1);
        assert((a + b)[a.len() + n - 1] == b[n - 1]);
    } else {
        lemma_source_nanos_prefix(a, b, a.len() as int);
    }
}

proof fn lemma_source_nanos_prefix(a: Seq<ClipView>, b: Seq<ClipView>, n: int)
    requires
        0 <= n <= a.len(),
    ensures
        merge_planner::source_nanos(a + b, n) == merge_planner::source_nanos(a, n),
    decreases n,
{
    if n > 0 {
        lemma_source_nanos_prefix(a, b, n - 1);
        assert((a + b)[n - 1] == a[n - 1]);
    }
}

/// A merge takes the files of the clips in their order, each with its window, and
/// counts as long as all of them together.
pub proof fn lemma_merge_takes_every_clip(
    a: Seq<ClipView>,
    b: Seq<ClipView>,
    c: ClipView,
    spec: ExportSpecView,
)
    requires
        merge_planner::source_nanos(a + b, (a + b).len() as int) <= u128::MAX,
    ensures
        merge_planner::plan_for(a, spec).inputs.len() == a.len(),
        forall|i: int|
            0 <= i < a.len() ==> (#[trigger] merge_planner::plan_for(a, spec).inputs[i]).path
                == a[i].path && merge_planner::plan_for(a, spec).inputs[i].trim_in_us
                == a[i].trim_in.us() && merge_planner::plan_for(a, spec).inputs[i].trim_out_us
                == a[i].trim_out.us(),
        merge_planner::plan_for(a, spec).spec == spec,
        merge_planner::plan_for(a + b, spec).total_duration.nanos == merge_planner::plan_for(
            a,
            spec,
        ).total_duration.nanos + merge_planner::plan_for(b, spec).total_duration.nanos,
        merge_planner::plan_for(seq![c], spec).total_duration == c.info.duration,
        merge_planner::plan_for(a, spec).strategy == compatibility::strategy_for(a),
{
    lemma_source_nanos_split(a, b, b.len() as int);
    merge_planner::lemma_source_nanos_grow(a, 0, a.len() as int);
    merge_planner::lemma_source_nanos_grow(b, 0, b.len() as int);
    assert((a + b).len() == a.len() + b.len());
    reveal_with_fuel(merge_planner::source_nanos, 2);
}

} // verus!
