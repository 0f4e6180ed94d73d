//! What a plan to render, and the clips of a moment, promise.

use vstd::prelude::*;

use super::composite;
use super::composite::{PlacementView, RenderPlanView, RenderSegmentView};
use crate::domain::project;
use crate::domain::project::{TrackClipView, TrackKind, TrackView};
use crate::seqs;
use crate::services::merge_planner::MergeInputView;
use crate::sorting;

verus! {

/// The clip at `ci` of the track at `ti` is on a video track that is not muted, and
/// plays at the time.
pub open spec fn is_seen(tracks: Seq<TrackView>, ti: int, ci: int, t_us: i64) -> bool {
    &&& 0 <= ti < tracks.len()
    &&& 0 <= ci < tracks[ti].clips.len()
    &&& !tracks[ti].muted && tracks[ti].kind == TrackKind::Video
    &&& tracks[ti].clips[ci].start_us <= t_us
    &&& t_us < tracks[ti].clips[ci].start_us + tracks[ti].clips[ci].clip.dur_us()
}

/// Just the clips that play at a time on video tracks that are not muted are
/// active then, and they come track by track.
pub proof fn lemma_active_clips_are_those_seen(tracks: Seq<TrackView>, t_us: i64)
    ensures
        forall|ti: int, ci: int| #[trigger]
            is_seen(tracks, ti, ci, t_us) ==> composite::active_at(tracks, t_us).contains(
                (ti, tracks[ti].clips[ci]),
            ),
        forall|k: int|
            0 <= k < composite::active_at(tracks, t_us).len() ==> is_seen_as(
                tracks,
                t_us,
                #[trigger] composite::active_at(tracks, t_us)[k],
            ),
        forall|k: int, l: int|
            0 <= k <= l < composite::active_at(tracks, t_us).len() ==> (
            #[trigger] composite::active_at(tracks, t_us)[k]).0 <= (
            #[trigger] composite::active_at(tracks, t_us)[l]).0,
    decreases tracks.len(),
{
    if tracks.len() > 0 {
        let front = tracks.drop_last();
        let last = tracks.last();
        let n = tracks.len() - 1;
        let had = composite::active_at(front, t_us);
        let all = composite::active_at(tracks, t_us);
        let p = composite::is_active(t_us);
        let on = last.clips.filter(p);
        lemma_active_clips_are_those_seen(front, t_us);
        seqs::lemma_filtered(last.clips, p);
        assert forall|k: int| 0 <= k < had.len() implies is_seen_as(
            tracks,
            t_us,
            #[trigger] had[k],
        ) && had[k].0 < n by {
            let (ti, ci) = choose|ti: int, ci: int| #[trigger]
                is_seen(front, ti, ci, t_us) && had[k] == (ti, front[ti].clips[ci]);
            assert(is_seen(tracks, ti, ci, t_us));
        }
        assert forall|x: (int, TrackClipView)| had.contains(x) implies #[trigger] all.contains(
            x,
        ) by {
            let k = had.index_of(x);
            assert(all[k] == x);
        }
        assert forall|k: int| 0 <= k < all.len() implies is_seen_as(
            tracks,
            t_us,
            #[trigger] all[k],
        ) && all[k].0 <= n && (k < had.len() ==> all[k] == had[k]) && (k >= had.len()
            ==> all[k].0 == n) by {
            if k < had.len() {
                assert(all[k] == had[k]);
            } else {
                let x = on[k - had.len()];
                assert(all[k] == (n, x));
                let ci = last.clips.index_of(x);
                assert(is_seen(tracks, n, ci, t_us));
            }
        }
        assert forall|ti: int, ci: int| #[trigger]
            is_seen(tracks, ti, ci, t_us) implies all.contains((ti, tracks[ti].clips[ci])) by {
            if ti < n {
                assert(is_seen(front, ti, ci, t_us));
            } else {
                assert(p(last.clips[ci]));
                let k = on.index_of(last.clips[ci]);
                assert(all[had.len() + k] == (ti, tracks[ti].clips[ci]));
            }
        }
    }
}

/// An active clip is one that is seen.
pub open spec fn is_seen_as(
    tracks: Seq<TrackView>,
    t_us: i64,
    active: (int, TrackClipView),
) -> bool {
    exists|ti: int, ci: int| #[trigger]
        is_seen(tracks, ti, ci, t_us) && active == (ti, tracks[ti].clips[ci])
}

/// A segment renders the clip at `ci` of the track at `ti`: it has the time and the
/// window of the clip, and the kind and the sound of the track; it is made from
/// the file of the clip, and shows it as it is at its start and as it changes.
pub open spec fn renders(
    seg: RenderSegmentView,
    inputs: Seq<MergeInputView>,
    tracks: Seq<TrackView>,
    ti: int,
    ci: int,
) -> bool {
    let tc = tracks[ti].clips[ci];
    &&& seg.start_us == tc.start_us
    &&& seg.end_us == tc.start_us + tc.clip.dur_us()
    &&& seg.trim_in_us == tc.clip.trim_in.us()
    &&& seg.trim_out_us == tc.clip.trim_out.us()
    &&& seg.track_idx == ti
    &&& seg.track_kind == tracks[ti].kind
    &&& seg.muted == tracks[ti].muted
    &&& seg.transform == tc.clip.look(0)
    &&& seg.transform_keys == tc.clip.transform_keys
    &&& (seg.z_order > 0 <==> (tracks[ti].name == "V2"@ || tracks[ti].name == "A2"@))
    &&& seg.input_idx < inputs.len()
    &&& inputs[seg.input_idx as int].path == tc.clip.path
    &&& inputs[seg.input_idx as int].trim_in_us == tc.clip.trim_in.us()
    &&& inputs[seg.input_idx as int].trim_out_us == tc.clip.trim_out.us()
}

/// There is a clip at `ci` of the track at `ti`, and the track is of the kind.
pub open spec fn is_clip_at(tracks: Seq<TrackView>, kind: TrackKind, ti: int, ci: int) -> bool {
    &&& 0 <= ti < tracks.len()
    &&& 0 <= ci < tracks[ti].clips.len()
    &&& tracks[ti].kind == kind
}

spec fn is_placed(p: PlacementView, tracks: Seq<TrackView>, kind: TrackKind) -> bool {
    exists|ti: int, ci: int| #[trigger]
        is_clip_at(tracks, kind, ti, ci) && p == composite::placement_of(
            tracks[ti],
            ti,
            tracks[ti].clips[ci],
        )
}

proof fn lemma_clip_is_placed(tracks: Seq<TrackView>, kind: TrackKind, ti: int, ci: int)
    requires
        is_clip_at(tracks, kind, ti, ci),
    ensures
        composite::placements(tracks, kind).contains(
            composite::placement_of(tracks[ti], ti, tracks[ti].clips[ci]),
        ),
    decreases tracks.len(),
{
    let all = composite::placements(tracks, kind);
    let front = tracks.drop_last();
    let had = composite::placements(front, kind);
    let p = composite::placement_of(tracks[ti], ti, tracks[ti].clips[ci]);
    if ti < tracks.len() - 1 {
        assert(is_clip_at(front, kind, ti, ci));
        lemma_clip_is_placed(front, kind, ti, ci);
        let k = had.index_of(p);
        assert(all[k] == p);
    } else {
        assert(all[had.len() + ci] == p);
    }
}

proof fn lemma_placement_is_of_a_clip(tracks: Seq<TrackView>, kind: TrackKind, k: int)
    requires
        0 <= k < composite::placements(tracks, kind).len(),
    ensures
        is_placed(composite::placements(tracks, kind)[k], tracks, kind),
    decreases tracks.len(),
{
    let all = composite::placements(tracks, kind);
    let front = tracks.drop_last();
    let had = composite::placements(front, kind);
    if k < had.len() {
        assert(all[k] == had[k]);
        lemma_placement_is_of_a_clip(front, kind, k);
        let (ti, ci) = choose|ti: int, ci: int| #[trigger]
            is_clip_at(front, kind, ti, ci) && had[k] == composite::placement_of(
                front[ti],
                ti,
                front[ti].clips[ci],
            );
        assert(is_clip_at(tracks, kind, ti, ci));
    } else {
        assert(is_clip_at(tracks, kind, tracks.len() - 1, k - had.len()));
    }
}

/// Some segment renders the clip.
pub open spec fn is_rendered(
    segments: Seq<RenderSegmentView>,
    inputs: Seq<MergeInputView>,
    tracks: Seq<TrackView>,
    ti: int,
    ci: int,
) -> bool {
    exists|k: int|
        0 <= k < segments.len() && renders(#[trigger] segments[k], inputs, tracks, ti, ci)
}

/// The segment renders some clip of a track of the kind.
pub open spec fn renders_some(
    seg: RenderSegmentView,
    inputs: Seq<MergeInputView>,
    tracks: Seq<TrackView>,
    kind: TrackKind,
) -> bool {
    exists|ti: int, ci: int| #[trigger]
        is_clip_at(tracks, kind, ti, ci) && renders(seg, inputs, tracks, ti, ci)
}

proof fn lemma_sorted_keeps_all(
    sorted: Seq<PlacementView>,
    s: Seq<PlacementView>,
    x: PlacementView,
)
    requires
        sorting::stably_sorted(sorted, s, composite::by_layer()),
    ensures
        sorted.contains(x) <==> s.contains(x),
{
    broadcast use vstd::seq_lib::group_to_multiset_ensures;

    sorting::lemma_stably_sorted_is_permutation(sorted, s, composite::by_layer());
    assert(sorted.to_multiset().count(x) == s.to_multiset().count(x));
}

proof fn lemma_segments_render(
    segments: Seq<RenderSegmentView>,
    inputs: Seq<MergeInputView>,
    sorted: Seq<PlacementView>,
    tracks: Seq<TrackView>,
    kind: TrackKind,
)
    requires
        tracks.len() <= usize::MAX,
        forall|ti: int, ci: int| #[trigger]
            is_clip_at(tracks, kind, ti, ci) ==> tracks[ti].clips[ci].end_fits(),
        sorting::stably_sorted(sorted, composite::placements(tracks, kind), composite::by_layer()),
        segments == composite::with_inputs(sorted, inputs),
        segments.len() == sorted.len(),
        forall|i: int|
            0 <= i < sorted.len() ==> (#[trigger] segments[i]).input_idx < inputs.len()
                && inputs[segments[i].input_idx as int] == composite::input_of(sorted[i]),
    ensures
        forall|ti: int, ci: int| #[trigger]
            is_clip_at(tracks, kind, ti, ci) ==> is_rendered(segments, inputs, tracks, ti, ci),
        forall|k: int|
            0 <= k < segments.len() ==> renders_some(
                #[trigger] segments[k],
                inputs,
                tracks,
                kind,
            ),
{
    let from = composite::placements(tracks, kind);
    assert forall|ti: int, ci: int| #[trigger] is_clip_at(tracks, kind, ti, ci) implies is_rendered(
        segments,
        inputs,
        tracks,
        ti,
        ci,
    ) by {
        let p = composite::placement_of(tracks[ti], ti, tracks[ti].clips[ci]);
        lemma_clip_is_placed(tracks, kind, ti, ci);
        lemma_sorted_keeps_all(sorted, from, p);
        let k = sorted.index_of(p);
        assert(sorted[k] == p);
        assert(renders(segments[k], inputs, tracks, ti, ci));
    }
    assert forall|k: int| 0 <= k < segments.len() implies renders_some(
        #[trigger] segments[k],
        inputs,
        tracks,
        kind,
    ) by {
        let p = sorted[k];
        assert(sorted.contains(p));
        lemma_sorted_keeps_all(sorted, from, p);
        let m = from.index_of(p);
        assert(from[m] == p);
        lemma_placement_is_of_a_clip(tracks, kind, m);
        let (ti, ci) = choose|ti: int, ci: int| #[trigger]
            is_clip_at(tracks, kind, ti, ci) && p == composite::placement_of(
                tracks[ti],
                ti,
                tracks[ti].clips[ci],
            );
        assert(is_clip_at(tracks, kind, ti, ci));
        assert(renders(segments[k], inputs, tracks, ti, ci));
    }
}

/// Every clip of a project is rendered by a segment of its kind, when it lies on
/// the timeline and from the part of its file that it plays, and there are no
/// other segments. No input is opened twice.
pub proof fn lemma_plan_renders_every_clip(plan: RenderPlanView, tracks: Seq<TrackView>)
    requires
        tracks.len() <= usize::MAX,
        plan.inputs.len() <= usize::MAX,
        forall|kind: TrackKind, ti: int, ci: int| #[trigger]
            is_clip_at(tracks, kind, ti, ci) ==> tracks[ti].clips[ci].end_fits(),
        composite::is_plan_of(plan, tracks),
    ensures
        forall|ti: int, ci: int| #[trigger]
            is_clip_at(tracks, TrackKind::Video, ti, ci) ==> is_rendered(
                plan.video_segments,
                plan.inputs,
                tracks,
                ti,
                ci,
            ),
        forall|ti: int, ci: int| #[trigger]
            is_clip_at(tracks, TrackKind::Audio, ti, ci) ==> is_rendered(
                plan.audio_segments,
                plan.inputs,
                tracks,
                ti,
                ci,
            ),
        forall|k: int|
            0 <= k < plan.video_segments.len() ==> renders_some(
                #[trigger] plan.video_segments[k],
                plan.inputs,
                tracks,
                TrackKind::Video,
            ),
        forall|k: int|
            0 <= k < plan.audio_segments.len() ==> renders_some(
                #[trigger] plan.audio_segments[k],
                plan.inputs,
                tracks,
                TrackKind::Audio,
            ),
        plan.inputs.no_duplicates(),
{
    let (video, audio) = choose|video: Seq<PlacementView>, audio: Seq<PlacementView>|
        {
            &&& #[trigger] composite::is_made_of(plan, video, audio)
            &&& sorting::stably_sorted(
                video,
                composite::placements(tracks, TrackKind::Video),
                composite::by_layer(),
            )
            &&& sorting::stably_sorted(
                audio,
                composite::placements(tracks, TrackKind::Audio),
                composite::by_layer(),
            )
        };
    composite::lemma_segments_name_their_inputs(plan, video, audio);
    lemma_segments_render(plan.video_segments, plan.inputs, video, tracks, TrackKind::Video);
    lemma_segments_render(plan.audio_segments, plan.inputs, audio, tracks, TrackKind::Audio);
}

/// A plan is as long as the timeline: no clip ends later, and one ends then.
pub proof fn lemma_plan_is_as_long_as_its_timeline(plan: RenderPlanView, tracks: Seq<TrackView>)
    requires
        composite::is_plan_of(plan, tracks),
    ensures
        forall|i: int|
            0 <= i < project::all_placed(tracks).len() ==> (#[trigger] project::all_placed(
                tracks,
            )[i]).start_us + project::all_placed(tracks)[i].clip.dur_us()
                <= plan.total_duration_us,
        plan.total_duration_us == 0 || exists|i: int|
            0 <= i < project::all_placed(tracks).len() && (#[trigger] project::all_placed(
                tracks,
            )[i]).start_us + project::all_placed(tracks)[i].clip.dur_us()
                == plan.total_duration_us,
{
    crate::domain::laws::lemma_timeline_ends_with_its_last_clip(
        project::all_placed(tracks),
        plan.total_duration_us as int,
    );
}

} // verus!
