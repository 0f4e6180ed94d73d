//! The render plan of a project: which part of which file is shown or heard
//! when, and in which order the layers lie on one another.

use vstd::prelude::*;

use crate::domain::codec::CodecProfile;
use crate::domain::export_spec::ExportSpec;
use crate::domain::project;
use crate::domain::project::{Project, Track, TrackClip, TrackClipView, TrackKind, TrackView};
use crate::domain::transform::{TransformKeys, TransformKeysView, TransformSamples};
use crate::services::compatibility::{MergeStrategy, MergeStrategyView};
use crate::services::merge_planner;
use crate::services::merge_planner::{MergeInput, MergeInputView, MergePlan, MergePlanView};
use crate::sorting;
use crate::sorting::{Rank, Ranked};
use crate::text;
use crate::time::Duration;

verus! {

/// A stretch of time in which a clip is active on a track.
#[derive(Debug)]
pub struct RenderSegment {
    /// The place of its input in the plan.
    pub input_idx: usize,
    pub start_us: i64,
    pub end_us: i64,
    pub track_kind: TrackKind,
    /// Higher layers lie on top.
    pub z_order: usize,
    pub trim_in_us: i64,
    pub trim_out_us: i64,
    pub track_idx: usize,
    /// Whether the track is muted.
    pub muted: bool,
    /// The clip's look at its start.
    pub transform: TransformSamples,
    pub transform_keys: TransformKeys,
}

#[verifier::ext_equal]
pub struct RenderSegmentView {
    pub input_idx: usize,
    pub start_us: i64,
    pub end_us: i64,
    pub track_kind: TrackKind,
    pub z_order: usize,
    pub trim_in_us: i64,
    pub trim_out_us: i64,
    pub track_idx: usize,
    pub muted: bool,
    pub transform: TransformSamples,
    pub transform_keys: TransformKeysView,
}

impl View for RenderSegment {
    type V = RenderSegmentView;

    open spec fn view(&self) -> RenderSegmentView {
        RenderSegmentView {
            input_idx: self.input_idx,
            start_us: self.start_us,
            end_us: self.end_us,
            track_kind: self.track_kind,
            z_order: self.z_order,
            trim_in_us: self.trim_in_us,
            trim_out_us: self.trim_out_us,
            track_idx: self.track_idx,
            muted: self.muted,
            transform: self.transform,
            transform_keys: self.transform_keys@,
        }
    }
}

pub open spec fn segment_view() -> spec_fn(RenderSegment) -> RenderSegmentView {
    |s: RenderSegment| s@
}

pub open spec fn segment_views(segments: Seq<RenderSegment>) -> Seq<RenderSegmentView> {
    segments.map_values(segment_view())
}

/// What to render: the inputs, and when each is shown or heard.
#[derive(Debug)]
pub struct RenderPlan {
    pub inputs: Vec<MergeInput>,
    pub video_segments: Vec<RenderSegment>,
    pub audio_segments: Vec<RenderSegment>,
    pub total_duration_us: i64,
}

#[verifier::ext_equal]
pub struct RenderPlanView {
    pub inputs: Seq<MergeInputView>,
    pub video_segments: Seq<RenderSegmentView>,
    pub audio_segments: Seq<RenderSegmentView>,
    pub total_duration_us: i64,
}

impl View for RenderPlan {
    type V = RenderPlanView;

    open spec fn view(&self) -> RenderPlanView {
        RenderPlanView {
            inputs: merge_planner::input_views(self.inputs@),
            video_segments: segment_views(self.video_segments@),
            audio_segments: segment_views(self.audio_segments@),
            total_duration_us: self.total_duration_us,
        }
    }
}

/// A segment that does not point to its input yet, and the file it needs.
struct Placement {
    path: String,
    segment: RenderSegment,
}

#[verifier::ext_equal]
pub struct PlacementView {
    pub path: Seq<char>,
    pub segment: RenderSegmentView,
}

impl View for Placement {
    type V = PlacementView;

    closed spec fn view(&self) -> PlacementView {
        PlacementView { path: self.path@, segment: self.segment@ }
    }
}

/// Segments are ordered by layer, then by start.
impl Ranked for Placement {
    closed spec fn rank(&self) -> Rank {
        Rank { major: self.segment.z_order as int, minor: self.segment.start_us as int }
    }

    fn goes_after(&self, other: &Self) -> (r: bool) {
        other.segment.z_order < self.segment.z_order || (other.segment.z_order
            == self.segment.z_order && other.segment.start_us < self.segment.start_us)
    }
}

pub open spec fn by_layer() -> spec_fn(PlacementView) -> Rank {
    |p: PlacementView| Rank { major: p.segment.z_order as int, minor: p.segment.start_us as int }
}

spec fn placement_view() -> spec_fn(Placement) -> PlacementView {
    |p: Placement| p@
}

spec fn placement_views(s: Seq<Placement>) -> Seq<PlacementView> {
    s.map_values(placement_view())
}

/// The segment of a clip on a track.
pub open spec fn placement_of(t: TrackView, track_idx: int, tc: TrackClipView) -> PlacementView {
    PlacementView {
        path: tc.clip.path,
        segment: RenderSegmentView {
            input_idx: 0,
            start_us: tc.start_us,
            end_us: tc.end() as i64,
            track_kind: t.kind,
            z_order: project::layer_of(t.name),
            trim_in_us: tc.clip.trim_in.us(),
            trim_out_us: tc.clip.trim_out.us(),
            track_idx: track_idx as usize,
            muted: t.muted,
            transform: tc.clip.look(0),
            transform_keys: tc.clip.transform_keys,
        },
    }
}

/// The segments of one track.
pub open spec fn track_placements(t: TrackView, track_idx: int) -> Seq<PlacementView> {
    Seq::new(t.clips.len(), |i: int| placement_of(t, track_idx, t.clips[i]))
}

/// The segments of all tracks of a kind, track by track.
pub open spec fn placements(tracks: Seq<TrackView>, kind: TrackKind) -> Seq<PlacementView>
    decreases tracks.len(),
{
    if tracks.len() == 0 {
        Seq::empty()
    } else if tracks.last().kind == kind {
        placements(tracks.drop_last(), kind) + track_placements(
            tracks.last(),
            tracks.len() - 1,
        )
    } else {
        placements(tracks.drop_last(), kind)
    }
}

/// The input that a segment needs.
pub open spec fn input_of(p: PlacementView) -> MergeInputView {
    MergeInputView {
        path: p.path,
        trim_in_us: p.segment.trim_in_us,
        trim_out_us: p.segment.trim_out_us,
    }
}

/// The inputs that the segments need.
pub open spec fn inputs_for(s: Seq<PlacementView>) -> Seq<MergeInputView> {
    Seq::new(s.len(), |i: int| input_of(s[i]))
}

/// `have`, and behind it what `s` brings that is not there yet, in the order in
/// which it first comes.
pub open spec fn joined(have: Seq<MergeInputView>, s: Seq<MergeInputView>) -> Seq<MergeInputView>
    decreases s.len(),
{
    if s.len() == 0 {
        have
    } else {
        let d = joined(have, s.drop_last());
        if d.contains(s.last()) {
            d
        } else {
            d.push(s.last())
        }
    }
}

/// The segments with the places of their inputs.
pub open spec fn with_inputs(
    s: Seq<PlacementView>,
    inputs: Seq<MergeInputView>,
) -> Seq<RenderSegmentView> {
    Seq::new(
        s.len(),
        |i: int|
            RenderSegmentView {
                input_idx: inputs.index_of(input_of(s[i])) as usize,
                ..s[i].segment
            },
    )
}

/// `plan` is made of the segments `video` and `audio`. Segments that play the
/// same part of the same file share an input; inputs stand in the order in
/// which the video segments, then the audio segments first need them.
pub open spec fn is_made_of(
    plan: RenderPlanView,
    video: Seq<PlacementView>,
    audio: Seq<PlacementView>,
) -> bool {
    &&& plan.inputs == joined(joined(Seq::empty(), inputs_for(video)), inputs_for(audio))
    &&& plan.video_segments == with_inputs(video, plan.inputs)
    &&& plan.audio_segments == with_inputs(audio, plan.inputs)
}

/// Joining keeps what was there where it was, keeps inputs apart from one
/// another, and leaves out nothing.
proof fn lemma_joined(have: Seq<MergeInputView>, s: Seq<MergeInputView>)
    requires
        have.no_duplicates(),
    ensures
        joined(have, s).no_duplicates(),
        have.len() <= joined(have, s).len(),
        joined(have, s).take(have.len() as int) == have,
        forall|i: int| 0 <= i < s.len() ==> joined(have, s).contains(#[trigger] s[i]),
        forall|x: MergeInputView| #[trigger]
            joined(have, s).contains(x) ==> have.contains(x) || s.contains(x),
    decreases s.len(),
{
    if s.len() == 0 {
        assert(have.take(have.len() as int) =~= have);
    } else {
        let first = s.drop_last();
        let d = joined(have, first);
        let last = s.last();
        lemma_joined(have, first);
        let r = joined(have, s);
        assert(r.take(have.len() as int) =~= d.take(have.len() as int));
        assert forall|i: int| 0 <= i < s.len() implies r.contains(#[trigger] s[i]) by {
            if i < first.len() {
                assert(d.contains(first[i]));
                let k = d.index_of(first[i]);
                assert(r[k] == s[i]);
            } else if !d.contains(last) {
                assert(r[d.len() as int] == last);
            }
        }
        assert forall|x: MergeInputView| #[trigger] r.contains(x) implies have.contains(x)
            || s.contains(x) by {
            let k = r.index_of(x);
            if k < d.len() {
                assert(d[k] == x);
                assert(d.contains(x));
                if first.contains(x) {
                    let j = first.index_of(x);
                    assert(s[j] == x);
                }
            } else {
                assert(s[s.len() - 1] == x);
            }
        }
    }
}

/// `plan` renders the tracks: every clip is a segment, ordered by layer and
/// start, clips of one layer and start in the order of the tracks.
pub open spec fn is_plan_of(plan: RenderPlanView, tracks: Seq<TrackView>) -> bool {
    &&& exists|video: Seq<PlacementView>, audio: Seq<PlacementView>|
        {
            &&& #[trigger] is_made_of(plan, video, audio)
            &&& sorting::stably_sorted(video, placements(tracks, TrackKind::Video), by_layer())
            &&& sorting::stably_sorted(audio, placements(tracks, TrackKind::Audio), by_layer())
        }
    &&& project::is_latest_end(project::all_placed(tracks), plan.total_duration_us as int)
}

/// Append the segments of one track.
fn push_track(out: &mut Vec<Placement>, t: &Track, track_idx: usize)
    requires
        project::ends_fit(t@.clips),
    ensures
        placement_views(final(out)@) == placement_views(old(out)@) + track_placements(
            t@,
            track_idx as int,
        ),
{
    let ghost before = placement_views(out@);
    let ghost rows = track_placements(t@, track_idx as int);
    let z_order: usize = t.layer();
    let mut i: usize = 0;
    assert(placement_views(out@) =~= before + rows.take(0));
    while i < t.clips.len()
        invariant
            i <= t.clips.len(),
            t@.clips.len() == t.clips@.len(),
            project::ends_fit(t@.clips),
            z_order == project::layer_of(t@.name),
            rows == track_placements(t@, track_idx as int),
            placement_views(out@) == before + rows.take(i as int),
        decreases t.clips.len() - i,
    {
        let tc: &TrackClip = &t.clips[i];
        assert(tc@ == t@.clips[i as int]);
        let ghost had = out@;
        let p: Placement = Placement {
            path: tc.clip.path.clone(),
            segment: RenderSegment {
                input_idx: 0,
                start_us: tc.start_us,
                end_us: tc.end_us(),
                track_kind: t.kind,
                z_order,
                trim_in_us: tc.clip.trim_in_us(),
                trim_out_us: tc.clip.trim_out_us(),
                track_idx,
                muted: t.muted,
                transform: tc.clip.resolved_transform(0),
                transform_keys: tc.clip.transform_keys.clone(),
            },
        };
        assert(p@ =~= rows[i as int]);
        out.push(p);
        i = i + 1;
        assert(placement_views(out@) =~= placement_views(had).push(p@));
        assert(rows.take(i as int) =~= rows.take(i - 1).push(rows[i - 1]));
        assert(before + rows.take(i as int) =~= (before + rows.take(i - 1)).push(rows[i - 1]));
    }
    assert(rows.take(i as int) =~= rows);
}

/// Put segments in order of layer and start.
fn sort_placements(v: &mut Vec<Placement>)
    ensures
        sorting::stably_sorted(
            placement_views(final(v)@),
            placement_views(old(v)@),
            by_layer(),
        ),
{
    sorting::sort_stable(v);
    proof {
        assert forall|p: Placement| by_layer()(#[trigger] placement_view()(p))
            == sorting::rank_of::<Placement>()(p) by {}
        sorting::lemma_stably_sorted_map(
            v@,
            old(v)@,
            sorting::rank_of::<Placement>(),
            placement_view(),
            by_layer(),
        );
    }
}

/// Where the input stands.
fn place_of(inputs: &Vec<MergeInput>, input: &MergeInput) -> (r: Option<usize>)
    ensures
        match r {
            Some(i) => i < inputs@.len() && inputs@[i as int]@ == input@,
            None => !merge_planner::input_views(inputs@).contains(input@),
        },
{
    let ghost views = merge_planner::input_views(inputs@);
    let mut i: usize = 0;
    while i < inputs.len()
        invariant
            i <= inputs.len(),
            views == merge_planner::input_views(inputs@),
            forall|j: int| 0 <= j < i ==> #[trigger] views[j] != input@,
        decreases inputs.len() - i,
    {
        let have: &MergeInput = &inputs[i];
        assert(views[i as int] == have@);
        if have.trim_in_us == input.trim_in_us && have.trim_out_us == input.trim_out_us
            && text::same_text(have.path.as_str(), input.path.as_str()) {
            assert(have@ =~= input@);
            return Some(i);
        }
        i = i + 1;
    }
    None
}

/// Point each segment to its input, and add the inputs that are not there yet.
fn take_inputs(s: Vec<Placement>, inputs: &mut Vec<MergeInput>) -> (r: Vec<RenderSegment>)
    requires
        merge_planner::input_views(old(inputs)@).no_duplicates(),
    ensures
        merge_planner::input_views(final(inputs)@) == joined(
            merge_planner::input_views(old(inputs)@),
            inputs_for(placement_views(s@)),
        ),
        segment_views(r@) == with_inputs(
            placement_views(s@),
            merge_planner::input_views(final(inputs)@),
        ),
{
    let ghost all = placement_views(s@);
    let ghost before = merge_planner::input_views(inputs@);
    let mut r: Vec<RenderSegment> = Vec::new();
    let mut i: usize = 0;
    assert(inputs_for(all).take(0) =~= Seq::empty());
    while i < s.len()
        invariant
            i <= s.len(),
            all == placement_views(s@),
            merge_planner::input_views(inputs@) == joined(before, inputs_for(all).take(i as int)),
            r@.len() == i,
            forall|j: int|
                0 <= j < i ==> (#[trigger] r@[j]).input_idx < inputs@.len()
                    && inputs@[r@[j].input_idx as int]@ == input_of(all[j]) && r@[j]@ == (
                RenderSegmentView { input_idx: r@[j].input_idx, ..all[j].segment }),
        decreases s.len() - i,
    {
        let p: &Placement = &s[i];
        assert(p@ == all[i as int]);
        let g: &RenderSegment = &p.segment;
        let ghost had = inputs@;
        let input: MergeInput = MergeInput {
            path: p.path.clone(),
            trim_in_us: g.trim_in_us,
            trim_out_us: g.trim_out_us,
        };
        assert(input@ =~= input_of(all[i as int]));
        proof {
            let wanted = inputs_for(all);
            assert(wanted.take(i + 1).drop_last() =~= wanted.take(i as int));
            assert(wanted.take(i + 1).last() == input@);
        }
        let input_idx: usize = match place_of(inputs, &input) {
            Some(k) => {
                assert(merge_planner::input_views(had)[k as int] == input@);
                k
            },
            None => {
                let k: usize = inputs.len();
                let ghost added = input@;
                inputs.push(input);
                assert(merge_planner::input_views(inputs@) =~= merge_planner::input_views(
                    had,
                ).push(added));
                k
            },
        };
        let segment: RenderSegment = RenderSegment {
            input_idx,
            start_us: g.start_us,
            end_us: g.end_us,
            track_kind: g.track_kind,
            z_order: g.z_order,
            trim_in_us: g.trim_in_us,
            trim_out_us: g.trim_out_us,
            track_idx: g.track_idx,
            muted: g.muted,
            transform: g.transform,
            transform_keys: g.transform_keys.clone(),
        };
        assert(segment@ =~= (RenderSegmentView { input_idx, ..all[i as int].segment }));
        r.push(segment);
        i = i + 1;
    }
    proof {
        let views = merge_planner::input_views(inputs@);
        assert(inputs_for(all).take(i as int) =~= inputs_for(all));
        lemma_joined(before, inputs_for(all));
        assert forall|j: int| 0 <= j < all.len() implies #[trigger] segment_views(r@)[j]
            == with_inputs(all, views)[j] by {
            let k = r@[j].input_idx as int;
            assert(views[k] == input_of(all[j]));
            assert(views.contains(input_of(all[j])));
            assert(views.index_of(input_of(all[j])) == k);
        }
        assert(segment_views(r@) =~= with_inputs(all, views));
    }
    r
}

/// Every clip of every track as segments, track by track: video and audio.
fn gather(project: &Project) -> (r: (Vec<Placement>, Vec<Placement>))
    requires
        project::ends_fit(project::all_placed(project@.tracks)),
    ensures
        placement_views(r.0@) == placements(project@.tracks, TrackKind::Video),
        placement_views(r.1@) == placements(project@.tracks, TrackKind::Audio),
{
    let ghost tracks = project@.tracks;
    let mut video: Vec<Placement> = Vec::new();
    let mut audio: Vec<Placement> = Vec::new();
    let mut i: usize = 0;
    proof {
        assert(tracks.take(0) =~= Seq::empty());
        assert(placement_views(video@) =~= Seq::empty());
        assert(placement_views(audio@) =~= Seq::empty());
    }
    while i < project.tracks.len()
        invariant
            i <= project.tracks.len(),
            tracks == project@.tracks,
            tracks.len() == project.tracks@.len(),
            project::ends_fit(project::all_placed(tracks)),
            placement_views(video@) == placements(tracks.take(i as int), TrackKind::Video),
            placement_views(audio@) == placements(tracks.take(i as int), TrackKind::Audio),
        decreases project.tracks.len() - i,
    {
        let t: &Track = &project.tracks[i];
        proof {
            assert(tracks[i as int] == t@);
            assert(tracks.take(i + 1).drop_last() =~= tracks.take(i as int));
            project::lemma_all_placed_prefix(tracks, i + 1);
            let seen = project::all_placed(tracks.take(i as int));
            assert(project::all_placed(tracks.take(i + 1)) == seen + t@.clips);
            assert forall|j: int| 0 <= j < t@.clips.len() implies (
            #[trigger] t@.clips[j]).end_fits() by {
                assert(project::all_placed(tracks.take(i + 1))[seen.len() + j] == t@.clips[j]);
                assert(project::all_placed(tracks)[seen.len() + j] == t@.clips[j]);
            }
        }
        match t.kind {
            TrackKind::Video => push_track(&mut video, t, i),
            TrackKind::Audio => push_track(&mut audio, t, i),
        }
        i = i + 1;
    }
    assert(tracks.take(i as int) =~= tracks);
    (video, audio)
}

/// The render plan of a project.
pub fn build_render_plan(project: &Project) -> (plan: RenderPlan)
    requires
        project::ends_fit(project::all_placed(project@.tracks)),
    ensures
        is_plan_of(plan@, project@.tracks),
{
    let (mut video, mut audio): (Vec<Placement>, Vec<Placement>) = gather(project);
    sort_placements(&mut video);
    sort_placements(&mut audio);
    let ghost v = placement_views(video@);
    let ghost a = placement_views(audio@);
    let mut inputs: Vec<MergeInput> = Vec::new();
    let ghost none = merge_planner::input_views(inputs@);
    assert(none =~= Seq::empty());
    let video_segments: Vec<RenderSegment> = take_inputs(video, &mut inputs);
    let ghost first = merge_planner::input_views(inputs@);
    proof {
        lemma_joined(none, inputs_for(v));
    }
    let audio_segments: Vec<RenderSegment> = take_inputs(audio, &mut inputs);
    let ghost all = merge_planner::input_views(inputs@);
    let plan: RenderPlan = RenderPlan {
        inputs,
        video_segments,
        audio_segments,
        total_duration_us: project.duration_us(),
    };
    proof {
        lemma_joined(first, inputs_for(a));
        assert forall|i: int| 0 <= i < v.len() implies #[trigger] with_inputs(v, first)[i]
            == with_inputs(v, all)[i] by {
            let x = input_of(v[i]);
            assert(inputs_for(v)[i] == x);
            assert(first.contains(x));
            let k = first.index_of(x);
            assert(all.take(first.len() as int)[k] == x);
            assert(all[k] == x);
            assert(all.contains(x));
            assert(all.index_of(x) == k);
        }
        assert(with_inputs(v, first) =~= with_inputs(v, all));
        assert(is_made_of(plan@, v, a));
    }
    plan
}

/// A render plan as a merge job. Several tracks always have to be encoded.
pub fn render_plan_to_merge_plan(
    render: &RenderPlan,
    spec: ExportSpec,
    target: CodecProfile,
) -> (plan: MergePlan)
    ensures
        plan@ == (MergePlanView {
            inputs: render@.inputs,
            spec: spec@,
            strategy: MergeStrategyView::Reencode { target: target@ },
            total_duration: Duration {
                nanos: (if render@.total_duration_us > 0 {
                    render@.total_duration_us * 1_000
                } else {
                    0
                }) as u128,
            },
        }),
{
    let us: u64 = if render.total_duration_us > 0 {
        render.total_duration_us as u64
    } else {
        0
    };
    MergePlan {
        inputs: merge_planner::clone_inputs(&render.inputs),
        spec,
        strategy: MergeStrategy::Reencode { target },
        total_duration: Duration::from_micros(us),
    }
}

/// Whether a clip is active at a time.
pub open spec fn is_active(t_us: i64) -> spec_fn(TrackClipView) -> bool {
    |tc: TrackClipView| tc.start_us <= t_us < tc.end()
}

/// The clips of the video tracks that are active at a time, with the places of
/// their tracks. A muted track has none.
pub open spec fn active_at(tracks: Seq<TrackView>, t_us: i64) -> Seq<(int, TrackClipView)>
    decreases tracks.len(),
{
    if tracks.len() == 0 {
        Seq::empty()
    } else if tracks.last().muted || tracks.last().kind != TrackKind::Video {
        active_at(tracks.drop_last(), t_us)
    } else {
        active_at(tracks.drop_last(), t_us) + on_track(
            tracks.last().clips.filter(is_active(t_us)),
            tracks.len() - 1,
        )
    }
}

/// Clips with the place of their track.
pub open spec fn on_track(clips: Seq<TrackClipView>, track_idx: int) -> Seq<(int, TrackClipView)> {
    Seq::new(clips.len(), |i: int| (track_idx, clips[i]))
}

/// Clips with the places of their tracks, as contracts speak of them.
pub open spec fn active_views(s: Seq<(usize, &TrackClip)>) -> Seq<(int, TrackClipView)> {
    Seq::new(s.len(), |i: int| (s[i].0 as int, s[i].1@))
}

/// Whether the clip is active at a time.
pub(crate) fn active(tc: &TrackClip, t_us: i64) -> (r: bool)
    ensures
        r == is_active(t_us)(tc@),
{
    let end: i128 = tc.start_us as i128 + tc.clip.effective_duration_us() as i128;
    t_us >= tc.start_us && (t_us as i128) < end
}

/// The clips that are active at `t_us` on the video tracks that are not muted.
pub fn active_clips_at(project: &Project, t_us: i64) -> (r: Vec<(usize, &TrackClip)>)
    ensures
        active_views(r@) == active_at(project@.tracks, t_us),
{
    let ghost tracks = project@.tracks;
    let mut r: Vec<(usize, &TrackClip)> = Vec::new();
    let mut i: usize = 0;
    proof {
        assert(tracks.take(0) =~= Seq::empty());
        assert(active_views(r@) =~= Seq::empty());
    }
    while i < project.tracks.len()
        invariant
            i <= project.tracks.len(),
            tracks == project@.tracks,
            tracks.len() == project.tracks@.len(),
            active_views(r@) == active_at(tracks.take(i as int), t_us),
        decreases project.tracks.len() - i,
    {
        let t: &Track = &project.tracks[i];
        proof {
            assert(tracks[i as int] == t@);
            assert(tracks.take(i + 1).drop_last() =~= tracks.take(i as int));
        }
        if !t.muted && t.kind == TrackKind::Video {
            let ghost seen = active_views(r@);
            let ghost keep = is_active(t_us);
            let mut k: usize = 0;
            assert(active_views(r@) =~= seen + on_track(t@.clips.take(0).filter(keep), i as int))
                by {
                reveal(Seq::filter);
            }
            while k < t.clips.len()
                invariant
                    k <= t.clips.len(),
                    t@.clips.len() == t.clips@.len(),
                    keep == is_active(t_us),
                    active_views(r@) == seen + on_track(
                        t@.clips.take(k as int).filter(keep),
                        i as int,
                    ),
                decreases t.clips.len() - k,
            {
                let tc: &TrackClip = &t.clips[k];
                let ghost had = r@;
                let ghost kept = t@.clips.take(k as int).filter(keep);
                proof {
                    reveal(Seq::filter);
                    assert(t@.clips[k as int] == tc@);
                    assert(t@.clips.take(k + 1).drop_last() =~= t@.clips.take(k as int));
                    assert(t@.clips.take(k + 1).last() == tc@);
                }
                if active(tc, t_us) {
                    r.push((i, tc));
                    assert(active_views(r@) =~= active_views(had).push((i as int, tc@)));
                    assert(on_track(kept.push(tc@), i as int) =~= on_track(kept, i as int).push(
                        (i as int, tc@),
                    ));
                    assert(seen + on_track(kept.push(tc@), i as int) =~= (seen + on_track(
                        kept,
                        i as int,
                    )).push((i as int, tc@)));
                }
                k = k + 1;
            }
            assert(t@.clips.take(k as int) =~= t@.clips);
        }
        i = i + 1;
    }
    assert(tracks.take(i as int) =~= tracks);
    r
}

/// In a plan no two inputs are the same, each segment points to the input that
/// names its file and the part that it plays, and each input is one that a
/// segment needs.
pub proof fn lemma_segments_name_their_inputs(
    plan: RenderPlanView,
    video: Seq<PlacementView>,
    audio: Seq<PlacementView>,
)
    requires
        is_made_of(plan, video, audio),
        plan.inputs.len() <= usize::MAX,
    ensures
        plan.inputs.no_duplicates(),
        plan.video_segments.len() == video.len(),
        plan.audio_segments.len() == audio.len(),
        forall|i: int|
            0 <= i < video.len() ==> (#[trigger] plan.video_segments[i]).input_idx
                < plan.inputs.len() && plan.inputs[plan.video_segments[i].input_idx as int]
                == input_of(video[i]),
        forall|i: int|
            0 <= i < audio.len() ==> (#[trigger] plan.audio_segments[i]).input_idx
                < plan.inputs.len() && plan.inputs[plan.audio_segments[i].input_idx as int]
                == input_of(audio[i]),
        forall|x: MergeInputView| #[trigger]
            plan.inputs.contains(x) ==> inputs_for(video).contains(x) || inputs_for(
                audio,
            ).contains(x),
{
    let first = joined(Seq::empty(), inputs_for(video));
    lemma_joined(Seq::empty(), inputs_for(video));
    lemma_joined(first, inputs_for(audio));
    assert forall|i: int| 0 <= i < video.len() implies (
    #[trigger] plan.video_segments[i]).input_idx < plan.inputs.len()
        && plan.inputs[plan.video_segments[i].input_idx as int] == input_of(video[i]) by {
        let x = inputs_for(video)[i];
        assert(first.contains(x));
        let k = first.index_of(x);
        assert(plan.inputs.take(first.len() as int)[k] == x);
        assert(plan.inputs[k] == x);
        assert(plan.inputs.contains(x));
    }
    assert forall|i: int| 0 <= i < audio.len() implies (
    #[trigger] plan.audio_segments[i]).input_idx < plan.inputs.len()
        && plan.inputs[plan.audio_segments[i].input_idx as int] == input_of(audio[i]) by {
        assert(plan.inputs.contains(inputs_for(audio)[i]));
    }
}

/// In a plan layers come from the bottom up.
pub proof fn lemma_layers_come_from_the_bottom_up(plan: RenderPlanView, tracks: Seq<TrackView>)
    requires
        is_plan_of(plan, tracks),
    ensures
        forall|i: int, j: int|
            0 <= i <= j < plan.video_segments.len() ==> (
            #[trigger] plan.video_segments[i]).z_order <= (
            #[trigger] plan.video_segments[j]).z_order,
{
    let (video, audio) = choose|video: Seq<PlacementView>, audio: Seq<PlacementView>|
        {
            &&& #[trigger] is_made_of(plan, video, audio)
            &&& sorting::stably_sorted(video, placements(tracks, TrackKind::Video), by_layer())
            &&& sorting::stably_sorted(audio, placements(tracks, TrackKind::Audio), by_layer())
        };
    assert forall|i: int, j: int| 0 <= i <= j < plan.video_segments.len() implies (
    #[trigger] plan.video_segments[i]).z_order <= (#[trigger] plan.video_segments[j]).z_order by {
        assert(!sorting::before(by_layer()(video[j]), by_layer()(video[i])));
    }
}

proof fn lemma_placements_count(tracks: Seq<TrackView>)
    ensures
        placements(tracks, TrackKind::Video).len() + placements(tracks, TrackKind::Audio).len()
            == project::all_placed(tracks).len(),
    decreases tracks.len(),
{
    if tracks.len() > 0 {
        lemma_placements_count(tracks.drop_last());
    }
}

/// A plan has as many segments as the project has clips.
pub proof fn lemma_every_clip_is_rendered(plan: RenderPlanView, tracks: Seq<TrackView>)
    requires
        is_plan_of(plan, tracks),
    ensures
        plan.video_segments.len() + plan.audio_segments.len() == project::all_placed(
            tracks,
        ).len(),
{
    let (video, audio) = choose|video: Seq<PlacementView>, audio: Seq<PlacementView>|
        {
            &&& #[trigger] is_made_of(plan, video, audio)
            &&& sorting::stably_sorted(video, placements(tracks, TrackKind::Video), by_layer())
            &&& sorting::stably_sorted(audio, placements(tracks, TrackKind::Audio), by_layer())
        };
    sorting::lemma_stably_sorted_is_permutation(
        video,
        placements(tracks, TrackKind::Video),
        by_layer(),
    );
    sorting::lemma_stably_sorted_is_permutation(
        audio,
        placements(tracks, TrackKind::Audio),
        by_layer(),
    );
    lemma_placements_count(tracks);
}

} // verus!
