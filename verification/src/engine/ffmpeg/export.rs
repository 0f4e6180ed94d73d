//! What an export has to do: join the files as they are, where nothing was
//! changed about them, or else encode.

use vstd::prelude::*;

use super::command;
use super::reencode;
use super::stream_copy;
use crate::domain::clip::{Clip, ClipView};
use crate::domain::export_spec::{ExportSpec, ExportSpecView};
use crate::domain::project;
use crate::domain::project::{Project, Track, TrackClip, TrackClipView, TrackKind, TrackView};
use crate::domain::transform::{ResolvedTransform, TransformChannel, TransformKeysView};
use crate::engine::composite;
use crate::engine::composite::{RenderPlan, RenderPlanView};
use crate::scalar::ONE_BITS;
use crate::seqs;
use crate::services::compatibility;
use crate::services::merge_planner;
use crate::services::merge_planner::{MergeInput, MergeInputView};
use crate::sorting;
use crate::text;

verus! {

/// What an export has to do.
#[derive(Debug)]
pub enum ExportJob {
    /// Join the files of this list without encoding.
    StreamCopy { list: String },
    /// Run ffmpeg with these arguments.
    Reencode { args: Vec<String> },
}

#[verifier::ext_equal]
pub enum ExportJobView {
    StreamCopy { list: Seq<char> },
    Reencode { args: Seq<Seq<char>> },
}

impl View for ExportJob {
    type V = ExportJobView;

    open spec fn view(&self) -> ExportJobView {
        match *self {
            ExportJob::StreamCopy { list } => ExportJobView::StreamCopy { list: list@ },
            ExportJob::Reencode { args } => ExportJobView::Reencode { args: text::views(args@) },
        }
    }
}

/// How a clip looks that has no keyframes and the uniform scale one.
pub open spec fn still_look(c: ClipView) -> ResolvedTransform {
    ResolvedTransform {
        opacity: c.opacity,
        scale_x: c.scale_x,
        scale_y: c.scale_y,
        position_x: c.position_x,
        position_y: c.position_y,
        rotation_deg: c.rotation_deg,
        flip_h: c.flip_h,
        flip_v: c.flip_v,
        crop: c.crop,
        brightness: c.brightness,
        contrast: c.contrast,
        saturation: c.saturation,
        color_grading: c.color_grading,
    }
}

/// The clip plays its whole file as it is: nothing is cut off, its look changes
/// nothing, and it is heard at its own volume.
pub open spec fn is_untouched(c: ClipView) -> bool {
    &&& c.trim_in.nanos == 0
    &&& c.trim_out.nanos >= c.info.duration.nanos
    &&& c.transform_keys == TransformKeysView::still()
    &&& c.scale.bits == ONE_BITS
    &&& still_look(c).changes_nothing()
    &&& !c.muted
    &&& c.volume.bits == ONE_BITS
}

/// The clips of a track in the order in which they start.
pub open spec fn in_time(clips: Seq<TrackClipView>) -> Seq<TrackClipView> {
    choose|s: Seq<TrackClipView>| sorting::stably_sorted(s, clips, project::by_start())
}

/// The clips are untouched and of one profile, and play one after the other from
/// the start of the timeline.
pub open spec fn is_plain_row(row: Seq<TrackClipView>) -> bool {
    let clips = project::clips_only(row);
    &&& row.len() > 0
    &&& forall|i: int|
        0 <= i < row.len() ==> (#[trigger] row[i]).start_us == project::played(clips, i)
            && is_untouched(row[i].clip)
    &&& compatibility::all_alike(clips)
}

/// The project can be exported without encoding: all its clips lie on V1, which
/// is seen, and are a plain row.
pub open spec fn can_copy(tracks: Seq<TrackView>) -> bool {
    match project::track_index(tracks, "V1"@) {
        None => false,
        Some(v) => {
            &&& tracks[v].kind == TrackKind::Video
            &&& !tracks[v].muted
            &&& forall|t: int|
                0 <= t < tracks.len() && t != v ==> (#[trigger] tracks[t]).clips.len() == 0
            &&& is_plain_row(in_time(tracks[v].clips))
        },
    }
}

/// The files of the clips on V1, in the order in which they play.
pub open spec fn files_in_time(tracks: Seq<TrackView>) -> Seq<MergeInputView> {
    let row = in_time(tracks[project::track_index(tracks, "V1"@)->0].clips);
    Seq::new(row.len(), |i: int| merge_planner::input_of(row[i].clip))
}

/// `job` exports the tracks.
pub open spec fn is_job_for(
    job: ExportJobView,
    tracks: Seq<TrackView>,
    spec: ExportSpecView,
    lone_delay_ms: i64,
) -> bool {
    if can_copy(tracks) {
        job == (ExportJobView::StreamCopy { list: stream_copy::file_list(files_in_time(tracks)) })
    } else {
        exists|plan: RenderPlanView|
            composite::is_plan_of(plan, tracks) && job == (ExportJobView::Reencode {
                args: #[trigger] reencode::multitrack_args(
                    plan,
                    spec,
                    command::target_of(tracks),
                    spec.quality,
                    lone_delay_ms,
                ),
            })
    }
}

fn untouched(c: &Clip) -> (r: bool)
    ensures
        r == is_untouched(c@),
{
    let look: ResolvedTransform = ResolvedTransform {
        opacity: c.opacity,
        scale_x: c.scale_x,
        scale_y: c.scale_y,
        position_x: c.position_x,
        position_y: c.position_y,
        rotation_deg: c.rotation_deg,
        flip_h: c.flip_h,
        flip_v: c.flip_v,
        crop: c.crop,
        brightness: c.brightness,
        contrast: c.contrast,
        saturation: c.saturation,
        color_grading: c.color_grading,
    };
    let animated: bool = c.transform_keys.is_animated();
    proof {
        let k = c@.transform_keys;
        if animated {
            let ch = choose|ch: TransformChannel| (#[trigger] k.channel(ch)).len() > 0;
            assert(TransformKeysView::still().channel(ch).len() == 0);
        } else {
            assert(k.channel(TransformChannel::Opacity).len() == 0);
            assert(k.channel(TransformChannel::Scale).len() == 0);
            assert(k.channel(TransformChannel::ScaleX).len() == 0);
            assert(k.channel(TransformChannel::ScaleY).len() == 0);
            assert(k.channel(TransformChannel::PositionX).len() == 0);
            assert(k.channel(TransformChannel::PositionY).len() == 0);
            assert(k.channel(TransformChannel::Rotation).len() == 0);
            assert(k =~= TransformKeysView::still());
        }
    }
    !c.is_trimmed() && !animated && c.scale.bits == ONE_BITS
        && look.is_identity() && !c.muted && c.volume.bits == ONE_BITS
}

fn plain_row(row: &Vec<TrackClip>) -> (r: bool)
    ensures
        r == is_plain_row(project::placed_views(row@)),
{
    let ghost all = project::placed_views(row@);
    let ghost clips = project::clips_only(all);
    if row.len() == 0 {
        return false;
    }
    let mut end_us: i128 = 0;
    let mut i: usize = 0;
    while i < row.len()
        invariant
            i <= row.len(),
            0 < row.len(),
            row.len() <= usize::MAX,
            all == project::placed_views(row@),
            clips == project::clips_only(all),
            end_us == project::played(clips, i as int),
            -0x8000_0000_0000_0000 * (i as int) <= end_us <= 0x7fff_ffff_ffff_ffff * (i as int),
            forall|j: int|
                0 <= j < i ==> (#[trigger] all[j]).start_us == project::played(clips, j)
                    && is_untouched(all[j].clip),
            forall|j: int|
                0 <= j < i ==> (#[trigger] clips[j]).info.profile == clips[0].info.profile,
        decreases row.len() - i,
    {
        let tc: &TrackClip = &row[i];
        assert(all[i as int] == tc@);
        assert(clips[i as int] == tc@.clip);
        assert(all[0] == row@[0]@ && clips[0] == row@[0]@.clip);
        if tc.start_us as i128 != end_us || !untouched(&tc.clip) {
            return false;
        }
        if !tc.clip.is_compatible_with(&row[0].clip) {
            assert(clips[i as int].info.profile != clips[0].info.profile);
            return false;
        }
        end_us = end_us + tc.clip.effective_duration_us() as i128;
        i = i + 1;
    }
    true
}

/// What the export of a project has to do. `lone_delay_ms` is the delay of the
/// audio segment where only one is audible.
pub fn export_job(project: &Project, spec: &ExportSpec, lone_delay_ms: i64) -> (job: ExportJob)
    requires
        project::ends_fit(project::all_placed(project@.tracks)),
    ensures
        is_job_for(job@, project@.tracks, spec@, lone_delay_ms),
{
    match copied_files(project) {
        Some(inputs) => ExportJob::StreamCopy { list: stream_copy::concat_list(&inputs) },
        None => {
            let render: RenderPlan = composite::build_render_plan(project);
            let args: Vec<String> = reencode::build_multitrack_args(
                &render,
                spec,
                &command::export_target(project),
                spec.quality,
                lone_delay_ms,
            );
            ExportJob::Reencode { args }
        },
    }
}

/// The files to join, where the project can be exported without encoding.
fn copied_files(project: &Project) -> (r: Option<Vec<MergeInput>>)
    ensures
        match r {
            Some(inputs) => can_copy(project@.tracks) && merge_planner::input_views(inputs@)
                == files_in_time(project@.tracks),
            None => !can_copy(project@.tracks),
        },
{
    let ghost tracks = project@.tracks;
    let v: usize = match project.track_index_by_name("V1") {
        Some(v) => v,
        None => return None,
    };
    let t: &Track = &project.tracks[v];
    assert(tracks[v as int] == t@);
    if t.kind != TrackKind::Video || t.muted {
        return None;
    }
    let mut k: usize = 0;
    while k < project.tracks.len()
        invariant
            k <= project.tracks.len(),
            tracks == project@.tracks,
            tracks.len() == project.tracks@.len(),
            v < tracks.len(),
            project::track_index(tracks, "V1"@) == Some(v as int),
            forall|j: int| 0 <= j < k && j != v ==> (#[trigger] tracks[j]).clips.len() == 0,
        decreases project.tracks.len() - k,
    {
        assert(tracks[k as int] == project.tracks@[k as int]@);
        if k != v && project.tracks[k].clips.len() > 0 {
            return None;
        }
        k = k + 1;
    }
    let mut sorted: Track = t.clone();
    sorted.sort_clips();
    let ghost row = sorted@.clips;
    proof {
        let picked = in_time(tracks[v as int].clips);
        sorting::lemma_stably_sorted_is_unique(
            row,
            picked,
            tracks[v as int].clips,
            project::by_start(),
        );
    }
    if !plain_row(&sorted.clips) {
        return None;
    }
    let ghost files = files_in_time(tracks);
    let mut inputs: Vec<MergeInput> = Vec::new();
    let mut i: usize = 0;
    while i < sorted.clips.len()
        invariant
            i <= sorted.clips.len(),
            row == project::placed_views(sorted.clips@),
            files == Seq::new(row.len(), |i: int| merge_planner::input_of(row[i].clip)),
            inputs@.len() == i,
            forall|j: int| 0 <= j < i ==> (#[trigger] inputs@[j])@ == files[j],
        decreases sorted.clips.len() - i,
    {
        assert(row[i as int] == sorted.clips@[i as int]@);
        inputs.push(merge_planner::merge_input(&sorted.clips[i].clip));
        i = i + 1;
    }
    assert(merge_planner::input_views(inputs@) =~= files);
    Some(inputs)
}

/// Whole files of one profile that lie on V1 one after the other, and nothing
/// else, are joined without encoding, in the order in which they lie.
pub proof fn lemma_whole_files_are_joined(
    tracks: Seq<TrackView>,
    v: int,
    clips: Seq<ClipView>,
)
    requires
        0 <= v < tracks.len(),
        clips.len() > 0,
        project::fits_in_a_row(clips),
        tracks[v].name == "V1"@,
        tracks[v].kind == TrackKind::Video,
        !tracks[v].muted,
        tracks[v].clips == project::in_a_row(clips),
        forall|t: int|
            0 <= t < tracks.len() && t != v ==> (#[trigger] tracks[t]).name != "V1"@
                && tracks[t].clips.len() == 0,
        forall|i: int|
            0 <= i < clips.len() ==> is_untouched(#[trigger] clips[i]) && clips[i].dur_us() >= 0,
        compatibility::all_alike(clips),
    ensures
        can_copy(tracks),
        files_in_time(tracks) == Seq::new(
            clips.len(),
            |i: int| merge_planner::input_of(clips[i]),
        ),
{
    let row = project::in_a_row(clips);
    assert(project::is_named("V1"@)(tracks[v]));
    assert forall|j: int| 0 <= j < v implies !project::is_named("V1"@)(#[trigger] tracks[j]) by {}
    seqs::lemma_first_where_found(tracks, project::is_named("V1"@), v);
    project::lemma_row_is_sorted(clips);
    sorting::lemma_stably_sorted_is_unique(row, in_time(row), row, project::by_start());
    assert(project::clips_only(row) =~= clips);
    assert forall|i: int| 0 <= i < row.len() implies (#[trigger] row[i]).start_us
        == project::played(clips, i) && is_untouched(row[i].clip) by {
        assert(i64::MIN <= project::played(clips, i) <= i64::MAX);
        assert(is_untouched(clips[i]));
    }
    assert(files_in_time(tracks) =~= Seq::new(
        clips.len(),
        |i: int| merge_planner::input_of(clips[i]),
    ));
}

} // verus!
