//! The thread that feeds the sound device.

use vstd::prelude::*;

use super::{clamp_position, live_clips, source_us};
use super::{AudioCtrl, AudioCtrlView};
use crate::domain::project;
use crate::domain::project::{Project, ProjectView, Track, TrackClip, TrackClipView, TrackView};
use crate::engine::audio::take_samples;
use crate::engine::composite;
use crate::ident::ClipId;
use crate::scalar::Scalar;

verus! {

/// The sound thread fills the device's buffer while it has room for more than
/// so many samples.
pub const TARGET_BUFFERED: usize = 19_200;

/// So many samples, left and right, are mixed at once.
pub const BATCH_SAMPLES: usize = 3_840;

/// How long they last.
pub const BATCH_US: i64 = 40_000;

/// A decoder that is further off than this has to seek.
pub const AUDIO_DRIFT_US: i64 = 10_000;

/// Whether a clip is active at some time from `from` up to `to`.
pub open spec fn is_in_range(from: i64, to: i64) -> spec_fn(TrackClipView) -> bool {
    |tc: TrackClipView| from < tc.end() && tc.start_us < to
}

/// The clips that are active in a range of time, with the places of their
/// tracks.
pub open spec fn active_in(tracks: Seq<TrackView>, from: i64, to: i64) -> Seq<
    (int, TrackClipView),
>
    decreases tracks.len(),
{
    if tracks.len() == 0 {
        Seq::empty()
    } else {
        active_in(tracks.drop_last(), from, to) + composite::on_track(
            tracks.last().clips.filter(is_in_range(from, to)),
            tracks.len() - 1,
        )
    }
}

fn in_range(tc: &TrackClip, from: i64, to: i64) -> (r: bool)
    ensures
        r == is_in_range(from, to)(tc@),
{
    let end: i128 = tc.start_us as i128 + tc.clip.effective_duration_us() as i128;
    (from as i128) < end && tc.start_us < to
}

/// The clips that are active at some time from `start_us` up to `end_us`.
pub fn active_audio_clips_in_range(project: &Project, start_us: i64, end_us: i64) -> (r: Vec<
    (usize, &TrackClip),
>)
    ensures
        composite::active_views(r@) == active_in(project@.tracks, start_us, end_us),
{
    let ghost tracks = project@.tracks;
    let ghost keep = is_in_range(start_us, end_us);
    let mut r: Vec<(usize, &TrackClip)> = Vec::new();
    let mut i: usize = 0;
    proof {
        assert(tracks.take(0) =~= Seq::empty());
        assert(composite::active_views(r@) =~= Seq::empty());
    }
    while i < project.tracks.len()
        invariant
            i <= project.tracks.len(),
            tracks == project@.tracks,
            tracks.len() == project.tracks@.len(),
            keep == is_in_range(start_us, end_us),
            composite::active_views(r@) == active_in(tracks.take(i as int), start_us, end_us),
        decreases project.tracks.len() - i,
    {
        let t: &Track = &project.tracks[i];
        let ghost seen = composite::active_views(r@);
        proof {
            assert(tracks[i as int] == t@);
            assert(tracks.take(i + 1).drop_last() =~= tracks.take(i as int));
        }
        let mut k: usize = 0;
        assert(composite::active_views(r@) =~= seen + composite::on_track(
            t@.clips.take(0).filter(keep),
            i as int,
        )) by {
            reveal(Seq::filter);
        }
        while k < t.clips.len()
            invariant
                k <= t.clips.len(),
                t@.clips.len() == t.clips@.len(),
                keep == is_in_range(start_us, end_us),
                composite::active_views(r@) == seen + composite::on_track(
                    t@.clips.take(k as int).filter(keep),
                    i as int,
                ),
            decreases t.clips.len() - k,
        {
            let tc: &TrackClip = &t.clips[k];
            let ghost had = r@;
            let ghost kept = t@.clips.take(k as int).filter(keep);
            proof {
                reveal(Seq::filter);
                assert(t@.clips[k as int] == tc@);
                assert(t@.clips.take(k + 1).drop_last() =~= t@.clips.take(k as int));
                assert(t@.clips.take(k + 1).last() == tc@);
            }
            if in_range(tc, start_us, end_us) {
                r.push((i, tc));
                let ghost one = (i as int, tc@);
                assert(composite::active_views(r@) =~= composite::active_views(had).push(one));
                assert(composite::on_track(kept.push(tc@), i as int) =~= composite::on_track(
                    kept,
                    i as int,
                ).push(one));
                assert(seen + composite::on_track(kept.push(tc@), i as int) =~= (seen
                    + composite::on_track(kept, i as int)).push(one));
            }
            k = k + 1;
        }
        assert(t@.clips.take(k as int) =~= t@.clips);
        i = i + 1;
    }
    assert(tracks.take(i as int) =~= tracks);
    r
}

proof fn lemma_tracks_in_range(tracks: Seq<TrackView>, from: i64, to: i64)
    ensures
        forall|i: int|
            0 <= i < active_in(tracks, from, to).len() ==> 0 <= (#[trigger] active_in(
                tracks,
                from,
                to,
            )[i]).0 < tracks.len(),
    decreases tracks.len(),
{
    if tracks.len() > 0 {
        lemma_tracks_in_range(tracks.drop_last(), from, to);
        let head = active_in(tracks.drop_last(), from, to);
        assert forall|i: int| 0 <= i < active_in(tracks, from, to).len() implies 0 <= (
        #[trigger] active_in(tracks, from, to)[i]).0 < tracks.len() by {
            if i < head.len() {
                assert(active_in(tracks, from, to)[i] == head[i]);
            }
        }
    }
}

/// What a clip adds to a batch.
#[derive(Debug)]
pub struct Part {
    pub clip_id: ClipId,
    pub path: String,
    pub start_us: i64,
    pub trim_in_us: i64,
    pub trim_out_us: i64,
    /// The loudness, as a factor.
    pub volume: Scalar,
}

#[verifier::ext_equal]
pub struct PartView {
    pub clip_id: ClipId,
    pub path: Seq<char>,
    pub start_us: i64,
    pub trim_in_us: i64,
    pub trim_out_us: i64,
    pub volume: Scalar,
}

impl View for Part {
    type V = PartView;

    open spec fn view(&self) -> PartView {
        PartView {
            clip_id: self.clip_id,
            path: self.path@,
            start_us: self.start_us,
            trim_in_us: self.trim_in_us,
            trim_out_us: self.trim_out_us,
            volume: self.volume,
        }
    }
}

pub open spec fn part_view() -> spec_fn(Part) -> PartView {
    |p: Part| p@
}

/// What a clip adds to a batch. A muted clip is silent.
pub open spec fn part_of(tc: TrackClipView) -> PartView {
    PartView {
        clip_id: tc.clip.id,
        path: tc.clip.path,
        start_us: tc.start_us,
        trim_in_us: tc.clip.trim_in.us(),
        trim_out_us: tc.clip.trim_out.us(),
        volume: if tc.clip.muted {
            Scalar { bits: 0 }
        } else {
            tc.clip.volume
        },
    }
}

/// What the clips in `active` add to a batch; those of muted tracks add
/// nothing.
pub open spec fn parts_of(tracks: Seq<TrackView>, active: Seq<(int, TrackClipView)>) -> Seq<
    PartView,
>
    decreases active.len(),
{
    if active.len() == 0 {
        Seq::empty()
    } else if tracks[active.last().0].muted {
        parts_of(tracks, active.drop_last())
    } else {
        parts_of(tracks, active.drop_last()).push(part_of(active.last().1))
    }
}

/// The sound thread.
#[derive(Debug)]
pub struct SoundState {
    project: Project,
    playing: bool,
    playhead_us: i64,
    duration_us: i64,
}

#[verifier::ext_equal]
pub struct SoundView {
    pub project: ProjectView,
    pub playing: bool,
    /// The time of the next batch.
    pub playhead_us: i64,
    pub duration_us: i64,
}

impl View for SoundState {
    type V = SoundView;

    closed spec fn view(&self) -> SoundView {
        SoundView {
            project: self.project@,
            playing: self.playing,
            playhead_us: self.playhead_us,
            duration_us: self.duration_us,
        }
    }
}

impl SoundView {
    /// The duration is that of the project.
    pub open spec fn wf(self) -> bool {
        project::is_latest_end(project::all_placed(self.project.tracks), self.duration_us as int)
    }

    /// The thread after a message; `duration_us` is that of the project that
    /// the message brings, if it brings one.
    pub open spec fn told(self, ctrl: AudioCtrlView, duration_us: i64) -> SoundView {
        match ctrl {
            AudioCtrlView::Play => SoundView { playing: true, ..self },
            AudioCtrlView::Pause => SoundView { playing: false, ..self },
            AudioCtrlView::Seek(pts_us) => SoundView {
                playhead_us: super::onto_timeline(pts_us, self.duration_us),
                ..self
            },
            AudioCtrlView::UpdateProject(project) => SoundView { project, duration_us, ..self },
            AudioCtrlView::Stop => self,
            AudioCtrlView::SetMuted(_) => self,
            AudioCtrlView::SetVolume(_) => self,
        }
    }

    /// Where in its source a clip of the project is at the playhead.
    pub open spec fn source_of(self, id: ClipId) -> Option<i64> {
        match project::find(self.project.tracks, id) {
            Some((ti, ci)) => {
                let tc = self.project.tracks[ti].clips[ci];
                Some(seek_to(self.playhead_us, tc.start_us, tc.clip.trim_in.us()))
            },
            None => None,
        }
    }

    /// Where the next batch ends.
    pub open spec fn batch_end(self) -> i64 {
        (self.playhead_us + BATCH_US) as i64
    }

    /// What the next batch is mixed of.
    pub open spec fn batch(self) -> Seq<PartView> {
        parts_of(
            self.project.tracks,
            active_in(self.project.tracks, self.playhead_us, self.batch_end()),
        )
    }
}

/// What the sound thread does for a message.
#[derive(Clone, Copy, Debug, PartialEq, Eq)]
pub enum SoundAction {
    Nothing,
    /// Drop what was mixed, and move the decoders to the playhead.
    MoveDecoders,
    /// Drop the decoders of clips that the project does not hold.
    DropDecoders,
    SetMuted(bool),
    SetVolume(Scalar),
    Stop,
}

/// What the sound thread does for a message.
pub open spec fn sound_action(ctrl: AudioCtrlView) -> SoundAction {
    match ctrl {
        AudioCtrlView::Play => SoundAction::Nothing,
        AudioCtrlView::Pause => SoundAction::Nothing,
        AudioCtrlView::Seek(_) => SoundAction::MoveDecoders,
        AudioCtrlView::UpdateProject(_) => SoundAction::DropDecoders,
        AudioCtrlView::Stop => SoundAction::Stop,
        AudioCtrlView::SetMuted(m) => SoundAction::SetMuted(m),
        AudioCtrlView::SetVolume(v) => SoundAction::SetVolume(v),
    }
}

/// What the sound thread does after a batch went to the device.
#[derive(Clone, Copy, Debug, PartialEq, Eq)]
pub enum BatchStep {
    /// Fill on.
    More,
    /// Keep what the device had no room for, and wait.
    KeepRest,
    /// The end of the timeline is reached.
    AtEnd,
}

impl SoundState {
    /// A thread at the start of a project.
    pub fn new(project: Project) -> (s: Self)
        requires
            project::ends_fit(project::all_placed(project@.tracks)),
        ensures
            s@.wf(),
            s@ == (SoundView {
                project: project@,
                playing: false,
                playhead_us: 0,
                duration_us: s@.duration_us,
            }),
    {
        let duration_us: i64 = project.duration_us();
        SoundState { project, playing: false, playhead_us: 0, duration_us }
    }

    pub fn is_playing(&self) -> (r: bool)
        ensures
            r == self@.playing,
    {
        self.playing
    }

    pub fn playhead_us(&self) -> (us: i64)
        ensures
            us == self@.playhead_us,
    {
        self.playhead_us
    }

    /// Take a message.
    pub fn control(&mut self, ctrl: AudioCtrl) -> (a: SoundAction)
        requires
            old(self)@.wf(),
            ctrl@ matches AudioCtrlView::UpdateProject(project) ==> project::ends_fit(
                project::all_placed(project.tracks),
            ),
        ensures
            final(self)@.wf(),
            final(self)@ == old(self)@.told(ctrl@, final(self)@.duration_us),
            a == sound_action(ctrl@),
    {
        match ctrl {
            AudioCtrl::Play => {
                self.playing = true;
                SoundAction::Nothing
            },
            AudioCtrl::Pause => {
                self.playing = false;
                SoundAction::Nothing
            },
            AudioCtrl::Seek(pts_us) => {
                self.playhead_us = clamp_position(pts_us, self.duration_us);
                SoundAction::MoveDecoders
            },
            AudioCtrl::Stop => SoundAction::Stop,
            AudioCtrl::SetMuted(m) => SoundAction::SetMuted(m),
            AudioCtrl::SetVolume(v) => SoundAction::SetVolume(v),
            AudioCtrl::UpdateProject(project) => {
                self.duration_us = project.duration_us();
                self.project = project;
                SoundAction::DropDecoders
            },
        }
    }

    /// Where the decoder of a clip has to seek to for the playhead; none where
    /// the project does not hold the clip.
    pub fn decoder_target(&self, id: ClipId) -> (us: Option<i64>)
        ensures
            us == self@.source_of(id),
    {
        match self.project.find_clip(id) {
            Some((ti, ci)) => {
                proof {
                    project::lemma_find(self@.project.tracks, id);
                }
                let tc: &TrackClip = &self.project.tracks[ti].clips[ci];
                assert(tc@ == self@.project.tracks[ti as int].clips[ci as int]);
                Some(audio_seek_target(self.playhead_us, tc.start_us, tc.clip.trim_in_us()))
            },
            None => None,
        }
    }

    /// The clips whose decoders are kept.
    pub fn kept_clips(&self) -> (r: Vec<ClipId>)
        ensures
            r@ == super::ids_of(self@.project.tracks),
    {
        live_clips(&self.project)
    }

    /// Whether to mix another batch into a buffer with `vacant` places.
    pub fn wants_batch(&self, vacant: usize) -> (r: bool)
        ensures
            r == (vacant > TARGET_BUFFERED),
    {
        vacant > TARGET_BUFFERED
    }

    /// What the next batch is mixed of.
    pub fn parts(&self) -> (r: Vec<Part>)
        ensures
            r@.map_values(part_view()) == self@.batch(),
    {
        let end_us: i64 = (self.playhead_us as i128 + BATCH_US as i128) as i64;
        let active: Vec<(usize, &TrackClip)> = active_audio_clips_in_range(
            &self.project,
            self.playhead_us,
            end_us,
        );
        let ghost tracks = self@.project.tracks;
        let ghost all = composite::active_views(active@);
        proof {
            lemma_tracks_in_range(tracks, self.playhead_us, end_us);
        }
        let mut r: Vec<Part> = Vec::new();
        let mut i: usize = 0;
        assert(r@.map_values(part_view()) =~= parts_of(tracks, all.take(0)));
        while i < active.len()
            invariant
                i <= active.len(),
                tracks == self@.project.tracks,
                tracks == project::track_views(self.project.tracks@),
                all == composite::active_views(active@),
                forall|j: int| 0 <= j < all.len() ==> 0 <= (#[trigger] all[j]).0 < tracks.len(),
                r@.map_values(part_view()) == parts_of(tracks, all.take(i as int)),
            decreases active.len() - i,
        {
            let (track_idx, tc): (usize, &TrackClip) = active[i];
            proof {
                assert(all[i as int] == (track_idx as int, tc@));
                assert(all.take(i + 1).drop_last() =~= all.take(i as int));
            }
            let t: &Track = &self.project.tracks[track_idx];
            assert(tracks[track_idx as int] == t@);
            if !t.muted {
                let volume: Scalar = if tc.clip.muted {
                    Scalar { bits: 0 }
                } else {
                    tc.clip.volume
                };
                let part: Part = Part {
                    clip_id: tc.clip.id,
                    path: tc.clip.path.clone(),
                    start_us: tc.start_us,
                    trim_in_us: tc.clip.trim_in_us(),
                    trim_out_us: tc.clip.trim_out_us(),
                    volume,
                };
                let ghost had = r@;
                r.push(part);
                assert(r@.map_values(part_view()) =~= had.map_values(part_view()).push(part@));
            }
            i = i + 1;
        }
        assert(all.take(i as int) =~= all);
        r
    }

    /// Take note that the device took `pushed` of the batch's samples. Only a
    /// batch that went in whole moves the playhead.
    pub fn batch_sent(&mut self, pushed: usize) -> (step: BatchStep)
        ensures
            final(self)@ == if pushed < BATCH_SAMPLES {
                old(self)@
            } else {
                SoundView { playhead_us: old(self)@.batch_end(), ..old(self)@ }
            },
            step == if pushed < BATCH_SAMPLES {
                BatchStep::KeepRest
            } else if old(self)@.batch_end() >= old(self)@.duration_us {
                BatchStep::AtEnd
            } else {
                BatchStep::More
            },
    {
        if pushed < BATCH_SAMPLES {
            return BatchStep::KeepRest;
        }
        self.playhead_us = (self.playhead_us as i128 + BATCH_US as i128) as i64;
        if self.playhead_us >= self.duration_us {
            BatchStep::AtEnd
        } else {
            BatchStep::More
        }
    }
}

/// How long the sound thread sleeps after filling, in milliseconds.
pub fn audio_pause_ms(hit_end: bool) -> (ms: u64)
    ensures
        ms == if hit_end {
            50u64
        } else {
            10u64
        },
{
    if hit_end {
        50
    } else {
        10
    }
}

/// Where a sound decoder has to seek to: not before the start of the file.
pub open spec fn seek_to(t_us: i64, start_us: i64, trim_in_us: i64) -> i64 {
    if super::source_time(t_us, start_us, trim_in_us) > 0 {
        super::source_time(t_us, start_us, trim_in_us)
    } else {
        0
    }
}

/// Where a sound decoder has to seek to: not before the start of the file.
pub fn audio_seek_target(t_us: i64, start_us: i64, trim_in_us: i64) -> (us: i64)
    ensures
        us == seek_to(t_us, start_us, trim_in_us),
{
    let at: i64 = source_us(t_us, start_us, trim_in_us);
    if at > 0 {
        at
    } else {
        0
    }
}

/// The samples that a decoder has given and that were not mixed yet.
#[derive(Debug)]
pub struct SampleBuffer {
    samples: Vec<Scalar>,
    at_us: i64,
}

#[verifier::ext_equal]
pub struct SampleBufferView {
    pub samples: Seq<Scalar>,
    /// The time on the timeline of the next sample.
    pub at_us: i64,
}

impl View for SampleBuffer {
    type V = SampleBufferView;

    closed spec fn view(&self) -> SampleBufferView {
        SampleBufferView { samples: self.samples@, at_us: self.at_us }
    }
}

impl SampleBuffer {
    pub fn new(at_us: i64) -> (b: Self)
        ensures
            b@ == (SampleBufferView { samples: Seq::empty(), at_us }),
    {
        SampleBuffer { samples: Vec::new(), at_us }
    }

    /// Whether the decoder is so far off `wanted_us` that it has to seek.
    pub fn is_off(&self, wanted_us: i64) -> (r: bool)
        ensures
            r == (self@.at_us - wanted_us > AUDIO_DRIFT_US || wanted_us - self@.at_us
                > AUDIO_DRIFT_US),
    {
        let d: i128 = self.at_us as i128 - wanted_us as i128;
        d > AUDIO_DRIFT_US as i128 || -d > AUDIO_DRIFT_US as i128
    }

    /// Drop everything: the decoder goes on at `t_us`. Tells where that is in
    /// the source.
    pub fn seek(&mut self, t_us: i64, start_us: i64, trim_in_us: i64) -> (target: i64)
        ensures
            final(self)@ == (SampleBufferView { samples: Seq::empty(), at_us: t_us }),
            target == seek_to(t_us, start_us, trim_in_us),
    {
        self.samples = Vec::new();
        self.at_us = t_us;
        audio_seek_target(t_us, start_us, trim_in_us)
    }

    /// Whether the decoder has to give more for the next batch: there is less
    /// than a batch, and the clip is not over.
    pub fn wants_more(&self, start_us: i64, trim_in_us: i64, trim_out_us: i64) -> (r: bool)
        ensures
            r == (self@.samples.len() < BATCH_SAMPLES && super::source_time(
                self@.at_us,
                start_us,
                trim_in_us,
            ) < trim_out_us),
    {
        self.samples.len() < BATCH_SAMPLES && source_us(self.at_us, start_us, trim_in_us)
            < trim_out_us
    }

    /// Take in what the decoder gave.
    pub fn extend(&mut self, samples: &Vec<Scalar>)
        ensures
            final(self)@ == (SampleBufferView {
                samples: old(self)@.samples + samples@,
                ..old(self)@
            }),
    {
        let mut i: usize = 0;
        assert(self.samples@ =~= old(self).samples@ + samples@.take(0));
        while i < samples.len()
            invariant
                i <= samples.len(),
                self.samples@ == old(self).samples@ + samples@.take(i as int),
                self.at_us == old(self).at_us,
            decreases samples.len() - i,
        {
            self.samples.push(samples[i]);
            i = i + 1;
            assert(self.samples@ =~= old(self).samples@ + samples@.take(i as int));
        }
        assert(samples@.take(i as int) =~= samples@);
    }

    /// The next batch. Where there is not enough for it, silence fills the
    /// rest.
    pub fn take_batch(&mut self) -> (out: Vec<Scalar>)
        ensures
            ({
                let was = old(self)@.samples;
                let have = if BATCH_SAMPLES < was.len() {
                    BATCH_SAMPLES as int
                } else {
                    was.len() as int
                };
                &&& out@ == was.take(have) + Seq::new(
                    (BATCH_SAMPLES - have) as nat,
                    |i: int| Scalar { bits: 0 },
                )
                &&& final(self)@ == (SampleBufferView {
                    samples: was.skip(have),
                    at_us: (old(self)@.at_us + BATCH_US) as i64,
                })
            }),
            out@.len() == BATCH_SAMPLES,
            forall|i: int|
                0 <= i < out@.len() && i < old(self)@.samples.len() ==> #[trigger] out@[i]
                    == old(self)@.samples[i],
            forall|i: int|
                0 <= i < final(self)@.samples.len() ==> #[trigger] final(self)@.samples[i]
                    == old(self)@.samples[out@.len() + i],
    {
        let out: Vec<Scalar> = take_samples(&mut self.samples, BATCH_SAMPLES / 2);
        self.at_us = (self.at_us as i128 + BATCH_US as i128) as i64;
        out
    }
}

/// A decoder that was moved to the playhead, and from then on gives one batch
/// after the other, stays in step with the thread: it is never off.
pub proof fn lemma_batches_stay_in_step(s: SoundView, b: SampleBufferView)
    requires
        b.at_us == s.playhead_us,
    ensures
        ({
            let after = SoundView { playhead_us: s.batch_end(), ..s };
            let rest = SampleBufferView { at_us: (b.at_us + BATCH_US) as i64, ..b };
            rest.at_us == after.playhead_us
        }),
{
}

} // verus!
