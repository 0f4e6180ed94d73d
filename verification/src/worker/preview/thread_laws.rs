//! What the threads of the preview promise.

use vstd::prelude::*;

use super::present;
use super::present::PresentView;
use super::queue;
use super::queue::PictureItemView;
use super::render::RenderView;
use super::sound;
use super::sound::SoundView;
use super::{AudioCtrlView, PictureCtrlView, PreviewCtrlView};
use crate::domain::project;
use crate::domain::project::{ProjectView, TrackClipView, TrackView};
use crate::engine::audio;
use crate::engine::decoder::DecodedFrameView;
use crate::seqs;
use crate::worker::job::EventView;

verus! {

/// A position on the timeline is kept, and one beside it is brought to its nearer
/// end.
pub proof fn lemma_position_is_kept_on_timeline(pts_us: i64, duration_us: i64)
    ensures
        0 <= super::onto_timeline(pts_us, duration_us),
        duration_us >= 0 ==> super::onto_timeline(pts_us, duration_us) <= duration_us,
        0 <= pts_us <= duration_us ==> super::onto_timeline(pts_us, duration_us) == pts_us,
        pts_us < 0 ==> super::onto_timeline(pts_us, duration_us) == 0,
        0 <= duration_us < pts_us ==> super::onto_timeline(pts_us, duration_us) == duration_us,
{
}

/// A seek takes all threads to the same place, and changes neither the project nor
/// whether they play. No older picture is waiting any more, and one of the new
/// place is owed.
pub proof fn lemma_seek_takes_all_threads_along(
    r: RenderView,
    p: PresentView,
    s: SoundView,
    pts_us: i64,
    gen: u64,
    now_ns: u64,
    d: i64,
    f: u64,
)
    requires
        0 <= pts_us <= r.duration_us,
        p.duration_us == r.duration_us,
        s.duration_us == r.duration_us,
    ensures
        super::for_pictures(PreviewCtrlView::Seek { pts_us }, gen) matches Some(c)
            && r.told(c, d, f).head_us == pts_us && r.told(c, d, f).gen == gen && r.told(
            c,
            d,
            f,
        ).owed && r.told(c, d, f).playing == r.playing && r.told(c, d, f).project == r.project
            && p.told(c, now_ns, d, f).last_delivered_us == pts_us && p.told(c, now_ns, d, f).gen
            == gen && p.told(c, now_ns, d, f).pending is None && p.told(c, now_ns, d, f).playing
            == p.playing && p.told(c, now_ns, d, f).project == p.project,
        s.told(super::for_audio(PreviewCtrlView::Seek { pts_us }), d).playhead_us == pts_us,
        s.told(super::for_audio(PreviewCtrlView::Seek { pts_us }), d).playing == s.playing,
        s.told(super::for_audio(PreviewCtrlView::Seek { pts_us }), d).project == s.project,
{
}

/// All threads play, and pause, together, and stay where they are.
pub proof fn lemma_threads_play_and_pause_together(
    r: RenderView,
    p: PresentView,
    s: SoundView,
    gen: u64,
    now_ns: u64,
    d: i64,
    f: u64,
)
    ensures
        super::for_pictures(PreviewCtrlView::Play, gen) matches Some(c) && r.told(c, d, f) == (
        RenderView { playing: true, ..r }) && p.told(c, now_ns, d, f).playing && p.told(
            c,
            now_ns,
            d,
            f,
        ).last_delivered_us == p.last_delivered_us && p.told(c, now_ns, d, f).gen == p.gen,
        s.told(super::for_audio(PreviewCtrlView::Play), d) == (SoundView { playing: true, ..s }),
        super::for_pictures(PreviewCtrlView::Pause, gen) matches Some(c) && r.told(c, d, f) == (
        RenderView { playing: false, ..r }) && !p.told(c, now_ns, d, f).playing && p.told(
            c,
            now_ns,
            d,
            f,
        ).last_delivered_us == p.last_delivered_us && p.told(c, now_ns, d, f).gen == p.gen,
        s.told(super::for_audio(PreviewCtrlView::Pause), d) == (SoundView { playing: false, ..s }),
{
}

/// All threads get a changed project, and stay where they are; pictures of the
/// old one are not shown any more.
pub proof fn lemma_threads_get_the_same_project(
    r: RenderView,
    p: PresentView,
    s: SoundView,
    project: ProjectView,
    gen: u64,
    now_ns: u64,
    d: i64,
    f: u64,
)
    ensures
        super::for_pictures(PreviewCtrlView::UpdateProject(project), gen) matches Some(c)
            && r.told(c, d, f).project == project && r.told(c, d, f).gen == gen && r.told(
            c,
            d,
            f,
        ).head_us == r.head_us && r.told(c, d, f).owed && r.told(c, d, f).playing == r.playing
            && p.told(c, now_ns, d, f).project == project && p.told(c, now_ns, d, f).gen == gen
            && p.told(c, now_ns, d, f).pending is None && p.told(
            c,
            now_ns,
            d,
            f,
        ).last_delivered_us == p.last_delivered_us && p.told(c, now_ns, d, f).playing == p.playing,
        s.told(super::for_audio(PreviewCtrlView::UpdateProject(project)), d).project == project,
        s.told(super::for_audio(PreviewCtrlView::UpdateProject(project)), d).playhead_us
            == s.playhead_us,
        s.told(super::for_audio(PreviewCtrlView::UpdateProject(project)), d).playing == s.playing,
{
}

/// How loud it is concerns the sound alone.
pub proof fn lemma_loudness_is_for_the_sound(m: bool, v: crate::scalar::Scalar, gen: u64)
    ensures
        super::for_pictures(PreviewCtrlView::SetMuted(m), gen) is None,
        super::for_pictures(PreviewCtrlView::SetVolume(v), gen) is None,
        super::for_audio(PreviewCtrlView::SetMuted(m)) == AudioCtrlView::SetMuted(m),
        super::for_audio(PreviewCtrlView::SetVolume(v)) == AudioCtrlView::SetVolume(v),
        super::for_pictures(PreviewCtrlView::Stop, gen) == Some(PictureCtrlView::Stop),
        super::for_audio(PreviewCtrlView::Stop) == AudioCtrlView::Stop,
        sound::sound_action(AudioCtrlView::SetMuted(m)) == sound::SoundAction::SetMuted(m),
        sound::sound_action(AudioCtrlView::SetVolume(v)) == sound::SoundAction::SetVolume(v),
        sound::sound_action(AudioCtrlView::Stop) == sound::SoundAction::Stop,
{
}

/// The preview has the size of the first clip, and not more than sixty pictures a
/// second.
pub proof fn lemma_preview_goes_by_the_first_clip(tracks: Seq<TrackView>)
    ensures
        project::all_placed(tracks).len() > 0 ==> {
            let first = project::all_placed(tracks)[0].clip.info.profile;
            &&& super::meta_of(tracks).width == first.resolution.width
            &&& super::meta_of(tracks).height == first.resolution.height
            &&& super::meta_of(tracks).fps_num <= 60 * super::meta_of(tracks).fps_den
            &&& first.frame_rate_mhz <= 60_000 ==> super::meta_of(tracks).fps_num
                == first.frame_rate_mhz && super::meta_of(tracks).fps_den == 1_000
        },
{
}

/// The pictures that are due, of a queue whose pictures all belong to the
/// generation: those in front.
pub open spec fn is_split(
    queue: Seq<PictureItemView>,
    gen: u64,
    target: i64,
    due: Seq<PictureItemView>,
    rest: Seq<PictureItemView>,
) -> bool {
    &&& queue == due + rest
    &&& forall|i: int| 0 <= i < queue.len() ==> (#[trigger] queue[i]).gen == gen
    &&& forall|i: int| 0 <= i < due.len() ==> (#[trigger] due[i]).frame.pts_us <= target
    &&& rest.len() > 0 ==> rest[0].frame.pts_us > target
}

/// Of the pictures that are due the last one is shown, and the ones before it are
/// skipped; the first that is not due yet waits, and the rest stays queued.
pub proof fn lemma_last_due_picture_is_shown(
    queue: Seq<PictureItemView>,
    gen: u64,
    target: i64,
    due: Seq<PictureItemView>,
    rest: Seq<PictureItemView>,
)
    requires
        is_split(queue, gen, target, due, rest),
    ensures
        ({
            let t = queue::taken(queue, None, gen, Some(target), None);
            &&& due.len() > 0 ==> t.frame == Some(due.last().frame)
            &&& due.len() == 0 ==> t.frame is None
            &&& rest.len() > 0 ==> t.pending == Some(rest[0]) && t.queue == rest.skip(1)
            &&& rest.len() == 0 ==> t.pending is None && t.queue.len() == 0
        }),
{
    if queue.len() > 0 {
        assert(seq![queue[0]] + queue.skip(1) =~= queue);
        assert(queue[0].gen == gen);
        lemma_take_goes_on(queue.skip(1), queue[0], gen, target, None, due, rest);
    }
}

proof fn lemma_take_goes_on(
    queue: Seq<PictureItemView>,
    item: PictureItemView,
    gen: u64,
    target: i64,
    chosen: Option<DecodedFrameView>,
    due: Seq<PictureItemView>,
    rest: Seq<PictureItemView>,
)
    requires
        is_split(seq![item] + queue, gen, target, due, rest),
    ensures
        ({
            let t = queue::taken(queue, Some(item), gen, Some(target), chosen);
            &&& due.len() > 0 ==> t.frame == Some(due.last().frame)
            &&& due.len() == 0 ==> t.frame == chosen
            &&& rest.len() > 0 ==> t.pending == Some(rest[0]) && t.queue == rest.skip(1)
            &&& rest.len() == 0 ==> t.pending is None && t.queue.len() == 0
        }),
    decreases queue.len(),
{
    let all = seq![item] + queue;
    assert(all[0] == item);
    if due.len() > 0 {
        assert(due[0] == (due + rest)[0]);
        if queue.len() > 0 {
            assert(all[1] == queue[0]);
            let next = seq![queue[0]] + queue.skip(1);
            assert(next =~= all.skip(1));
            assert(next =~= due.skip(1) + rest);
            assert forall|i: int| 0 <= i < next.len() implies (#[trigger] next[i]).gen == gen by {
                assert(next[i] == all[i + 1]);
            }
            assert forall|i: int| 0 <= i < due.skip(1).len() implies (
            #[trigger] due.skip(1)[i]).frame.pts_us <= target by {
                assert(due.skip(1)[i] == due[i + 1]);
            }
            lemma_take_goes_on(
                queue.skip(1),
                queue[0],
                gen,
                target,
                Some(item.frame),
                due.skip(1),
                rest,
            );
            if due.len() > 1 {
                assert(due.skip(1).last() == due.last());
            } else {
                assert(due.last() == item);
            }
        } else {
            assert(due.len() + rest.len() == 1);
            assert(due.last() == item);
        }
    } else {
        assert(rest[0] == (due + rest)[0]);
        assert(rest.skip(1) =~= queue) by {
            assert(due + rest =~= rest);
            assert(all.skip(1) =~= queue);
        }
    }
}

/// Pictures of other generations are passed over.
pub proof fn lemma_other_generations_are_passed_over(
    stale: PictureItemView,
    queue: Seq<PictureItemView>,
    gen: u64,
    target: Option<i64>,
)
    requires
        stale.gen != gen,
    ensures
        queue::taken(seq![stale] + queue, None, gen, target, None) == queue::taken(
            queue,
            None,
            gen,
            target,
            None,
        ),
{
    assert((seq![stale] + queue).skip(1) =~= queue);
    assert((seq![stale] + queue)[0] == stale);
}

/// The sound sets the time: so many samples after it was so late, it is as much
/// later. When that is the end, the preview ends; until then it goes on playing,
/// and what it shows is due. When the picture falls behind by too much, it is told
/// where to go on.
pub proof fn lemma_pictures_go_by_the_sound(
    p: PresentView,
    queue: Seq<PictureItemView>,
    anchor: u32,
    at_us: i64,
    samples: u32,
    frames_now: u32,
    clock: u32,
    t: int,
)
    requires
        p.wf(),
        p.anchor == Some((anchor, at_us)),
        frames_now == (anchor + samples) % 0x1_0000_0000,
        t == at_us + samples * 1_000_000 / 48_000,
        t <= i64::MAX,
    ensures
        ({
            let s = p.by_sound(queue, clock, frames_now);
            &&& t >= p.duration_us ==> !s.state.playing && s.tick.event == Some(
                EventView::PreviewEnded { clip_id: 0 },
            ) && s.queue == queue
            &&& t < p.duration_us ==> s.state.playing == p.playing && s.state.anchor == p.anchor
                && (s.tick.event matches Some(e) ==> (e matches EventView::FrameReady {
                frame,
                ..
            } && frame.pts_us <= t && s.state.last_delivered_us == frame.pts_us))
                && (s.tick.event is None ==> s.state.last_delivered_us == p.last_delivered_us)
            &&& (s.tick.resync_to_us matches Some(to) ==> to == t && t < p.duration_us && t
                - s.state.last_delivered_us > 250_000)
            &&& t < p.duration_us && t - s.state.last_delivered_us > 250_000 && p.last_resync_us
                is None ==> s.tick.resync_to_us == Some(t as i64)
        }),
{
    present::lemma_clock_may_wrap(anchor, at_us, samples);
    queue::lemma_only_due_pictures_are_shown(queue, p.pending, p.gen, Some(t as i64), None);
}

/// Without sound pictures come at their rate: each is due one interval later.
pub proof fn lemma_pictures_come_at_their_rate(
    p: PresentView,
    queue: Seq<PictureItemView>,
    t: int,
)
    requires
        p.wf(),
        t == p.last_delivered_us + p.frame_interval_ns / 1_000,
        t <= i64::MAX,
        p.next_due_ns + p.frame_interval_ns <= u64::MAX,
    ensures
        ({
            let s = p.by_wall(queue);
            &&& s.state.next_due_ns == p.next_due_ns + p.frame_interval_ns
            &&& t >= p.duration_us ==> !s.state.playing && s.tick.event == Some(
                EventView::PreviewEnded { clip_id: 0 },
            )
            &&& t < p.duration_us ==> s.state.playing == p.playing && (s.tick.event matches Some(
                e,
            ) ==> (e matches EventView::FrameReady { frame, .. } && frame.pts_us <= t))
            &&& s.tick.resync_to_us is None
        }),
{
    queue::lemma_only_due_pictures_are_shown(queue, p.pending, p.gen, Some(t as i64), None);
}

/// The clip at `ci` of the track at `ti` plays some time between `from` and `to`.
pub open spec fn is_heard(
    tracks: Seq<TrackView>,
    ti: int,
    ci: int,
    from: i64,
    to: i64,
) -> bool {
    &&& 0 <= ti < tracks.len() && 0 <= ci < tracks[ti].clips.len()
    &&& from < tracks[ti].clips[ci].start_us + tracks[ti].clips[ci].clip.dur_us()
    &&& tracks[ti].clips[ci].start_us < to
}

proof fn lemma_heard_clips_are_in_range(
    tracks: Seq<TrackView>,
    ti: int,
    ci: int,
    from: i64,
    to: i64,
)
    requires
        is_heard(tracks, ti, ci, from, to),
    ensures
        sound::active_in(tracks, from, to).contains((ti, tracks[ti].clips[ci])),
    decreases tracks.len(),
{
    let front = tracks.drop_last();
    let had = sound::active_in(front, from, to);
    let all = sound::active_in(tracks, from, to);
    let x = (ti, tracks[ti].clips[ci]);
    if ti < front.len() {
        assert(is_heard(front, ti, ci, from, to));
        lemma_heard_clips_are_in_range(front, ti, ci, from, to);
        let k = had.index_of(x);
        assert(all[k] == x);
    } else {
        let p = sound::is_in_range(from, to);
        let clips = tracks.last().clips;
        seqs::lemma_filtered(clips, p);
        assert(p(clips[ci]));
        let k = clips.filter(p).index_of(clips[ci]);
        assert(all[had.len() + k] == x);
    }
}

/// Some clip that is heard is the active one.
pub open spec fn is_heard_as(
    tracks: Seq<TrackView>,
    from: i64,
    to: i64,
    active: (int, TrackClipView),
) -> bool {
    exists|ti: int, ci: int| #[trigger]
        is_heard(tracks, ti, ci, from, to) && active == (ti, tracks[ti].clips[ci])
}

proof fn lemma_active_are_heard(tracks: Seq<TrackView>, from: i64, to: i64, k: int)
    requires
        0 <= k < sound::active_in(tracks, from, to).len(),
    ensures
        is_heard_as(tracks, from, to, sound::active_in(tracks, from, to)[k]),
    decreases tracks.len(),
{
    let front = tracks.drop_last();
    let had = sound::active_in(front, from, to);
    let all = sound::active_in(tracks, from, to);
    if k < had.len() {
        lemma_active_are_heard(front, from, to, k);
        let (ti, ci) = choose|ti: int, ci: int| #[trigger]
            is_heard(front, ti, ci, from, to) && had[k] == (ti, front[ti].clips[ci]);
        assert(is_heard(tracks, ti, ci, from, to));
        assert(all[k] == had[k]);
    } else {
        let p = sound::is_in_range(from, to);
        let clips = tracks.last().clips;
        seqs::lemma_filtered(clips, p);
        let x = clips.filter(p)[k - had.len()];
        let ci = clips.index_of(x);
        assert(is_heard(tracks, tracks.len() - 1, ci, from, to));
    }
}

/// A part of a batch plays a clip: its window from its file, at its time, as loud
/// as the clip, or silent where the clip is muted.
pub open spec fn plays(part: sound::PartView, tc: TrackClipView) -> bool {
    &&& part.clip_id == tc.clip.id
    &&& part.path == tc.clip.path
    &&& part.start_us == tc.start_us
    &&& part.trim_in_us == tc.clip.trim_in.us()
    &&& part.trim_out_us == tc.clip.trim_out.us()
    &&& tc.clip.muted ==> part.volume.bits == 0
    &&& !tc.clip.muted ==> part.volume == tc.clip.volume
}

proof fn lemma_parts(tracks: Seq<TrackView>, active: Seq<(int, TrackClipView)>, k: int)
    requires
        0 <= k < active.len(),
        !tracks[active[k].0].muted,
    ensures
        exists|i: int|
            0 <= i < sound::parts_of(tracks, active).len() && plays(
                #[trigger] sound::parts_of(tracks, active)[i],
                active[k].1,
            ),
    decreases active.len(),
{
    let front = active.drop_last();
    let had = sound::parts_of(tracks, front);
    let all = sound::parts_of(tracks, active);
    if k < front.len() {
        assert(front[k] == active[k]);
        lemma_parts(tracks, front, k);
        let i = choose|i: int| 0 <= i < had.len() && plays(#[trigger] had[i], active[k].1);
        assert(all[i] == had[i]);
    } else {
        assert(all[all.len() - 1] == sound::part_of(active[k].1));
        assert(plays(all[all.len() - 1], active[k].1));
    }
}

proof fn lemma_part_is_of_active(tracks: Seq<TrackView>, active: Seq<(int, TrackClipView)>, i: int)
    requires
        0 <= i < sound::parts_of(tracks, active).len(),
    ensures
        exists|k: int|
            0 <= k < active.len() && !tracks[(#[trigger] active[k]).0].muted && plays(
                sound::parts_of(tracks, active)[i],
                active[k].1,
            ),
    decreases active.len(),
{
    let front = active.drop_last();
    let had = sound::parts_of(tracks, front);
    let all = sound::parts_of(tracks, active);
    if i < had.len() {
        lemma_part_is_of_active(tracks, front, i);
        let k = choose|k: int|
            0 <= k < front.len() && !tracks[(#[trigger] front[k]).0].muted && plays(
                had[i],
                front[k].1,
            );
        assert(active[k] == front[k]);
        assert(all[i] == had[i]);
    } else {
        let k = active.len() - 1;
        assert(active[k] == active.last());
        assert(plays(all[i], active[k].1));
    }
}

/// A clip of a track that is not muted and that plays during the next batch is
/// part of it, whatever kind of track it is on.
pub proof fn lemma_batch_plays_what_is_heard(s: SoundView, ti: int, ci: int)
    requires
        s.playhead_us + 40_000 <= i64::MAX,
        is_heard(
            s.project.tracks,
            ti,
            ci,
            s.playhead_us,
            (s.playhead_us + 40_000) as i64,
        ),
        !s.project.tracks[ti].muted,
    ensures
        exists|i: int|
            0 <= i < s.batch().len() && plays(
                #[trigger] s.batch()[i],
                s.project.tracks[ti].clips[ci],
            ),
{
    let tracks = s.project.tracks;
    let active = sound::active_in(tracks, s.playhead_us, s.batch_end());
    lemma_heard_clips_are_in_range(tracks, ti, ci, s.playhead_us, s.batch_end());
    let k = active.index_of((ti, tracks[ti].clips[ci]));
    assert(active[k] == (ti, tracks[ti].clips[ci]));
    lemma_parts(tracks, active, k);
    assert(s.batch() == sound::parts_of(tracks, active));
    let i = choose|i: int|
        0 <= i < sound::parts_of(tracks, active).len() && plays(
            #[trigger] sound::parts_of(tracks, active)[i],
            active[k].1,
        );
    assert(plays(s.batch()[i], tracks[ti].clips[ci]));
}

/// Some clip of a track that is not muted is played by the part.
pub open spec fn plays_some(
    part: sound::PartView,
    tracks: Seq<TrackView>,
    from: i64,
    to: i64,
) -> bool {
    exists|ti: int, ci: int| #[trigger]
        is_heard(tracks, ti, ci, from, to) && !tracks[ti].muted && plays(
            part,
            tracks[ti].clips[ci],
        )
}

/// A batch has no part but of clips that play during it.
pub proof fn lemma_batch_plays_nothing_else(s: SoundView, i: int)
    requires
        0 <= i < s.batch().len(),
    ensures
        plays_some(s.batch()[i], s.project.tracks, s.playhead_us, s.batch_end()),
{
    let tracks = s.project.tracks;
    let active = sound::active_in(tracks, s.playhead_us, s.batch_end());
    lemma_part_is_of_active(tracks, active, i);
    let k = choose|k: int|
        0 <= k < active.len() && !tracks[(#[trigger] active[k]).0].muted && plays(
            s.batch()[i],
            active[k].1,
        );
    lemma_active_are_heard(tracks, s.playhead_us, s.batch_end(), k);
    let (ti, ci) = choose|ti: int, ci: int| #[trigger]
        is_heard(tracks, ti, ci, s.playhead_us, s.batch_end()) && active[k] == (
            ti,
            tracks[ti].clips[ci],
        );
    assert(is_heard(tracks, ti, ci, s.playhead_us, s.batch_end()));
}

/// A decoder of sound is taken as far into the window as the time lies behind the
/// start of the clip, and never before the start of the file.
pub proof fn lemma_sound_is_sought_in_its_window(t_us: i64, start_us: i64, trim_in_us: i64, by: int)
    requires
        i64::MIN <= t_us - start_us + trim_in_us <= i64::MAX,
        i64::MIN <= t_us + by <= i64::MAX,
        i64::MIN <= start_us + by <= i64::MAX,
    ensures
        sound::seek_to((t_us + by) as i64, (start_us + by) as i64, trim_in_us) == sound::seek_to(
            t_us,
            start_us,
            trim_in_us,
        ),
        sound::seek_to(t_us, start_us, trim_in_us) >= 0,
        trim_in_us >= 0 && t_us >= start_us ==> sound::seek_to(t_us, start_us, trim_in_us)
            - trim_in_us == t_us - start_us,
        trim_in_us + t_us <= start_us ==> sound::seek_to(t_us, start_us, trim_in_us) == 0,
{
}

/// A batch of samples, for both channels, lasts as long as it is said to, and so
/// does a bucket of a waveform.
pub proof fn lemma_samples_last_as_long_as_said()
    ensures
        sound::BATCH_SAMPLES * 1_000_000 == sound::BATCH_US * 48_000 * 2,
        sound::BATCH_US == 40_000,
        sound::AUDIO_DRIFT_US < sound::BATCH_US,
        audio::BUCKET_SAMPLES * 1_000_000 == audio::BUCKET_US * audio::SAMPLE_RATE,
        audio::SAMPLE_RATE == 48_000 && audio::CHANNELS == 2,
{
}

/// A preview that is opened reports its length and size, and starts black.
pub proof fn lemma_preview_opens_black(
    duration_us: i64,
    meta: super::PreviewMeta,
    w: u32,
    h: u32,
)
    ensures
        present::opening_events(duration_us, meta, w, h).0 matches EventView::PreviewOpened {
            duration_us: d,
            width,
            height,
            frame_rate_num,
            frame_rate_den,
            ..
        } && d == duration_us && width == w && height == h && frame_rate_num == meta.fps_num
            && frame_rate_den == meta.fps_den,
        present::opening_events(duration_us, meta, w, h).1 matches EventView::FrameReady {
            frame,
            ..
        } && frame.width == w && frame.height == h && frame.pts_us == 0 && frame.rgba.len() == 4
            * (w * h),
{
    assert(0 <= w * h) by (nonlinear_arith)
        requires
            w >= 0,
            h >= 0,
    ;
}

/// The decoder of a clip is moved to where the playhead is in the clip.
pub proof fn lemma_decoder_goes_to_the_playhead(s: SoundView, id: u128, ti: int, ci: int)
    requires
        project::found_at(s.project.tracks, id, ti, ci),
        s.playhead_us >= s.project.tracks[ti].clips[ci].start_us,
        s.project.tracks[ti].clips[ci].clip.trim_in.us() >= 0,
        s.playhead_us - s.project.tracks[ti].clips[ci].start_us
            + s.project.tracks[ti].clips[ci].clip.trim_in.us() <= i64::MAX,
    ensures
        s.source_of(id) matches Some(us) && us - s.project.tracks[ti].clips[ci].clip.trim_in.us()
            == s.playhead_us - s.project.tracks[ti].clips[ci].start_us,
{
    project::lemma_found(s.project.tracks, id, ti, ci);
}

} // verus!
