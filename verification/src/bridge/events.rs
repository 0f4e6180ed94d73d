//! What the reports of the worker change.

use vstd::prelude::*;
use vstd::string::*;

use super::models;
use super::models::{thumbs_dir, waveform_path};
use super::state;
use super::state::{Action, ActionView, Editor, EditorView, JobMeta, PreviewView, Step};
use super::timeline_view;
use super::timeline_view::total_duration_us;
use crate::domain::clip;
use crate::domain::clip::{Clip, ClipView};
use crate::domain::playlist;
use crate::domain::project::ProjectView;
use crate::engine::audio;
use crate::ident::ClipId;
use crate::paths;
use crate::persistence::config;
use crate::persistence::history;
use crate::persistence::history::{ExportRecord, ExportRecordView};
use crate::scalar::{Scalar, ONE_BITS};
use crate::text;
use crate::time::Duration;
use crate::view_model::timeline_vm;
use crate::view_model::timeline_vm::format_us;
use crate::worker::job::{Command, CommandView, Event, EventView};

verus! {

/// So many preview pictures are made of a clip.
pub const THUMBNAIL_COUNT: usize = 10;

/// Pictures are counted over so much time, in nanoseconds.
pub const FPS_WINDOW_NS: u64 = 1_000_000_000;

/// What is known when a report comes in.
#[derive(Clone, Copy, Debug, PartialEq, Eq)]
pub struct Moment {
    /// An identifier for a new clip.
    pub fresh: ClipId,
    /// A clock that never goes back, in nanoseconds.
    pub now_ns: u64,
    /// The time since the start of 1970.
    pub since_epoch: Duration,
    /// The length of the export that is over, if one is: the bits of its
    /// seconds as a double-precision number.
    pub export_secs_bits: u64,
}

/// The times from the first one on that is within the window.
pub open spec fn recent(times: Seq<u64>, now_ns: u64) -> Seq<u64>
    decreases times.len(),
{
    if times.len() > 0 && now_ns - times[0] > FPS_WINDOW_NS {
        recent(times.skip(1), now_ns)
    } else {
        times
    }
}

/// Whether a time is within the window.
pub open spec fn is_recent(now_ns: u64) -> spec_fn(u64) -> bool {
    |t: u64| now_ns - t <= FPS_WINDOW_NS
}

fn drop_old(times: &mut Vec<u64>, now_ns: u64)
    ensures
        final(times)@ == recent(old(times)@, now_ns),
{
    let ghost all = times@;
    while times.len() > 0 && now_ns > times[0] && now_ns - times[0] > FPS_WINDOW_NS
        invariant
            recent(all, now_ns) == recent(times@, now_ns),
        decreases times@.len(),
    {
        let ghost before = times@;
        let _old: u64 = times.remove(0);
        assert(times@ =~= before.skip(1));
    }
}

/// The commands that make the pictures and the waveform of a new clip.
pub open spec fn asset_commands(data_dir: Seq<char>, c: ClipView) -> Seq<ActionView> {
    seq![
        ActionView::Send(
            CommandView::GenerateThumbnails {
                clip_id: c.id,
                path: c.path,
                out_dir: models::thumbs_of(data_dir, c.id),
                count: THUMBNAIL_COUNT,
            },
        ),
        ActionView::Send(
            CommandView::GenerateWaveform {
                clip_id: c.id,
                path: c.path,
                out_path: audio::waveform_of(data_dir, c.id),
            },
        ),
    ]
}

/// A line of text to show, if there is one.
pub open spec fn status_lines(line: Option<Seq<char>>) -> Seq<ActionView> {
    match line {
        Some(s) => seq![ActionView::Status(s)],
        None => Seq::empty(),
    }
}

/// What is remembered of an export that is over.
pub open spec fn record_of(meta: state::JobMetaView, at: Moment) -> ExportRecordView {
    ExportRecordView {
        output_path: meta.output_path,
        input_count: meta.input_count,
        finished_at: at.since_epoch,
        duration_secs_bits: at.export_secs_bits,
    }
}

impl EditorView {
    /// The export `id` is over.
    pub open spec fn job_over(self, id: crate::ident::JobId) -> EditorView {
        EditorView { active_job: None, job_meta: self.job_meta.remove(id), ..self }
    }

    /// A new clip is at the end of the playlist.
    pub open spec fn with_new(self, c: ClipView) -> EditorView {
        let before = self.checkpointed();
        (EditorView { playlist: self.playlist.push(c), ..before }).synced()
    }

    /// A new clip is taken in; `lines` is what is shown of it.
    pub open spec fn clip_added(self, c: ClipView, lines: Seq<ActionView>) -> Step {
        let after = self.with_new(c);
        Step {
            state: after,
            actions: seq![ActionView::AddRow(c.id)] + lines + seq![ActionView::Ruler]
                + asset_commands(self.data_dir, c) + seq![
                ActionView::SyncTracks,
                ActionView::Send(
                    CommandView::OpenPreview { project: ProjectView { tracks: after.project } },
                ),
            ],
        }
    }

    /// An export was finished.
    pub open spec fn finished(
        self,
        id: crate::ident::JobId,
        output: Seq<char>,
        at: Moment,
    ) -> Step {
        let over = self.job_over(id);
        let shown = seq![
            ActionView::Exporting(false),
            ActionView::Progress(Scalar { bits: ONE_BITS }),
            ActionView::Status("Export complete: "@ + output),
        ];
        if self.job_meta.contains_key(id) {
            let meta = self.job_meta[id];
            let remembered = EditorView {
                history: history::with_record(self.history, record_of(meta, at)),
                ..over
            };
            match config::new_output_dir(self.config.default_output_dir, meta.output_path) {
                Some(dir) => Step {
                    state: EditorView {
                        config: config::AppConfigView {
                            default_output_dir: Some(dir),
                            ..self.config
                        },
                        ..remembered
                    },
                    actions: shown + seq![ActionView::SaveHistory, ActionView::SaveConfig],
                },
                None => Step {
                    state: remembered,
                    actions: shown + seq![ActionView::SaveHistory],
                },
            }
        } else {
            Step { state: over, actions: shown }
        }
    }

    /// The first clip `id` is another one.
    pub open spec fn with_asset(self, id: ClipId, c: spec_fn(ClipView) -> ClipView) -> Step {
        match playlist::index_of(self.playlist, id) {
            Some(i) => Step {
                state: self.with_clip(i, c(self.playlist[i])),
                actions: seq![ActionView::RefreshRow(id)],
            },
            None => self.idle(),
        }
    }

    /// What a report changes.
    pub open spec fn applied(self, event: EventView, at: Moment) -> Step {
        match event {
            EventView::Probed { path, info, .. } => self.clip_added(
                clip::whole_file(at.fresh, path, info),
                status_lines(Some("Added: "@ + paths::display_name_of(path))),
            ),
            EventView::ClipReady(c) => self.clip_added(c, status_lines(None)),
            EventView::Progress { fraction, .. } => Step {
                state: self,
                actions: seq![ActionView::Progress(fraction)],
            },
            EventView::Finished { id, output } => self.finished(id, output, at),
            EventView::Failed { id, message } => Step {
                state: self.job_over(id),
                actions: seq![
                    ActionView::Exporting(false),
                    ActionView::Status("Failed: "@ + message),
                    ActionView::Toast(message),
                ],
            },
            EventView::Cancelled { id } => Step {
                state: self.job_over(id),
                actions: seq![ActionView::Exporting(false), ActionView::Status("Cancelled"@)],
            },
            EventView::PreviewOpened { duration_us, .. } => Step {
                state: EditorView {
                    preview: PreviewView { duration_us, pending_seek_us: None, ..self.preview },
                    ..self
                },
                actions: match self.preview.pending_seek_us {
                    Some(pts_us) => seq![ActionView::Send(CommandView::SeekPreview { pts_us })],
                    None => Seq::empty(),
                },
            },
            EventView::FrameReady { frame, .. } => {
                let times = recent(self.preview.frame_history.push(at.now_ns), at.now_ns);
                Step {
                    state: EditorView {
                        preview: PreviewView {
                            playhead_us: frame.pts_us,
                            frame_history: times,
                            ..self.preview
                        },
                        ..self
                    },
                    actions: seq![
                        ActionView::Fps(times.len() as usize),
                        ActionView::ShowFrame(frame),
                        ActionView::PlayheadText(timeline_vm::position_text(frame.pts_us)),
                        ActionView::PlayheadAt {
                            us: frame.pts_us,
                            total_us: timeline_view::latest_end(
                                self.playlist,
                                self.playlist.len() as int,
                            ),
                        },
                    ],
                }
            },
            EventView::PreviewEnded { .. } => Step {
                state: EditorView {
                    preview: PreviewView {
                        playing: false,
                        frame_history: Seq::empty(),
                        ..self.preview
                    },
                    ..self
                },
                actions: seq![ActionView::Playing(false), ActionView::Fps(0)],
            },
            EventView::AudioMeter { .. } => self.idle(),
            EventView::ThumbnailsReady { clip_id, paths } => self.with_asset(
                clip_id,
                |c: ClipView| ClipView { thumbnails: paths, ..c },
            ),
            EventView::WaveformReady { clip_id, path } => self.with_asset(
                clip_id,
                |c: ClipView| ClipView { waveform_path: Some(path), ..c },
            ),
        }
    }
}

impl Editor {
    fn push_asset_commands(&self, id: ClipId, path: &String, actions: &mut Vec<Action>)
        ensures
            state::action_views(final(actions)@) == state::action_views(old(actions)@) + seq![
                ActionView::Send(
                    CommandView::GenerateThumbnails {
                        clip_id: id,
                        path: path@,
                        out_dir: models::thumbs_of(self@.data_dir, id),
                        count: THUMBNAIL_COUNT,
                    },
                ),
                ActionView::Send(
                    CommandView::GenerateWaveform {
                        clip_id: id,
                        path: path@,
                        out_path: audio::waveform_of(self@.data_dir, id),
                    },
                ),
            ],
    {
        let ghost before = state::action_views(actions@);
        let out_dir: String = thumbs_dir(self.data_dir.as_str(), id);
        actions.push(
            Action::Send(
                Command::GenerateThumbnails {
                    clip_id: id,
                    path: path.clone(),
                    out_dir,
                    count: THUMBNAIL_COUNT,
                },
            ),
        );
        let out_path: String = waveform_path(self.data_dir.as_str(), id);
        actions.push(
            Action::Send(Command::GenerateWaveform { clip_id: id, path: path.clone(), out_path }),
        );
        assert(state::action_views(actions@).take(before.len() as int) =~= before);
    }

    fn add_clip(&mut self, c: Clip, status: Option<String>) -> (actions: Vec<Action>)
        ensures
            (Step { state: final(self)@, actions: state::action_views(actions@) }) == old(
                self,
            )@.clip_added(c@, status_lines(text::opt_view(status))),
    {
        let ghost lines = status_lines(text::opt_view(status));
        let ghost new = c@;
        let id: ClipId = c.id;
        let path: String = c.path.clone();
        let mut actions: Vec<Action> = Vec::new();
        actions.push(Action::AddRow(id));
        match status {
            Some(s) => {
                actions.push(Action::Status(s));
            },
            None => {},
        }
        actions.push(Action::Ruler);
        assert(state::action_views(actions@) =~= seq![ActionView::AddRow(id)] + lines + seq![
            ActionView::Ruler,
        ]);
        self.checkpoint();
        self.playlist.push(c);
        self.push_asset_commands(id, &path, &mut actions);
        self.sync();
        let ghost so_far = state::action_views(actions@);
        actions.push(Action::SyncTracks);
        actions.push(Action::Send(Command::OpenPreview { project: self.project.clone() }));
        proof {
            assert(self@ == old(self)@.with_new(new));
            assert(so_far == seq![ActionView::AddRow(id)] + lines + seq![ActionView::Ruler]
                + asset_commands(old(self)@.data_dir, new));
            assert(state::action_views(actions@) =~= so_far + seq![
                ActionView::SyncTracks,
                ActionView::Send(
                    CommandView::OpenPreview { project: ProjectView { tracks: self@.project } },
                ),
            ]);
        }
        actions
    }

    fn finish(&mut self, id: crate::ident::JobId, output: String, at: Moment) -> (actions: Vec<Action>)
        ensures
            (Step { state: final(self)@, actions: state::action_views(actions@) }) == old(
                self,
            )@.finished(id, output@, at),
    {
        let mut actions: Vec<Action> = Vec::new();
        let meta: Option<JobMeta> = self.job_meta.remove(&id);
        assert(self@.job_meta =~= old(self)@.job_meta.remove(id));
        self.active_job = None;
        let mut line: String = "Export complete: ".to_owned();
        line.append(output.as_str());
        actions.push(Action::Exporting(false));
        actions.push(Action::Progress(Scalar::one()));
        actions.push(Action::Status(line));
        let ghost shown = seq![
            ActionView::Exporting(false),
            ActionView::Progress(Scalar { bits: ONE_BITS }),
            ActionView::Status("Export complete: "@ + output@),
        ];
        assert(state::action_views(actions@) =~= shown);
        match meta {
            Some(meta) => {
                assert(old(self)@.job_meta[id] == meta@);
                let record: ExportRecord = ExportRecord {
                    output_path: meta.output_path.clone(),
                    input_count: meta.input_count,
                    finished_at: at.since_epoch,
                    duration_secs_bits: at.export_secs_bits,
                };
                self.history.push(record);
                actions.push(Action::SaveHistory);
                assert(state::action_views(actions@) =~= shown + seq![ActionView::SaveHistory]);
                if self.config.update_default_output_dir(meta.output_path.as_str()) {
                    actions.push(Action::SaveConfig);
                    assert(state::action_views(actions@) =~= shown + seq![
                        ActionView::SaveHistory,
                        ActionView::SaveConfig,
                    ]);
                }
            },
            None => {},
        }
        actions
    }

    /// Take in a report of the worker.
    pub fn apply(&mut self, event: Event, at: Moment) -> (actions: Vec<Action>)
        ensures
            (Step { state: final(self)@, actions: state::action_views(actions@) }) == old(
                self,
            )@.applied(event@, at),
    {
        let ghost s = self@.applied(event@, at);
        let mut actions: Vec<Action> = Vec::new();
        match event {
            Event::Probed { id: _, path, info } => {
                let mut line: String = "Added: ".to_owned();
                line.append(paths::display_name(path.as_str()).as_str());
                let c: Clip = Clip::with_id(at.fresh, path, info);
                return self.add_clip(c, Some(line));
            },
            Event::ClipReady(c) => {
                return self.add_clip(c, None);
            },
            Event::Progress { id: _, fraction, processed_secs_bits: _ } => {
                actions.push(Action::Progress(fraction));
            },
            Event::Finished { id, output } => {
                return self.finish(id, output, at);
            },
            Event::Failed { id, message } => {
                self.job_meta.remove(&id);
                assert(self@.job_meta =~= old(self)@.job_meta.remove(id));
                self.active_job = None;
                let mut line: String = "Failed: ".to_owned();
                line.append(message.as_str());
                actions.push(Action::Exporting(false));
                actions.push(Action::Status(line));
                actions.push(Action::Toast(message));
            },
            Event::Cancelled { id } => {
                self.job_meta.remove(&id);
                assert(self@.job_meta =~= old(self)@.job_meta.remove(id));
                self.active_job = None;
                actions.push(Action::Exporting(false));
                actions.push(Action::Status("Cancelled".to_owned()));
            },
            Event::PreviewOpened { duration_us, .. } => {
                let pending: Option<i64> = self.preview.pending_seek_us;
                self.preview.duration_us = duration_us;
                self.preview.pending_seek_us = None;
                if let Some(pts_us) = pending {
                    actions.push(Action::Send(Command::SeekPreview { pts_us }));
                }
            },
            Event::FrameReady { clip_id: _, frame } => {
                let us: i64 = frame.pts_us;
                self.preview.playhead_us = us;
                self.preview.frame_history.push(at.now_ns);
                drop_old(&mut self.preview.frame_history, at.now_ns);
                let total_us: i64 = total_duration_us(&self.playlist);
                actions.push(Action::Fps(self.preview.frame_history.len()));
                actions.push(Action::ShowFrame(frame));
                actions.push(Action::PlayheadText(format_us(us)));
                actions.push(Action::PlayheadAt { us, total_us });
            },
            Event::PreviewEnded { clip_id: _ } => {
                self.preview.playing = false;
                self.preview.frame_history = Vec::new();
                actions.push(Action::Playing(false));
                actions.push(Action::Fps(0));
            },
            Event::AudioMeter { .. } => {},
            Event::ThumbnailsReady { clip_id, paths } => {
                match self.playlist.position(clip_id) {
                    Some(i) => {
                        let mut c: Clip = self.playlist.clips()[i].clone();
                        c.thumbnails = paths;
                        self.playlist.replace(i, c);
                        actions.push(Action::RefreshRow(clip_id));
                    },
                    None => {},
                }
            },
            Event::WaveformReady { clip_id, path } => {
                match self.playlist.position(clip_id) {
                    Some(i) => {
                        let mut c: Clip = self.playlist.clips()[i].clone();
                        c.waveform_path = Some(path);
                        self.playlist.replace(i, c);
                        actions.push(Action::RefreshRow(clip_id));
                    },
                    None => {},
                }
            },
        }
        assert(state::action_views(actions@) =~= s.actions);
        actions
    }
}

/// Adding a clip and undoing that leaves the clips as they were.
pub proof fn lemma_added_clip_can_be_undone(e: EditorView, c: ClipView)
    ensures
        e.with_new(c).playlist.last() == c,
        e.with_new(c).undone().state.playlist == e.playlist,
{
    let stack = e.undo.undo;
    assert(super::undo::pushed(stack, e.playlist).last() == e.playlist);
}

/// Where pictures come one after the other, those of the last second are
/// counted.
pub proof fn lemma_last_second_is_counted(times: Seq<u64>, now_ns: u64)
    requires
        forall|i: int, j: int| 0 <= i <= j < times.len() ==> times[i] <= times[j],
    ensures
        recent(times, now_ns) == times.filter(is_recent(now_ns)),
    decreases times.len(),
{
    let within = is_recent(now_ns);
    if times.len() == 0 {
        reveal(Seq::filter);
        assert(times.filter(within) =~= times);
    } else if now_ns - times[0] > FPS_WINDOW_NS {
        lemma_last_second_is_counted(times.skip(1), now_ns);
        assert(times =~= seq![times[0]] + times.skip(1));
        Seq::filter_distributes_over_add(seq![times[0]], times.skip(1), within);
        reveal(Seq::filter);
        assert(seq![times[0]].drop_last() =~= Seq::<u64>::empty());
        assert(Seq::<u64>::empty().filter(within) =~= Seq::<u64>::empty());
        assert(seq![times[0]].filter(within) =~= Seq::<u64>::empty());
        assert(times.filter(within) =~= times.skip(1).filter(within));
    } else {
        lemma_all_kept(times, within);
    }
}

proof fn lemma_all_kept(times: Seq<u64>, keep: spec_fn(u64) -> bool)
    requires
        forall|i: int| 0 <= i < times.len() ==> keep(#[trigger] times[i]),
    ensures
        times.filter(keep) == times,
    decreases times.len(),
{
    reveal(Seq::filter);
    if times.len() > 0 {
        lemma_all_kept(times.drop_last(), keep);
        assert(times.drop_last().push(times.last()) =~= times);
    } else {
        assert(times.filter(keep) =~= times);
    }
}

} // verus!
