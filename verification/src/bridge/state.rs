//! What the editor knows, and what it asks the window and the worker to do.

use std::collections::HashMap;

use vstd::prelude::*;

use super::lanes;
use super::tracks::{TracksState, TracksView};
use super::undo::{UndoStack, UndoView};
use crate::domain::clip::{Clip, ClipView};
use crate::domain::playlist::Playlist;
use crate::domain::project;
use crate::domain::project::{Project, TrackView};
use crate::engine::decoder::{DecodedFrame, DecodedFrameView};
use crate::ident::{ClipId, JobId};
use crate::persistence::config::{AppConfig, AppConfigView};
use crate::persistence::history::{ExportRecordView, History};
use crate::scalar::Scalar;
use crate::time::Duration;
use crate::worker::job::{Command, CommandView};

verus! {

/// What is remembered of an export while it runs.
#[derive(Debug)]
pub struct JobMeta {
    pub output_path: String,
    pub input_count: usize,
    pub duration: Duration,
}

#[verifier::ext_equal]
pub struct JobMetaView {
    pub output_path: Seq<char>,
    pub input_count: usize,
    pub duration: Duration,
}

impl View for JobMeta {
    type V = JobMetaView;

    open spec fn view(&self) -> JobMetaView {
        JobMetaView {
            output_path: self.output_path@,
            input_count: self.input_count,
            duration: self.duration,
        }
    }
}

pub open spec fn meta_view() -> spec_fn(JobMeta) -> JobMetaView {
    |m: JobMeta| m@
}

/// The preview as the window knows it.
#[derive(Debug)]
pub struct PreviewState {
    /// The clip that is previewed.
    pub clip_id: Option<ClipId>,
    pub duration_us: i64,
    pub playhead_us: i64,
    pub playing: bool,
    /// Where to seek to once the preview is open.
    pub pending_seek_us: Option<i64>,
    /// When the pictures of the last second came, in nanoseconds.
    pub frame_history: Vec<u64>,
}

#[verifier::ext_equal]
pub struct PreviewView {
    pub clip_id: Option<ClipId>,
    pub duration_us: i64,
    pub playhead_us: i64,
    pub playing: bool,
    pub pending_seek_us: Option<i64>,
    pub frame_history: Seq<u64>,
}

impl View for PreviewState {
    type V = PreviewView;

    open spec fn view(&self) -> PreviewView {
        PreviewView {
            clip_id: self.clip_id,
            duration_us: self.duration_us,
            playhead_us: self.playhead_us,
            playing: self.playing,
            pending_seek_us: self.pending_seek_us,
            frame_history: self.frame_history@,
        }
    }
}

impl Default for PreviewState {
    fn default() -> (p: Self)
        ensures
            p@ == (PreviewView {
                clip_id: None,
                duration_us: 0,
                playhead_us: 0,
                playing: false,
                pending_seek_us: None,
                frame_history: Seq::empty(),
            }),
    {
        PreviewState {
            clip_id: None,
            duration_us: 0,
            playhead_us: 0,
            playing: false,
            pending_seek_us: None,
            frame_history: Vec::new(),
        }
    }
}

/// Whether the sound is muted.
#[derive(Clone, Copy, Debug, PartialEq, Eq)]
pub struct AudioState {
    pub master_muted: bool,
}

/// What is shown of the selected clip. The frame rate and the numbers are
/// written by the window.
#[derive(Debug)]
pub struct Details {
    pub clip: Clip,
    pub name: String,
    pub codec: String,
    pub resolution: String,
    pub duration: String,
    pub project_width: i32,
    pub project_height: i32,
    pub width: i32,
    pub height: i32,
}

#[verifier::ext_equal]
pub struct DetailsView {
    pub clip: ClipView,
    pub name: Seq<char>,
    pub codec: Seq<char>,
    pub resolution: Seq<char>,
    pub duration: Seq<char>,
    pub project_width: i32,
    pub project_height: i32,
    pub width: i32,
    pub height: i32,
}

impl View for Details {
    type V = DetailsView;

    open spec fn view(&self) -> DetailsView {
        DetailsView {
            clip: self.clip@,
            name: self.name@,
            codec: self.codec@,
            resolution: self.resolution@,
            duration: self.duration@,
            project_width: self.project_width,
            project_height: self.project_height,
            width: self.width,
            height: self.height,
        }
    }
}

/// What the editor asks for.
#[derive(Debug)]
pub enum Action {
    /// Show a line of text.
    Status(String),
    /// Rebuild the list of clips.
    SyncClips,
    /// Add a clip to the end of the list.
    AddRow(ClipId),
    /// Rebuild what is shown of one clip.
    RefreshRow(ClipId),
    /// Redraw the ruler.
    Ruler,
    /// Rebuild the tracks.
    SyncTracks,
    /// Refresh what is shown of the keyframes at the playhead.
    Keyframes,
    /// Show a clip as the selected one; nothing plays.
    Select(Details),
    /// Show no clip as selected; nothing plays, and the playhead is at 0:00.
    Deselect,
    Playing(bool),
    /// Show so many pictures a second.
    Fps(usize),
    /// Show a position of the playhead.
    PlayheadText(String),
    /// Move the playhead to `us` on a timeline of the length `total_us`.
    PlayheadAt { us: i64, total_us: i64 },
    ShowFrame(DecodedFrame),
    Exporting(bool),
    /// Show how much of an export is done.
    Progress(Scalar),
    /// Show a message for a while.
    Toast(String),
    MasterMuted(bool),
    SaveHistory,
    SaveConfig,
    /// Show the project in the preview, soon.
    SyncPreview,
    /// Send a command to the worker.
    Send(Command),
    /// Show a file in its folder.
    Reveal(String),
}

#[verifier::ext_equal]
pub enum ActionView {
    Status(Seq<char>),
    SyncClips,
    AddRow(ClipId),
    RefreshRow(ClipId),
    Ruler,
    SyncTracks,
    Keyframes,
    Select(DetailsView),
    Deselect,
    Playing(bool),
    Fps(usize),
    PlayheadText(Seq<char>),
    PlayheadAt { us: i64, total_us: i64 },
    ShowFrame(DecodedFrameView),
    Exporting(bool),
    Progress(Scalar),
    Toast(Seq<char>),
    MasterMuted(bool),
    SaveHistory,
    SaveConfig,
    SyncPreview,
    Send(CommandView),
    Reveal(Seq<char>),
}

impl View for Action {
    type V = ActionView;

    open spec fn view(&self) -> ActionView {
        match *self {
            Action::Status(s) => ActionView::Status(s@),
            Action::SyncClips => ActionView::SyncClips,
            Action::AddRow(id) => ActionView::AddRow(id),
            Action::RefreshRow(id) => ActionView::RefreshRow(id),
            Action::Ruler => ActionView::Ruler,
            Action::SyncTracks => ActionView::SyncTracks,
            Action::Keyframes => ActionView::Keyframes,
            Action::Select(d) => ActionView::Select(d@),
            Action::Deselect => ActionView::Deselect,
            Action::Playing(p) => ActionView::Playing(p),
            Action::Fps(n) => ActionView::Fps(n),
            Action::PlayheadText(s) => ActionView::PlayheadText(s@),
            Action::PlayheadAt { us, total_us } => ActionView::PlayheadAt { us, total_us },
            Action::ShowFrame(f) => ActionView::ShowFrame(f@),
            Action::Exporting(e) => ActionView::Exporting(e),
            Action::Progress(x) => ActionView::Progress(x),
            Action::Toast(s) => ActionView::Toast(s@),
            Action::MasterMuted(m) => ActionView::MasterMuted(m),
            Action::SaveHistory => ActionView::SaveHistory,
            Action::SaveConfig => ActionView::SaveConfig,
            Action::SyncPreview => ActionView::SyncPreview,
            Action::Send(c) => ActionView::Send(c@),
            Action::Reveal(p) => ActionView::Reveal(p@),
        }
    }
}

pub open spec fn action_view() -> spec_fn(Action) -> ActionView {
    |a: Action| a@
}

pub open spec fn action_views(actions: Seq<Action>) -> Seq<ActionView> {
    actions.map_values(action_view())
}

/// The editor.
#[derive(Debug)]
pub struct Editor {
    /// The clips; the project is made of them.
    pub playlist: Playlist,
    /// The tracks.
    pub project: Project,
    pub undo: UndoStack,
    pub tracks: TracksState,
    pub preview: PreviewState,
    /// The clip that the window shows as selected.
    pub selected: Option<ClipId>,
    pub active_job: Option<JobId>,
    pub job_meta: HashMap<JobId, JobMeta>,
    pub audio: AudioState,
    pub config: AppConfig,
    pub history: History,
    /// The folder of the pictures and waveforms.
    pub data_dir: String,
}

#[verifier::ext_equal]
pub struct EditorView {
    pub playlist: Seq<ClipView>,
    pub project: Seq<TrackView>,
    pub undo: UndoView,
    pub tracks: TracksView,
    pub preview: PreviewView,
    pub selected: Option<ClipId>,
    pub active_job: Option<JobId>,
    pub job_meta: Map<JobId, JobMetaView>,
    pub master_muted: bool,
    pub config: AppConfigView,
    pub history: Seq<ExportRecordView>,
    pub data_dir: Seq<char>,
}

impl View for Editor {
    type V = EditorView;

    open spec fn view(&self) -> EditorView {
        EditorView {
            playlist: self.playlist@,
            project: self.project@.tracks,
            undo: self.undo@,
            tracks: self.tracks@,
            preview: self.preview@,
            selected: self.selected,
            active_job: self.active_job,
            job_meta: self.job_meta@.map_values(meta_view()),
            master_muted: self.audio.master_muted,
            config: self.config@,
            history: self.history@,
            data_dir: self.data_dir@,
        }
    }
}

/// What the editor becomes, and what it asks for.
#[verifier::ext_equal]
pub struct Step {
    pub state: EditorView,
    pub actions: Seq<ActionView>,
}

impl Step {
    /// After it, something else is asked for as well.
    pub open spec fn and(self, actions: Seq<ActionView>) -> Step {
        Step { actions: self.actions + actions, ..self }
    }

    /// Before it, something else is asked for.
    pub open spec fn after(self, actions: Seq<ActionView>) -> Step {
        Step { actions: actions + self.actions, ..self }
    }
}

impl EditorView {
    /// Nothing happens.
    pub open spec fn idle(self) -> Step {
        Step { state: self, actions: Seq::empty() }
    }

    /// The clips as they are can be undone to.
    pub open spec fn checkpointed(self) -> EditorView {
        EditorView { undo: self.undo.checkpointed(self.playlist), ..self }
    }

    /// The clips are on their tracks, and the tracks have their flags.
    pub open spec fn synced(self) -> EditorView {
        EditorView {
            project: self.tracks.on(lanes::populated(self.project, self.playlist)),
            ..self
        }
    }

    /// The clip at `i` is another one.
    pub open spec fn with_clip(self, i: int, c: ClipView) -> EditorView {
        EditorView { playlist: self.playlist.update(i, c), ..self }
    }
}

impl Editor {
    /// An editor without clips, with the tracks of a new project.
    pub fn new(config: AppConfig, history: History, data_dir: String) -> (e: Self)
        ensures
            project::is_new_project(project::ProjectView { tracks: e@.project }),
            e@ == (EditorView {
                playlist: Seq::empty(),
                project: e@.project,
                undo: UndoView { undo: Seq::empty(), redo: Seq::empty() },
                tracks: (TracksView {
                    muted: Seq::empty(),
                    soloed: Seq::empty(),
                    locked: Seq::empty(),
                }).resized(4),
                preview: PreviewView {
                    clip_id: None,
                    duration_us: 0,
                    playhead_us: 0,
                    playing: false,
                    pending_seek_us: None,
                    frame_history: Seq::empty(),
                },
                selected: None,
                active_job: None,
                job_meta: Map::empty(),
                master_muted: false,
                config: config@,
                history: history@,
                data_dir: data_dir@,
            }),
    {
        let project: Project = Project::with_default_tracks();
        let tracks: TracksState = TracksState::for_project(&project);
        let e: Editor = Editor {
            playlist: Playlist::new(),
            project,
            undo: UndoStack::new(),
            tracks,
            preview: PreviewState::default(),
            selected: None,
            active_job: None,
            job_meta: HashMap::new(),
            audio: AudioState { master_muted: false },
            config,
            history,
            data_dir,
        };
        assert(e@.job_meta =~= Map::empty());
        e
    }

    pub(crate) fn checkpoint(&mut self)
        ensures
            final(self)@ == old(self)@.checkpointed(),
    {
        self.undo.checkpoint(&self.playlist);
    }

    pub(crate) fn sync(&mut self)
        ensures
            final(self)@ == old(self)@.synced(),
    {
        self.project.populate_from_playlist(&self.playlist);
        self.tracks.apply_to(&mut self.project);
    }

    /// Take the clips of V1 of the project as the playlist.
    pub fn sync_playlist_from_project(&mut self)
        ensures
            project::is_playlist_of(final(self)@.playlist, old(self)@.project),
            final(self)@ == (EditorView { playlist: final(self)@.playlist, ..old(self)@ }),
    {
        self.playlist = self.project.to_playlist();
    }
}

} // verus!
