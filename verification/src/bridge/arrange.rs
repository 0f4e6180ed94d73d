//! Tracks, project files, sources and exports.

use vstd::prelude::*;
use vstd::string::*;

use super::lanes;
use super::state;
use super::state::{Action, ActionView, Editor, EditorView, JobMeta, JobMetaView, Step};
use super::tracks;
use super::tracks::{TrackFlag, TracksState, TracksView};
use super::undo::UndoView;
use crate::domain::clip::{Clip, ClipView};
use crate::domain::export_spec::{ContainerFormat, ExportSpec, ExportSpecView, Quality};
use crate::domain::playlist;
use crate::domain::playlist::Playlist;
use crate::domain::project;
use crate::domain::project::{Project, ProjectView, TrackKind, TrackView};
use crate::engine::composite;
use crate::engine::composite::{build_render_plan, RenderPlan, RenderPlanView};
use crate::ident;
use crate::ident::{fresh_id, ClipId, JobId, TrackId};
use crate::paths;
use crate::paths::is_video_file;
use crate::persistence::project::{Project as ProjectFile, ProjectView as ProjectFileView};
use crate::scalar::Scalar;
use crate::text;
use crate::time::Duration;
use crate::worker::job::{Command, CommandView};

verus! {

/// The clips of the track `value` among the first `n` clips.
pub open spec fn ids_on(clips: Seq<ClipView>, value: u8, n: int) -> Seq<ClipId>
    decreases n,
{
    if n <= 0 {
        Seq::empty()
    } else if clips[n - 1].video_track == value {
        ids_on(clips, value, n - 1).push(clips[n - 1].id)
    } else {
        ids_on(clips, value, n - 1)
    }
}

/// The clips after taking out the given ones, one after the other.
pub open spec fn without_ids(clips: Seq<ClipView>, ids: Seq<ClipId>) -> Seq<ClipView>
    decreases ids.len(),
{
    if ids.len() == 0 {
        clips
    } else {
        let rest = without_ids(clips, ids.drop_last());
        match playlist::index_of(rest, ids.last()) {
            Some(i) => rest.remove(i),
            None => rest,
        }
    }
}

/// A clip above the track `value` moves down by one track.
pub open spec fn lowered(c: ClipView, value: u8) -> ClipView {
    if c.video_track > value {
        ClipView { video_track: (c.video_track - 1) as u8, ..c }
    } else {
        c
    }
}

/// The clips after the track `value` was deleted: its clips are gone, and those
/// above it move down.
pub open spec fn without_lane(clips: Seq<ClipView>, value: u8) -> Seq<ClipView> {
    let rest = without_ids(clips, ids_on(clips, value, clips.len() as int));
    Seq::new(rest.len(), |i: int| lowered(rest[i], value))
}

fn drop_lane(playlist: &mut Playlist, value: u8)
    ensures
        final(playlist)@ == without_lane(old(playlist)@, value),
{
    let ghost clips = playlist@;
    let n: usize = playlist.len();
    let mut ids: Vec<ClipId> = Vec::new();
    let mut i: usize = 0;
    while i < n
        invariant
            i <= n,
            n == clips.len(),
            playlist@ == clips,
            ids@ == ids_on(clips, value, i as int),
        decreases n - i,
    {
        let c: &Clip = &playlist.clips()[i];
        if c.video_track == value {
            ids.push(c.id);
        }
        i = i + 1;
    }
    let mut k: usize = 0;
    assert(ids@.take(0) =~= Seq::empty());
    while k < ids.len()
        invariant
            k <= ids.len(),
            playlist@ == without_ids(clips, ids@.take(k as int)),
        decreases ids.len() - k,
    {
        assert(ids@.take(k + 1).drop_last() =~= ids@.take(k as int));
        match playlist.remove(ids[k]) {
            Ok(_) => {},
            Err(_) => {},
        }
        k = k + 1;
    }
    assert(ids@.take(k as int) =~= ids@);
    let ghost rest = playlist@;
    let m: usize = playlist.len();
    let mut j: usize = 0;
    while j < m
        invariant
            j <= m,
            m == rest.len(),
            playlist@.len() == m,
            forall|l: int| 0 <= l < j ==> #[trigger] playlist@[l] == lowered(rest[l], value),
            forall|l: int| j <= l < m ==> #[trigger] playlist@[l] == rest[l],
        decreases m - j,
    {
        let mut c: Clip = playlist.clips()[j].clone();
        if c.video_track > value {
            c.video_track = c.video_track - 1;
            playlist.replace(j, c);
        }
        j = j + 1;
    }
    assert(playlist@ =~= without_lane(clips, value));
}

/// A line about opening or saving a project.
pub open spec fn saved_text(name: Seq<char>) -> Seq<char> {
    "Saved: "@ + name
}

pub open spec fn loaded_text(name: Seq<char>) -> Seq<char> {
    "Loaded: "@ + name
}

/// A line about files that are being probed.
pub open spec fn probing_text(n: nat) -> Seq<char> {
    "Probing "@ + text::dec(n) + " file(s)…"@
}

/// A command to probe a file.
pub open spec fn probes(a: ActionView, path: Seq<char>) -> bool {
    a matches ActionView::Send(c) && c matches CommandView::Probe { id, path: p } && p == path
        && ident::is_random_id(id)
}

/// What an export of the tracks, played as they sound, is remembered by.
pub open spec fn is_meta_of(meta: JobMetaView, tracks: Seq<TrackView>, output: Seq<char>) -> bool {
    exists|plan: RenderPlanView|
        #[trigger] composite::is_plan_of(plan, tracks) && meta == (JobMetaView {
            output_path: output,
            input_count: plan.inputs.len() as usize,
            duration: Duration {
                nanos: (if plan.total_duration_us > 0 {
                    plan.total_duration_us * 1_000
                } else {
                    0
                }) as u128,
            },
        })
}

impl EditorView {
    /// The tracks as they are exported: the clips in place, the flags set, and
    /// everything silent beside soloed tracks.
    pub open spec fn exported(self) -> Seq<TrackView> {
        tracks::as_heard(self.synced().project)
    }

    pub open spec fn master_mute_toggled(self) -> Step {
        let muted = !self.master_muted;
        Step {
            state: EditorView { master_muted: muted, ..self },
            actions: seq![
                ActionView::Send(CommandView::SetMasterMuted(muted)),
                ActionView::MasterMuted(muted),
            ],
        }
    }

    /// What follows on a change of the clips.
    pub open spec fn rearranged(self) -> Step {
        Step {
            state: self.synced(),
            actions: seq![
                ActionView::SyncClips,
                ActionView::Ruler,
                ActionView::SyncTracks,
                ActionView::SyncPreview,
            ],
        }
    }

    /// What follows on a change of the tracks.
    pub open spec fn retracked(self) -> Step {
        Step {
            state: self.synced(),
            actions: seq![ActionView::SyncTracks, ActionView::SyncPreview],
        }
    }

    /// A clip is put on another track. There has to be one.
    pub open spec fn moved_to_track(self, id: ClipId, track: u8) -> Step {
        if lanes::lane_index(self.project, track) is None {
            self.idle()
        } else {
            let before = self.checkpointed();
            match playlist::index_of(self.playlist, id) {
                Some(i) => before.with_clip(
                    i,
                    ClipView { video_track: track, ..self.playlist[i] },
                ).rearranged(),
                None => before.rearranged(),
            }
        }
    }

    /// The sound of a clip was detached, which left `clips`; or it could not be,
    /// and nothing changes but that the clips can be restored.
    pub open spec fn detached(self, clips: Option<Seq<ClipView>>) -> Step {
        let before = self.checkpointed();
        match clips {
            Some(playlist) => (EditorView { playlist, ..before }).rearranged(),
            None => before.idle(),
        }
    }

    pub open spec fn flag_toggled(self, idx: i32, which: TrackFlag) -> Step {
        if idx < 0 {
            self.idle()
        } else {
            let flags = self.tracks.resized(self.project.len() as int);
            if idx >= self.project.len() {
                (EditorView { tracks: flags, ..self }).idle()
            } else {
                (EditorView { tracks: flags.toggled(idx as int, which), ..self }).retracked()
            }
        }
    }

    pub open spec fn track_added(self, kind: TrackKind, id: TrackId) -> Step {
        let name = lanes::numbered_name(kind, lanes::count_of(self.project, kind) + 1);
        (EditorView {
            project: self.project.push(project::empty_track(id, name, kind)),
            tracks: self.tracks.resized(self.project.len() as int + 1),
            ..self
        }).retracked()
    }

    /// A track is deleted with its clips. The last one stays.
    pub open spec fn track_deleted(self, idx: i32) -> Step {
        if idx < 0 || idx >= self.project.len() || self.project.len() == 1 {
            self.idle()
        } else {
            (EditorView {
                project: lanes::without_track(self.project, idx as int),
                playlist: match lanes::lane_of(self.project[idx as int]) {
                    Some(v) => without_lane(self.playlist, v),
                    None => self.playlist,
                },
                tracks: self.tracks.dropped(idx as int),
                ..self.checkpointed()
            }).rearranged()
        }
    }

    /// A project file was opened that holds the project `p` and the clips
    /// `clips`. What was done before cannot be undone.
    pub open spec fn loaded(self, p: ProjectView, clips: Seq<ClipView>, name: Seq<char>) -> Step {
        (EditorView {
            undo: UndoView { undo: Seq::empty(), redo: Seq::empty() },
            project: p.tracks,
            tracks: TracksView::of_tracks(p.tracks),
            ..self
        }).restored(clips).and(seq![ActionView::Status(loaded_text(name))])
    }

    /// An export begins under the identifier `id`.
    pub open spec fn export_started(self, output: Seq<char>, id: JobId, meta: JobMetaView) -> Step {
        Step {
            state: EditorView {
                active_job: Some(id),
                job_meta: self.job_meta.insert(id, meta),
                ..self
            },
            actions: seq![
                ActionView::Exporting(true),
                ActionView::Progress(Scalar { bits: 0 }),
                ActionView::Status("Exporting…"@),
                ActionView::Send(
                    CommandView::Merge {
                        id,
                        project: ProjectView { tracks: self.exported() },
                        spec: ExportSpecView {
                            output_path: output,
                            format: ContainerFormat::Mp4,
                            quality: Quality::Lossless,
                        },
                    },
                ),
            ],
        }
    }

    /// `s` is what happens when an export is asked for.
    pub open spec fn exports(self, output: Seq<char>, id: JobId, s: Step) -> bool {
        if self.playlist.len() == 0 {
            s == (Step {
                state: self,
                actions: seq![ActionView::Status("Add some clips first"@)],
            })
        } else {
            exists|meta: JobMetaView|
                is_meta_of(meta, self.exported(), output) && s == #[trigger] self.export_started(
                    output,
                    id,
                    meta,
                )
        }
    }

    /// The worker did not take an export.
    pub open spec fn export_refused(self, id: JobId) -> Step {
        Step {
            state: EditorView { active_job: None, job_meta: self.job_meta.remove(id), ..self },
            actions: seq![
                ActionView::Exporting(false),
                ActionView::Status("Failed to enqueue export"@),
            ],
        }
    }

    pub open spec fn cancelled(self) -> Step {
        match self.active_job {
            Some(id) => Step {
                state: self,
                actions: seq![ActionView::Send(CommandView::Cancel { id })],
            },
            None => self.idle(),
        }
    }

    pub open spec fn revealed(self, id: ClipId) -> Step {
        match playlist::index_of(self.playlist, id) {
            Some(i) => Step { state: self, actions: seq![ActionView::Reveal(self.playlist[i].path)] },
            None => self.idle(),
        }
    }
}

/// Probe the files that were picked.
pub fn on_browse(files: &Vec<String>) -> (actions: Vec<Action>)
    ensures
        actions@.len() == files@.len() + 1,
        actions@[0]@ == ActionView::Status(probing_text(files@.len())),
        forall|i: int|
            0 <= i < files@.len() ==> probes((#[trigger] actions@[i + 1])@, files@[i]@),
{
    let mut line: String = "Probing ".to_owned();
    text::push_dec(&mut line, files.len() as u128);
    line.append(" file(s)…");
    let mut actions: Vec<Action> = Vec::new();
    actions.push(Action::Status(line));
    let mut i: usize = 0;
    while i < files.len()
        invariant
            i <= files.len(),
            actions@.len() == i + 1,
            actions@[0]@ == ActionView::Status(probing_text(files@.len())),
            forall|j: int| 1 <= j <= i ==> probes((#[trigger] actions@[j])@, files@[j - 1]@),
        decreases files.len() - i,
    {
        let cmd: Command = Command::Probe { id: fresh_id(), path: files[i].clone() };
        actions.push(Action::Send(cmd));
        i = i + 1;
    }
    actions
}

/// Probe a file that was dropped onto the window, if it is a video.
pub fn on_file_dropped(path: String) -> (r: Option<Command>)
    ensures
        match r {
            Some(c) => paths::is_video(path@) && probes(ActionView::Send(c@), path@),
            None => !paths::is_video(path@),
        },
{
    if is_video_file(path.as_str()) {
        Some(Command::Probe { id: fresh_id(), path })
    } else {
        None
    }
}

impl Editor {
    pub fn on_toggle_master_mute(&mut self) -> (actions: Vec<Action>)
        ensures
            (Step { state: final(self)@, actions: state::action_views(actions@) }) == old(
                self,
            )@.master_mute_toggled(),
    {
        let mut actions: Vec<Action> = Vec::new();
        let muted: bool = !self.audio.master_muted;
        self.audio.master_muted = muted;
        actions.push(Action::Send(Command::SetMasterMuted(muted)));
        actions.push(Action::MasterMuted(muted));
        assert(state::action_views(actions@) =~= old(self)@.master_mute_toggled().actions);
        actions
    }

    fn rearrange(&mut self) -> (actions: Vec<Action>)
        ensures
            (Step { state: final(self)@, actions: state::action_views(actions@) }) == old(
                self,
            )@.rearranged(),
    {
        let mut actions: Vec<Action> = Vec::new();
        self.sync();
        actions.push(Action::SyncClips);
        actions.push(Action::Ruler);
        actions.push(Action::SyncTracks);
        actions.push(Action::SyncPreview);
        assert(state::action_views(actions@) =~= old(self)@.rearranged().actions);
        actions
    }

    fn retrack(&mut self) -> (actions: Vec<Action>)
        ensures
            (Step { state: final(self)@, actions: state::action_views(actions@) }) == old(
                self,
            )@.retracked(),
    {
        let mut actions: Vec<Action> = Vec::new();
        self.sync();
        actions.push(Action::SyncTracks);
        actions.push(Action::SyncPreview);
        assert(state::action_views(actions@) =~= old(self)@.retracked().actions);
        actions
    }

    /// Put a clip on another track.
    pub fn on_move_to_track(&mut self, id: ClipId, target_track: u8) -> (actions: Vec<Action>)
        ensures
            (Step { state: final(self)@, actions: state::action_views(actions@) }) == old(
                self,
            )@.moved_to_track(id, target_track),
    {
        if self.project.track_index_for_video_track_value(target_track).is_none() {
            let none: Vec<Action> = Vec::new();
            assert(state::action_views(none@) =~= Seq::<ActionView>::empty());
            return none;
        }
        self.checkpoint();
        match self.playlist.position(id) {
            Some(i) => {
                let mut c: Clip = self.playlist.clips()[i].clone();
                c.video_track = target_track;
                self.playlist.replace(i, c);
            },
            None => {},
        }
        self.rearrange()
    }

    /// Take the clips that detaching the sound of one left, if it could be
    /// detached.
    pub fn on_detach_audio(&mut self, detached: Option<Playlist>) -> (actions: Vec<Action>)
        ensures
            (Step { state: final(self)@, actions: state::action_views(actions@) }) == old(
                self,
            )@.detached(
                match detached {
                    Some(pl) => Some(pl@),
                    None => None,
                },
            ),
    {
        self.checkpoint();
        match detached {
            Some(pl) => {
                self.playlist = pl;
                self.rearrange()
            },
            None => {
                let none: Vec<Action> = Vec::new();
                assert(state::action_views(none@) =~= Seq::<ActionView>::empty());
                none
            },
        }
    }

    /// Turn a flag of a track the other way round.
    pub fn on_toggle_track_flag(&mut self, idx: i32, which: TrackFlag) -> (actions: Vec<Action>)
        ensures
            (Step { state: final(self)@, actions: state::action_views(actions@) }) == old(
                self,
            )@.flag_toggled(idx, which),
    {
        let none: Vec<Action> = Vec::new();
        assert(state::action_views(none@) =~= Seq::<ActionView>::empty());
        if idx < 0 {
            return none;
        }
        let n: usize = self.project.tracks.len();
        assert(n == self@.project.len());
        self.tracks.resize(n);
        let i: usize = idx as usize;
        if i >= n {
            return none;
        }
        self.tracks.toggle(i, which);
        self.retrack()
    }

    /// Add an empty track of a kind under the identifier `id`.
    pub fn on_add_track(&mut self, kind: TrackKind, id: TrackId) -> (actions: Vec<Action>)
        ensures
            (Step { state: final(self)@, actions: state::action_views(actions@) }) == old(
                self,
            )@.track_added(kind, id),
    {
        let name: String = self.project.next_track_name(kind);
        self.project.add_track_with_id(id, name.as_str(), kind);
        let n: usize = self.project.tracks.len();
        assert(n == self@.project.len());
        self.tracks.resize(n);
        self.retrack()
    }

    /// Delete a track with its clips.
    pub fn on_delete_track(&mut self, idx: i32) -> (actions: Vec<Action>)
        ensures
            (Step { state: final(self)@, actions: state::action_views(actions@) }) == old(
                self,
            )@.track_deleted(idx),
    {
        let n: usize = self.project.tracks.len();
        assert(n == self@.project.len());
        if idx < 0 || idx as usize >= n || n == 1 {
            let none: Vec<Action> = Vec::new();
            assert(state::action_views(none@) =~= Seq::<ActionView>::empty());
            return none;
        }
        let i: usize = idx as usize;
        let value: Option<u8> = self.project.video_track_value_for_index(i);
        self.project.remove_track(i);
        self.checkpoint();
        if let Some(v) = value {
            drop_lane(&mut self.playlist, v);
        }
        self.tracks.remove(i);
        self.rearrange()
    }

    /// The project file to save.
    pub fn project_to_save(&mut self, zoom_px_per_sec: Scalar) -> (file: ProjectFile)
        ensures
            final(self)@ == old(self)@.synced(),
            file@ == (ProjectFileView {
                version: crate::persistence::project::CURRENT_VERSION,
                project: Some(ProjectView { tracks: old(self)@.synced().project }),
                playlist: None,
                zoom_px_per_sec,
            }),
    {
        self.sync();
        ProjectFile::new(self.project.clone(), zoom_px_per_sec)
    }

    /// Tell that a project was saved to the file `path`.
    pub fn on_saved(&self, path: &str) -> (action: Action)
        ensures
            action@ == ActionView::Status(saved_text(paths::display_name_of(path@))),
    {
        let mut line: String = "Saved: ".to_owned();
        line.append(paths::display_name(path).as_str());
        Action::Status(line)
    }

    /// Take the project of a file that was read from `path`.
    pub fn on_loaded(&mut self, file: &ProjectFile, path: &str) -> (actions: Vec<Action>)
        requires
            file@.fits(),
        ensures
            exists|p: ProjectView, clips: Seq<ClipView>|
                file@.gives(p) && project::is_playlist_of(clips, p.tracks) && (Step {
                    state: final(self)@,
                    actions: state::action_views(actions@),
                }) == #[trigger] old(self)@.loaded(p, clips, paths::display_name_of(path@)),
    {
        self.undo.clear();
        let core: Project = file.core_project();
        let ghost p = core@;
        let clips: Playlist = core.to_playlist();
        self.tracks = TracksState::from_tracks(&core);
        self.project = core;
        let mut line: String = "Loaded: ".to_owned();
        line.append(paths::display_name(path).as_str());
        let mut actions: Vec<Action> = self.restore_playlist(clips);
        let ghost restored = state::action_views(actions@);
        actions.push(Action::Status(line));
        proof {
            let s = old(self)@.loaded(p, clips@, paths::display_name_of(path@));
            assert(state::action_views(actions@) =~= restored + seq![ActionView::Status(line@)]);
            assert((Step { state: self@, actions: state::action_views(actions@) }) =~= s);
        }
        actions
    }

    /// Export to the file `output_path`, as the job `id`.
    pub fn on_export(&mut self, output_path: String, id: JobId) -> (actions: Vec<Action>)
        requires
            project::ends_fit(project::all_placed(old(self)@.exported())),
        ensures
            old(self)@.exports(
                output_path@,
                id,
                Step { state: final(self)@, actions: state::action_views(actions@) },
            ),
    {
        let mut actions: Vec<Action> = Vec::new();
        if self.playlist.is_empty() {
            actions.push(Action::Status("Add some clips first".to_owned()));
            assert(state::action_views(actions@) =~= seq![
                ActionView::Status("Add some clips first"@),
            ]);
            return actions;
        }
        let mut project: Project = self.project.clone();
        project.populate_from_playlist(&self.playlist);
        self.tracks.apply_to(&mut project);
        tracks::apply_solo(&mut project);
        let ghost exported = project@.tracks;
        let plan: RenderPlan = build_render_plan(&project);
        let us: u64 = if plan.total_duration_us > 0 {
            plan.total_duration_us as u64
        } else {
            0
        };
        let meta: JobMeta = JobMeta {
            output_path: output_path.clone(),
            input_count: plan.inputs.len(),
            duration: Duration::from_micros(us),
        };
        assert(plan@.inputs.len() == plan.inputs@.len());
        assert(composite::is_plan_of(plan@, exported));
        assert(is_meta_of(meta@, exported, output_path@));
        let ghost before = self@;
        self.job_meta.insert(id, meta);
        assert(self@.job_meta =~= before.job_meta.insert(id, meta@));
        self.active_job = Some(id);
        let spec: ExportSpec = ExportSpec {
            output_path,
            format: ContainerFormat::Mp4,
            quality: Quality::Lossless,
        };
        actions.push(Action::Exporting(true));
        actions.push(Action::Progress(Scalar { bits: 0 }));
        actions.push(Action::Status("Exporting…".to_owned()));
        actions.push(Action::Send(Command::Merge { id, project, spec }));
        proof {
            let s = before.export_started(spec@.output_path, id, meta@);
            assert(project@ == (ProjectView { tracks: exported }));
            assert(state::action_views(actions@) =~= s.actions);
            assert((Step { state: self@, actions: state::action_views(actions@) }) == s);
        }
        actions
    }

    /// Whether every clip of an export would end within the timeline.
    pub fn can_export(&self) -> (r: bool)
        ensures
            r == project::ends_fit(project::all_placed(self@.exported())),
    {
        let mut project: Project = self.project.clone();
        project.populate_from_playlist(&self.playlist);
        self.tracks.apply_to(&mut project);
        tracks::apply_solo(&mut project);
        project.ends_in_range()
    }

    /// Forget an export that the worker did not take.
    pub fn on_export_refused(&mut self, id: JobId) -> (actions: Vec<Action>)
        ensures
            (Step { state: final(self)@, actions: state::action_views(actions@) }) == old(
                self,
            )@.export_refused(id),
    {
        let mut actions: Vec<Action> = Vec::new();
        self.job_meta.remove(&id);
        assert(self@.job_meta =~= old(self)@.job_meta.remove(id));
        self.active_job = None;
        actions.push(Action::Exporting(false));
        actions.push(Action::Status("Failed to enqueue export".to_owned()));
        assert(state::action_views(actions@) =~= old(self)@.export_refused(id).actions);
        actions
    }

    /// Cancel the export that runs.
    pub fn on_cancel(&self) -> (actions: Vec<Action>)
        ensures
            state::action_views(actions@) == self@.cancelled().actions,
    {
        let mut actions: Vec<Action> = Vec::new();
        if let Some(id) = self.active_job {
            actions.push(Action::Send(Command::Cancel { id }));
        }
        assert(state::action_views(actions@) =~= self@.cancelled().actions);
        actions
    }

    /// Show the source of a clip in its folder.
    pub fn on_reveal_in_finder(&self, id: ClipId) -> (actions: Vec<Action>)
        ensures
            state::action_views(actions@) == self@.revealed(id).actions,
    {
        let mut actions: Vec<Action> = Vec::new();
        match self.playlist.position(id) {
            Some(i) => {
                let path: String = self.playlist.clips()[i].path.clone();
                actions.push(Action::Reveal(path));
            },
            None => {},
        }
        assert(state::action_views(actions@) =~= self@.revealed(id).actions);
        actions
    }
}

} // verus!
