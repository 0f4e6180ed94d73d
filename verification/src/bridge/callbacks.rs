//! What the buttons of the window do.

use vstd::prelude::*;
use vstd::string::*;

use super::lanes;
use super::state;
use super::state::{
    Action, ActionView, Details, DetailsView, Editor, EditorView, PreviewView, Step,
};
use super::timeline_view;
use super::timeline_view::{clip_at_us_on_track, drag_on_track, start_at_us, total_duration_us};
use crate::domain::clip::{Clip, ClipView};
use crate::domain::codec::{CodecProfile, CodecProfileView};
use crate::domain::playlist;
use crate::domain::playlist::Playlist;
use crate::domain::project;
use crate::domain::project::{Project, TrackView};
use crate::ident::ClipId;
use crate::paths;
use crate::services::timeline_ops;
use crate::services::timeline_ops::{ripple_delete, split_at_with_id, trim, TrimSide};
use crate::text;
use crate::view_model::timeline_vm;
use crate::view_model::timeline_vm::{format_duration, format_size, format_us};
use crate::worker::job::{Command, CommandView};

verus! {

/// How many clips there are.
pub open spec fn count_text(n: nat) -> Seq<char> {
    text::dec(n) + " clips in timeline"@
}

fn count_line(n: usize) -> (s: String)
    ensures
        s@ == count_text(n as nat),
{
    let mut s: String = String::new();
    text::push_dec(&mut s, n as u128);
    assert(s@ =~= text::dec(n as nat));
    s.append(" clips in timeline");
    s
}

/// The codecs of a clip; a dash stands for no sound.
pub open spec fn codec_text(p: CodecProfileView) -> Seq<char> {
    p.video_codec + " / "@ + if p.audio_codec.len() == 0 {
        "—"@
    } else {
        p.audio_codec
    }
}

fn codec_line(p: &CodecProfile) -> (s: String)
    ensures
        s@ == codec_text(p@),
{
    let mut s: String = p.video_codec.clone();
    s.append(" / ");
    let audio: Vec<char> = text::chars_of(p.audio_codec.as_str());
    if audio.len() == 0 {
        s.append("—");
    } else {
        s.append(p.audio_codec.as_str());
    }
    s
}

/// What is shown of the clip at `i`. The project has the size of the first
/// clip.
pub open spec fn details_of(clips: Seq<ClipView>, i: int) -> DetailsView {
    let c = clips[i];
    DetailsView {
        clip: c,
        name: paths::display_name_of(c.path),
        codec: codec_text(c.info.profile),
        resolution: timeline_vm::size_text(c.info.profile.resolution),
        duration: timeline_vm::length_text((c.info.duration.nanos / 1_000_000_000) as int),
        project_width: clips[0].info.profile.resolution.width as i32,
        project_height: clips[0].info.profile.resolution.height as i32,
        width: c.info.profile.resolution.width as i32,
        height: c.info.profile.resolution.height as i32,
    }
}

fn details(playlist: &Playlist, i: usize) -> (d: Details)
    requires
        i < playlist@.len(),
    ensures
        d@ == details_of(playlist@, i as int),
{
    let clips: &[Clip] = playlist.clips();
    let c: &Clip = &clips[i];
    let first: &Clip = &clips[0];
    Details {
        clip: c.clone(),
        name: paths::display_name(c.path.as_str()),
        codec: codec_line(&c.info.profile),
        resolution: format_size(c.info.profile.resolution),
        duration: format_duration(c.info.duration),
        project_width: first.info.profile.resolution.width as i32,
        project_height: first.info.profile.resolution.height as i32,
        width: c.info.profile.resolution.width as i32,
        height: c.info.profile.resolution.height as i32,
    }
}

/// Where to jump to.
#[derive(Clone, Copy, Debug, PartialEq, Eq)]
pub enum JumpTo {
    Start,
    End,
}

/// The end is jumped to so much before it.
pub const BEFORE_END_US: i64 = 100_000;

/// How long a picture is shown where the clip is not known.
pub const DEFAULT_FRAME_US: i64 = 33_333;

/// How long a picture of a clip is shown.
pub open spec fn frame_us_of(c: ClipView) -> int {
    let mhz = c.info.profile.frame_rate_mhz as int;
    if mhz > 1 {
        1_000_000_000int / mhz
    } else {
        1_000_000_000
    }
}

/// The number of the track that a clip of the track `clip_track` is dragged to
/// when it is moved by `row_delta` rows. It stays among tracks of its kind.
pub open spec fn drag_track(tracks: Seq<TrackView>, clip_track: u8, row_delta: i32) -> u8 {
    match lanes::lane_index(tracks, clip_track) {
        Some(cur) => {
            let target = timeline_ops::clamp(cur + row_delta, 0, tracks.len() - 1);
            if row_delta == 0 || tracks[target].kind != tracks[cur].kind {
                clip_track
            } else {
                match lanes::lane_of(tracks[target]) {
                    Some(v) => v,
                    None => clip_track,
                }
            }
        },
        None => clip_track,
    }
}

/// The number of the track that a clip is dragged to.
pub fn resolve_drag_track(project: &Project, clip_track: u8, row_delta: i32) -> (v: u8)
    ensures
        v == drag_track(project@.tracks, clip_track, row_delta),
{
    let cur: usize = match project.track_index_for_video_track_value(clip_track) {
        Some(i) => i,
        None => return clip_track,
    };
    let n: usize = project.tracks.len();
    let moved: i128 = cur as i128 + row_delta as i128;
    let target: usize = if moved < 0 {
        0
    } else if moved > (n - 1) as i128 {
        n - 1
    } else {
        moved as usize
    };
    proof {
        assert(project@.tracks[target as int] == project.tracks@[target as int]@);
        assert(project@.tracks[cur as int] == project.tracks@[cur as int]@);
    }
    if row_delta == 0 || project.tracks[target].kind != project.tracks[cur].kind {
        return clip_track;
    }
    match project.video_track_value_for_index(target) {
        Some(v) => v,
        None => clip_track,
    }
}

/// Where a dragged clip is, and where it would land.
#[derive(Clone, Copy, Debug, PartialEq, Eq)]
pub struct DragPreview {
    pub start_us: i64,
    pub duration_us: i64,
    /// The row of the clip.
    pub row: Option<usize>,
    /// The row where it would land.
    pub dest_row: Option<usize>,
    pub dest_track: u8,
    pub new_start_us: i64,
}

impl EditorView {
    pub open spec fn removed(self, id: ClipId) -> Step {
        let before = self.checkpointed();
        match playlist::index_of(self.playlist, id) {
            Some(i) => {
                let clips = self.playlist.remove(i);
                Step {
                    state: (EditorView { playlist: clips, ..before }).synced(),
                    actions: seq![
                        ActionView::SyncClips,
                        ActionView::Ruler,
                        ActionView::Status(count_text(clips.len())),
                        ActionView::SyncTracks,
                        ActionView::SyncPreview,
                    ],
                }
            },
            None => before.idle(),
        }
    }

    /// A dragged clip lands on the track `dest` at `start`. Where it was there
    /// already, nothing happens.
    pub open spec fn dropped(self, id: ClipId, dest: u8, start: i64) -> Step {
        match playlist::index_of(self.playlist, id) {
            Some(i) => {
                let c = self.playlist[i];
                if dest == c.video_track && timeline_view::start_at(self.playlist, i) == start {
                    self.idle()
                } else {
                    Step {
                        state: self.checkpointed().with_clip(
                            i,
                            ClipView { video_track: dest, start_us: Some(start), ..c },
                        ).synced(),
                        actions: seq![
                            ActionView::SyncTracks,
                            ActionView::SyncClips,
                            ActionView::Ruler,
                            ActionView::SyncPreview,
                        ],
                    }
                }
            },
            None => self.idle(),
        }
    }

    /// `s` is what happens when the clip `id` was dragged by `row_delta` rows
    /// and to `raw_us`.
    pub open spec fn drags(
        self,
        id: ClipId,
        row_delta: i32,
        raw_us: i64,
        snap_us: i64,
        s: Step,
    ) -> bool {
        match playlist::index_of(self.playlist, id) {
            Some(i) => {
                let dest = drag_track(self.project, self.playlist[i].video_track, row_delta);
                exists|start: i64|
                    timeline_view::lands_at(
                        timeline_view::snap_points(
                            self.playlist,
                            dest,
                            id,
                            self.preview.playhead_us,
                        ),
                        timeline_view::not_negative(raw_us),
                        self.playlist[i].dur_us() as int,
                        snap_us as int,
                        start,
                    ) && s == #[trigger] self.dropped(id, dest, start)
            },
            None => s == self.idle(),
        }
    }

    /// The clip is selected and shown in the preview, at `initial_us` after its
    /// start.
    pub open spec fn opened(self, id: ClipId, initial_us: i64) -> Step {
        match playlist::index_of(self.playlist, id) {
            Some(i) => {
                let target = (timeline_view::start_at(self.playlist, i) + initial_us) as i64;
                Step {
                    state: (EditorView {
                        preview: PreviewView {
                            clip_id: Some(id),
                            playhead_us: target,
                            playing: false,
                            frame_history: Seq::empty(),
                            ..self.preview
                        },
                        selected: Some(id),
                        ..self
                    }).synced(),
                    actions: seq![
                        ActionView::Select(details_of(self.playlist, i)),
                        ActionView::SyncTracks,
                        ActionView::Keyframes,
                        ActionView::SyncPreview,
                        ActionView::Send(CommandView::SeekPreview { pts_us: target }),
                    ],
                }
            },
            None => self.idle(),
        }
    }

    pub open spec fn play_toggled(self) -> Step {
        if self.preview.clip_id is None {
            self.idle()
        } else {
            let playing = !self.preview.playing;
            Step {
                state: EditorView {
                    preview: PreviewView {
                        playing,
                        frame_history: if playing {
                            self.preview.frame_history
                        } else {
                            Seq::empty()
                        },
                        ..self.preview
                    },
                    ..self
                },
                actions: if playing {
                    seq![ActionView::Send(CommandView::PlayPreview), ActionView::Playing(true)]
                } else {
                    seq![
                        ActionView::Send(CommandView::PausePreview),
                        ActionView::Playing(false),
                        ActionView::Fps(0),
                    ]
                },
            }
        }
    }

    pub open spec fn sought(self, pts_us: i64) -> Step {
        Step {
            state: EditorView {
                preview: PreviewView { playhead_us: pts_us, ..self.preview },
                ..self
            },
            actions: seq![
                ActionView::Send(CommandView::SeekPreview { pts_us }),
                ActionView::PlayheadText(timeline_vm::position_text(pts_us)),
                ActionView::Keyframes,
            ],
        }
    }

    pub open spec fn jumped(self, to: JumpTo) -> Step {
        let end = self.preview.duration_us - BEFORE_END_US;
        let pts_us = match to {
            JumpTo::Start => 0i64,
            JumpTo::End => if end > 0 {
                end as i64
            } else {
                0
            },
        };
        if self.preview.clip_id is None {
            self.idle()
        } else {
            Step {
                state: self,
                actions: seq![ActionView::Send(CommandView::SeekPreview { pts_us })],
            }
        }
    }

    /// One end of a clip is moved to `new_source_us` in its source, and the
    /// clip is shown.
    pub open spec fn trimmed(self, id: ClipId, side: TrimSide, new_source_us: i64) -> Step {
        match playlist::index_of(self.playlist, id) {
            Some(i) => self.checkpointed().with_clip(
                i,
                timeline_ops::trimmed(self.playlist[i], side, new_source_us),
            ).opened(id, 0).after(seq![ActionView::SyncClips, ActionView::Ruler]),
            None => self.idle(),
        }
    }

    /// One end of a clip is moved by `delta_us`.
    pub open spec fn trimmed_by(self, id: ClipId, side: TrimSide, delta_us: i64) -> Step {
        match playlist::index_of(self.playlist, id) {
            Some(i) => {
                let c = self.playlist[i];
                let end = match side {
                    TrimSide::Left => c.trim_in.us(),
                    TrimSide::Right => c.trim_out.us(),
                };
                self.trimmed(id, side, (end + delta_us) as i64)
            },
            None => self.idle(),
        }
    }

    /// One end of the previewed clip is moved to where its shown part begins in
    /// the source plus the time of the playhead on the timeline. For a clip that
    /// starts where the timeline does, that is the moment under the playhead.
    pub open spec fn trimmed_at_playhead(self, side: TrimSide) -> Step {
        match self.preview.clip_id {
            Some(id) => match playlist::index_of(self.playlist, id) {
                Some(i) => self.trimmed(
                    id,
                    side,
                    (self.playlist[i].trim_in.us() + self.preview.playhead_us) as i64,
                ),
                None => self.idle(),
            },
            None => self.idle(),
        }
    }

    /// The clip under the playhead, on the track of the previewed one.
    pub open spec fn under_playhead(self) -> Option<int> {
        match self.preview.clip_id {
            Some(sel) => match playlist::index_of(self.playlist, sel) {
                Some(k) => timeline_view::clip_under(
                    self.playlist,
                    self.playlist[k].video_track,
                    self.preview.playhead_us,
                    0,
                ),
                None => None,
            },
            None => None,
        }
    }

    /// The clip under the playhead is split there, and its left half is shown.
    pub open spec fn split(self, fresh: ClipId) -> Step {
        match self.under_playhead() {
            Some(i) => {
                let id = self.playlist[i].id;
                let local = (self.preview.playhead_us - timeline_view::start_at(
                    self.playlist,
                    i,
                )) as i64;
                if local <= 0 {
                    self.idle()
                } else {
                    match timeline_ops::split_clips(self.playlist, id, local, fresh) {
                        Ok(clips) => (EditorView {
                            playlist: clips,
                            ..self.checkpointed()
                        }).opened(id, 0).after(seq![ActionView::SyncClips, ActionView::Ruler]),
                        Err(_) => self.checkpointed().idle(),
                    }
                }
            },
            None => self.idle(),
        }
    }

    /// The previewed clip is deleted.
    pub open spec fn ripple_deleted(self) -> Step {
        match self.preview.clip_id {
            Some(id) => {
                let closed = EditorView {
                    preview: PreviewView {
                        clip_id: None,
                        playhead_us: 0,
                        duration_us: 0,
                        playing: false,
                        ..self.preview
                    },
                    ..self.checkpointed()
                };
                match playlist::index_of(self.playlist, id) {
                    Some(i) => {
                        let clips = self.playlist.remove(i);
                        Step {
                            state: (EditorView {
                                playlist: clips,
                                selected: None,
                                ..closed
                            }).synced(),
                            actions: seq![
                                ActionView::SyncClips,
                                ActionView::Ruler,
                                ActionView::Deselect,
                                ActionView::Status(count_text(clips.len())),
                                ActionView::SyncTracks,
                                ActionView::SyncPreview,
                            ],
                        }
                    },
                    None => closed.idle(),
                }
            },
            None => self.idle(),
        }
    }

    /// The preview goes on or back by `delta` pictures.
    pub open spec fn stepped(self, delta: i32) -> Step {
        match self.preview.clip_id {
            Some(id) => {
                let frame_us = match playlist::index_of(self.playlist, id) {
                    Some(i) => frame_us_of(self.playlist[i]),
                    None => DEFAULT_FRAME_US as int,
                };
                let end = if self.preview.duration_us > 0 {
                    self.preview.duration_us as int
                } else {
                    0
                };
                let pts_us = timeline_ops::clamp(
                    self.preview.playhead_us + delta * frame_us,
                    0,
                    end,
                ) as i64;
                Step {
                    state: self,
                    actions: seq![ActionView::Send(CommandView::SeekPreview { pts_us })],
                }
            },
            None => self.idle(),
        }
    }

    /// The clips are others, and none of them is selected.
    pub open spec fn restored(self, clips: Seq<ClipView>) -> Step {
        Step {
            state: (EditorView {
                playlist: clips,
                preview: PreviewView {
                    clip_id: None,
                    playhead_us: 0,
                    duration_us: 0,
                    playing: false,
                    pending_seek_us: None,
                    ..self.preview
                },
                selected: None,
                ..self
            }).synced(),
            actions: seq![
                ActionView::SyncClips,
                ActionView::Ruler,
                ActionView::Deselect,
                ActionView::SyncTracks,
                ActionView::SyncPreview,
            ],
        }
    }

    pub open spec fn undone(self) -> Step {
        if self.undo.undo.len() == 0 {
            self.idle()
        } else {
            (EditorView { undo: self.undo.stepped_back(self.playlist), ..self }).restored(
                self.undo.undo.last(),
            )
        }
    }

    pub open spec fn redone(self) -> Step {
        if self.undo.redo.len() == 0 {
            self.idle()
        } else {
            (EditorView { undo: self.undo.stepped_forth(self.playlist), ..self }).restored(
                self.undo.redo.last(),
            )
        }
    }
}

impl Editor {
    /// Take a clip out of the timeline.
    pub fn on_remove(&mut self, id: ClipId) -> (actions: Vec<Action>)
        ensures
            (Step { state: final(self)@, actions: state::action_views(actions@) }) == old(
                self,
            )@.removed(id),
    {
        let mut actions: Vec<Action> = Vec::new();
        self.checkpoint();
        match self.playlist.remove(id) {
            Ok(_) => {
                self.sync();
                actions.push(Action::SyncClips);
                actions.push(Action::Ruler);
                actions.push(Action::Status(count_line(self.playlist.len())));
                actions.push(Action::SyncTracks);
                actions.push(Action::SyncPreview);
            },
            Err(_) => {},
        }
        assert(state::action_views(actions@) =~= old(self)@.removed(id).actions);
        actions
    }

    /// Where a clip that is being dragged would land.
    pub fn drag_preview(&self, id: ClipId, row_delta: i32, raw_us: i64, snap_us: i64) -> (r: Option<
        DragPreview,
    >)
        ensures
            match playlist::index_of(self@.playlist, id) {
                Some(i) => {
                    let c = self@.playlist[i];
                    let dest = drag_track(self@.project, c.video_track, row_delta);
                    &&& r matches Some(d)
                    &&& d.start_us == timeline_view::start_at(self@.playlist, i)
                    &&& d.duration_us == c.dur_us()
                    &&& d.dest_track == dest
                    &&& d.row == match lanes::lane_index(self@.project, c.video_track) {
                        Some(row) => Some(row as usize),
                        None => None,
                    }
                    &&& d.dest_row == match lanes::lane_index(self@.project, dest) {
                        Some(row) => Some(row as usize),
                        None => None,
                    }
                    &&& timeline_view::lands_at(
                        timeline_view::snap_points(
                            self@.playlist,
                            dest,
                            id,
                            self@.preview.playhead_us,
                        ),
                        timeline_view::not_negative(raw_us),
                        c.dur_us() as int,
                        snap_us as int,
                        d.new_start_us,
                    )
                },
                None => r is None,
            },
    {
        let i: usize = match self.playlist.position(id) {
            Some(i) => i,
            None => return None,
        };
        let c: &Clip = &self.playlist.clips()[i];
        let dest: u8 = resolve_drag_track(&self.project, c.video_track, row_delta);
        match drag_on_track(&self.playlist, id, dest, raw_us, snap_us, self.preview.playhead_us) {
            Some(new_start_us) => Some(
                DragPreview {
                    start_us: start_at_us(&self.playlist, i),
                    duration_us: c.effective_duration_us(),
                    row: self.project.track_index_for_video_track_value(c.video_track),
                    dest_row: self.project.track_index_for_video_track_value(dest),
                    dest_track: dest,
                    new_start_us,
                },
            ),
            None => None,
        }
    }

    /// Let a dragged clip land.
    pub fn on_drag_released(
        &mut self,
        id: ClipId,
        row_delta: i32,
        raw_us: i64,
        snap_us: i64,
    ) -> (actions: Vec<Action>)
        ensures
            old(self)@.drags(
                id,
                row_delta,
                raw_us,
                snap_us,
                Step { state: final(self)@, actions: state::action_views(actions@) },
            ),
    {
        let mut actions: Vec<Action> = Vec::new();
        assert(state::action_views(actions@) =~= Seq::<ActionView>::empty());
        let i: usize = match self.playlist.position(id) {
            Some(i) => i,
            None => return actions,
        };
        let own: u8 = self.playlist.clips()[i].video_track;
        let dest: u8 = resolve_drag_track(&self.project, own, row_delta);
        let start: i64 = match drag_on_track(
            &self.playlist,
            id,
            dest,
            raw_us,
            snap_us,
            self.preview.playhead_us,
        ) {
            Some(start) => start,
            None => return actions,
        };
        let ghost s = old(self)@.dropped(id, dest, start);
        if dest == own && start_at_us(&self.playlist, i) == start {
            assert(s.actions =~= state::action_views(actions@));
            return actions;
        }
        self.checkpoint();
        let mut c: Clip = self.playlist.clips()[i].clone();
        c.video_track = dest;
        c.start_us = Some(start);
        self.playlist.replace(i, c);
        self.sync();
        actions.push(Action::SyncTracks);
        actions.push(Action::SyncClips);
        actions.push(Action::Ruler);
        actions.push(Action::SyncPreview);
        assert(s.actions =~= state::action_views(actions@));
        actions
    }

    fn open_clip(&mut self, id: ClipId, initial_us: i64, actions: &mut Vec<Action>)
        ensures
            (Step { state: final(self)@, actions: state::action_views(final(actions)@) }) == old(
                self,
            )@.opened(id, initial_us).after(state::action_views(old(actions)@)),
    {
        let ghost before = state::action_views(actions@);
        let ghost s = self@.opened(id, initial_us);
        match self.playlist.position(id) {
            Some(i) => {
                let start: i64 = start_at_us(&self.playlist, i);
                let target: i64 = (start as i128 + initial_us as i128) as i64;
                let shown: Details = details(&self.playlist, i);
                self.preview.clip_id = Some(id);
                self.preview.playhead_us = target;
                self.preview.playing = false;
                self.preview.frame_history = Vec::new();
                self.selected = Some(id);
                self.sync();
                actions.push(Action::Select(shown));
                actions.push(Action::SyncTracks);
                actions.push(Action::Keyframes);
                actions.push(Action::SyncPreview);
                actions.push(Action::Send(Command::SeekPreview { pts_us: target }));
            },
            None => {},
        }
        assert(state::action_views(actions@) =~= before + s.actions);
    }

    /// Select a clip, and show it in the preview at `initial_seek_us` after its
    /// start.
    pub fn select_and_open(&mut self, id: ClipId, initial_seek_us: Option<i64>) -> (actions: Vec<
        Action,
    >)
        ensures
            (Step { state: final(self)@, actions: state::action_views(actions@) }) == old(
                self,
            )@.opened(
                id,
                match initial_seek_us {
                    Some(us) => us,
                    None => 0,
                },
            ),
    {
        let mut actions: Vec<Action> = Vec::new();
        let initial_us: i64 = match initial_seek_us {
            Some(us) => us,
            None => 0,
        };
        self.open_clip(id, initial_us, &mut actions);
        assert(state::action_views(actions@) =~= old(self)@.opened(id, initial_us).actions);
        actions
    }

    pub fn on_play_toggle(&mut self) -> (actions: Vec<Action>)
        ensures
            (Step { state: final(self)@, actions: state::action_views(actions@) }) == old(
                self,
            )@.play_toggled(),
    {
        let mut actions: Vec<Action> = Vec::new();
        if self.preview.clip_id.is_some() {
            let playing: bool = !self.preview.playing;
            self.preview.playing = playing;
            if playing {
                actions.push(Action::Send(Command::PlayPreview));
                actions.push(Action::Playing(true));
            } else {
                self.preview.frame_history = Vec::new();
                actions.push(Action::Send(Command::PausePreview));
                actions.push(Action::Playing(false));
                actions.push(Action::Fps(0));
            }
        }
        assert(state::action_views(actions@) =~= old(self)@.play_toggled().actions);
        actions
    }

    /// The length of the timeline.
    pub fn timeline_us(&self) -> (us: i64)
        ensures
            us == timeline_view::latest_end(self@.playlist, self@.playlist.len() as int),
    {
        total_duration_us(&self.playlist)
    }

    /// Move the playhead.
    pub fn on_seek(&mut self, pts_us: i64) -> (actions: Vec<Action>)
        ensures
            (Step { state: final(self)@, actions: state::action_views(actions@) }) == old(
                self,
            )@.sought(pts_us),
    {
        let mut actions: Vec<Action> = Vec::new();
        self.preview.playhead_us = pts_us;
        actions.push(Action::Send(Command::SeekPreview { pts_us }));
        actions.push(Action::PlayheadText(format_us(pts_us)));
        actions.push(Action::Keyframes);
        assert(state::action_views(actions@) =~= old(self)@.sought(pts_us).actions);
        actions
    }

    pub fn on_jump(&mut self, to: JumpTo) -> (actions: Vec<Action>)
        ensures
            (Step { state: final(self)@, actions: state::action_views(actions@) }) == old(
                self,
            )@.jumped(to),
    {
        let mut actions: Vec<Action> = Vec::new();
        if self.preview.clip_id.is_some() {
            let end: i128 = self.preview.duration_us as i128 - BEFORE_END_US as i128;
            let pts_us: i64 = match to {
                JumpTo::Start => 0,
                JumpTo::End => if end > 0 {
                    end as i64
                } else {
                    0
                },
            };
            actions.push(Action::Send(Command::SeekPreview { pts_us }));
        }
        assert(state::action_views(actions@) =~= old(self)@.jumped(to).actions);
        actions
    }

    fn trim_to(&mut self, id: ClipId, side: TrimSide, new_source_us: i64) -> (actions: Vec<Action>)
        ensures
            playlist::index_of(old(self)@.playlist, id) is Some ==> (Step {
                state: final(self)@,
                actions: state::action_views(actions@),
            }) == old(self)@.trimmed(id, side, new_source_us),
    {
        let mut actions: Vec<Action> = Vec::new();
        self.checkpoint();
        match trim(&mut self.playlist, id, side, new_source_us) {
            Ok(_) => {
                actions.push(Action::SyncClips);
                actions.push(Action::Ruler);
                assert(state::action_views(actions@) =~= seq![
                    ActionView::SyncClips,
                    ActionView::Ruler,
                ]);
                self.open_clip(id, 0, &mut actions);
            },
            Err(_) => {},
        }
        actions
    }

    /// Move one end of a clip by `delta_us`.
    pub fn on_trim_released(&mut self, id: ClipId, is_right: bool, delta_us: i64) -> (actions: Vec<
        Action,
    >)
        ensures
            (Step { state: final(self)@, actions: state::action_views(actions@) }) == old(
                self,
            )@.trimmed_by(
                id,
                if is_right {
                    TrimSide::Right
                } else {
                    TrimSide::Left
                },
                delta_us,
            ),
    {
        let i: usize = match self.playlist.position(id) {
            Some(i) => i,
            None => {
                let none: Vec<Action> = Vec::new();
                assert(state::action_views(none@) =~= Seq::<ActionView>::empty());
                return none;
            },
        };
        let c: &Clip = &self.playlist.clips()[i];
        let (side, end): (TrimSide, i64) = if is_right {
            (TrimSide::Right, c.trim_out_us())
        } else {
            (TrimSide::Left, c.trim_in_us())
        };
        let new_source_us: i64 = (end as i128 + delta_us as i128) as i64;
        self.trim_to(id, side, new_source_us)
    }

    /// Move one end of the previewed clip to its trim-in plus the time of the
    /// playhead on the timeline: the moment under the playhead, for a clip that
    /// starts where the timeline does.
    pub fn on_set_inout(&mut self, side: TrimSide) -> (actions: Vec<Action>)
        ensures
            (Step { state: final(self)@, actions: state::action_views(actions@) }) == old(
                self,
            )@.trimmed_at_playhead(side),
    {
        let none: Vec<Action> = Vec::new();
        assert(state::action_views(none@) =~= Seq::<ActionView>::empty());
        let id: ClipId = match self.preview.clip_id {
            Some(id) => id,
            None => return none,
        };
        let i: usize = match self.playlist.position(id) {
            Some(i) => i,
            None => return none,
        };
        let from: i64 = self.playlist.clips()[i].trim_in_us();
        let new_source_us: i64 = (from as i128 + self.preview.playhead_us as i128) as i64;
        self.trim_to(id, side, new_source_us)
    }

    /// Split the clip under the playhead, on the track of the previewed one;
    /// the right half gets the identifier `fresh`.
    pub fn on_split(&mut self, fresh: ClipId) -> (actions: Vec<Action>)
        ensures
            (Step { state: final(self)@, actions: state::action_views(actions@) }) == old(
                self,
            )@.split(fresh),
    {
        let mut actions: Vec<Action> = Vec::new();
        assert(state::action_views(actions@) =~= Seq::<ActionView>::empty());
        let sel: ClipId = match self.preview.clip_id {
            Some(sel) => sel,
            None => return actions,
        };
        let k: usize = match self.playlist.position(sel) {
            Some(k) => k,
            None => return actions,
        };
        let track: u8 = self.playlist.clips()[k].video_track;
        let (id, local_us): (ClipId, i64) = match clip_at_us_on_track(
            &self.playlist,
            track,
            self.preview.playhead_us,
        ) {
            Some(found) => found,
            None => return actions,
        };
        if local_us <= 0 {
            return actions;
        }
        self.checkpoint();
        match split_at_with_id(&mut self.playlist, id, local_us, fresh) {
            Ok(_) => {
                actions.push(Action::SyncClips);
                actions.push(Action::Ruler);
                assert(state::action_views(actions@) =~= seq![
                    ActionView::SyncClips,
                    ActionView::Ruler,
                ]);
                self.open_clip(id, 0, &mut actions);
            },
            Err(_) => {},
        }
        actions
    }

    /// Delete the previewed clip; the clips after it move up.
    pub fn on_ripple_delete(&mut self) -> (actions: Vec<Action>)
        ensures
            (Step { state: final(self)@, actions: state::action_views(actions@) }) == old(
                self,
            )@.ripple_deleted(),
    {
        let mut actions: Vec<Action> = Vec::new();
        if let Some(id) = self.preview.clip_id {
            self.preview.clip_id = None;
            self.preview.playhead_us = 0;
            self.preview.duration_us = 0;
            self.preview.playing = false;
            self.checkpoint();
            match ripple_delete(&mut self.playlist, id) {
                Ok(_) => {
                    self.selected = None;
                    self.sync();
                    actions.push(Action::SyncClips);
                    actions.push(Action::Ruler);
                    actions.push(Action::Deselect);
                    actions.push(Action::Status(count_line(self.playlist.len())));
                    actions.push(Action::SyncTracks);
                    actions.push(Action::SyncPreview);
                },
                Err(_) => {},
            }
        }
        assert(state::action_views(actions@) =~= old(self)@.ripple_deleted().actions);
        actions
    }

    /// Go on or back by `delta` pictures.
    pub fn on_step_frame(&mut self, delta: i32) -> (actions: Vec<Action>)
        ensures
            (Step { state: final(self)@, actions: state::action_views(actions@) }) == old(
                self,
            )@.stepped(delta),
    {
        let mut actions: Vec<Action> = Vec::new();
        if let Some(id) = self.preview.clip_id {
            let frame_us: i64 = match self.playlist.position(id) {
                Some(i) => {
                    let mhz: u32 = self.playlist.clips()[i].info.profile.frame_rate_mhz;
                    let rate: i64 = if mhz > 1 {
                        mhz as i64
                    } else {
                        1
                    };
                    1_000_000_000 / rate
                },
                None => DEFAULT_FRAME_US,
            };
            assert(-0x8000_0000 * 1_000_000_000 <= delta * frame_us <= 0x7fff_ffff
                * 1_000_000_000) by (nonlinear_arith)
                requires
                    0 <= frame_us <= 1_000_000_000,
            ;
            let raw: i128 = self.preview.playhead_us as i128 + delta as i128 * frame_us as i128;
            let end: i128 = if self.preview.duration_us > 0 {
                self.preview.duration_us as i128
            } else {
                0
            };
            let pts_us: i64 = if raw < 0 {
                0
            } else if raw > end {
                end as i64
            } else {
                raw as i64
            };
            actions.push(Action::Send(Command::SeekPreview { pts_us }));
        }
        assert(state::action_views(actions@) =~= old(self)@.stepped(delta).actions);
        actions
    }

    /// Take other clips in place of those there are. None of them is selected.
    pub fn restore_playlist(&mut self, clips: Playlist) -> (actions: Vec<Action>)
        ensures
            (Step { state: final(self)@, actions: state::action_views(actions@) }) == old(
                self,
            )@.restored(clips@),
    {
        let mut actions: Vec<Action> = Vec::new();
        self.playlist = clips;
        self.preview.clip_id = None;
        self.preview.playhead_us = 0;
        self.preview.duration_us = 0;
        self.preview.playing = false;
        self.preview.pending_seek_us = None;
        self.selected = None;
        self.sync();
        actions.push(Action::SyncClips);
        actions.push(Action::Ruler);
        actions.push(Action::Deselect);
        actions.push(Action::SyncTracks);
        actions.push(Action::SyncPreview);
        assert(state::action_views(actions@) =~= old(self)@.restored(clips@).actions);
        actions
    }

    pub fn on_undo(&mut self) -> (actions: Vec<Action>)
        ensures
            (Step { state: final(self)@, actions: state::action_views(actions@) }) == old(
                self,
            )@.undone(),
    {
        match self.undo.undo(&self.playlist) {
            Some(clips) => self.restore_playlist(clips),
            None => {
                let none: Vec<Action> = Vec::new();
                assert(state::action_views(none@) =~= Seq::<ActionView>::empty());
                none
            },
        }
    }

    pub fn on_redo(&mut self) -> (actions: Vec<Action>)
        ensures
            (Step { state: final(self)@, actions: state::action_views(actions@) }) == old(
                self,
            )@.redone(),
    {
        match self.undo.redo(&self.playlist) {
            Some(clips) => self.restore_playlist(clips),
            None => {
                let none: Vec<Action> = Vec::new();
                assert(state::action_views(none@) =~= Seq::<ActionView>::empty());
                none
            },
        }
    }
}

} // verus!
