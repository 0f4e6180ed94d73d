//! Which button does what.

use vstd::prelude::*;

use super::callbacks::JumpTo;
use super::edits;
use super::edits::{Edit, EditView};
use super::state;
use super::state::{Action, ActionView, Editor, EditorView, Step};
use super::tracks::TrackFlag;
use crate::domain::project::TrackKind;
use crate::domain::transform::TransformChannel;
use crate::ident;
use crate::ident::{fresh_id, parse_id, ClipId, TrackId};
use crate::scalar::Scalar;
use crate::services::timeline_ops::TrimSide;

verus! {

/// What is done with a clip.
#[derive(Clone, Copy, Debug, PartialEq, Eq)]
pub enum ClipEvent {
    Remove,
    /// It was dragged by so many rows, and to this time.
    DragReleased { row_delta: i32, raw_us: i64, snap_us: i64 },
    Select,
    /// One of its ends was dragged by so much time.
    TrimReleased { is_right: bool, delta_us: i64 },
    RevealInFinder,
    MoveToTrack(u8),
}

/// What is done at the playhead.
#[derive(Clone, Copy, Debug, PartialEq, Eq)]
pub enum PlayheadEvent {
    PlayToggle,
    Seek { pts_us: i64 },
    JumpStart,
    JumpEnd,
    StepFrame(i32),
    Split,
    RippleDelete,
    SetIn,
    SetOut,
}

/// What is done with the tracks.
#[derive(Clone, Copy, Debug, PartialEq, Eq)]
pub enum TrackEvent {
    ToggleMute(i32),
    ToggleSolo(i32),
    ToggleLock(i32),
    AddVideo,
    AddAudio,
    Delete(i32),
}

/// What is done with the selected clip.
#[derive(Debug)]
pub enum SelectedEvent {
    Change(Edit),
    /// A gesture that changes it begins.
    GestureBegin,
    /// A keyframe is toggled. `position` is the clip's place on the axis of the
    /// channel, where the channel has one.
    KeyframeToggle { channel: i32, position: Scalar },
    KeyframeInterp { channel: i32, mode: String },
}

/// What the user does.
#[derive(Debug)]
pub enum UiEvent {
    /// Something with a clip, which is named by the text of its identifier.
    Clip { id: String, what: ClipEvent },
    Playhead(PlayheadEvent),
    Track(TrackEvent),
    Selected(SelectedEvent),
    Undo,
    Redo,
    ToggleMasterMute,
    CancelClicked,
}

#[verifier::ext_equal]
pub enum SelectedEventView {
    Change(EditView),
    GestureBegin,
    KeyframeToggle { channel: i32, position: Scalar },
    KeyframeInterp { channel: i32, mode: Seq<char> },
}

impl View for SelectedEvent {
    type V = SelectedEventView;

    open spec fn view(&self) -> SelectedEventView {
        match *self {
            SelectedEvent::Change(edit) => SelectedEventView::Change(edit@),
            SelectedEvent::GestureBegin => SelectedEventView::GestureBegin,
            SelectedEvent::KeyframeToggle { channel, position } =>
            SelectedEventView::KeyframeToggle { channel, position },
            SelectedEvent::KeyframeInterp { channel, mode } =>
            SelectedEventView::KeyframeInterp { channel, mode: mode@ },
        }
    }
}

#[verifier::ext_equal]
pub enum UiEventView {
    Clip { id: Seq<char>, what: ClipEvent },
    Playhead(PlayheadEvent),
    Track(TrackEvent),
    Selected(SelectedEventView),
    Undo,
    Redo,
    ToggleMasterMute,
    CancelClicked,
}

impl View for UiEvent {
    type V = UiEventView;

    open spec fn view(&self) -> UiEventView {
        match *self {
            UiEvent::Clip { id, what } => UiEventView::Clip { id: id@, what },
            UiEvent::Playhead(what) => UiEventView::Playhead(what),
            UiEvent::Track(what) => UiEventView::Track(what),
            UiEvent::Selected(what) => UiEventView::Selected(what@),
            UiEvent::Undo => UiEventView::Undo,
            UiEvent::Redo => UiEventView::Redo,
            UiEvent::ToggleMasterMute => UiEventView::ToggleMasterMute,
            UiEvent::CancelClicked => UiEventView::CancelClicked,
        }
    }
}

/// The channel with a number, counted in the order in which the channels are
/// declared.
pub open spec fn channel_of(id: i32) -> Option<TransformChannel> {
    if id == 0 {
        Some(TransformChannel::Opacity)
    } else if id == 1 {
        Some(TransformChannel::Scale)
    } else if id == 2 {
        Some(TransformChannel::ScaleX)
    } else if id == 3 {
        Some(TransformChannel::ScaleY)
    } else if id == 4 {
        Some(TransformChannel::PositionX)
    } else if id == 5 {
        Some(TransformChannel::PositionY)
    } else if id == 6 {
        Some(TransformChannel::Rotation)
    } else {
        None
    }
}

/// `s` is what happens when something is done with the clip `id`.
pub open spec fn on_clip(e: EditorView, id: ClipId, what: ClipEvent, s: Step) -> bool {
    match what {
        ClipEvent::Remove => s == e.removed(id),
        ClipEvent::DragReleased { row_delta, raw_us, snap_us } => e.drags(
            id,
            row_delta,
            raw_us,
            snap_us,
            s,
        ),
        ClipEvent::Select => s == e.opened(id, 0),
        ClipEvent::TrimReleased { is_right, delta_us } => s == e.trimmed_by(
            id,
            if is_right {
                TrimSide::Right
            } else {
                TrimSide::Left
            },
            delta_us,
        ),
        ClipEvent::RevealInFinder => s == e.revealed(id),
        ClipEvent::MoveToTrack(track) => s == e.moved_to_track(id, track),
    }
}

/// What happens when something is done at the playhead. The right half of a
/// split gets the identifier `fresh`.
pub open spec fn at_playhead(e: EditorView, what: PlayheadEvent, fresh: ClipId) -> Step {
    match what {
        PlayheadEvent::PlayToggle => e.play_toggled(),
        PlayheadEvent::Seek { pts_us } => e.sought(pts_us),
        PlayheadEvent::JumpStart => e.jumped(JumpTo::Start),
        PlayheadEvent::JumpEnd => e.jumped(JumpTo::End),
        PlayheadEvent::StepFrame(delta) => e.stepped(delta),
        PlayheadEvent::Split => e.split(fresh),
        PlayheadEvent::RippleDelete => e.ripple_deleted(),
        PlayheadEvent::SetIn => e.trimmed_at_playhead(TrimSide::Left),
        PlayheadEvent::SetOut => e.trimmed_at_playhead(TrimSide::Right),
    }
}

/// What happens when something is done with the tracks. A new track gets the
/// identifier `fresh`.
pub open spec fn on_tracks(e: EditorView, what: TrackEvent, fresh: TrackId) -> Step {
    match what {
        TrackEvent::ToggleMute(i) => e.flag_toggled(i, TrackFlag::Muted),
        TrackEvent::ToggleSolo(i) => e.flag_toggled(i, TrackFlag::Soloed),
        TrackEvent::ToggleLock(i) => e.flag_toggled(i, TrackFlag::Locked),
        TrackEvent::AddVideo => e.track_added(TrackKind::Video, fresh),
        TrackEvent::AddAudio => e.track_added(TrackKind::Audio, fresh),
        TrackEvent::Delete(i) => e.track_deleted(i),
    }
}

/// `s` is what happens when something is done with the selected clip.
pub open spec fn on_selected(e: EditorView, what: SelectedEventView, s: Step) -> bool {
    match what {
        SelectedEventView::Change(edit) => s == e.edited(edit),
        SelectedEventView::GestureBegin => s == e.checkpointed().idle(),
        SelectedEventView::KeyframeToggle { channel, position } => match channel_of(channel) {
            Some(ch) => e.toggles_key(ch, position, s),
            None => s == e.idle(),
        },
        SelectedEventView::KeyframeInterp { channel, mode } => s == match channel_of(channel) {
            Some(ch) => e.interp_set(ch, edits::interp_named(mode)),
            None => e.idle(),
        },
    }
}

/// `s` is what happens when the user does `event`. A clip is named by what its
/// text is read as; where the text is no identifier, nothing happens.
pub open spec fn responds(e: EditorView, event: UiEventView, fresh: u128, s: Step) -> bool {
    match event {
        UiEventView::Clip { id, what } => match ident::parsed_id(id) {
            Some(id) => on_clip(e, id, what, s),
            None => s == e.idle(),
        },
        UiEventView::Playhead(what) => s == at_playhead(e, what, fresh),
        UiEventView::Track(what) => s == on_tracks(e, what, fresh),
        UiEventView::Selected(what) => on_selected(e, what, s),
        UiEventView::Undo => s == e.undone(),
        UiEventView::Redo => s == e.redone(),
        UiEventView::ToggleMasterMute => s == e.master_mute_toggled(),
        UiEventView::CancelClicked => s == e.cancelled(),
    }
}

impl Editor {
    /// Do something with the clip `id`.
    pub fn clip_event(&mut self, id: ClipId, what: ClipEvent) -> (actions: Vec<Action>)
        ensures
            on_clip(
                old(self)@,
                id,
                what,
                Step { state: final(self)@, actions: state::action_views(actions@) },
            ),
    {
        match what {
            ClipEvent::Remove => self.on_remove(id),
            ClipEvent::DragReleased { row_delta, raw_us, snap_us } => self.on_drag_released(
                id,
                row_delta,
                raw_us,
                snap_us,
            ),
            ClipEvent::Select => self.select_and_open(id, None),
            ClipEvent::TrimReleased { is_right, delta_us } => self.on_trim_released(
                id,
                is_right,
                delta_us,
            ),
            ClipEvent::RevealInFinder => self.on_reveal_in_finder(id),
            ClipEvent::MoveToTrack(track) => self.on_move_to_track(id, track),
        }
    }

    /// Do something at the playhead; the right half of a split gets the
    /// identifier `fresh`.
    pub fn playhead_event(&mut self, what: PlayheadEvent, fresh: ClipId) -> (actions: Vec<Action>)
        ensures
            (Step { state: final(self)@, actions: state::action_views(actions@) }) == at_playhead(
                old(self)@,
                what,
                fresh,
            ),
    {
        match what {
            PlayheadEvent::PlayToggle => self.on_play_toggle(),
            PlayheadEvent::Seek { pts_us } => self.on_seek(pts_us),
            PlayheadEvent::JumpStart => self.on_jump(JumpTo::Start),
            PlayheadEvent::JumpEnd => self.on_jump(JumpTo::End),
            PlayheadEvent::StepFrame(delta) => self.on_step_frame(delta),
            PlayheadEvent::Split => self.on_split(fresh),
            PlayheadEvent::RippleDelete => self.on_ripple_delete(),
            PlayheadEvent::SetIn => self.on_set_inout(TrimSide::Left),
            PlayheadEvent::SetOut => self.on_set_inout(TrimSide::Right),
        }
    }

    /// Do something with the tracks; a new one gets the identifier `fresh`.
    pub fn track_event(&mut self, what: TrackEvent, fresh: TrackId) -> (actions: Vec<Action>)
        ensures
            (Step { state: final(self)@, actions: state::action_views(actions@) }) == on_tracks(
                old(self)@,
                what,
                fresh,
            ),
    {
        match what {
            TrackEvent::ToggleMute(i) => self.on_toggle_track_flag(i, TrackFlag::Muted),
            TrackEvent::ToggleSolo(i) => self.on_toggle_track_flag(i, TrackFlag::Soloed),
            TrackEvent::ToggleLock(i) => self.on_toggle_track_flag(i, TrackFlag::Locked),
            TrackEvent::AddVideo => self.on_add_track(TrackKind::Video, fresh),
            TrackEvent::AddAudio => self.on_add_track(TrackKind::Audio, fresh),
            TrackEvent::Delete(i) => self.on_delete_track(i),
        }
    }

    /// Do something with the selected clip.
    pub fn selected_event(&mut self, what: SelectedEvent) -> (actions: Vec<Action>)
        ensures
            on_selected(
                old(self)@,
                what@,
                Step { state: final(self)@, actions: state::action_views(actions@) },
            ),
    {
        let none: Vec<Action> = Vec::new();
        assert(state::action_views(none@) =~= Seq::<ActionView>::empty());
        match what {
            SelectedEvent::Change(edit) => self.on_edit(edit),
            SelectedEvent::GestureBegin => {
                self.on_gesture_begin();
                none
            },
            SelectedEvent::KeyframeToggle { channel, position } => match TransformChannel::from_id(
                channel,
            ) {
                Some(ch) => self.on_keyframe_toggle(ch, position),
                None => none,
            },
            SelectedEvent::KeyframeInterp { channel, mode } => match TransformChannel::from_id(
                channel,
            ) {
                Some(ch) => self.on_keyframe_interp(ch, mode.as_str()),
                None => none,
            },
        }
    }

    /// Do what the user asks for. A new clip or track gets a fresh identifier.
    pub fn dispatch(&mut self, event: UiEvent) -> (actions: Vec<Action>)
        ensures
            exists|fresh: u128|
                ident::is_random_id(fresh) && #[trigger] responds(
                    old(self)@,
                    event@,
                    fresh,
                    Step { state: final(self)@, actions: state::action_views(actions@) },
                ),
    {
        let fresh: u128 = fresh_id();
        let ghost what = event@;
        let actions: Vec<Action> = match event {
            UiEvent::Clip { id, what } => match parse_id(id.as_str()) {
                Some(id) => self.clip_event(id, what),
                None => {
                    let none: Vec<Action> = Vec::new();
                    assert(state::action_views(none@) =~= Seq::<ActionView>::empty());
                    none
                },
            },
            UiEvent::Playhead(what) => self.playhead_event(what, fresh),
            UiEvent::Track(what) => self.track_event(what, fresh),
            UiEvent::Selected(what) => self.selected_event(what),
            UiEvent::Undo => self.on_undo(),
            UiEvent::Redo => self.on_redo(),
            UiEvent::ToggleMasterMute => self.on_toggle_master_mute(),
            UiEvent::CancelClicked => self.on_cancel(),
        };
        assert(responds(
            old(self)@,
            what,
            fresh,
            Step { state: self@, actions: state::action_views(actions@) },
        ));
        actions
    }
}

} // verus!
