//! Changing the look and the sound of the selected clip.

use vstd::prelude::*;

use super::state;
use super::state::{Action, ActionView, Editor, EditorView, Step};
use super::timeline_view;
use super::timeline_view::start_at_us;
use crate::domain::clip::{Clip, ClipView};
use crate::domain::playlist;
use crate::domain::project;
use crate::domain::transform;
use crate::domain::transform::{
    AnimatedF32, ColorGrading, Interp, Keyframe, TransformChannel, TransformKeys,
};
use crate::ident::ClipId;
use crate::scalar::Scalar;
use crate::seqs;
use crate::services::timeline_ops;
use crate::text;

verus! {

/// A keyframe that is at most so far from the playhead is taken to be at it.
pub const KEY_TOL_US: i64 = 20_000;

/// A change of the selected clip.
#[derive(Debug)]
pub enum Edit {
    Volume(Scalar),
    Muted(bool),
    Opacity(Scalar),
    Scale(Scalar),
    PositionX(i32),
    PositionY(i32),
    ScaleX(Scalar),
    ScaleY(Scalar),
    Rotation(Scalar),
    FlipH(bool),
    FlipV(bool),
    Brightness(Scalar),
    Contrast(Scalar),
    Saturation(Scalar),
    /// A part of the colour grading, by its name.
    Grading { name: String, value: Scalar },
}

#[verifier::ext_equal]
pub enum EditView {
    Volume(Scalar),
    Muted(bool),
    Opacity(Scalar),
    Scale(Scalar),
    PositionX(i32),
    PositionY(i32),
    ScaleX(Scalar),
    ScaleY(Scalar),
    Rotation(Scalar),
    FlipH(bool),
    FlipV(bool),
    Brightness(Scalar),
    Contrast(Scalar),
    Saturation(Scalar),
    Grading { name: Seq<char>, value: Scalar },
}

impl View for Edit {
    type V = EditView;

    open spec fn view(&self) -> EditView {
        match *self {
            Edit::Volume(x) => EditView::Volume(x),
            Edit::Muted(m) => EditView::Muted(m),
            Edit::Opacity(x) => EditView::Opacity(x),
            Edit::Scale(x) => EditView::Scale(x),
            Edit::PositionX(p) => EditView::PositionX(p),
            Edit::PositionY(p) => EditView::PositionY(p),
            Edit::ScaleX(x) => EditView::ScaleX(x),
            Edit::ScaleY(x) => EditView::ScaleY(x),
            Edit::Rotation(x) => EditView::Rotation(x),
            Edit::FlipH(f) => EditView::FlipH(f),
            Edit::FlipV(f) => EditView::FlipV(f),
            Edit::Brightness(x) => EditView::Brightness(x),
            Edit::Contrast(x) => EditView::Contrast(x),
            Edit::Saturation(x) => EditView::Saturation(x),
            Edit::Grading { name, value } => EditView::Grading { name: name@, value },
        }
    }
}

/// A colour grading with one part changed. An unknown name changes nothing.
pub open spec fn graded(g: ColorGrading, name: Seq<char>, value: Scalar) -> ColorGrading {
    if name == "temperature"@ {
        ColorGrading { temperature: value, ..g }
    } else if name == "tint"@ {
        ColorGrading { tint: value, ..g }
    } else if name == "lift_r"@ {
        ColorGrading { lift_r: value, ..g }
    } else if name == "lift_g"@ {
        ColorGrading { lift_g: value, ..g }
    } else if name == "lift_b"@ {
        ColorGrading { lift_b: value, ..g }
    } else if name == "gamma_r"@ {
        ColorGrading { gamma_r: value, ..g }
    } else if name == "gamma_g"@ {
        ColorGrading { gamma_g: value, ..g }
    } else if name == "gamma_b"@ {
        ColorGrading { gamma_b: value, ..g }
    } else if name == "gain_r"@ {
        ColorGrading { gain_r: value, ..g }
    } else if name == "gain_g"@ {
        ColorGrading { gain_g: value, ..g }
    } else if name == "gain_b"@ {
        ColorGrading { gain_b: value, ..g }
    } else if name == "vignette"@ {
        ColorGrading { vignette: value, ..g }
    } else {
        g
    }
}

fn grade(g: &mut ColorGrading, name: &str, value: Scalar)
    ensures
        *final(g) == graded(*old(g), name@, value),
{
    if text::same_text(name, "temperature") {
        g.temperature = value;
    } else if text::same_text(name, "tint") {
        g.tint = value;
    } else if text::same_text(name, "lift_r") {
        g.lift_r = value;
    } else if text::same_text(name, "lift_g") {
        g.lift_g = value;
    } else if text::same_text(name, "lift_b") {
        g.lift_b = value;
    } else if text::same_text(name, "gamma_r") {
        g.gamma_r = value;
    } else if text::same_text(name, "gamma_g") {
        g.gamma_g = value;
    } else if text::same_text(name, "gamma_b") {
        g.gamma_b = value;
    } else if text::same_text(name, "gain_r") {
        g.gain_r = value;
    } else if text::same_text(name, "gain_g") {
        g.gain_g = value;
    } else if text::same_text(name, "gain_b") {
        g.gain_b = value;
    } else if text::same_text(name, "vignette") {
        g.vignette = value;
    }
}

/// A clip after a change.
pub open spec fn changed(c: ClipView, edit: EditView) -> ClipView {
    match edit {
        EditView::Volume(x) => ClipView { volume: x, ..c },
        EditView::Muted(m) => ClipView { muted: m, ..c },
        EditView::Opacity(x) => ClipView { opacity: x, ..c },
        EditView::Scale(x) => ClipView { scale: x, ..c },
        EditView::PositionX(p) => ClipView { position_x: p, ..c },
        EditView::PositionY(p) => ClipView { position_y: p, ..c },
        EditView::ScaleX(x) => ClipView { scale_x: x, ..c },
        EditView::ScaleY(x) => ClipView { scale_y: x, ..c },
        EditView::Rotation(x) => ClipView { rotation_deg: x, ..c },
        EditView::FlipH(f) => ClipView { flip_h: f, ..c },
        EditView::FlipV(f) => ClipView { flip_v: f, ..c },
        EditView::Brightness(x) => ClipView { brightness: x, ..c },
        EditView::Contrast(x) => ClipView { contrast: x, ..c },
        EditView::Saturation(x) => ClipView { saturation: x, ..c },
        EditView::Grading { name, value } => ClipView {
            color_grading: graded(c.color_grading, name, value),
            ..c
        },
    }
}

/// Changes of the sound can be undone one by one; those of the look as a whole
/// gesture, which begins with a checkpoint of its own.
pub open spec fn is_sound(edit: EditView) -> bool {
    edit is Volume || edit is Muted
}

fn change(c: &mut Clip, edit: &Edit)
    ensures
        final(c)@ == changed(old(c)@, edit@),
{
    match edit {
        Edit::Volume(x) => {
            c.volume = *x;
        },
        Edit::Muted(m) => {
            c.muted = *m;
        },
        Edit::Opacity(x) => {
            c.opacity = *x;
        },
        Edit::Scale(x) => {
            c.scale = *x;
        },
        Edit::PositionX(p) => {
            c.position_x = *p;
        },
        Edit::PositionY(p) => {
            c.position_y = *p;
        },
        Edit::ScaleX(x) => {
            c.scale_x = *x;
        },
        Edit::ScaleY(x) => {
            c.scale_y = *x;
        },
        Edit::Rotation(x) => {
            c.rotation_deg = *x;
        },
        Edit::FlipH(f) => {
            c.flip_h = *f;
        },
        Edit::FlipV(f) => {
            c.flip_v = *f;
        },
        Edit::Brightness(x) => {
            c.brightness = *x;
        },
        Edit::Contrast(x) => {
            c.contrast = *x;
        },
        Edit::Saturation(x) => {
            c.saturation = *x;
        },
        Edit::Grading { name, value } => {
            grade(&mut c.color_grading, name.as_str(), *value);
        },
    }
}

/// The clip's own value of a channel, which a new keyframe takes. A place on
/// the canvas is a whole number there; `position` is the same as a
/// floating-point number.
pub open spec fn own_value(c: ClipView, ch: TransformChannel, position: Scalar) -> Scalar {
    match ch {
        TransformChannel::Opacity => c.opacity,
        TransformChannel::Scale => c.scale,
        TransformChannel::ScaleX => c.scale_x,
        TransformChannel::ScaleY => c.scale_y,
        TransformChannel::PositionX => position,
        TransformChannel::PositionY => position,
        TransformChannel::Rotation => c.rotation_deg,
    }
}

/// The clip's own value of a channel.
pub fn channel_static_value(clip: &Clip, ch: TransformChannel, position: Scalar) -> (x: Scalar)
    ensures
        x == own_value(clip@, ch, position),
{
    match ch {
        TransformChannel::Opacity => clip.opacity,
        TransformChannel::Scale => clip.scale,
        TransformChannel::ScaleX => clip.scale_x,
        TransformChannel::ScaleY => clip.scale_y,
        TransformChannel::PositionX => position,
        TransformChannel::PositionY => position,
        TransformChannel::Rotation => clip.rotation_deg,
    }
}

/// Whether a keyframe is at the time.
pub open spec fn has_key(keys: Seq<Keyframe>, at_us: i64) -> bool {
    exists|j: int|
        0 <= j < keys.len() && transform::near(at_us, KEY_TOL_US)(#[trigger] keys[j])
}

/// `now` are the keyframes after toggling one at a time: those near it are
/// gone, or where there was none a new one holds `value`.
pub open spec fn key_toggled(
    now: Seq<Keyframe>,
    keys: Seq<Keyframe>,
    at_us: i64,
    value: Scalar,
) -> bool {
    if has_key(keys, at_us) {
        now == keys.filter(transform::not_near(at_us, KEY_TOL_US))
    } else {
        transform::upserted(now, keys, at_us, value, KEY_TOL_US)
    }
}

/// The interpolation of a name. Any other name stands for the linear one.
pub open spec fn interp_named(mode: Seq<char>) -> Interp {
    if mode == "hold"@ {
        Interp::Hold
    } else if mode == "bezier"@ {
        Interp::Bezier
    } else {
        Interp::Linear
    }
}

/// The name of an interpolation; without a keyframe it is linear.
pub open spec fn name_of_interp(i: Option<Interp>) -> Seq<char> {
    match i {
        Some(Interp::Hold) => "hold"@,
        Some(Interp::Bezier) => "bezier"@,
        Some(Interp::Linear) => "linear"@,
        None => "linear"@,
    }
}

fn interp_text(i: Option<Interp>) -> (s: String)
    ensures
        s@ == name_of_interp(i),
{
    match i {
        Some(i) => match i {
            Interp::Hold => "hold".to_owned(),
            Interp::Bezier => "bezier".to_owned(),
            Interp::Linear => "linear".to_owned(),
        },
        None => "linear".to_owned(),
    }
}

/// What is shown of the keyframes of a channel.
#[derive(Clone, Copy, Debug, PartialEq, Eq, Structural)]
pub struct KeyFlags {
    pub animated: bool,
    /// A keyframe is at the playhead.
    pub here: bool,
}

/// What is shown of the keyframes of the selected clip.
#[derive(Debug)]
pub struct KeyframeFlags {
    pub opacity: KeyFlags,
    pub scale: KeyFlags,
    pub position_x: KeyFlags,
    pub position_y: KeyFlags,
    pub rotation: KeyFlags,
    pub opacity_interp: String,
    pub rotation_interp: String,
}

#[verifier::ext_equal]
pub struct KeyframeFlagsView {
    pub opacity: KeyFlags,
    pub scale: KeyFlags,
    pub position_x: KeyFlags,
    pub position_y: KeyFlags,
    pub rotation: KeyFlags,
    pub opacity_interp: Seq<char>,
    pub rotation_interp: Seq<char>,
}

impl View for KeyframeFlags {
    type V = KeyframeFlagsView;

    open spec fn view(&self) -> KeyframeFlagsView {
        KeyframeFlagsView {
            opacity: self.opacity,
            scale: self.scale,
            position_x: self.position_x,
            position_y: self.position_y,
            rotation: self.rotation,
            opacity_interp: self.opacity_interp@,
            rotation_interp: self.rotation_interp@,
        }
    }
}

/// What is shown of a channel at a time.
pub open spec fn flags_of(keys: Seq<Keyframe>, at_us: i64) -> KeyFlags {
    KeyFlags { animated: keys.len() > 0, here: has_key(keys, at_us) }
}

/// The interpolation at a time.
pub open spec fn interp_at(keys: Seq<Keyframe>, at_us: i64) -> Option<Interp> {
    match seqs::first_where(keys, transform::near(at_us, KEY_TOL_US)) {
        Some(i) => Some(keys[i].interp),
        None => None,
    }
}

/// What is shown of the keyframes of a clip at a time.
pub open spec fn keyframes_of(c: ClipView, at_us: i64) -> KeyframeFlagsView {
    let k = c.transform_keys;
    KeyframeFlagsView {
        opacity: flags_of(k.opacity, at_us),
        scale: flags_of(k.scale, at_us),
        position_x: flags_of(k.position_x, at_us),
        position_y: flags_of(k.position_y, at_us),
        rotation: flags_of(k.rotation_deg, at_us),
        opacity_interp: name_of_interp(interp_at(k.opacity, at_us)),
        rotation_interp: name_of_interp(interp_at(k.rotation_deg, at_us)),
    }
}

fn flags_at(keys: &AnimatedF32, at_us: i64) -> (f: KeyFlags)
    ensures
        f == flags_of(keys@, at_us),
{
    KeyFlags { animated: keys.is_animated(), here: keys.has_key_near(at_us, KEY_TOL_US) }
}

impl EditorView {
    /// The selected clip is changed.
    pub open spec fn edited(self, edit: EditView) -> Step {
        match self.selected {
            Some(id) => {
                let before = if is_sound(edit) {
                    self.checkpointed()
                } else {
                    self
                };
                let after = match playlist::index_of(self.playlist, id) {
                    Some(i) => before.with_clip(i, changed(self.playlist[i], edit)),
                    None => before,
                };
                Step {
                    state: after.synced(),
                    actions: if is_sound(edit) {
                        seq![
                            ActionView::SyncClips,
                            ActionView::Ruler,
                            ActionView::SyncTracks,
                            ActionView::SyncPreview,
                        ]
                    } else {
                        seq![ActionView::SyncPreview]
                    },
                }
            },
            None => self.idle(),
        }
    }

    /// The playhead as a time since the clip `id` began, within the clip. The
    /// clip is where the project has it, or else where the playlist has it.
    pub open spec fn clip_time(self, id: ClipId) -> int {
        let found = playlist::index_of(self.playlist, id);
        let dur = match found {
            Some(i) => self.playlist[i].dur_us() as int,
            None => 0,
        };
        let start = match project::find(self.project, id) {
            Some((ti, ci)) => self.project[ti].clips[ci].start_us as int,
            None => match found {
                Some(i) => timeline_view::start_at(self.playlist, i) as int,
                None => 0,
            },
        };
        timeline_ops::clamp(
            self.preview.playhead_us - start,
            0,
            if dur > 0 {
                dur
            } else {
                0
            },
        )
    }

    /// The keyframes of a channel of the clip at `i` are others.
    pub open spec fn with_keys(self, i: int, ch: TransformChannel, keys: Seq<Keyframe>) -> EditorView {
        let c = self.playlist[i];
        self.with_clip(
            i,
            ClipView { transform_keys: c.transform_keys.with_channel(ch, keys), ..c },
        )
    }

    /// The keyframes were changed.
    pub open spec fn rekeyed(self) -> Step {
        Step {
            state: self.synced(),
            actions: seq![ActionView::SyncPreview, ActionView::Keyframes],
        }
    }

    /// `s` is what happens when a keyframe of a channel of the selected clip is
    /// toggled at the playhead.
    pub open spec fn toggles_key(self, ch: TransformChannel, position: Scalar, s: Step) -> bool {
        match self.selected {
            Some(id) => match playlist::index_of(self.playlist, id) {
                Some(i) => {
                    let c = self.playlist[i];
                    exists|keys: Seq<Keyframe>|
                        key_toggled(
                            keys,
                            c.transform_keys.channel(ch),
                            self.clip_time(id) as i64,
                            own_value(c, ch, position),
                        ) && s == #[trigger] self.checkpointed().with_keys(i, ch, keys).rekeyed()
                },
                None => s == self.checkpointed().rekeyed(),
            },
            None => s == self.idle(),
        }
    }

    /// The interpolation of the keyframe at the playhead is another one.
    pub open spec fn interp_set(self, ch: TransformChannel, interp: Interp) -> Step {
        match self.selected {
            Some(id) => match playlist::index_of(self.playlist, id) {
                Some(i) => {
                    let keys = self.playlist[i].transform_keys.channel(ch);
                    let now = match seqs::first_where(
                        keys,
                        transform::near(self.clip_time(id) as i64, KEY_TOL_US),
                    ) {
                        Some(k) => keys.update(k, Keyframe { interp, ..keys[k] }),
                        None => keys,
                    };
                    self.checkpointed().with_keys(i, ch, now).rekeyed()
                },
                None => self.checkpointed().rekeyed(),
            },
            None => self.idle(),
        }
    }
}

impl Editor {
    /// Change the selected clip.
    pub fn on_edit(&mut self, edit: Edit) -> (actions: Vec<Action>)
        ensures
            (Step { state: final(self)@, actions: state::action_views(actions@) }) == old(
                self,
            )@.edited(edit@),
    {
        let mut actions: Vec<Action> = Vec::new();
        if let Some(id) = self.selected {
            let sound: bool = match &edit {
                Edit::Volume(_) => true,
                Edit::Muted(_) => true,
                _ => false,
            };
            if sound {
                self.checkpoint();
            }
            match self.playlist.position(id) {
                Some(i) => {
                    let mut c: Clip = self.playlist.clips()[i].clone();
                    change(&mut c, &edit);
                    self.playlist.replace(i, c);
                },
                None => {},
            }
            self.sync();
            if sound {
                actions.push(Action::SyncClips);
                actions.push(Action::Ruler);
                actions.push(Action::SyncTracks);
            }
            actions.push(Action::SyncPreview);
        }
        assert(state::action_views(actions@) =~= old(self)@.edited(edit@).actions);
        actions
    }

    /// Begin a gesture: all its changes are undone in one step.
    pub fn on_gesture_begin(&mut self)
        ensures
            final(self)@ == old(self)@.checkpointed(),
    {
        self.checkpoint();
    }

    /// The playhead as a time since the clip began, within the clip.
    pub fn clip_rel_us(&self, id: ClipId) -> (us: i64)
        ensures
            us == self@.clip_time(id),
    {
        let (dur, own): (i64, i64) = match self.playlist.position(id) {
            Some(i) => (
                self.playlist.clips()[i].effective_duration_us(),
                start_at_us(&self.playlist, i),
            ),
            None => (0, 0),
        };
        let start: i64 = match self.project.find_clip(id) {
            Some((ti, ci)) => {
                proof {
                    project::lemma_find(self@.project, id);
                    assert(self@.project[ti as int] == self.project.tracks@[ti as int]@);
                    assert(self@.project[ti as int].clips[ci as int]
                        == self.project.tracks@[ti as int].clips@[ci as int]@);
                }
                self.project.tracks[ti].clips[ci].start_us
            },
            None => own,
        };
        let rel: i128 = self.preview.playhead_us as i128 - start as i128;
        let end: i128 = if dur > 0 {
            dur as i128
        } else {
            0
        };
        if rel < 0 {
            0
        } else if rel > end {
            end as i64
        } else {
            rel as i64
        }
    }

    /// What is shown of the keyframes of the selected clip at the playhead.
    pub fn keyframe_flags(&self) -> (r: Option<KeyframeFlags>)
        ensures
            match self@.selected {
                Some(id) => match playlist::index_of(self@.playlist, id) {
                    Some(i) => r matches Some(f) && f@ == keyframes_of(
                        self@.playlist[i],
                        self@.clip_time(id) as i64,
                    ),
                    None => r is None,
                },
                None => r is None,
            },
    {
        let id: ClipId = match self.selected {
            Some(id) => id,
            None => return None,
        };
        let i: usize = match self.playlist.position(id) {
            Some(i) => i,
            None => return None,
        };
        let at_us: i64 = self.clip_rel_us(id);
        let k: &TransformKeys = &self.playlist.clips()[i].transform_keys;
        Some(
            KeyframeFlags {
                opacity: flags_at(&k.opacity, at_us),
                scale: flags_at(&k.scale, at_us),
                position_x: flags_at(&k.position_x, at_us),
                position_y: flags_at(&k.position_y, at_us),
                rotation: flags_at(&k.rotation_deg, at_us),
                opacity_interp: interp_text(k.opacity.keyframe_interp_near(at_us, KEY_TOL_US)),
                rotation_interp: interp_text(
                    k.rotation_deg.keyframe_interp_near(at_us, KEY_TOL_US),
                ),
            },
        )
    }

    /// Remove the keyframes at the playhead, or add one where there is none.
    /// `position` is the clip's place on the axis of the channel, where the
    /// channel has one.
    pub fn on_keyframe_toggle(&mut self, ch: TransformChannel, position: Scalar) -> (actions: Vec<
        Action,
    >)
        ensures
            old(self)@.toggles_key(
                ch,
                position,
                Step { state: final(self)@, actions: state::action_views(actions@) },
            ),
    {
        let mut actions: Vec<Action> = Vec::new();
        let id: ClipId = match self.selected {
            Some(id) => id,
            None => {
                assert(state::action_views(actions@) =~= Seq::<ActionView>::empty());
                return actions;
            },
        };
        let at_us: i64 = self.clip_rel_us(id);
        self.checkpoint();
        let ghost e = self@;
        actions.push(Action::SyncPreview);
        actions.push(Action::Keyframes);
        assert(state::action_views(actions@) =~= e.rekeyed().actions);
        match self.playlist.position(id) {
            Some(i) => {
                let mut c: Clip = self.playlist.clips()[i].clone();
                let value: Scalar = channel_static_value(&c, ch, position);
                let ghost was = c@;
                let mut keys: TransformKeys = c.transform_keys.clone();
                let track: &mut AnimatedF32 = keys.channel_mut(ch);
                if track.has_key_near(at_us, KEY_TOL_US) {
                    track.remove_near(at_us, KEY_TOL_US);
                } else {
                    track.upsert(at_us, value, KEY_TOL_US);
                }
                let ghost now = keys@.channel(ch);
                c.transform_keys = keys;
                proof {
                    assert(keys@ == was.transform_keys.with_channel(ch, now));
                    assert(key_toggled(now, was.transform_keys.channel(ch), at_us, value));
                    assert(c@ =~= (ClipView {
                        transform_keys: was.transform_keys.with_channel(ch, now),
                        ..was
                    }));
                }
                self.playlist.replace(i, c);
                assert(self@ =~= e.with_keys(i as int, ch, now));
                self.sync();
                assert((Step { state: self@, actions: state::action_views(actions@) }) == e.with_keys(
                    i as int,
                    ch,
                    now,
                ).rekeyed());
            },
            None => {
                self.sync();
            },
        }
        actions
    }

    /// Set the interpolation of the keyframe at the playhead.
    pub fn on_keyframe_interp(&mut self, ch: TransformChannel, mode: &str) -> (actions: Vec<Action>)
        ensures
            (Step { state: final(self)@, actions: state::action_views(actions@) }) == old(
                self,
            )@.interp_set(ch, interp_named(mode@)),
    {
        let mut actions: Vec<Action> = Vec::new();
        let interp: Interp = if text::same_text(mode, "hold") {
            Interp::Hold
        } else if text::same_text(mode, "bezier") {
            Interp::Bezier
        } else {
            Interp::Linear
        };
        let ghost s = self@.interp_set(ch, interp);
        if let Some(id) = self.selected {
            let at_us: i64 = self.clip_rel_us(id);
            self.checkpoint();
            let ghost e = self@;
            match self.playlist.position(id) {
                Some(i) => {
                    let mut c: Clip = self.playlist.clips()[i].clone();
                    let ghost was = c@;
                    let mut keys: TransformKeys = c.transform_keys.clone();
                    keys.channel_mut(ch).set_interp_near(at_us, interp, KEY_TOL_US);
                    c.transform_keys = keys;
                    self.playlist.replace(i, c);
                    assert(self@ =~= e.with_keys(i as int, ch, keys@.channel(ch)));
                },
                None => {},
            }
            self.sync();
            actions.push(Action::SyncPreview);
            actions.push(Action::Keyframes);
        }
        assert(state::action_views(actions@) =~= s.actions);
        actions
    }
}

/// Toggling a keyframe where there is one removes it: after that there is none.
pub proof fn lemma_toggle_removes_the_key(
    now: Seq<Keyframe>,
    keys: Seq<Keyframe>,
    at_us: i64,
    value: Scalar,
)
    requires
        has_key(keys, at_us),
        key_toggled(now, keys, at_us, value),
    ensures
        !has_key(now, at_us),
{
    let keep = transform::not_near(at_us, KEY_TOL_US);
    assert forall|j: int| 0 <= j < now.len() implies !transform::near(at_us, KEY_TOL_US)(
        #[trigger] now[j],
    ) by {
        keys.lemma_filter_pred(keep, j);
    }
}

} // verus!
