//! What each thing the user does changes, and what it leaves alone.

use vstd::prelude::*;

use super::arrange;
use super::callbacks;
use super::callbacks::JumpTo;
use super::dispatch;
use super::edits;
use super::edits::EditView;
use super::events;
use super::events::Moment;
use super::lanes;
use super::models;
use super::state::{ActionView, EditorView, JobMetaView, PreviewView, Step};
use super::timeline_laws;
use super::timeline_view;
use super::tracks;
use super::tracks::{TrackFlag, TracksView};
use super::undo;
use crate::domain::clip::{ClipView, MediaInfoView};
use crate::domain::project;
use crate::domain::project::{TrackKind, TrackView};
use crate::domain::transform::{ColorGrading, Interp, Keyframe, TransformChannel};
use crate::engine::audio;
use crate::engine::composite;
use crate::engine::composite::RenderPlanView;
use crate::ident::ClipId;
use crate::paths;
use crate::persistence::history;
use crate::persistence::history::ExportRecordView;
use crate::scalar::Scalar;
use crate::seqs;
use crate::services::laws;
use crate::services::timeline_ops;
use crate::services::timeline_ops::{TrimSide, MIN_WINDOW_US};
use crate::text;
use crate::time::Duration;
use crate::view_model::timeline_vm;
use crate::worker::job::{CommandView, EventView};

verus! {

/// Only the clip at `i` differs.
pub open spec fn only_changed_at(now: Seq<ClipView>, was: Seq<ClipView>, i: int) -> bool {
    &&& now.len() == was.len()
    &&& forall|j: int| 0 <= j < was.len() && j != i ==> #[trigger] now[j] == was[j]
}

/// The clip at `i` is gone, and the others follow one another as before.
pub open spec fn only_removed_at(now: Seq<ClipView>, was: Seq<ClipView>, i: int) -> bool {
    &&& now.len() == was.len() - 1
    &&& forall|j: int| 0 <= j < i ==> #[trigger] now[j] == was[j]
    &&& forall|j: int| i <= j < now.len() ==> #[trigger] now[j] == was[j + 1]
}

/// `now` is `was` with what the edit says, and nothing else about it is changed.
pub open spec fn is_edited(now: ClipView, was: ClipView, edit: EditView) -> bool {
    match edit {
        EditView::Volume(x) => now.volume == x && now == (ClipView { volume: x, ..was }),
        EditView::Muted(m) => now.muted == m && now == (ClipView { muted: m, ..was }),
        EditView::Opacity(x) => now.opacity == x && now == (ClipView { opacity: x, ..was }),
        EditView::Scale(x) => now.scale == x && now == (ClipView { scale: x, ..was }),
        EditView::PositionX(p) => now.position_x == p && now == (ClipView {
            position_x: p,
            ..was
        }),
        EditView::PositionY(p) => now.position_y == p && now == (ClipView {
            position_y: p,
            ..was
        }),
        EditView::ScaleX(x) => now.scale_x == x && now == (ClipView { scale_x: x, ..was }),
        EditView::ScaleY(x) => now.scale_y == x && now == (ClipView { scale_y: x, ..was }),
        EditView::Rotation(x) => now.rotation_deg == x && now == (ClipView {
            rotation_deg: x,
            ..was
        }),
        EditView::FlipH(f) => now.flip_h == f && now == (ClipView { flip_h: f, ..was }),
        EditView::FlipV(f) => now.flip_v == f && now == (ClipView { flip_v: f, ..was }),
        EditView::Brightness(x) => now.brightness == x && now == (ClipView {
            brightness: x,
            ..was
        }),
        EditView::Contrast(x) => now.contrast == x && now == (ClipView { contrast: x, ..was }),
        EditView::Saturation(x) => now.saturation == x && now == (ClipView {
            saturation: x,
            ..was
        }),
        EditView::Grading { .. } => now == (ClipView {
            color_grading: now.color_grading,
            ..was
        }),
    }
}

/// A change of the selected clip is made to that clip, and to no other; without a
/// selection nothing is changed. The clip stays selected.
pub proof fn lemma_edit_changes_the_selected_clip(
    e: EditorView,
    edit: EditView,
    id: ClipId,
    i: int,
)
    ensures
        e.selected is None ==> e.edited(edit).state == e,
        e.selected == Some(id) && laws::stands_at(e.playlist, id, i) ==> {
            let now = e.edited(edit).state;
            &&& only_changed_at(now.playlist, e.playlist, i)
            &&& is_edited(now.playlist[i], e.playlist[i], edit)
            &&& now.selected == e.selected && now.preview == e.preview && now.tracks == e.tracks
            &&& e.edited(edit).actions.contains(ActionView::SyncPreview)
        },
{
    laws::lemma_clip_is_found_by_its_id(e.playlist, id);
    if e.selected == Some(id) && laws::stands_at(e.playlist, id, i) {
        lemma_stands_once(e.playlist, id, i);
        let actions = e.edited(edit).actions;
        assert(actions[actions.len() - 1] == ActionView::SyncPreview);
    }
}

proof fn lemma_stands_once(clips: Seq<ClipView>, id: ClipId, i: int)
    requires
        laws::stands_at(clips, id, i),
    ensures
        crate::domain::playlist::index_of(clips, id) == Some(i),
{
    laws::lemma_found_where_it_stands(clips, id, i);
}

/// A name of the colour grading sets the value of that name alone, and a name
/// that there is not sets none.
pub proof fn lemma_grading_goes_by_name(g: ColorGrading, v: Scalar, name: Seq<char>)
    ensures
        edits::graded(g, "temperature"@, v) == (ColorGrading { temperature: v, ..g }),
        edits::graded(g, "tint"@, v) == (ColorGrading { tint: v, ..g }),
        edits::graded(g, "lift_r"@, v) == (ColorGrading { lift_r: v, ..g }),
        edits::graded(g, "lift_g"@, v) == (ColorGrading { lift_g: v, ..g }),
        edits::graded(g, "lift_b"@, v) == (ColorGrading { lift_b: v, ..g }),
        edits::graded(g, "gamma_r"@, v) == (ColorGrading { gamma_r: v, ..g }),
        edits::graded(g, "gamma_g"@, v) == (ColorGrading { gamma_g: v, ..g }),
        edits::graded(g, "gamma_b"@, v) == (ColorGrading { gamma_b: v, ..g }),
        edits::graded(g, "gain_r"@, v) == (ColorGrading { gain_r: v, ..g }),
        edits::graded(g, "gain_g"@, v) == (ColorGrading { gain_g: v, ..g }),
        edits::graded(g, "gain_b"@, v) == (ColorGrading { gain_b: v, ..g }),
        edits::graded(g, "vignette"@, v) == (ColorGrading { vignette: v, ..g }),
        edits::graded(edits::graded(g, name, g.tint), name, v) == edits::graded(g, name, v),
{
    reveal_strlit("temperature");
    reveal_strlit("tint");
    reveal_strlit("lift_r");
    reveal_strlit("lift_g");
    reveal_strlit("lift_b");
    reveal_strlit("gamma_r");
    reveal_strlit("gamma_g");
    reveal_strlit("gamma_b");
    reveal_strlit("gain_r");
    reveal_strlit("gain_g");
    reveal_strlit("gain_b");
    reveal_strlit("vignette");
    assert("temperature"@.len() == 11 && "tint"@.len() == 4 && "vignette"@.len() == 8);
    assert("lift_r"@.len() == 6 && "lift_r"@[0] == 'l' && "lift_r"@[5] == 'r');
    assert("lift_g"@.len() == 6 && "lift_g"@[0] == 'l' && "lift_g"@[5] == 'g');
    assert("lift_b"@.len() == 6 && "lift_b"@[0] == 'l' && "lift_b"@[5] == 'b');
    assert("gain_r"@.len() == 6 && "gain_r"@[0] == 'g' && "gain_r"@[5] == 'r');
    assert("gain_g"@.len() == 6 && "gain_g"@[0] == 'g' && "gain_g"@[5] == 'g');
    assert("gain_b"@.len() == 6 && "gain_b"@[0] == 'g' && "gain_b"@[5] == 'b');
    assert("gamma_r"@.len() == 7 && "gamma_r"@[6] == 'r');
    assert("gamma_g"@.len() == 7 && "gamma_g"@[6] == 'g');
    assert("gamma_b"@.len() == 7 && "gamma_b"@[6] == 'b');
}

/// Removing a clip takes that clip away, and leaves the others in their order.
pub proof fn lemma_remove_takes_one_clip(e: EditorView, id: ClipId, i: int)
    requires
        laws::stands_at(e.playlist, id, i),
    ensures
        only_removed_at(e.removed(id).state.playlist, e.playlist, i),
        e.removed(id).state.preview == e.preview && e.removed(id).state.selected == e.selected,
        e.removed(id).actions.contains(
            ActionView::Status(text::dec((e.playlist.len() - 1) as nat) + " clips in timeline"@),
        ),
{
    laws::lemma_found_where_it_stands(e.playlist, id, i);
    let actions = e.removed(id).actions;
    assert(actions[2] == ActionView::Status(callbacks::count_text((e.playlist.len() - 1) as nat)));
}

/// Deleting the clip of the preview takes it away and closes the gap it leaves;
/// the preview shows no clip any more, and none is selected.
pub proof fn lemma_ripple_delete_takes_the_shown_clip(e: EditorView, id: ClipId, i: int)
    requires
        laws::stands_at(e.playlist, id, i),
        e.preview.clip_id == Some(id),
    ensures
        ({
            let now = e.ripple_deleted().state;
            &&& only_removed_at(now.playlist, e.playlist, i)
            &&& now.selected is None && now.preview.clip_id is None && !now.preview.playing
            &&& now.preview.playhead_us == 0 && now.preview.duration_us == 0
        }),
{
    laws::lemma_found_where_it_stands(e.playlist, id, i);
}

/// A clip that is dropped somewhere starts there, on that track, whatever comes
/// before it, and is the same clip otherwise. No other clip is changed.
pub proof fn lemma_dropped_clip_is_where_it_was_dropped(
    e: EditorView,
    id: ClipId,
    i: int,
    dest: u8,
    start: i64,
)
    requires
        laws::stands_at(e.playlist, id, i),
    ensures
        ({
            let now = e.dropped(id, dest, start).state.playlist;
            &&& only_changed_at(now, e.playlist, i)
            &&& now[i] == (ClipView {
                video_track: now[i].video_track,
                start_us: now[i].start_us,
                ..e.playlist[i]
            })
            &&& now[i].video_track == dest
            &&& timeline_view::start_at(now, i) == start
        }),
{
    laws::lemma_found_where_it_stands(e.playlist, id, i);
}

/// A row that a clip is dragged to is as many rows away as it was dragged, as far
/// as there are rows; a clip that is not dragged to another row stays on its own.
pub proof fn lemma_dragged_by_rows(
    rows: Seq<TrackView>,
    clip_track: u8,
    row_delta: i32,
    cur: int,
    v: u8,
)
    requires
        lanes::lane_index(rows, clip_track) == Some(cur),
    ensures
        callbacks::drag_track(rows, clip_track, 0) == clip_track,
        row_delta != 0 && 0 <= cur + row_delta < rows.len() && rows[cur + row_delta].kind
            == TrackKind::Video && lanes::lane_of(rows[cur + row_delta]) == Some(v)
            ==> callbacks::drag_track(rows, clip_track, row_delta) == v,
        row_delta != 0 && 0 <= cur + row_delta < rows.len() && rows[cur + row_delta].kind
            == TrackKind::Audio ==> callbacks::drag_track(rows, clip_track, row_delta)
            == clip_track,
        row_delta > 0 && cur == rows.len() - 1 ==> callbacks::drag_track(
            rows,
            clip_track,
            row_delta,
        ) == clip_track,
        row_delta < 0 && cur == 0 ==> callbacks::drag_track(rows, clip_track, row_delta)
            == clip_track,
{
    lanes::lemma_lane_and_track_belong_together(rows, clip_track, cur);
    seqs::lemma_first_where(rows, lanes::is_lane(clip_track));
    assert(lanes::is_lane(clip_track)(rows[cur]));
}

/// A clip that is opened is selected, and the preview is told to go as far behind
/// its start as was asked for. The clips stay as they are.
pub proof fn lemma_opened_clip_is_shown(e: EditorView, id: ClipId, i: int, initial_us: i64)
    requires
        laws::stands_at(e.playlist, id, i),
        i64::MIN <= timeline_view::start_at(e.playlist, i) + initial_us <= i64::MAX,
    ensures
        ({
            let s = e.opened(id, initial_us);
            let at = timeline_view::start_at(e.playlist, i) + initial_us;
            &&& s.state.playlist == e.playlist && s.state.undo == e.undo
            &&& s.state.selected == Some(id) && s.state.preview.clip_id == Some(id)
            &&& s.state.preview.playhead_us == at && !s.state.preview.playing
            &&& s.actions.last() == ActionView::Send(
                CommandView::SeekPreview { pts_us: at as i64 },
            )
            &&& s.actions[0] matches ActionView::Select(d)
            &&& d.clip == e.playlist[i]
        }),
{
    laws::lemma_found_where_it_stands(e.playlist, id, i);
}

/// Playing and pausing take turns, the preview is told what the window shows, and
/// nothing is played where no clip is shown.
pub proof fn lemma_play_and_pause_take_turns(e: EditorView)
    ensures
        e.preview.clip_id is None ==> e.play_toggled() == e.idle(),
        e.preview.clip_id is Some ==> {
            let s = e.play_toggled();
            &&& s.state.preview.playing == !e.preview.playing
            &&& s.state.preview.playhead_us == e.preview.playhead_us
            &&& s.state.playlist == e.playlist
            &&& s.state.play_toggled().state.preview.playing == e.preview.playing
            &&& s.actions[0] == ActionView::Send(
                if e.preview.playing {
                    CommandView::PausePreview
                } else {
                    CommandView::PlayPreview
                },
            )
            &&& s.actions[1] == ActionView::Playing(!e.preview.playing)
        },
{
}

/// A seek moves the playhead, and the preview, to the same place; a jump goes to
/// the start, or a little before the end.
pub proof fn lemma_seek_and_jump_go_there(e: EditorView, pts_us: i64)
    ensures
        e.sought(pts_us).state == (EditorView {
            preview: PreviewView { playhead_us: pts_us, ..e.preview },
            ..e
        }),
        e.sought(pts_us).actions[0] == ActionView::Send(CommandView::SeekPreview { pts_us }),
        e.preview.clip_id is Some ==> e.jumped(JumpTo::Start).actions == seq![
            ActionView::Send(CommandView::SeekPreview { pts_us: 0 }),
        ],
        e.preview.clip_id is Some && e.preview.duration_us >= 100_000 ==> e.jumped(
            JumpTo::End,
        ).actions == seq![
            ActionView::Send(
                CommandView::SeekPreview { pts_us: (e.preview.duration_us - 100_000) as i64 },
            ),
        ],
        e.preview.clip_id is Some && e.preview.duration_us < 100_000 ==> e.jumped(
            JumpTo::End,
        ).actions == seq![ActionView::Send(CommandView::SeekPreview { pts_us: 0 })],
{
}

/// A frame of a clip is as long as its rate says, and stepping goes by frames
/// within the preview.
pub proof fn lemma_step_goes_by_frames(e: EditorView, id: ClipId, i: int, delta: i32)
    requires
        laws::stands_at(e.playlist, id, i),
        e.preview.clip_id == Some(id),
        e.playlist[i].info.profile.frame_rate_mhz >= 1,
        e.preview.duration_us >= 0,
    ensures
        ({
            let f = callbacks::frame_us_of(e.playlist[i]);
            let mhz = e.playlist[i].info.profile.frame_rate_mhz as int;
            let at = e.preview.playhead_us + delta * f;
            &&& f * mhz <= 1_000_000_000 < f * mhz + mhz
            &&& e.stepped(delta).state == e
            &&& 0 <= at <= e.preview.duration_us ==> e.stepped(delta).actions == seq![
                ActionView::Send(CommandView::SeekPreview { pts_us: at as i64 }),
            ]
            &&& at < 0 ==> e.stepped(delta).actions == seq![
                ActionView::Send(CommandView::SeekPreview { pts_us: 0 }),
            ]
            &&& at > e.preview.duration_us ==> e.stepped(delta).actions == seq![
                ActionView::Send(CommandView::SeekPreview { pts_us: e.preview.duration_us }),
            ]
        }),
{
    laws::lemma_found_where_it_stands(e.playlist, id, i);
    let mhz = e.playlist[i].info.profile.frame_rate_mhz as int;
    let f = 1_000_000_000int / mhz;
    assert(f * mhz <= 1_000_000_000 < f * mhz + mhz) by (nonlinear_arith)
        requires
            mhz >= 1,
            f == 1_000_000_000int / mhz,
    ;
}

/// An edge that is dragged moves by as much as it was dragged, as far as it may,
/// and the clip stays the same otherwise.
pub proof fn lemma_dragged_edge_moves_by_as_much(
    e: EditorView,
    id: ClipId,
    i: int,
    side: TrimSide,
    delta_us: i64,
)
    requires
        laws::stands_at(e.playlist, id, i),
        e.playlist[i].fits_timeline(),
        e.playlist[i].trim_in.us() + MIN_WINDOW_US <= e.playlist[i].trim_out.us(),
        e.playlist[i].trim_out.us() <= e.playlist[i].info.duration.us(),
        i64::MIN <= e.playlist[i].trim_in.us() + delta_us <= i64::MAX,
        i64::MIN <= e.playlist[i].trim_out.us() + delta_us <= i64::MAX,
    ensures
        ({
            let was = e.playlist[i];
            let now = e.trimmed_by(id, side, delta_us).state.playlist;
            &&& only_changed_at(now, e.playlist, i)
            &&& side == TrimSide::Left ==> now[i] == (ClipView {
                trim_in: now[i].trim_in,
                ..was
            }) && laws::held_between(
                now[i].trim_in.us() as int,
                was.trim_in.us() + delta_us,
                0,
                was.trim_out.us() - MIN_WINDOW_US,
            )
            &&& side == TrimSide::Right ==> now[i] == (ClipView {
                trim_out: now[i].trim_out,
                ..was
            }) && laws::held_between(
                now[i].trim_out.us() as int,
                was.trim_out.us() + delta_us,
                was.trim_in.us() + MIN_WINDOW_US,
                was.info.duration.us() as int,
            )
        }),
{
    let was = e.playlist[i];
    let end = match side {
        TrimSide::Left => was.trim_in.us(),
        TrimSide::Right => was.trim_out.us(),
    };
    let asked = (end + delta_us) as i64;
    laws::lemma_found_where_it_stands(e.playlist, id, i);
    laws::lemma_trim_moves_one_end(e.playlist, id, i, side, asked);
    let one = e.checkpointed().with_clip(i, timeline_ops::trimmed(was, side, asked));
    assert(timeline_ops::trim_clips(e.playlist, id, side, asked)->Ok_0 == one.playlist);
    assert(laws::stands_at(one.playlist, id, i)) by {
        assert forall|j: int| 0 <= j < i implies (#[trigger] one.playlist[j]).id != id by {
            assert(one.playlist[j] == e.playlist[j]);
        }
    }
    laws::lemma_found_where_it_stands(one.playlist, id, i);
}

/// A split at the playhead splits the clip that plays there, on the track of the
/// shown clip: its left half ends, and its right half starts, at the playhead.
pub proof fn lemma_split_is_at_the_playhead(e: EditorView, i: int, fresh: ClipId)
    requires
        timeline_view::fits_timeline(e.playlist),
        e.under_playhead() == Some(i),
        laws::stands_at(e.playlist, e.playlist[i].id, i),
        e.playlist[i].fits_timeline(),
        e.playlist[i].trim_in.nanos % 1_000 == 0,
        e.playlist[i].trim_out.nanos % 1_000 == 0,
        timeline_view::start_at(e.playlist, i) < e.preview.playhead_us,
        e.preview.playhead_us < timeline_view::end_at(e.playlist, i),
    ensures
        ({
            let now = e.split(fresh).state.playlist;
            &&& now.len() == e.playlist.len() + 1
            &&& timeline_view::start_at(now, i) == timeline_view::start_at(e.playlist, i)
            &&& timeline_view::end_at(now, i) == e.preview.playhead_us
            &&& timeline_view::start_at(now, i + 1) == e.preview.playhead_us
            &&& timeline_view::end_at(now, i + 1) == timeline_view::end_at(e.playlist, i)
            &&& now[i].id == e.playlist[i].id && now[i + 1].id == fresh
            &&& laws::is_part_of(now[i], e.playlist[i]) && laws::is_part_of(
                now[i + 1],
                e.playlist[i],
            )
        }),
{
    let c = e.playlist[i];
    let at = timeline_view::start_at(e.playlist, i);
    let local = (e.preview.playhead_us - at) as i64;
    assert(at + c.dur_us() <= i64::MAX);
    assert(local < c.dur_us());
    assert(c.trim_in.nanos <= c.trim_out.nanos);
    assert(c.length().nanos == c.trim_out.nanos - c.trim_in.nanos);
    laws::lemma_split_makes_two_of_one(e.playlist, c.id, i, local, fresh);
    let now = timeline_ops::split_clips(e.playlist, c.id, local, fresh)->Ok_0;
    timeline_laws::lemma_split_leaves_the_timeline_alone(
        e.playlist,
        now,
        c.id,
        i,
        local,
        fresh,
    );
    assert(laws::stands_at(now, c.id, i)) by {
        assert forall|j: int| 0 <= j < i implies (#[trigger] now[j]).id != c.id by {
            assert(now[j] == e.playlist[j]);
        }
    }
    laws::lemma_found_where_it_stands(now, c.id, i);
}

/// Moving a clip to a track changes its track alone, and only where there is such
/// a track.
pub proof fn lemma_clip_moves_to_the_track(e: EditorView, id: ClipId, i: int, track: u8)
    requires
        laws::stands_at(e.playlist, id, i),
    ensures
        lanes::lane_index(e.project, track) is None ==> e.moved_to_track(id, track) == e.idle(),
        lanes::lane_index(e.project, track) is Some ==> {
            let now = e.moved_to_track(id, track).state.playlist;
            &&& only_changed_at(now, e.playlist, i)
            &&& now[i] == (ClipView { video_track: track, ..e.playlist[i] })
        },
{
    laws::lemma_found_where_it_stands(e.playlist, id, i);
}

/// The flag of a track.
pub open spec fn flag_of(t: TrackView, which: TrackFlag) -> bool {
    match which {
        TrackFlag::Muted => t.muted,
        TrackFlag::Soloed => t.solo,
        TrackFlag::Locked => t.locked,
    }
}

/// Toggling a flag of a track turns over that flag of that track, and no other
/// flag of any track.
pub proof fn lemma_toggle_turns_one_flag(
    e: EditorView,
    idx: i32,
    which: TrackFlag,
    k: int,
    other: TrackFlag,
)
    requires
        0 <= idx < e.project.len(),
        0 <= k < e.project.len(),
        e.project == e.tracks.on(lanes::populated(e.project, e.playlist)),
    ensures
        ({
            let now = e.flag_toggled(idx, which).state;
            &&& now.project.len() == e.project.len() && now.playlist == e.playlist
            &&& k == idx && other == which ==> flag_of(now.project[k], other) == !flag_of(
                e.project[k],
                other,
            )
            &&& k != idx || other != which ==> flag_of(now.project[k], other) == flag_of(
                e.project[k],
                other,
            )
            &&& now.project[k].name == e.project[k].name && now.project[k].kind
                == e.project[k].kind
        }),
{
    let filled = lanes::populated(e.project, e.playlist);
    assert(e.project[k] == e.tracks.on(filled)[k]);
}

/// A new track comes behind the others, has the next number of its kind, and
/// holds nothing; the others keep their names and kinds.
pub proof fn lemma_added_track_comes_last(e: EditorView, kind: TrackKind, id: u128, k: int)
    requires
        0 <= k < e.project.len(),
    ensures
        ({
            let now = e.track_added(kind, id).state;
            let n = e.project.len() as int;
            &&& now.project.len() == n + 1 && now.playlist == e.playlist
            &&& now.project[n].kind == kind && now.project[n].id == id
            &&& kind == TrackKind::Video ==> now.project[n].name == "V"@ + text::dec(
                (lanes::count_of(e.project, kind) + 1) as nat,
            )
            &&& kind == TrackKind::Audio ==> now.project[n].name == "A"@ + text::dec(
                (lanes::count_of(e.project, kind) + 1) as nat,
            )
            &&& now.project[k].name == e.project[k].name && now.project[k].kind
                == e.project[k].kind && now.project[k].id == e.project[k].id
        }),
{
}

/// Tracks of a kind are counted one by one.
pub proof fn lemma_tracks_are_counted(a: Seq<TrackView>, t: TrackView, kind: TrackKind)
    ensures
        lanes::count_of(a.push(t), kind) == lanes::count_of(a, kind) + (if t.kind == kind {
            1int
        } else {
            0
        }),
        lanes::count_of(Seq::empty(), kind) == 0,
{
    assert(a.push(t).drop_last() =~= a);
}

/// The last track cannot be deleted, nor one that there is not.
pub proof fn lemma_one_track_stays(e: EditorView, idx: i32)
    ensures
        e.project.len() == 1 || idx < 0 || idx >= e.project.len() ==> e.track_deleted(idx)
            == e.idle(),
        e.project.len() > 1 && 0 <= idx < e.project.len() ==> e.track_deleted(
            idx,
        ).state.project.len() == e.project.len() - 1,
{
}

/// The sound of all is turned off and on in turns, and the preview is told so.
pub proof fn lemma_master_mute_takes_turns(e: EditorView)
    ensures
        e.master_mute_toggled().state == (EditorView { master_muted: !e.master_muted, ..e }),
        e.master_mute_toggled().actions[0] == ActionView::Send(
            CommandView::SetMasterMuted(!e.master_muted),
        ),
        e.master_mute_toggled().actions[1] == ActionView::MasterMuted(!e.master_muted),
{
}

/// The job that is running is the one that is cancelled, and the file of a clip
/// is what is revealed.
pub proof fn lemma_running_job_is_cancelled(e: EditorView, job: u128, id: ClipId, i: int)
    ensures
        e.active_job == Some(job) ==> e.cancelled().actions == seq![
            ActionView::Send(CommandView::Cancel { id: job }),
        ],
        e.active_job is None ==> e.cancelled().actions.len() == 0,
        e.cancelled().state == e,
        laws::stands_at(e.playlist, id, i) ==> e.revealed(id).actions == seq![
            ActionView::Reveal(e.playlist[i].path),
        ],
{
    if laws::stands_at(e.playlist, id, i) {
        laws::lemma_found_where_it_stands(e.playlist, id, i);
    }
}

/// An export is remembered under its number until it is over, and renders the
/// project as it is heard to the file that was asked for.
pub proof fn lemma_export_is_remembered(
    e: EditorView,
    output: Seq<char>,
    id: u128,
    meta: JobMetaView,
)
    ensures
        ({
            let s = e.export_started(output, id, meta);
            &&& s.state.active_job == Some(id)
            &&& s.state.job_meta.contains_key(id) && s.state.job_meta[id] == meta
            &&& s.state.playlist == e.playlist
            &&& s.actions.last() matches ActionView::Send(c)
            &&& c matches CommandView::Merge { id: job, project: p, spec }
            &&& job == id && spec.output_path == output && p.tracks == e.exported()
        }),
        e.export_refused(id).state.active_job is None,
        !e.export_refused(id).state.job_meta.contains_key(id),
        e.export_refused(id).state.playlist == e.playlist,
{
}

/// An export renders the tracks as they are heard: only the tracks that play
/// alone, if there are such, and nothing else about them changes.
pub proof fn lemma_export_goes_by_what_is_heard(rows: Seq<TrackView>, k: int)
    requires
        0 <= k < rows.len(),
    ensures
        tracks::as_heard(rows).len() == rows.len(),
        tracks::as_heard(rows)[k] == (TrackView {
            muted: tracks::as_heard(rows)[k].muted,
            ..rows[k]
        }),
        rows[k].muted ==> tracks::as_heard(rows)[k].muted,
        (forall|i: int| 0 <= i < rows.len() ==> !(#[trigger] rows[i]).solo) ==> tracks::as_heard(
            rows,
        )[k].muted == rows[k].muted,
        !rows[k].solo && (exists|i: int| 0 <= i < rows.len() && (#[trigger] rows[i]).solo)
            ==> tracks::as_heard(rows)[k].muted,
        rows[k].solo ==> tracks::as_heard(rows)[k].muted == rows[k].muted,
{
}

/// When an export is over, no job is running, and what was remembered of it goes
/// into the history, at its head.
pub proof fn lemma_finished_export_is_recorded(
    e: EditorView,
    id: u128,
    output: Seq<char>,
    at: Moment,
    message: Seq<char>,
)
    ensures
        ({
            let s = e.finished(id, output, at);
            &&& s.state.active_job is None && !s.state.job_meta.contains_key(id)
            &&& s.state.playlist == e.playlist
            &&& !e.job_meta.contains_key(id) ==> s.state.history == e.history
            &&& e.job_meta.contains_key(id) ==> s.state.history.len() > 0
                && s.state.history[0].output_path == e.job_meta[id].output_path
                && s.state.history[0].input_count == e.job_meta[id].input_count
                && s.state.history[0].finished_at == at.since_epoch
                && s.state.history[0].duration_secs_bits == at.export_secs_bits
            &&& s.actions[0] == ActionView::Exporting(false)
        }),
        ({
            let s = e.applied(EventView::Failed { id, message }, at);
            &&& s.state.active_job is None && !s.state.job_meta.contains_key(id)
            &&& s.state.history == e.history && s.state.playlist == e.playlist
            &&& s.actions[0] == ActionView::Exporting(false)
            &&& s.actions.contains(ActionView::Toast(message))
        }),
        ({
            let s = e.applied(EventView::Cancelled { id }, at);
            &&& s.state.active_job is None && !s.state.job_meta.contains_key(id)
            &&& s.state.history == e.history && s.state.playlist == e.playlist
            &&& s.actions[0] == ActionView::Exporting(false)
        }),
{
    let failed = e.applied(EventView::Failed { id, message }, at).actions;
    assert(failed[2] == ActionView::Toast(message));
}

/// The newest record comes first; the others follow, up to fifty in all.
pub proof fn lemma_history_keeps_the_newest(
    records: Seq<ExportRecordView>,
    r: ExportRecordView,
    i: int,
)
    ensures
        ({
            let now = history::with_record(records, r);
            &&& now[0] == r
            &&& 0 <= i < records.len() && i < 49 ==> now[i + 1] == records[i]
            &&& records.len() < 50 ==> now.len() == records.len() + 1
            &&& records.len() >= 50 ==> now.len() == 50
        }),
{
}

/// A snapshot comes on top of the ones before it, of which at most the oldest is
/// dropped.
pub proof fn lemma_snapshot_comes_on_top(
    stack: Seq<Seq<ClipView>>,
    snapshot: Seq<ClipView>,
    i: int,
)
    requires
        stack.len() <= 50,
    ensures
        ({
            let now = undo::pushed(stack, snapshot);
            &&& now.last() == snapshot
            &&& stack.len() < 50 ==> now.drop_last() == stack
            &&& stack.len() == 50 ==> now.drop_last() == stack.skip(1)
        }),
{
    let now = undo::pushed(stack, snapshot);
    if stack.len() < 50 {
        assert(now.drop_last() =~= stack);
    } else {
        assert(now.drop_last() =~= stack.skip(1));
    }
}

/// A clip that is added comes behind the others, and its pictures and waveform
/// are made from its file.
pub proof fn lemma_added_clip_comes_last(e: EditorView, c: ClipView, lines: Seq<ActionView>)
    ensures
        e.clip_added(c, lines).state.playlist == e.playlist.push(c),
        ({
            let cmds = events::asset_commands(e.data_dir, c);
            &&& cmds.len() == 2
            &&& cmds[0] matches ActionView::Send(a)
            &&& a matches CommandView::GenerateThumbnails { clip_id, path, out_dir, .. }
            &&& clip_id == c.id && path == c.path && out_dir == models::thumbs_of(e.data_dir, c.id)
        }),
        ({
            let cmds = events::asset_commands(e.data_dir, c);
            &&& cmds[1] matches ActionView::Send(b)
            &&& b matches CommandView::GenerateWaveform { clip_id, path, .. }
            &&& clip_id == c.id && path == c.path
        }),
        seqs::has_piece(e.clip_added(c, lines).actions, events::asset_commands(e.data_dir, c)),
        e.clip_added(c, lines).actions[0] == ActionView::AddRow(c.id),
{
    let a = seq![ActionView::AddRow(c.id)] + lines + seq![ActionView::Ruler];
    let cmds = events::asset_commands(e.data_dir, c);
    seqs::lemma_piece_at_end(a, cmds);
    let after = e.with_new(c);
    seqs::lemma_piece_stays(
        a + cmds,
        cmds,
        seq![
            ActionView::SyncTracks,
            ActionView::Send(
                CommandView::OpenPreview {
                    project: project::ProjectView { tracks: after.project },
                },
            ),
        ],
    );
}

/// A file that was looked into becomes a clip of the whole of it, on the first
/// track.
pub proof fn lemma_probed_file_becomes_a_clip(
    e: EditorView,
    id: u128,
    path: Seq<char>,
    info: MediaInfoView,
    at: Moment,
)
    ensures
        ({
            let now = e.applied(EventView::Probed { id, path, info }, at).state.playlist;
            &&& now.len() == e.playlist.len() + 1
            &&& now.drop_last() == e.playlist
            &&& now.last().id == at.fresh && now.last().path == path && now.last().info == info
            &&& now.last().trim_in.nanos == 0 && now.last().trim_out == info.duration
            &&& now.last().video_track == 0 && now.last().start_us is None && !now.last().muted
        }),
{
    let now = e.applied(EventView::Probed { id, path, info }, at).state.playlist;
    assert(now.drop_last() =~= e.playlist);
}

/// What the preview reports is shown: where it is, that it ended, how long it is.
/// A seek that had to wait is made up for.
pub proof fn lemma_reports_of_the_preview_are_shown(
    e: EditorView,
    event: EventView,
    at: Moment,
    pts_us: i64,
)
    ensures
        event matches EventView::FrameReady { frame, .. } ==> e.applied(
            event,
            at,
        ).state.preview.playhead_us == frame.pts_us && e.applied(event, at).actions.contains(
            ActionView::ShowFrame(frame),
        ) && e.applied(event, at).state.playlist == e.playlist && e.applied(
            event,
            at,
        ).state.preview.playing == e.preview.playing,
        event is PreviewEnded ==> !e.applied(event, at).state.preview.playing && e.applied(
            event,
            at,
        ).state.preview.playhead_us == e.preview.playhead_us && e.applied(
            event,
            at,
        ).actions.contains(ActionView::Playing(false)),
        event matches EventView::PreviewOpened { duration_us, .. } ==> e.applied(
            event,
            at,
        ).state.preview.duration_us == duration_us && e.applied(
            event,
            at,
        ).state.preview.pending_seek_us is None && (e.preview.pending_seek_us == Some(pts_us)
            ==> e.applied(event, at).actions == seq![
            ActionView::Send(CommandView::SeekPreview { pts_us }),
        ]) && (e.preview.pending_seek_us is None ==> e.applied(event, at).actions.len() == 0),
        event matches EventView::Progress { fraction, .. } ==> e.applied(event, at).actions
            == seq![ActionView::Progress(fraction)] && e.applied(event, at).state == e,
{
    if let EventView::FrameReady { frame, .. } = event {
        assert(e.applied(event, at).actions[1] == ActionView::ShowFrame(frame));
    }
    if event is PreviewEnded {
        assert(e.applied(event, at).actions[0] == ActionView::Playing(false));
    }
}

/// Pictures and a waveform that are ready belong to their clip, and change
/// nothing else about it, nor any other clip.
pub proof fn lemma_assets_belong_to_their_clip(
    e: EditorView,
    id: ClipId,
    i: int,
    paths: Seq<Seq<char>>,
    path: Seq<char>,
    at: Moment,
)
    requires
        laws::stands_at(e.playlist, id, i),
    ensures
        ({
            let now = e.applied(EventView::ThumbnailsReady { clip_id: id, paths }, at).state;
            &&& only_changed_at(now.playlist, e.playlist, i)
            &&& now.playlist[i] == (ClipView { thumbnails: paths, ..e.playlist[i] })
        }),
        ({
            let now = e.applied(EventView::WaveformReady { clip_id: id, path }, at).state;
            &&& only_changed_at(now.playlist, e.playlist, i)
            &&& now.playlist[i] == (ClipView { waveform_path: Some(path), ..e.playlist[i] })
        }),
{
    laws::lemma_found_where_it_stands(e.playlist, id, i);
}

/// The time in a clip is how far the playhead lies behind where the clip starts,
/// within the clip.
pub proof fn lemma_clip_time_is_behind_its_start(e: EditorView, id: ClipId, i: int, start: int)
    requires
        laws::stands_at(e.playlist, id, i),
        e.playlist[i].dur_us() >= 0,
        project::find(e.project, id) matches Some((ti, ci)) ==> start
            == e.project[ti].clips[ci].start_us,
        project::find(e.project, id) is None ==> start == timeline_view::start_at(e.playlist, i),
    ensures
        laws::held_between(
            e.clip_time(id),
            e.preview.playhead_us - start,
            0,
            e.playlist[i].dur_us() as int,
        ),
{
    laws::lemma_found_where_it_stands(e.playlist, id, i);
}

/// Each number names a channel of its own, and a number that names none changes
/// nothing.
pub proof fn lemma_channels_have_numbers(a: i32, b: i32)
    ensures
        dispatch::channel_of(a) is Some <==> 0 <= a <= 6,
        0 <= a <= 6 && 0 <= b <= 6 && a != b ==> dispatch::channel_of(a) != dispatch::channel_of(
            b,
        ),
        dispatch::channel_of(0) == Some(TransformChannel::Opacity),
        dispatch::channel_of(1) == Some(TransformChannel::Scale),
        dispatch::channel_of(2) == Some(TransformChannel::ScaleX),
        dispatch::channel_of(3) == Some(TransformChannel::ScaleY),
        dispatch::channel_of(4) == Some(TransformChannel::PositionX),
        dispatch::channel_of(5) == Some(TransformChannel::PositionY),
        dispatch::channel_of(6) == Some(TransformChannel::Rotation),
{
}

/// The name of a way to go between keyframes leads back to it.
pub proof fn lemma_interp_goes_by_name(i: Interp)
    ensures
        edits::interp_named(edits::name_of_interp(Some(i))) == i,
        edits::name_of_interp(None) == edits::name_of_interp(Some(Interp::Linear)),
{
    reveal_strlit("hold");
    reveal_strlit("bezier");
    reveal_strlit("linear");
    assert("hold"@.len() == 4 && "bezier"@.len() == 6 && "linear"@.len() == 6);
    assert("bezier"@[0] == 'b' && "linear"@[0] == 'l');
}

/// A keyframe is toggled on the channel it is meant for, with the clip's own value
/// there; the other channels, and the other clips, keep theirs.
pub proof fn lemma_keyframe_is_toggled_on_its_channel(
    e: EditorView,
    id: ClipId,
    i: int,
    ch: TransformChannel,
    other: TransformChannel,
    position: Scalar,
    s: Step,
)
    requires
        e.selected == Some(id),
        laws::stands_at(e.playlist, id, i),
        e.toggles_key(ch, position, s),
        other != ch,
    ensures
        only_changed_at(s.state.playlist, e.playlist, i),
        s.state.playlist[i].transform_keys.channel(other) == e.playlist[i].transform_keys.channel(
            other,
        ),
        s.state.playlist[i] == (ClipView {
            transform_keys: s.state.playlist[i].transform_keys,
            ..e.playlist[i]
        }),
        edits::key_toggled(
            s.state.playlist[i].transform_keys.channel(ch),
            e.playlist[i].transform_keys.channel(ch),
            e.clip_time(id) as i64,
            edits::own_value(e.playlist[i], ch, position),
        ),
{
    laws::lemma_found_where_it_stands(e.playlist, id, i);
    let c = e.playlist[i];
    let keys = choose|keys: Seq<Keyframe>|
        edits::key_toggled(
            keys,
            c.transform_keys.channel(ch),
            e.clip_time(id) as i64,
            edits::own_value(c, ch, position),
        ) && s == #[trigger] e.checkpointed().with_keys(i, ch, keys).rekeyed();
    crate::domain::laws::lemma_channels_are_apart(c.transform_keys, ch, other, keys);
}

/// The value of a keyframe that is set is the clip's own on that channel.
pub proof fn lemma_own_value_is_of_the_channel(c: ClipView, position: Scalar)
    ensures
        edits::own_value(c, TransformChannel::Opacity, position) == c.opacity,
        edits::own_value(c, TransformChannel::Scale, position) == c.scale,
        edits::own_value(c, TransformChannel::ScaleX, position) == c.scale_x,
        edits::own_value(c, TransformChannel::ScaleY, position) == c.scale_y,
        edits::own_value(c, TransformChannel::Rotation, position) == c.rotation_deg,
        edits::own_value(c, TransformChannel::PositionX, position) == position,
        edits::own_value(c, TransformChannel::PositionY, position) == position,
{
}

/// The way to go from a keyframe is set on the keyframe at the playhead; its time
/// and value, the other keyframes, channels and clips stay.
pub proof fn lemma_interp_is_set_on_one_keyframe(
    e: EditorView,
    id: ClipId,
    i: int,
    ch: TransformChannel,
    other: TransformChannel,
    interp: Interp,
    k: int,
)
    requires
        e.selected == Some(id),
        laws::stands_at(e.playlist, id, i),
        0 <= k < e.playlist[i].transform_keys.channel(ch).len(),
    ensures
        ({
            let was = e.playlist[i].transform_keys.channel(ch);
            let s = e.interp_set(ch, interp).state;
            let now = s.playlist[i].transform_keys.channel(ch);
            &&& only_changed_at(s.playlist, e.playlist, i)
            &&& other != ch ==> s.playlist[i].transform_keys.channel(other)
                == e.playlist[i].transform_keys.channel(other)
            &&& now.len() == was.len()
            &&& now[k] == (Keyframe { interp: now[k].interp, ..was[k] })
            &&& now[k].interp == was[k].interp || now[k].interp == interp
        }),
{
    laws::lemma_found_where_it_stands(e.playlist, id, i);
    let c = e.playlist[i];
    let keys = c.transform_keys.channel(ch);
    let p = crate::domain::transform::near(e.clip_time(id) as i64, edits::KEY_TOL_US);
    seqs::lemma_first_where(keys, p);
    let now = match seqs::first_where(keys, p) {
        Some(m) => keys.update(m, Keyframe { interp, ..keys[m] }),
        None => keys,
    };
    crate::domain::laws::lemma_channels_are_apart(c.transform_keys, ch, other, now);
}

/// What is shown of the keyframes of a clip is about the channels that it names.
pub proof fn lemma_keyframe_flags_are_of_their_channels(c: ClipView, at_us: i64)
    ensures
        ({
            let f = edits::keyframes_of(c, at_us);
            let k = c.transform_keys;
            &&& f.opacity.animated == (k.opacity.len() > 0)
            &&& f.scale.animated == (k.scale.len() > 0)
            &&& f.position_x.animated == (k.position_x.len() > 0)
            &&& f.position_y.animated == (k.position_y.len() > 0)
            &&& f.rotation.animated == (k.rotation_deg.len() > 0)
            &&& f.opacity.here == edits::has_key(k.opacity, at_us)
            &&& f.scale.here == edits::has_key(k.scale, at_us)
            &&& f.position_x.here == edits::has_key(k.position_x, at_us)
            &&& f.position_y.here == edits::has_key(k.position_y, at_us)
            &&& f.rotation.here == edits::has_key(k.rotation_deg, at_us)
        }),
{
}

/// Flags stay with their tracks: new tracks have none, and those behind a track
/// that is gone move up with theirs.
pub proof fn lemma_flags_stay_with_their_tracks(f: TracksView, n: int, i: int, k: int)
    requires
        0 <= k,
        0 <= i < f.muted.len(),
        i < f.soloed.len(),
        i < f.locked.len(),
    ensures
        k < n ==> tracks::flag(f.resized(n).muted, k) == tracks::flag(f.muted, k)
            && tracks::flag(f.resized(n).soloed, k) == tracks::flag(f.soloed, k) && tracks::flag(
            f.resized(n).locked,
            k,
        ) == tracks::flag(f.locked, k),
        k < i ==> tracks::flag(f.dropped(i).muted, k) == tracks::flag(f.muted, k)
            && tracks::flag(f.dropped(i).soloed, k) == tracks::flag(f.soloed, k) && tracks::flag(
            f.dropped(i).locked,
            k,
        ) == tracks::flag(f.locked, k),
        k >= i ==> tracks::flag(f.dropped(i).muted, k) == tracks::flag(f.muted, k + 1)
            && tracks::flag(f.dropped(i).soloed, k) == tracks::flag(f.soloed, k + 1)
            && tracks::flag(f.dropped(i).locked, k) == tracks::flag(f.locked, k + 1),
{
}

/// A row shows its track under its name, with its flags; an empty audio track
/// shows the sound of the video track of the same number.
pub proof fn lemma_row_shows_its_track(
    rows: Seq<TrackView>,
    f: TracksView,
    i: int,
    rest: Seq<char>,
    j: int,
)
    requires
        0 <= i < rows.len() <= usize::MAX,
        rest.len() > 0,
    ensures
        ({
            let r = tracks::row_of(rows, f, i);
            &&& r.name == rows[i].name
            &&& r.is_audio == (rows[i].kind == TrackKind::Audio)
            &&& r.muted == tracks::flag(f.muted, i) && r.soloed == tracks::flag(f.soloed, i)
                && r.locked == tracks::flag(f.locked, i)
            &&& rows[i].kind == TrackKind::Video || rows[i].clips.len() > 0 ==> r.shown == i
                && !r.display_only
            &&& rows[i].kind == TrackKind::Audio && rows[i].clips.len() == 0 && rows[i].name
                == seq!['A'] + rest && 0 <= j < rows.len() && seqs::is_first(
                rows,
                tracks::shows_for(seq!['V'] + rest),
                j,
            ) ==> r.shown == j && r.display_only
        }),
        tracks::paired_name(seq!['A'] + rest) == Some(seq!['V'] + rest),
{
    reveal_strlit("V");
    assert("V"@ =~= seq!['V']);
    let name = seq!['A'] + rest;
    assert(name.skip(1) =~= rest);
    assert(name[0] == 'A');
    if 0 <= j < rows.len() && seqs::is_first(rows, tracks::shows_for(seq!['V'] + rest), j) {
        seqs::lemma_first_where_found(rows, tracks::shows_for(seq!['V'] + rest), j);
    }
}

/// Clips above a lane that is gone come one lane down, and the others stay.
pub proof fn lemma_clips_come_down_with_their_lanes(c: ClipView, value: u8)
    ensures
        c.video_track > value ==> arrange::lowered(c, value).video_track == c.video_track - 1,
        c.video_track <= value ==> arrange::lowered(c, value) == c,
        arrange::lowered(c, value) == (ClipView {
            video_track: arrange::lowered(c, value).video_track,
            ..c
        }),
{
}

/// What is shown of the selected clip is about that clip; the project has the size
/// of its first one.
pub proof fn lemma_details_are_of_the_clip(clips: Seq<ClipView>, i: int)
    requires
        0 <= i < clips.len(),
        clips[i].info.profile.resolution.width <= i32::MAX,
        clips[i].info.profile.resolution.height <= i32::MAX,
        clips[0].info.profile.resolution.width <= i32::MAX,
        clips[0].info.profile.resolution.height <= i32::MAX,
    ensures
        ({
            let d = callbacks::details_of(clips, i);
            &&& d.clip == clips[i] && d.name == paths::display_name_of(clips[i].path)
            &&& d.width == clips[i].info.profile.resolution.width
            &&& d.height == clips[i].info.profile.resolution.height
            &&& d.project_width == clips[0].info.profile.resolution.width
            &&& d.project_height == clips[0].info.profile.resolution.height
            &&& d.resolution == text::dec(clips[i].info.profile.resolution.width as nat) + "x"@
                + text::dec(clips[i].info.profile.resolution.height as nat)
            &&& d.duration == timeline_vm::length_text(
                (clips[i].info.duration.nanos / 1_000_000_000) as int,
            )
            &&& clips[i].info.profile.audio_codec.len() > 0 ==> d.codec
                == clips[i].info.profile.video_codec + " / "@ + clips[i].info.profile.audio_codec
            &&& clips[i].info.profile.audio_codec.len() == 0 ==> d.codec
                == clips[i].info.profile.video_codec + " / "@ + "—"@
        }),
{
}

/// Undoing and redoing give back the clips of the snapshot; nothing is selected or
/// played then. The tracks keep their flags.
pub proof fn lemma_restored_clips_are_those_given(e: EditorView, clips: Seq<ClipView>)
    ensures
        ({
            let now = e.restored(clips).state;
            &&& now.playlist == clips
            &&& now.selected is None && now.preview.clip_id is None && !now.preview.playing
            &&& now.preview.pending_seek_us is None
            &&& now.tracks == e.tracks && now.undo == e.undo && now.active_job == e.active_job
        }),
        e.undo.undo.len() > 0 ==> e.undone().state.playlist == e.undo.undo.last()
            && e.undone().state.undo.undo == e.undo.undo.drop_last(),
        e.undo.undo.len() == 0 ==> e.undone() == e.idle(),
        e.undo.redo.len() > 0 ==> e.redone().state.playlist == e.undo.redo.last()
            && e.redone().state.undo.redo == e.undo.redo.drop_last(),
        e.undo.redo.len() == 0 ==> e.redone() == e.idle(),
{
}

/// Setting an end at the playhead moves that end of the shown clip there, counted
/// from where its window starts, as far as it may.
pub proof fn lemma_end_is_set_at_the_playhead(e: EditorView, id: ClipId, i: int, side: TrimSide)
    requires
        e.preview.clip_id == Some(id),
        laws::stands_at(e.playlist, id, i),
        e.playlist[i].fits_timeline(),
        e.playlist[i].trim_in.us() + MIN_WINDOW_US <= e.playlist[i].trim_out.us(),
        e.playlist[i].trim_out.us() <= e.playlist[i].info.duration.us(),
        i64::MIN <= e.playlist[i].trim_in.us() + e.preview.playhead_us <= i64::MAX,
    ensures
        ({
            let was = e.playlist[i];
            let now = e.trimmed_at_playhead(side).state.playlist;
            let at = was.trim_in.us() + e.preview.playhead_us;
            &&& only_changed_at(now, e.playlist, i)
            &&& side == TrimSide::Left ==> laws::held_between(
                now[i].trim_in.us() as int,
                at,
                0,
                was.trim_out.us() - MIN_WINDOW_US,
            ) && now[i].trim_out == was.trim_out
            &&& side == TrimSide::Right ==> laws::held_between(
                now[i].trim_out.us() as int,
                at,
                was.trim_in.us() + MIN_WINDOW_US,
                was.info.duration.us() as int,
            ) && now[i].trim_in == was.trim_in
        }),
{
    let was = e.playlist[i];
    let asked = (was.trim_in.us() + e.preview.playhead_us) as i64;
    laws::lemma_found_where_it_stands(e.playlist, id, i);
    laws::lemma_trim_moves_one_end(e.playlist, id, i, side, asked);
    let one = e.checkpointed().with_clip(i, timeline_ops::trimmed(was, side, asked));
    assert(timeline_ops::trim_clips(e.playlist, id, side, asked)->Ok_0 == one.playlist);
    assert(laws::stands_at(one.playlist, id, i)) by {
        assert forall|j: int| 0 <= j < i implies (#[trigger] one.playlist[j]).id != id by {
            assert(one.playlist[j] == e.playlist[j]);
        }
    }
    laws::lemma_found_where_it_stands(one.playlist, id, i);
}

/// Pictures and the waveform of a clip are looked for where its own are, then
/// where those of the clip are that it was split from.
pub proof fn lemma_assets_are_found_by_origin(c: ClipView, origin: ClipId, dir: Seq<char>)
    ensures
        c.thumbnails.len() > 0 ==> models::thumbnails_of(c, Some(dir))
            == models::ThumbnailsView::Files(c.thumbnails),
        c.thumbnails.len() == 0 && c.origin_id == Some(origin) ==> models::thumbnails_of(
            c,
            Some(dir),
        ) == models::ThumbnailsView::Folder(models::thumbs_of(dir, origin)),
        c.thumbnails.len() == 0 && c.origin_id is None ==> models::thumbnails_of(c, Some(dir))
            == models::ThumbnailsView::Folder(models::thumbs_of(dir, c.id)),
        c.waveform_path is None && c.origin_id == Some(origin) ==> models::waveform_source(
            c,
            Some(dir),
        ) == models::WaveformSourceView::Cached(audio::waveform_of(dir, origin)),
        c.waveform_path is None && c.origin_id is None ==> models::waveform_source(c, Some(dir))
            == models::WaveformSourceView::Cached(audio::waveform_of(dir, c.id)),
        c.waveform_path matches Some(p) ==> models::waveform_source(c, Some(dir))
            == models::WaveformSourceView::File(p),
{
}

/// Where clips have their sound taken off, the clips become those that are given;
/// where there was none to take off, they stay. The change can be undone.
pub proof fn lemma_detached_clips_are_those_given(e: EditorView, clips: Seq<ClipView>)
    ensures
        e.detached(Some(clips)).state.playlist == clips,
        e.detached(None).state.playlist == e.playlist,
        e.detached(Some(clips)).state.undo.undo.last() == e.playlist,
{
    assert(undo::pushed(e.undo.undo, e.playlist).last() == e.playlist);
}

/// Without clips there is nothing to export, and what is remembered of an export
/// is where it goes, how many inputs it has and how long it is.
pub proof fn lemma_export_needs_clips(
    e: EditorView,
    output: Seq<char>,
    id: u128,
    s: Step,
)
    requires
        e.exports(output, id, s),
    ensures
        e.playlist.len() == 0 ==> s.state == e,
        e.playlist.len() > 0 ==> s.state.active_job == Some(id) && s.state.job_meta.contains_key(id)
            && s.state.job_meta[id].output_path == output && exists|plan: RenderPlanView| #[trigger]
            composite::is_plan_of(plan, e.exported()) && s.state.job_meta[id].input_count
                == plan.inputs.len() as usize && (plan.total_duration_us >= 0
                ==> s.state.job_meta[id].duration.nanos == plan.total_duration_us * 1_000),
{
    if e.playlist.len() > 0 {
        let meta = choose|meta: JobMetaView|
            arrange::is_meta_of(meta, e.exported(), output) && s == #[trigger] e.export_started(
                output,
                id,
                meta,
            );
        let plan = choose|plan: RenderPlanView| #[trigger]
            composite::is_plan_of(plan, e.exported()) && meta == (JobMetaView {
                output_path: output,
                input_count: plan.inputs.len() as usize,
                duration: Duration {
                    nanos: (if plan.total_duration_us > 0 {
                        plan.total_duration_us * 1_000
                    } else {
                        0
                    }) as u128,
                },
            });
        assert(composite::is_plan_of(plan, e.exported()));
    }
}

/// The clip under the playhead is one of the track of the shown clip that plays
/// then; where any does, there is one.
pub proof fn lemma_clip_under_the_playhead(e: EditorView, id: ClipId, k: int, j: int)
    requires
        e.preview.clip_id == Some(id),
        laws::stands_at(e.playlist, id, k),
    ensures
        e.under_playhead() matches Some(i) ==> 0 <= i < e.playlist.len() && e.playlist[i].video_track
            == e.playlist[k].video_track && timeline_view::start_at(e.playlist, i)
            <= e.preview.playhead_us < timeline_view::end_at(e.playlist, i),
        0 <= j < e.playlist.len() && e.playlist[j].video_track == e.playlist[k].video_track
            && timeline_view::start_at(e.playlist, j) <= e.preview.playhead_us
            < timeline_view::end_at(e.playlist, j) ==> e.under_playhead() is Some,
{
    laws::lemma_found_where_it_stands(e.playlist, id, k);
    timeline_laws::lemma_clip_under_plays(
        e.playlist,
        e.playlist[k].video_track,
        e.preview.playhead_us,
        0,
    );
}

} // verus!
