//! What holds of the editor whatever the user does.

use vstd::prelude::*;

use super::dispatch;
use super::dispatch::{ClipEvent, PlayheadEvent, SelectedEventView, TrackEvent, UiEventView};
use super::edits;
use super::edits::EditView;
use super::lanes;
use super::state::{EditorView, Step};
use super::timeline_view;
use super::tracks::TrackFlag;
use super::undo;
use crate::domain::clip::ClipView;
use crate::domain::playlist;
use crate::domain::project;
use crate::domain::project::{ProjectView, TrackClipView, TrackKind, TrackView};
use crate::ident;
use crate::ident::ClipId;
use crate::persistence::project::ProjectView as ProjectFileView;
use crate::seqs;
use crate::services::timeline_ops;
use crate::services::timeline_ops::TrimSide;
use crate::sorting;
use crate::text;

verus! {

/// Undoing gives back the clips of `e`, unless they are there anyway.
pub open spec fn can_go_back(e: EditorView, s: Step) -> bool {
    s.state.playlist == e.playlist || s.state.undone().state.playlist == e.playlist
}

proof fn lemma_checkpoint_can_go_back(e: EditorView, s: Step)
    requires
        s.state.undo == e.undo.checkpointed(e.playlist),
    ensures
        can_go_back(e, s),
{
    assert(undo::pushed(e.undo.undo, e.playlist).last() == e.playlist);
}

proof fn lemma_clip_event_can_go_back(e: EditorView, id: ClipId, what: ClipEvent, s: Step)
    requires
        dispatch::on_clip(e, id, what, s),
    ensures
        can_go_back(e, s),
{
    if s.state.undo == e.undo.checkpointed(e.playlist) {
        lemma_checkpoint_can_go_back(e, s);
    }
}

proof fn lemma_playhead_event_can_go_back(e: EditorView, what: PlayheadEvent, fresh: ClipId)
    ensures
        can_go_back(e, dispatch::at_playhead(e, what, fresh)),
{
    let s = dispatch::at_playhead(e, what, fresh);
    if s.state.undo == e.undo.checkpointed(e.playlist) {
        lemma_checkpoint_can_go_back(e, s);
    }
}

proof fn lemma_track_event_can_go_back(e: EditorView, what: TrackEvent, fresh: u128)
    ensures
        can_go_back(e, dispatch::on_tracks(e, what, fresh)),
{
    let s = dispatch::on_tracks(e, what, fresh);
    if s.state.undo == e.undo.checkpointed(e.playlist) {
        lemma_checkpoint_can_go_back(e, s);
    }
}

/// Whether the user changes the look of the selected clip, which belongs to a
/// gesture.
pub open spec fn changes_look(what: SelectedEventView) -> bool {
    what matches SelectedEventView::Change(edit) && !edits::is_sound(edit)
}

proof fn lemma_selected_event_can_go_back(e: EditorView, what: SelectedEventView, s: Step)
    requires
        dispatch::on_selected(e, what, s),
        !changes_look(what),
    ensures
        can_go_back(e, s),
{
    if s.state.undo == e.undo.checkpointed(e.playlist) {
        lemma_checkpoint_can_go_back(e, s);
    }
}

/// Whatever the user does to the clips, undoing it gives them back as they
/// were. Changes of the look of a clip are undone gesture by gesture.
pub proof fn lemma_every_step_can_be_undone(
    e: EditorView,
    event: UiEventView,
    fresh: u128,
    s: Step,
)
    requires
        dispatch::responds(e, event, fresh, s),
        !(event is Undo),
        !(event is Redo),
        event matches UiEventView::Selected(what) ==> !changes_look(what),
    ensures
        can_go_back(e, s),
{
    match event {
        UiEventView::Clip { id, what } => {
            match ident::parsed_id(id) {
                Some(id) => lemma_clip_event_can_go_back(e, id, what, s),
                None => {},
            }
        },
        UiEventView::Playhead(what) => lemma_playhead_event_can_go_back(e, what, fresh),
        UiEventView::Track(what) => lemma_track_event_can_go_back(e, what, fresh),
        UiEventView::Selected(what) => lemma_selected_event_can_go_back(e, what, s),
        _ => {},
    }
}

/// The changes of a gesture leave the snapshot alone that was taken when it
/// began, so that undoing takes back the whole gesture.
pub proof fn lemma_gesture_is_undone_at_once(e: EditorView, edit: EditView)
    requires
        !edits::is_sound(edit),
    ensures
        e.edited(edit).state.undo == e.undo,
        e.checkpointed().edited(edit).state.undone().state.playlist == e.playlist,
{
    assert(undo::pushed(e.undo.undo, e.playlist).last() == e.playlist);
}

/// Redoing takes back an undo.
pub proof fn lemma_redo_takes_back_undo(e: EditorView)
    requires
        e.undo.undo.len() > 0,
    ensures
        e.undone().state.redone().state.playlist == e.playlist,
{
    assert(undo::pushed(e.undo.redo, e.playlist).last() == e.playlist);
}

proof fn lemma_same_lanes(a: Seq<TrackView>, b: Seq<TrackView>, value: u8)
    requires
        a.len() == b.len(),
        forall|i: int|
            0 <= i < a.len() ==> (#[trigger] a[i]).kind == b[i].kind && a[i].name == b[i].name,
    ensures
        lanes::lane_index(a, value) == lanes::lane_index(b, value),
{
    let p = lanes::is_lane(value);
    seqs::lemma_first_where(a, p);
    match lanes::lane_index(a, value) {
        Some(i) => {
            assert(p(b[i]));
            assert forall|j: int| 0 <= j < i implies !p(#[trigger] b[j]) by {
                assert(!p(a[j]));
            }
            seqs::lemma_first_where_found(b, p, i);
        },
        None => {
            assert forall|j: int| 0 <= j < b.len() implies !p(#[trigger] b[j]) by {
                assert(!p(a[j]));
            }
            seqs::lemma_first_where_none(b, p);
        },
    }
}

proof fn lemma_same_lane(a: TrackView, b: TrackView, from: int)
    requires
        a.kind == b.kind,
        a.name == b.name,
    ensures
        lanes::least_lane(a, from) == lanes::least_lane(b, from),
    decreases 256 - from,
{
    if 0 <= from < 256 {
        lemma_same_lane(a, b, from + 1);
    }
}

proof fn lemma_same_clips(a: Seq<TrackView>, b: Seq<TrackView>, i: int, clips: Seq<ClipView>)
    requires
        a.len() == b.len(),
        0 <= i < a.len(),
        forall|i: int|
            0 <= i < a.len() ==> (#[trigger] a[i]).kind == b[i].kind && a[i].name == b[i].name,
    ensures
        lanes::clips_for(a, i, clips) == lanes::clips_for(b, i, clips),
{
    lemma_same_lane(a[i], b[i], 0);
    if let Some(v) = lanes::lane_of(a[i]) {
        lemma_same_lanes(a, b, v);
    }
}

/// Putting the clips on their tracks again changes nothing.
pub proof fn lemma_sync_is_idempotent(e: EditorView)
    ensures
        e.synced().synced() == e.synced(),
{
    let once = e.synced().project;
    let twice = e.synced().synced().project;
    assert forall|i: int| 0 <= i < once.len() implies once[i] == #[trigger] twice[i] by {
        lemma_same_clips(e.project, once, i, e.playlist);
    }
    assert(once =~= twice);
}

/// The project shows the clips where they are, with the flags of the tracks.
pub open spec fn in_sync(e: EditorView) -> bool {
    e.synced() == e
}

proof fn lemma_in_sync_from(e: EditorView, tracks: Seq<TrackView>)
    requires
        e.project == e.tracks.on(lanes::populated(tracks, e.playlist)),
    ensures
        in_sync(e),
{
    let from = EditorView { project: tracks, ..e };
    assert(from.synced() =~= e);
    lemma_sync_is_idempotent(from);
}

proof fn lemma_in_sync_as_before(e: EditorView, s: Step)
    requires
        s.state.playlist == e.playlist,
        s.state.tracks == e.tracks,
        s.state.project == e.project,
        in_sync(e),
    ensures
        in_sync(s.state),
{
    assert(s.state.synced().project == e.synced().project);
    assert(s.state.synced() =~= s.state);
}

/// A clip that is changed, and is still the same clip, is found where it was,
/// whatever comes after it.
proof fn lemma_found_where_it_was(clips: Seq<ClipView>, now: Seq<ClipView>, id: ClipId, i: int)
    requires
        playlist::index_of(clips, id) == Some(i),
        i < now.len(),
        now[i].id == id,
        forall|j: int| 0 <= j < i ==> #[trigger] now[j] == clips[j],
    ensures
        playlist::index_of(now, id) == Some(i),
{
    let p = playlist::has_id(id);
    seqs::lemma_first_where(clips, p);
    assert forall|j: int| 0 <= j < i implies !p(#[trigger] now[j]) by {
        assert(!p(clips[j]));
    }
    seqs::lemma_first_where_found(now, p, i);
}

proof fn lemma_trimmed_is_found(e: EditorView, id: ClipId, side: TrimSide, new_source_us: i64)
    ensures
        match playlist::index_of(e.playlist, id) {
            Some(i) => playlist::index_of(
                e.playlist.update(
                    i,
                    timeline_ops::trimmed(e.playlist[i], side, new_source_us),
                ),
                id,
            ) == Some(i),
            None => true,
        },
{
    let p = playlist::has_id(id);
    seqs::lemma_first_where(e.playlist, p);
    if let Some(i) = playlist::index_of(e.playlist, id) {
        assert(p(e.playlist[i]));
        lemma_found_where_it_was(
            e.playlist,
            e.playlist.update(i, timeline_ops::trimmed(e.playlist[i], side, new_source_us)),
            id,
            i,
        );
    }
}

proof fn lemma_split_is_found(clips: Seq<ClipView>, id: ClipId, local_us: i64, fresh: ClipId)
    ensures
        match timeline_ops::split_clips(clips, id, local_us, fresh) {
            Ok(now) => playlist::index_of(now, id) is Some,
            Err(_) => true,
        },
{
    let p = playlist::has_id(id);
    seqs::lemma_first_where(clips, p);
    if let Some(i) = playlist::index_of(clips, id) {
        assert(p(clips[i]));
        if let Ok(now) = timeline_ops::split_clips(clips, id, local_us, fresh) {
            lemma_found_where_it_was(clips, now, id, i);
        }
    }
}

proof fn lemma_clip_event_in_sync(e: EditorView, id: ClipId, what: ClipEvent, s: Step)
    requires
        in_sync(e),
        dispatch::on_clip(e, id, what, s),
    ensures
        in_sync(s.state),
{
    if let ClipEvent::TrimReleased { is_right, delta_us } = what {
        if let Some(i) = playlist::index_of(e.playlist, id) {
            if is_right {
                lemma_trimmed_is_found(
                    e,
                    id,
                    TrimSide::Right,
                    (e.playlist[i].trim_out.us() + delta_us) as i64,
                );
            } else {
                lemma_trimmed_is_found(
                    e,
                    id,
                    TrimSide::Left,
                    (e.playlist[i].trim_in.us() + delta_us) as i64,
                );
            }
        }
    }
    if s.state.project == s.state.tracks.on(lanes::populated(e.project, s.state.playlist)) {
        lemma_in_sync_from(s.state, e.project);
    } else {
        lemma_in_sync_as_before(e, s);
    }
}

proof fn lemma_playhead_event_in_sync(e: EditorView, what: PlayheadEvent, fresh: ClipId)
    requires
        in_sync(e),
    ensures
        in_sync(dispatch::at_playhead(e, what, fresh).state),
{
    let s = dispatch::at_playhead(e, what, fresh);
    if let Some(id) = e.preview.clip_id {
        if let Some(i) = playlist::index_of(e.playlist, id) {
            let at = (e.playlist[i].trim_in.us() + e.preview.playhead_us) as i64;
            lemma_trimmed_is_found(e, id, TrimSide::Left, at);
            lemma_trimmed_is_found(e, id, TrimSide::Right, at);
        }
    }
    if let Some(i) = e.under_playhead() {
        let local = (e.preview.playhead_us - timeline_view::start_at(e.playlist, i)) as i64;
        lemma_split_is_found(e.playlist, e.playlist[i].id, local, fresh);
    }
    if s.state.project == s.state.tracks.on(lanes::populated(e.project, s.state.playlist)) {
        lemma_in_sync_from(s.state, e.project);
    } else {
        lemma_in_sync_as_before(e, s);
    }
}

proof fn lemma_flag_toggled_in_sync(e: EditorView, idx: i32, which: TrackFlag)
    requires
        in_sync(e),
    ensures
        in_sync(e.flag_toggled(idx, which).state),
{
    let t = e.flag_toggled(idx, which).state;
    if idx < 0 {
    } else if idx >= e.project.len() {
        let filled = lanes::populated(e.project, e.playlist);
        assert(t.tracks.on(filled) =~= e.tracks.on(filled));
        assert(t.synced() =~= t);
    } else {
        lemma_in_sync_from(t, e.project);
    }
}

proof fn lemma_track_event_in_sync(e: EditorView, what: TrackEvent, fresh: u128)
    requires
        in_sync(e),
    ensures
        in_sync(dispatch::on_tracks(e, what, fresh).state),
{
    let t = dispatch::on_tracks(e, what, fresh).state;
    match what {
        TrackEvent::ToggleMute(i) => lemma_flag_toggled_in_sync(
            e,
            i,
            TrackFlag::Muted,
        ),
        TrackEvent::ToggleSolo(i) => lemma_flag_toggled_in_sync(
            e,
            i,
            TrackFlag::Soloed,
        ),
        TrackEvent::ToggleLock(i) => lemma_flag_toggled_in_sync(
            e,
            i,
            TrackFlag::Locked,
        ),
        TrackEvent::AddVideo => {
            let kind = TrackKind::Video;
            let name = lanes::numbered_name(kind, lanes::count_of(e.project, kind) + 1);
            lemma_in_sync_from(
                t,
                e.project.push(project::empty_track(fresh, name, kind)),
            );
        },
        TrackEvent::AddAudio => {
            let kind = TrackKind::Audio;
            let name = lanes::numbered_name(kind, lanes::count_of(e.project, kind) + 1);
            lemma_in_sync_from(
                t,
                e.project.push(project::empty_track(fresh, name, kind)),
            );
        },
        TrackEvent::Delete(i) => {
            if !(i < 0 || i >= e.project.len() || e.project.len() == 1) {
                lemma_in_sync_from(t, lanes::without_track(e.project, i as int));
            }
        },
    }
}

proof fn lemma_selected_event_in_sync(e: EditorView, what: SelectedEventView, s: Step)
    requires
        in_sync(e),
        dispatch::on_selected(e, what, s),
    ensures
        in_sync(s.state),
{
    if s.state.project == s.state.tracks.on(lanes::populated(e.project, s.state.playlist)) {
        lemma_in_sync_from(s.state, e.project);
    } else {
        lemma_in_sync_as_before(e, s);
    }
}

/// Whatever the user does, the project goes on showing the clips where they
/// are.
pub proof fn lemma_every_step_keeps_in_sync(
    e: EditorView,
    event: UiEventView,
    fresh: u128,
    s: Step,
)
    requires
        in_sync(e),
        dispatch::responds(e, event, fresh, s),
    ensures
        in_sync(s.state),
{
    match event {
        UiEventView::Clip { id, what } => {
            match ident::parsed_id(id) {
                Some(id) => lemma_clip_event_in_sync(e, id, what, s),
                None => {},
            }
        },
        UiEventView::Playhead(what) => lemma_playhead_event_in_sync(e, what, fresh),
        UiEventView::Track(what) => lemma_track_event_in_sync(e, what, fresh),
        UiEventView::Selected(what) => lemma_selected_event_in_sync(e, what, s),
        UiEventView::Undo => {
            if e.undo.undo.len() > 0 {
                lemma_in_sync_from(s.state, e.project);
            }
        },
        UiEventView::Redo => {
            if e.undo.redo.len() > 0 {
                lemma_in_sync_from(s.state, e.project);
            }
        },
        UiEventView::ToggleMasterMute => lemma_in_sync_as_before(e, s),
        UiEventView::CancelClicked => {},
    }
}

/// The clips are all on the first video track, in the order of their starts.
pub open spec fn is_one_row(clips: Seq<ClipView>) -> bool {
    &&& forall|i: int| 0 <= i < clips.len() ==> (#[trigger] clips[i]).video_track == 0
    &&& forall|i: int, j: int|
        0 <= i <= j < clips.len() ==> #[trigger] timeline_view::start_at(clips, i)
            <= #[trigger] timeline_view::start_at(clips, j)
}

proof fn lemma_whole_lane(clips: Seq<ClipView>, n: int)
    requires
        0 <= n <= clips.len(),
        forall|i: int| 0 <= i < clips.len() ==> (#[trigger] clips[i]).video_track == 0,
    ensures
        lanes::lane_clips(clips, 0, n) == Seq::new(n as nat, |i: int| lanes::placed_at(clips, i)),
    decreases n,
{
    if n > 0 {
        lemma_whole_lane(clips, n - 1);
    }
    assert(lanes::lane_clips(clips, 0, n) =~= Seq::new(
        n as nat,
        |i: int| lanes::placed_at(clips, i),
    ));
}

/// Where the clips are all on the first video track, in the order of their
/// starts, a project that was saved and is opened again shows the same clips
/// in the same places, with the flags that the tracks had. (Clips of other
/// tracks are not taken over.)
pub proof fn lemma_saved_project_is_loaded(
    e: EditorView,
    other: EditorView,
    file: ProjectFileView,
    p: ProjectView,
    clips: Seq<ClipView>,
    name: Seq<char>,
    first: int,
)
    requires
        is_one_row(e.playlist),
        project::track_index(e.project, "V1"@) == Some(first),
        e.project[first].kind == TrackKind::Video,
        file.project == Some(ProjectView { tracks: e.synced().project }),
        file.gives(p),
        project::is_playlist_of(clips, p.tracks),
    ensures
        other.loaded(p, clips, name).state.playlist == e.playlist,
        other.loaded(p, clips, name).state.project == e.synced().project,
{
    let n = e.playlist.len() as int;
    let tracks = e.synced().project;
    assert(project::is_named("V1"@)(e.project[first]));
    assert("V1"@ =~= lanes::lane_name(0)) by {
        reveal_strlit("V1");
        reveal_strlit("V");
        reveal_with_fuel(text::dec, 2);
    }
    assert(lanes::is_lane(0)(e.project[first]));
    seqs::lemma_first_where_found(tracks, project::is_named("V1"@), first);
    seqs::lemma_first_where_found(e.project, lanes::is_lane(0), first);
    assert(lanes::lane_of(e.project[first]) == Some(0u8));
    lemma_whole_lane(e.playlist, n);
    let row = Seq::new(n as nat, |i: int| lanes::placed_at(e.playlist, i));
    assert(tracks[first].clips == row);
    let sorted = choose|sorted: Seq<TrackClipView>|
        sorting::stably_sorted(sorted, row, project::by_start()) && clips
            == #[trigger] project::clips_only(sorted);
    assert forall|i: int, j: int|
        #![trigger row[i], row[j]]
        0 <= i <= j < row.len() implies !sorting::before(
        project::by_start()(row[j]),
        project::by_start()(row[i]),
    ) by {
        assert(timeline_view::start_at(e.playlist, i) <= timeline_view::start_at(e.playlist, j));
    }
    assert(sorting::stably_sorted(row, row, project::by_start()));
    sorting::lemma_stably_sorted_is_unique(sorted, row, row, project::by_start());
    assert(project::clips_only(row) =~= e.playlist);
    lemma_sync_is_idempotent(e);
    let after = other.loaded(p, clips, name).state;
    let again = EditorView { playlist: e.playlist, tracks: e.tracks, project: tracks, ..other };
    assert(again.synced().project == tracks) by {
        assert(e.synced().synced().project == tracks);
    }
    let filled = lanes::populated(tracks, e.playlist);
    assert(e.tracks.on(filled) == tracks);
    assert forall|i: int| 0 <= i < tracks.len() implies #[trigger] after.project[i]
        == tracks[i] by {
        assert(e.tracks.on(filled)[i] == tracks[i]);
    }
    assert(after.project =~= tracks);
}

} // verus!
