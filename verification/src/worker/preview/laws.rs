//! What the pictures of the preview promise.

use vstd::prelude::*;

use super::frame;
use super::frame::LayerView;
use crate::domain::laws;
use crate::domain::project::{TrackClipView, TrackView};
use crate::domain::transform;
use crate::domain::transform::TransformChannel;
use crate::engine;
use crate::engine::composite;
use crate::sorting;

verus! {

/// A layer depends on how far the time lies behind the start of its clip, and on
/// nothing else about when that is: a clip that is moved shows at the moved time
/// what it showed before.
pub proof fn lemma_layer_moves_with_its_clip(
    tracks: Seq<TrackView>,
    ti: int,
    tc: TrackClipView,
    other: TrackClipView,
    t_us: i64,
    other_us: i64,
)
    requires
        other.clip == tc.clip,
        other_us - other.start_us == t_us - tc.start_us,
    ensures
        frame::layer_of(tracks, (ti, other), other_us) == frame::layer_of(tracks, (ti, tc), t_us),
{
}

/// When a clip starts, its layer shows the clip as it is at its own start, from
/// the first picture of its window; a little later, the window has gone on by as
/// much.
pub proof fn lemma_layer_starts_with_its_clip(
    tracks: Seq<TrackView>,
    ti: int,
    tc: TrackClipView,
    by_us: i64,
)
    requires
        tc.start_us + by_us <= i64::MAX,
        0 <= by_us,
        tc.clip.trim_in.us() + by_us <= i64::MAX,
        tc.clip.trim_in.us() >= 0,
    ensures
        frame::layer_of(tracks, (ti, tc), tc.start_us).look == tc.clip.look(0),
        frame::layer_of(tracks, (ti, tc), tc.start_us).src_us == tc.clip.trim_in.us(),
        frame::layer_of(tracks, (ti, tc), (tc.start_us + by_us) as i64).look == tc.clip.look(
            by_us,
        ),
        frame::layer_of(tracks, (ti, tc), (tc.start_us + by_us) as i64).src_us
            == tc.clip.trim_in.us() + by_us,
{
}

/// A layer is made from the file of its clip, and lies on top just on the track
/// V2.
pub proof fn lemma_layer_is_of_its_clip(
    tracks: Seq<TrackView>,
    ti: int,
    tc: TrackClipView,
    t_us: i64,
)
    ensures
        frame::layer_of(tracks, (ti, tc), t_us).clip_id == tc.clip.id,
        frame::layer_of(tracks, (ti, tc), t_us).path == tc.clip.path,
        frame::layer_of(tracks, (ti, tc), t_us).level > 0 <==> tracks[ti].name == "V2"@,
{
}

/// As long after the start of a clip as a keyframe of it says, its layer shows the
/// value of that keyframe.
pub proof fn lemma_layer_is_at_its_keyframes(
    tracks: Seq<TrackView>,
    ti: int,
    tc: TrackClipView,
    ch: TransformChannel,
    i: int,
    t_us: i64,
)
    requires
        transform::one_after_another(laws::keys_on(tc.clip, ch)),
        0 <= i < laws::keys_on(tc.clip, ch).len(),
        t_us == tc.start_us + laws::keys_on(tc.clip, ch)[i].time_us,
    ensures
        laws::shown_on(frame::layer_of(tracks, (ti, tc), t_us).look, ch) matches Some(s)
            && transform::sets_out_from(s, laws::keys_on(tc.clip, ch)[i].value),
{
    laws::lemma_clip_is_at_its_keyframes(tc.clip, ch, i);
}

/// A clip that is moved by `by`.
pub open spec fn moved(tc: TrackClipView, by: int) -> TrackClipView {
    TrackClipView { start_us: (tc.start_us + by) as i64, ..tc }
}

/// Clips that are all moved by `by`.
pub open spec fn clips_moved(clips: Seq<TrackClipView>, by: int) -> Seq<TrackClipView> {
    Seq::new(clips.len(), |i: int| moved(clips[i], by))
}

/// The tracks with every clip moved by `by`.
pub open spec fn all_moved(tracks: Seq<TrackView>, by: int) -> Seq<TrackView> {
    Seq::new(
        tracks.len(),
        |i: int| TrackView { clips: clips_moved(tracks[i].clips, by), ..tracks[i] },
    )
}

/// No clip is moved off the timeline.
pub open spec fn can_move(tracks: Seq<TrackView>, by: int) -> bool {
    forall|i: int, k: int|
        #![trigger tracks[i].clips[k]]
        0 <= i < tracks.len() && 0 <= k < tracks[i].clips.len() ==> i64::MIN
            <= tracks[i].clips[k].start_us + by <= i64::MAX
}

proof fn lemma_active_moved(clips: Seq<TrackClipView>, by: int, t_us: i64, moved_us: i64)
    requires
        moved_us == t_us + by,
        forall|k: int|
            0 <= k < clips.len() ==> i64::MIN <= (#[trigger] clips[k]).start_us + by <= i64::MAX,
    ensures
        clips_moved(clips, by).filter(composite::is_active(moved_us)) == clips_moved(
            clips.filter(composite::is_active(t_us)),
            by,
        ),
    decreases clips.len(),
{
    reveal(Seq::filter);
    let now = clips_moved(clips, by);
    if clips.len() > 0 {
        let front = clips.drop_last();
        assert forall|k: int| 0 <= k < front.len() implies i64::MIN <= (
        #[trigger] front[k]).start_us + by <= i64::MAX by {
            assert(front[k] == clips[k]);
        }
        lemma_active_moved(front, by, t_us, moved_us);
        assert(now.drop_last() =~= clips_moved(front, by));
        let last = clips[clips.len() - 1];
        assert(now.last() == moved(last, by));
        assert(composite::is_active(moved_us)(now.last()) == composite::is_active(t_us)(last));
    }
    assert(now.filter(composite::is_active(moved_us)) =~= clips_moved(
        clips.filter(composite::is_active(t_us)),
        by,
    ));
}

proof fn lemma_active_at_moved(tracks: Seq<TrackView>, by: int, t_us: i64, moved_us: i64)
    requires
        moved_us == t_us + by,
        can_move(tracks, by),
    ensures
        ({
            let was = composite::active_at(tracks, t_us);
            let now = composite::active_at(all_moved(tracks, by), moved_us);
            now =~= Seq::new(was.len(), |i: int| (was[i].0, moved(was[i].1, by)))
        }),
    decreases tracks.len(),
{
    if tracks.len() > 0 {
        let front = tracks.drop_last();
        let last = tracks[tracks.len() - 1];
        assert forall|i: int, k: int|
            #![trigger front[i].clips[k]]
            0 <= i < front.len() && 0 <= k < front[i].clips.len() implies i64::MIN
            <= front[i].clips[k].start_us + by <= i64::MAX by {
            assert(tracks[i].clips[k] == front[i].clips[k]);
        }
        lemma_active_at_moved(front, by, t_us, moved_us);
        assert(all_moved(tracks, by).drop_last() =~= all_moved(front, by));
        assert forall|k: int| 0 <= k < last.clips.len() implies i64::MIN <= (
        #[trigger] last.clips[k]).start_us + by <= i64::MAX by {
            assert(tracks[tracks.len() - 1].clips[k] == last.clips[k]);
        }
        lemma_active_moved(last.clips, by, t_us, moved_us);
    }
}

/// Moving all clips by the same time moves the pictures by it: what a picture is
/// made of depends on how far the time lies behind the starts of the clips.
pub proof fn lemma_pictures_move_with_the_clips(
    tracks: Seq<TrackView>,
    by: int,
    t_us: i64,
    moved_us: i64,
)
    requires
        moved_us == t_us + by,
        can_move(tracks, by),
    ensures
        frame::layers_at(all_moved(tracks, by), moved_us) == frame::layers_at(tracks, t_us),
{
    lemma_active_at_moved(tracks, by, t_us, moved_us);
    engine::laws::lemma_active_clips_are_those_seen(tracks, t_us);
    let was = composite::active_at(tracks, t_us);
    let now = composite::active_at(all_moved(tracks, by), moved_us);
    assert forall|k: int| 0 <= k < was.len() implies #[trigger] frame::layer_of(
        all_moved(tracks, by),
        now[k],
        moved_us,
    ) == frame::layer_of(tracks, was[k], t_us) by {
        assert(engine::laws::is_seen_as(tracks, t_us, was[k]));
        let (ti, ci) = choose|ti: int, ci: int| #[trigger]
            engine::laws::is_seen(tracks, ti, ci, t_us) && was[k] == (ti, tracks[ti].clips[ci]);
        assert(i64::MIN <= tracks[ti].clips[ci].start_us + by <= i64::MAX);
    }
    assert(frame::layers_at(all_moved(tracks, by), moved_us) =~= frame::layers_at(tracks, t_us));
}

/// A picture has a layer for each clip that is seen then: from its file, as far
/// into its window as the time lies behind its start, with the look that the clip
/// has then.
pub open spec fn shows(layers: Seq<LayerView>, tc: TrackClipView, t_us: i64) -> bool {
    exists|k: int|
        0 <= k < layers.len() && (#[trigger] layers[k]).clip_id == tc.clip.id && layers[k].path
            == tc.clip.path && layers[k].look == tc.clip.look((t_us - tc.start_us) as i64)
            && layers[k].src_us == (tc.clip.trim_in.us() + (t_us - tc.start_us)) as i64
}

/// The picture of a time shows every clip that is seen then, and has no more
/// layers than there are such clips. The layers of V2 come last.
pub proof fn lemma_picture_shows_what_is_seen(
    layers: Seq<LayerView>,
    tracks: Seq<TrackView>,
    t_us: i64,
)
    requires
        sorting::stably_sorted(layers, frame::layers_at(tracks, t_us), frame::by_level()),
    ensures
        forall|ti: int, ci: int| #[trigger]
            engine::laws::is_seen(tracks, ti, ci, t_us) ==> shows(
                layers,
                tracks[ti].clips[ci],
                t_us,
            ),
        layers.len() == composite::active_at(tracks, t_us).len(),
        forall|i: int, j: int|
            #![trigger layers[i], layers[j]]
            0 <= i <= j < layers.len() ==> layers[i].level <= layers[j].level,
{
    broadcast use vstd::seq_lib::group_to_multiset_ensures;

    let from = frame::layers_at(tracks, t_us);
    let active = composite::active_at(tracks, t_us);
    sorting::lemma_stably_sorted_is_permutation(layers, from, frame::by_level());
    engine::laws::lemma_active_clips_are_those_seen(tracks, t_us);
    assert forall|ti: int, ci: int| #[trigger]
        engine::laws::is_seen(tracks, ti, ci, t_us) implies shows(
        layers,
        tracks[ti].clips[ci],
        t_us,
    ) by {
        let tc = tracks[ti].clips[ci];
        let m = active.index_of((ti, tc));
        assert(active[m] == (ti, tc));
        let l = frame::layer_of(tracks, (ti, tc), t_us);
        assert(from[m] == l);
        assert(from.contains(l));
        assert(layers.to_multiset().count(l) == from.to_multiset().count(l));
        assert(layers.contains(l));
        let k = layers.index_of(l);
        assert(layers[k] == l);
    }
    assert(layers.len() == from.len()) by {
        assert(layers.to_multiset().len() == from.to_multiset().len());
    }
    assert forall|i: int, j: int|
        #![trigger layers[i], layers[j]]
        0 <= i <= j < layers.len() implies layers[i].level <= layers[j].level by {
        assert(!sorting::before(frame::by_level()(layers[j]), frame::by_level()(layers[i])));
    }
}

} // verus!
