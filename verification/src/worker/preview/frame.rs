//! What a picture of the preview is made of.

use vstd::prelude::*;

use super::source_us;
use crate::domain::project::{Project, Track, TrackClip, TrackClipView, TrackView};
use crate::domain::transform::TransformSamples;
use crate::engine::composite;
use crate::ident::ClipId;
use crate::sorting;
use crate::sorting::{Rank, Ranked};
use crate::text;

verus! {

/// A clip of a picture: what to decode, and how to place it.
#[derive(Debug)]
pub struct Layer {
    pub clip_id: ClipId,
    pub path: String,
    /// The time in the source.
    pub src_us: i64,
    /// 1 for clips that lie on top, else 0.
    pub level: u8,
    pub look: TransformSamples,
}

#[verifier::ext_equal]
pub struct LayerView {
    pub clip_id: ClipId,
    pub path: Seq<char>,
    pub src_us: i64,
    pub level: u8,
    pub look: TransformSamples,
}

impl View for Layer {
    type V = LayerView;

    open spec fn view(&self) -> LayerView {
        LayerView {
            clip_id: self.clip_id,
            path: self.path@,
            src_us: self.src_us,
            level: self.level,
            look: self.look,
        }
    }
}

/// Layers are laid on one another by level.
impl Ranked for Layer {
    open spec fn rank(&self) -> Rank {
        Rank { major: self.level as int, minor: 0 }
    }

    fn goes_after(&self, other: &Self) -> (r: bool) {
        other.level < self.level
    }
}

pub open spec fn layer_view() -> spec_fn(Layer) -> LayerView {
    |l: Layer| l@
}

pub open spec fn layer_views(s: Seq<Layer>) -> Seq<LayerView> {
    s.map_values(layer_view())
}

pub open spec fn by_level() -> spec_fn(LayerView) -> Rank {
    |l: LayerView| Rank { major: l.level as int, minor: 0 }
}

/// The layer of an active clip at a time.
pub open spec fn layer_of(tracks: Seq<TrackView>, active: (int, TrackClipView), t_us: i64) -> LayerView {
    let tc = active.1;
    LayerView {
        clip_id: tc.clip.id,
        path: tc.clip.path,
        src_us: super::source_time(t_us, tc.start_us, tc.clip.trim_in.us()),
        level: if tracks[active.0].name == "V2"@ {
            1
        } else {
            0
        },
        look: tc.clip.look((t_us - tc.start_us) as i64),
    }
}

/// The layers of the active clips at a time, track by track.
pub open spec fn layers_at(tracks: Seq<TrackView>, t_us: i64) -> Seq<LayerView> {
    let active = composite::active_at(tracks, t_us);
    Seq::new(active.len(), |i: int| layer_of(tracks, active[i], t_us))
}

proof fn lemma_active_tracks(tracks: Seq<TrackView>, t_us: i64)
    ensures
        forall|i: int|
            0 <= i < composite::active_at(tracks, t_us).len() ==> 0 <= (
            #[trigger] composite::active_at(tracks, t_us)[i]).0 < tracks.len(),
    decreases tracks.len(),
{
    if tracks.len() > 0 {
        lemma_active_tracks(tracks.drop_last(), t_us);
        let head = composite::active_at(tracks.drop_last(), t_us);
        assert forall|i: int| 0 <= i < composite::active_at(tracks, t_us).len() implies 0 <= (
        #[trigger] composite::active_at(tracks, t_us)[i]).0 < tracks.len() by {
            if i < head.len() {
                assert(composite::active_at(tracks, t_us)[i] == head[i]);
            }
        }
    }
}

/// The layers of the picture at a time, the lowest first. Clips of the track V2
/// lie on top of all others.
pub fn frame_layers(project: &Project, t_us: i64) -> (r: Vec<Layer>)
    ensures
        sorting::stably_sorted(
            layer_views(r@),
            layers_at(project@.tracks, t_us),
            by_level(),
        ),
{
    let ghost tracks = project@.tracks;
    let active: Vec<(usize, &TrackClip)> = composite::active_clips_at(project, t_us);
    let ghost all = composite::active_at(tracks, t_us);
    proof {
        lemma_active_tracks(tracks, t_us);
    }
    let mut r: Vec<Layer> = Vec::new();
    let mut i: usize = 0;
    while i < active.len()
        invariant
            i <= active.len(),
            tracks == project@.tracks,
            tracks.len() == project.tracks@.len(),
            all == composite::active_at(tracks, t_us),
            composite::active_views(active@) == all,
            forall|j: int| 0 <= j < all.len() ==> 0 <= (#[trigger] all[j]).0 < tracks.len(),
            r@.len() == i,
            forall|j: int|
                0 <= j < i ==> (#[trigger] r@[j])@ == layer_of(tracks, all[j], t_us),
        decreases active.len() - i,
    {
        let (track_idx, tc): (usize, &TrackClip) = active[i];
        assert(composite::active_views(active@)[i as int] == (track_idx as int, tc@));
        assert(all[i as int].0 == track_idx);
        let t: &Track = &project.tracks[track_idx];
        assert(tracks[track_idx as int] == t@);
        let level: u8 = if text::same_text(t.name.as_str(), "V2") {
            1
        } else {
            0
        };
        let layer: Layer = Layer {
            clip_id: tc.clip.id,
            path: tc.clip.path.clone(),
            src_us: source_us(t_us, tc.start_us, tc.clip.trim_in_us()),
            level,
            look: tc.clip.resolved_transform((t_us as i128 - tc.start_us as i128) as i64),
        };
        r.push(layer);
        i = i + 1;
    }
    let ghost unsorted = r@;
    assert(layer_views(unsorted) =~= layers_at(tracks, t_us));
    sorting::sort_stable(&mut r);
    proof {
        assert forall|l: Layer| by_level()(#[trigger] layer_view()(l)) == sorting::rank_of::<
            Layer,
        >()(l) by {}
        sorting::lemma_stably_sorted_map(
            r@,
            unsorted,
            sorting::rank_of::<Layer>(),
            layer_view(),
            by_level(),
        );
    }
    r
}

/// A picture that fills the canvas unchanged can be shown as it was decoded:
/// it is the only one, nothing is changed about it, and it has the size of the
/// canvas.
pub fn shows_as_decoded(
    layers: usize,
    identity: bool,
    frame_width: u32,
    frame_height: u32,
    width: u32,
    height: u32,
) -> (r: bool)
    ensures
        r == (layers == 1 && identity && frame_width == width && frame_height == height),
{
    layers == 1 && identity && frame_width == width && frame_height == height
}

} // verus!
