//! A project: several tracks with clips placed on them.

use vstd::prelude::*;

use super::clip;
use super::clip::{Clip, ClipView};
use super::playlist::Playlist;
use crate::errors::{CoreError, CoreErrorView, CoreResult};
use crate::ident;
use crate::ident::{ClipId, TrackId};
use crate::seqs;
use crate::sorting;
use crate::sorting::{Rank, Ranked};
use crate::text;

verus! {

#[derive(Clone, Copy, Debug, PartialEq, Eq, Structural)]
pub enum TrackKind {
    Video,
    Audio,
}

/// A clip at a place on the timeline.
#[derive(Debug)]
pub struct TrackClip {
    pub clip: Clip,
    pub start_us: i64,
}

#[verifier::ext_equal]
pub struct TrackClipView {
    pub clip: ClipView,
    pub start_us: i64,
}

impl View for TrackClip {
    type V = TrackClipView;

    open spec fn view(&self) -> TrackClipView {
        TrackClipView { clip: self.clip@, start_us: self.start_us }
    }
}

impl Clone for TrackClip {
    fn clone(&self) -> (res: Self)
        ensures
            res@ == self@,
    {
        TrackClip { clip: self.clip.clone(), start_us: self.start_us }
    }
}

impl TrackClipView {
    /// Where the clip ends on the timeline.
    pub open spec fn end(self) -> int {
        self.start_us + self.clip.dur_us()
    }

    /// The end fits a timeline position.
    pub open spec fn end_fits(self) -> bool {
        i64::MIN <= self.end() <= i64::MAX
    }
}

/// How items are viewed one by one.
pub open spec fn placed_view() -> spec_fn(TrackClip) -> TrackClipView {
    |tc: TrackClip| tc@
}

pub open spec fn placed_views(clips: Seq<TrackClip>) -> Seq<TrackClipView> {
    clips.map_values(placed_view())
}

/// The clips of a track are ordered by where they start.
impl Ranked for TrackClip {
    open spec fn rank(&self) -> Rank {
        Rank { major: self.start_us as int, minor: 0 }
    }

    fn goes_after(&self, other: &Self) -> (r: bool) {
        other.start_us < self.start_us
    }
}

pub open spec fn by_start() -> spec_fn(TrackClipView) -> Rank {
    |tc: TrackClipView| Rank { major: tc.start_us as int, minor: 0 }
}

/// Whether a placed clip has the given identifier.
pub open spec fn is_clip(id: ClipId) -> spec_fn(TrackClipView) -> bool {
    |tc: TrackClipView| tc.clip.id == id
}

/// The place of the first clip of a track with the given identifier.
pub open spec fn clip_index(clips: Seq<TrackClipView>, id: ClipId) -> Option<int> {
    seqs::first_where(clips, is_clip(id))
}

/// `end` is the latest end of the clips, or zero where there are none.
pub open spec fn is_latest_end(clips: Seq<TrackClipView>, end: int) -> bool {
    if clips.len() == 0 {
        end == 0
    } else {
        &&& exists|i: int| 0 <= i < clips.len() && (#[trigger] clips[i]).end() == end
        &&& forall|i: int| 0 <= i < clips.len() ==> (#[trigger] clips[i]).end() <= end
    }
}

pub open spec fn ends_fit(clips: Seq<TrackClipView>) -> bool {
    forall|i: int| 0 <= i < clips.len() ==> (#[trigger] clips[i]).end_fits()
}

/// Whether the times from `start` to `start + dur` and those of the clip have
/// a moment in common.
pub open spec fn overlaps(start: int, dur: int, tc: TrackClipView) -> bool {
    start < tc.end() && tc.start_us < start + dur
}

/// Whether a clip of length `dur` at `start` would overlap one of `clips`,
/// leaving aside the clip `exclude`.
pub open spec fn overlaps_any(
    clips: Seq<TrackClipView>,
    start: int,
    dur: int,
    exclude: Option<ClipId>,
) -> bool {
    exists|i: int|
        0 <= i < clips.len() && exclude != Some((#[trigger] clips[i]).clip.id) && overlaps(
            start,
            dur,
            clips[i],
        )
}

/// No two clips of the track have a moment in common.
pub open spec fn disjoint(clips: Seq<TrackClipView>) -> bool {
    forall|i: int, j: int|
        #![trigger clips[i], clips[j]]
        0 <= i < clips.len() && 0 <= j < clips.len() && i != j ==> !overlaps(
            clips[i].start_us as int,
            clips[i].clip.dur_us() as int,
            clips[j],
        )
}

/// A track of the timeline.
#[derive(Debug)]
pub struct Track {
    pub id: TrackId,
    pub name: String,
    pub kind: TrackKind,
    pub clips: Vec<TrackClip>,
    /// The height on screen.
    pub height_px: u32,
    pub muted: bool,
    pub solo: bool,
    pub locked: bool,
}

#[verifier::ext_equal]
pub struct TrackView {
    pub id: TrackId,
    pub name: Seq<char>,
    pub kind: TrackKind,
    pub clips: Seq<TrackClipView>,
    pub height_px: u32,
    pub muted: bool,
    pub solo: bool,
    pub locked: bool,
}

impl View for Track {
    type V = TrackView;

    open spec fn view(&self) -> TrackView {
        TrackView {
            id: self.id,
            name: self.name@,
            kind: self.kind,
            clips: placed_views(self.clips@),
            height_px: self.height_px,
            muted: self.muted,
            solo: self.solo,
            locked: self.locked,
        }
    }
}

/// A copy of several placed clips.
pub fn clone_placed(clips: &Vec<TrackClip>) -> (res: Vec<TrackClip>)
    ensures
        placed_views(res@) == placed_views(clips@),
{
    let mut res: Vec<TrackClip> = Vec::new();
    let mut i: usize = 0;
    while i < clips.len()
        invariant
            i <= clips.len(),
            res@.len() == i,
            forall|j: int| 0 <= j < i ==> (#[trigger] res@[j])@ == clips@[j]@,
        decreases clips.len() - i,
    {
        res.push(clips[i].clone());
        i = i + 1;
    }
    assert(placed_views(res@) =~= placed_views(clips@));
    res
}

impl Clone for Track {
    fn clone(&self) -> (res: Self)
        ensures
            res@ == self@,
    {
        Track {
            id: self.id,
            name: self.name.clone(),
            kind: self.kind,
            clips: clone_placed(&self.clips),
            height_px: self.height_px,
            muted: self.muted,
            solo: self.solo,
            locked: self.locked,
        }
    }
}

/// The height of a new track.
pub const DEFAULT_HEIGHT_PX: u32 = 86;

/// A track without clips, neither muted nor solo nor locked.
pub open spec fn empty_track(id: TrackId, name: Seq<char>, kind: TrackKind) -> TrackView {
    TrackView {
        id,
        name,
        kind,
        clips: Seq::empty(),
        height_px: DEFAULT_HEIGHT_PX,
        muted: false,
        solo: false,
        locked: false,
    }
}

impl TrackClip {
    /// Where the clip ends on the timeline.
    pub fn end_us(&self) -> (us: i64)
        requires
            self@.end_fits(),
        ensures
            us == self@.end(),
    {
        self.start_us + self.clip.effective_duration_us()
    }
}

impl Track {
    /// An empty track under a fresh identifier.
    pub fn new(name: &str, kind: TrackKind) -> (res: Self)
        ensures
            ident::is_random_id(res@.id),
            res@ == empty_track(res@.id, name@, kind),
    {
        Track::with_id(ident::fresh_id(), name, kind)
    }

    /// An empty track under the given identifier.
    pub fn with_id(id: TrackId, name: &str, kind: TrackKind) -> (res: Self)
        ensures
            res@ == empty_track(id, name@, kind),
    {
        let res: Track = Track {
            id,
            name: name.to_owned(),
            kind,
            clips: Vec::new(),
            height_px: DEFAULT_HEIGHT_PX,
            muted: false,
            solo: false,
            locked: false,
        };
        assert(res@.clips =~= Seq::empty());
        res
    }

    /// The layer in which the track lies.
    pub fn layer(&self) -> (z: usize)
        ensures
            z == layer_of(self@.name),
    {
        if text::same_text(self.name.as_str(), "V2") || text::same_text(self.name.as_str(), "A2") {
            1
        } else {
            0
        }
    }

    /// The latest end of a clip of the track.
    pub fn duration_us(&self) -> (us: i64)
        requires
            ends_fit(self@.clips),
        ensures
            is_latest_end(self@.clips, us as int),
    {
        let mut latest: i64 = 0;
        let mut i: usize = 0;
        while i < self.clips.len()
            invariant
                i <= self.clips.len(),
                self@.clips.len() == self.clips@.len(),
                forall|j: int| 0 <= j < i ==> #[trigger] self@.clips[j] == self.clips@[j]@,
                ends_fit(self@.clips),
                i == 0 ==> latest == 0,
                i > 0 ==> exists|j: int|
                    0 <= j < i && (#[trigger] self@.clips[j]).end() == latest,
                forall|j: int| 0 <= j < i ==> (#[trigger] self@.clips[j]).end() <= latest,
            decreases self.clips.len() - i,
        {
            assert(self@.clips[i as int] == self.clips@[i as int]@);
            let end: i64 = self.clips[i].end_us();
            if i == 0 || end > latest {
                latest = end;
            }
            i = i + 1;
        }
        latest
    }

    /// Where the clip with the given identifier stands.
    pub fn position(&self, id: ClipId) -> (r: Option<usize>)
        ensures
            match r {
                Some(i) => i < self@.clips.len() && self@.clips[i as int].clip.id == id
                    && clip_index(self@.clips, id) == Some(i as int) && seqs::is_first(
                    self@.clips,
                    is_clip(id),
                    i as int,
                ),
                None => clip_index(self@.clips, id) is None && forall|j: int|
                    0 <= j < self@.clips.len() ==> (#[trigger] self@.clips[j]).clip.id != id,
            },
    {
        let mut i: usize = 0;
        while i < self.clips.len()
            invariant
                i <= self.clips.len(),
                self@.clips.len() == self.clips@.len(),
                forall|j: int|
                    0 <= j < self@.clips.len() ==> #[trigger] self@.clips[j] == self.clips@[j]@,
                forall|j: int| 0 <= j < i ==> !is_clip(id)(#[trigger] self@.clips[j]),
            decreases self.clips.len() - i,
        {
            if self.clips[i].clip.id == id {
                proof {
                    assert(is_clip(id)(self@.clips[i as int]));
                    seqs::lemma_first_where_found(self@.clips, is_clip(id), i as int);
                }
                return Some(i);
            }
            assert(!is_clip(id)(self@.clips[i as int]));
            i = i + 1;
        }
        proof {
            seqs::lemma_first_where_none(self@.clips, is_clip(id));
        }
        None
    }

    /// Where the clip with the given identifier stands, or an error.
    pub fn find_clip(&self, clip_id: ClipId) -> (r: CoreResult<usize>)
        ensures
            match clip_index(self@.clips, clip_id) {
                Some(i) => r matches Ok(n) && n == i,
                None => r matches Err(e) && e@ == CoreErrorView::ClipNotFound(clip_id),
            },
    {
        match self.position(clip_id) {
            Some(i) => Ok(i),
            None => Err(CoreError::ClipNotFound(clip_id)),
        }
    }

    /// Take out the clip with the given identifier.
    pub fn remove_clip(&mut self, clip_id: ClipId) -> (r: CoreResult<TrackClip>)
        ensures
            match clip_index(old(self)@.clips, clip_id) {
                Some(i) => r matches Ok(tc) && tc@ == old(self)@.clips[i] && final(self)@ == (
                TrackView { clips: old(self)@.clips.remove(i), ..old(self)@ }),
                None => r matches Err(e) && e@ == CoreErrorView::ClipNotFound(clip_id)
                    && final(self)@ == old(self)@,
            },
    {
        match self.position(clip_id) {
            Some(i) => {
                let tc: TrackClip = self.clips.remove(i);
                assert(self@.clips =~= old(self)@.clips.remove(i as int));
                Ok(tc)
            },
            None => Err(CoreError::ClipNotFound(clip_id)),
        }
    }

    /// Whether a clip of length `dur_us` at `start_us` would overlap one that
    /// is on the track, leaving aside the clip `exclude_id`.
    pub fn would_overlap(&self, start_us: i64, dur_us: i64, exclude_id: Option<ClipId>) -> (r: bool)
        ensures
            r == overlaps_any(self@.clips, start_us as int, dur_us as int, exclude_id),
    {
        let start: i128 = start_us as i128;
        let end: i128 = start_us as i128 + dur_us as i128;
        let mut i: usize = 0;
        while i < self.clips.len()
            invariant
                i <= self.clips.len(),
                start == start_us,
                end == start_us + dur_us,
                self@.clips.len() == self.clips@.len(),
                forall|j: int|
                    0 <= j < self@.clips.len() ==> #[trigger] self@.clips[j] == self.clips@[j]@,
                forall|j: int|
                    0 <= j < i ==> exclude_id == Some((#[trigger] self@.clips[j]).clip.id)
                        || !overlaps(start_us as int, dur_us as int, self@.clips[j]),
            decreases self.clips.len() - i,
        {
            let tc: &TrackClip = &self.clips[i];
            assert(self@.clips[i as int] == tc@);
            let excluded: bool = match exclude_id {
                Some(id) => id == tc.clip.id,
                None => false,
            };
            if !excluded {
                let tc_end: i128 = tc.start_us as i128 + tc.clip.effective_duration_us() as i128;
                if start < tc_end && (tc.start_us as i128) < end {
                    return true;
                }
            }
            i = i + 1;
        }
        false
    }

    /// Keep the clips in the order in which they start.
    pub fn sort_clips(&mut self)
        ensures
            sorting::stably_sorted(final(self)@.clips, old(self)@.clips, by_start()),
            final(self)@.clips.len() == old(self)@.clips.len(),
            final(self)@ == (TrackView { clips: final(self)@.clips, ..old(self)@ }),
    {
        sorting::sort_stable(&mut self.clips);
        proof {
            assert forall|tc: TrackClip| by_start()(#[trigger] placed_view()(tc))
                == sorting::rank_of::<TrackClip>()(tc) by {}
            sorting::lemma_stably_sorted_map(
                self.clips@,
                old(self).clips@,
                sorting::rank_of::<TrackClip>(),
                placed_view(),
                by_start(),
            );
        }
    }
}

#[derive(Debug)]
pub struct Project {
    pub tracks: Vec<Track>,
}

#[verifier::ext_equal]
pub struct ProjectView {
    pub tracks: Seq<TrackView>,
}

pub open spec fn track_view() -> spec_fn(Track) -> TrackView {
    |t: Track| t@
}

pub open spec fn track_views(tracks: Seq<Track>) -> Seq<TrackView> {
    tracks.map_values(track_view())
}

impl View for Project {
    type V = ProjectView;

    open spec fn view(&self) -> ProjectView {
        ProjectView { tracks: track_views(self.tracks@) }
    }
}

impl Clone for Project {
    fn clone(&self) -> (res: Self)
        ensures
            res@ == self@,
    {
        let mut tracks: Vec<Track> = Vec::new();
        let mut i: usize = 0;
        while i < self.tracks.len()
            invariant
                i <= self.tracks.len(),
                tracks@.len() == i,
                forall|j: int| 0 <= j < i ==> (#[trigger] tracks@[j])@ == self.tracks@[j]@,
            decreases self.tracks.len() - i,
        {
            tracks.push(self.tracks[i].clone());
            i = i + 1;
        }
        let res: Project = Project { tracks };
        assert(res@.tracks =~= self@.tracks);
        res
    }
}

/// The clips of all tracks, one track after the other.
pub open spec fn all_placed(tracks: Seq<TrackView>) -> Seq<TrackClipView>
    decreases tracks.len(),
{
    if tracks.len() == 0 {
        Seq::empty()
    } else {
        all_placed(tracks.drop_last()) + tracks.last().clips
    }
}

/// Whether a track has the given name.
pub open spec fn is_named(name: Seq<char>) -> spec_fn(TrackView) -> bool {
    |t: TrackView| t.name == name
}

/// The place of the first track with the given name.
pub open spec fn track_index(tracks: Seq<TrackView>, name: Seq<char>) -> Option<int> {
    seqs::first_where(tracks, is_named(name))
}

/// The clip `id` is the `ci`-th of the `ti`-th track, and no earlier one has
/// that identifier.
pub open spec fn found_at(tracks: Seq<TrackView>, id: ClipId, ti: int, ci: int) -> bool {
    &&& 0 <= ti < tracks.len()
    &&& seqs::is_first(tracks[ti].clips, is_clip(id), ci)
    &&& forall|t: int, c: int|
        0 <= t < ti && 0 <= c < tracks[t].clips.len() ==> (#[trigger] tracks[t].clips[c]).clip.id
            != id
}

/// Where the clip `id` is: track and place on the track.
pub open spec fn find(tracks: Seq<TrackView>, id: ClipId) -> Option<(int, int)> {
    if exists|ti: int, ci: int| found_at(tracks, id, ti, ci) {
        Some(choose|p: (int, int)| found_at(tracks, id, #[trigger] p.0, #[trigger] p.1))
    } else {
        None
    }
}

pub proof fn lemma_found(tracks: Seq<TrackView>, id: ClipId, ti: int, ci: int)
    requires
        found_at(tracks, id, ti, ci),
    ensures
        find(tracks, id) == Some((ti, ci)),
{
    let p0: (int, int) = (ti, ci);
    assert(found_at(tracks, id, p0.0, p0.1));
    let p = choose|p: (int, int)| found_at(tracks, id, #[trigger] p.0, #[trigger] p.1);
    assert(found_at(tracks, id, p.0, p.1));
    if p.0 < ti {
        assert(tracks[p.0].clips[p.1].clip.id != id);
    } else if ti < p.0 {
        assert(tracks[ti].clips[ci].clip.id != id);
    } else {
        seqs::lemma_first_where_found(tracks[ti].clips, is_clip(id), ci);
        seqs::lemma_first_where_found(tracks[ti].clips, is_clip(id), p.1);
    }
}

/// What [`find`] says of the tracks.
pub proof fn lemma_find(tracks: Seq<TrackView>, id: ClipId)
    ensures
        match find(tracks, id) {
            Some((ti, ci)) => found_at(tracks, id, ti, ci),
            None => forall|ti: int, ci: int| !found_at(tracks, id, ti, ci),
        },
{
    if exists|ti: int, ci: int| found_at(tracks, id, ti, ci) {
        let (ti, ci) = choose|ti: int, ci: int| found_at(tracks, id, ti, ci);
        lemma_found(tracks, id, ti, ci);
    }
}

/// The clips of the given kind of track with their places.
pub open spec fn of_kind(kind: TrackKind) -> spec_fn((int, TrackView)) -> bool {
    |p: (int, TrackView)| p.1.kind == kind
}

/// The layer of a track goes by its name: V2 and A2 lie on top, everything
/// else at the bottom.
pub open spec fn layer_of(name: Seq<char>) -> usize {
    if name == "V2"@ || name == "A2"@ {
        1
    } else {
        0
    }
}

/// Whether a track is one of pictures and lies in the given layer.
pub open spec fn of_layer(layer: usize) -> spec_fn((int, TrackView)) -> bool {
    |p: (int, TrackView)| p.1.kind == TrackKind::Video && layer_of(p.1.name) == layer
}

/// The tracks with their places.
pub open spec fn numbered(tracks: Seq<TrackView>) -> Seq<(int, TrackView)> {
    Seq::new(tracks.len(), |i: int| (i, tracks[i]))
}

pub open spec fn numbered_views(tracks: Seq<(usize, &Track)>) -> Seq<(int, TrackView)> {
    Seq::new(tracks.len(), |i: int| (tracks[i].0 as int, tracks[i].1@))
}

/// The four tracks of a new project.
pub open spec fn four_tracks(a: TrackId, b: TrackId, c: TrackId, d: TrackId) -> ProjectView {
    ProjectView {
        tracks: seq![
            empty_track(a, "V2"@, TrackKind::Video),
            empty_track(b, "V1"@, TrackKind::Video),
            empty_track(c, "A1"@, TrackKind::Audio),
            empty_track(d, "A2"@, TrackKind::Audio),
        ],
    }
}

/// A new project: four empty tracks, under identifiers drawn at random.
pub open spec fn is_new_project(p: ProjectView) -> bool {
    &&& p.tracks.len() == 4
    &&& p == four_tracks(p.tracks[0].id, p.tracks[1].id, p.tracks[2].id, p.tracks[3].id)
    &&& forall|i: int| 0 <= i < 4 ==> ident::is_random_id((#[trigger] p.tracks[i]).id)
}

/// How long the first `n` clips play, one after the other.
pub open spec fn played(clips: Seq<ClipView>, n: int) -> int
    decreases n,
{
    if n <= 0 {
        0
    } else {
        played(clips, n - 1) + clips[n - 1].dur_us()
    }
}

/// Every clip starts at a place that fits the timeline when the clips are laid
/// out one after the other.
pub open spec fn fits_in_a_row(clips: Seq<ClipView>) -> bool {
    forall|n: int| 0 <= n <= clips.len() ==> i64::MIN <= #[trigger] played(clips, n) <= i64::MAX
}

/// Whether every clip starts at a place that fits the timeline when the clips
/// are laid out one after the other.
pub fn can_lie_in_a_row(playlist: &Playlist) -> (r: bool)
    ensures
        r == fits_in_a_row(playlist@),
{
    let clips: &[Clip] = playlist.clips();
    let mut end_us: i64 = 0;
    let mut i: usize = 0;
    while i < clips.len()
        invariant
            i <= clips.len(),
            clips@.len() == playlist@.len(),
            forall|j: int| 0 <= j < clips@.len() ==> (#[trigger] clips@[j])@ == playlist@[j],
            end_us == played(playlist@, i as int),
            forall|n: int|
                0 <= n <= i ==> i64::MIN <= #[trigger] played(playlist@, n) <= i64::MAX,
        decreases clips.len() - i,
    {
        let next: i128 = end_us as i128 + clips[i].effective_duration_us() as i128;
        assert(next == played(playlist@, i + 1));
        if next < i64::MIN as i128 || next > i64::MAX as i128 {
            return false;
        }
        end_us = next as i64;
        i = i + 1;
    }
    true
}

/// The clips one after the other, from the start of the timeline.
pub open spec fn in_a_row(clips: Seq<ClipView>) -> Seq<TrackClipView> {
    Seq::new(
        clips.len(),
        |i: int| TrackClipView { clip: clips[i], start_us: played(clips, i) as i64 },
    )
}

/// The tracks of a project whose tracks V1 and A1 are emptied.
pub open spec fn emptied(tracks: Seq<TrackView>) -> Seq<TrackView> {
    tracks.update(1, TrackView { clips: Seq::empty(), ..tracks[1] }).update(
        2,
        TrackView { clips: Seq::empty(), ..tracks[2] },
    )
}

/// A project that is new but for the clips, which are one after the other on
/// its track V1, and in the same places on A1 for their sound.
pub open spec fn holds_in_a_row(p: ProjectView, clips: Seq<ClipView>) -> bool {
    &&& p.tracks.len() == 4
    &&& is_new_project(ProjectView { tracks: emptied(p.tracks) })
    &&& p.tracks[1].clips == in_a_row(clips)
    &&& p.tracks[2].clips == in_a_row(clips)
}

/// The clips without their places.
pub open spec fn clips_only(placed: Seq<TrackClipView>) -> Seq<ClipView> {
    placed.map_values(|tc: TrackClipView| tc.clip)
}

/// `out` is the playlist of a project: the clips of its first track named V1,
/// in the order in which they start.
pub open spec fn is_playlist_of(out: Seq<ClipView>, tracks: Seq<TrackView>) -> bool {
    match track_index(tracks, "V1"@) {
        Some(i) => exists|sorted: Seq<TrackClipView>|
            sorting::stably_sorted(sorted, tracks[i].clips, by_start()) && out
                == #[trigger] clips_only(sorted),
        None => out == Seq::<ClipView>::empty(),
    }
}

impl Default for Project {
    fn default() -> (res: Self)
        ensures
            is_new_project(res@),
    {
        Project::with_default_tracks()
    }
}

impl Project {
    /// A project with the tracks V2, V1, A1 and A2.
    pub fn with_default_tracks() -> (res: Self)
        ensures
            is_new_project(res@),
    {
        let mut tracks: Vec<Track> = Vec::new();
        tracks.push(Track::new("V2", TrackKind::Video));
        tracks.push(Track::new("V1", TrackKind::Video));
        tracks.push(Track::new("A1", TrackKind::Audio));
        tracks.push(Track::new("A2", TrackKind::Audio));
        let res: Project = Project { tracks };
        proof {
            let p = res@;
            assert(p.tracks =~= four_tracks(
                p.tracks[0].id,
                p.tracks[1].id,
                p.tracks[2].id,
                p.tracks[3].id,
            ).tracks);
        }
        res
    }

    /// A project with the clips of a playlist one after the other on V1, and in
    /// the same places on A1 for their sound. V2 and A2 are empty.
    pub fn from_playlist(playlist: &Playlist) -> (res: Self)
        requires
            fits_in_a_row(playlist@),
        ensures
            holds_in_a_row(res@, playlist@),
    {
        let mut project: Project = Project::with_default_tracks();
        let ghost fresh = project@;
        let mut row: Vec<TrackClip> = Vec::new();
        let clips: &[Clip] = playlist.clips();
        let mut cursor_us: i64 = 0;
        let mut i: usize = 0;
        while i < clips.len()
            invariant
                i <= clips.len(),
                clips@.len() == playlist@.len(),
                forall|j: int| 0 <= j < clips@.len() ==> (#[trigger] clips@[j])@ == playlist@[j],
                fits_in_a_row(playlist@),
                cursor_us == played(playlist@, i as int),
                row@.len() == i,
                forall|j: int|
                    0 <= j < i ==> (#[trigger] row@[j])@ == in_a_row(playlist@)[j],
            decreases clips.len() - i,
        {
            let c: &Clip = &clips[i];
            row.push(TrackClip { clip: c.clone(), start_us: cursor_us });
            assert(i64::MIN <= played(playlist@, i + 1) <= i64::MAX);
            cursor_us = cursor_us + c.effective_duration_us();
            i = i + 1;
        }
        let sound: Vec<TrackClip> = clone_placed(&row);
        assert(placed_views(row@) =~= in_a_row(playlist@));
        project.tracks[1].clips = row;
        project.tracks[2].clips = sound;
        assert(emptied(project@.tracks) =~= fresh.tracks);
        project
    }

    /// The latest end of a clip of any track.
    pub fn duration_us(&self) -> (us: i64)
        requires
            ends_fit(all_placed(self@.tracks)),
        ensures
            is_latest_end(all_placed(self@.tracks), us as int),
    {
        let ghost tracks = self@.tracks;
        let mut latest: i64 = 0;
        let mut any: bool = false;
        let mut i: usize = 0;
        assert(tracks.take(0) =~= Seq::empty());
        while i < self.tracks.len()
            invariant
                i <= self.tracks.len(),
                tracks == self@.tracks,
                tracks.len() == self.tracks@.len(),
                ends_fit(all_placed(tracks)),
                is_latest_end(all_placed(tracks.take(i as int)), latest as int),
                any == (all_placed(tracks.take(i as int)).len() > 0),
            decreases self.tracks.len() - i,
        {
            let t: &Track = &self.tracks[i];
            let ghost seen = all_placed(tracks.take(i as int));
            proof {
                assert(tracks[i as int] == t@);
                assert(tracks.take(i + 1).drop_last() =~= tracks.take(i as int));
                assert(all_placed(tracks.take(i + 1)) == seen + t@.clips);
                lemma_all_placed_prefix(tracks, i + 1);
                assert forall|j: int| 0 <= j < t@.clips.len() implies (
                #[trigger] t@.clips[j]).end_fits() by {
                    assert(all_placed(tracks.take(i + 1))[seen.len() + j] == t@.clips[j]);
                    assert(all_placed(tracks)[seen.len() + j] == t@.clips[j]);
                }
            }
            let ghost now = seen + t@.clips;
            let ghost before = latest;
            if t.clips.len() > 0 {
                let end: i64 = t.duration_us();
                proof {
                    let k = choose|k: int| 0 <= k < t@.clips.len() && (
                    #[trigger] t@.clips[k]).end() == end;
                    assert(now[seen.len() + k] == t@.clips[k]);
                    if any {
                        let m = choose|m: int| 0 <= m < seen.len() && (
                        #[trigger] seen[m]).end() == before;
                        assert(now[m] == seen[m]);
                    }
                }
                if !any || end > latest {
                    latest = end;
                }
                any = true;
                assert forall|j: int| 0 <= j < now.len() implies (#[trigger] now[j]).end()
                    <= latest by {
                    if j < seen.len() {
                        assert(now[j] == seen[j]);
                    } else {
                        assert(now[j] == t@.clips[j - seen.len()]);
                    }
                }
            } else {
                assert(t@.clips.len() == 0);
                assert(now =~= seen);
            }
            i = i + 1;
        }
        assert(tracks.take(i as int) =~= tracks);
        latest
    }

    /// The place of the first track with the given name.
    pub fn track_index_by_name(&self, name: &str) -> (r: Option<usize>)
        ensures
            match r {
                Some(i) => i < self@.tracks.len() && track_index(self@.tracks, name@) == Some(
                    i as int,
                ),
                None => track_index(self@.tracks, name@) is None,
            },
    {
        let mut i: usize = 0;
        while i < self.tracks.len()
            invariant
                i <= self.tracks.len(),
                self@.tracks.len() == self.tracks@.len(),
                forall|j: int|
                    0 <= j < self@.tracks.len() ==> #[trigger] self@.tracks[j]
                        == self.tracks@[j]@,
                forall|j: int| 0 <= j < i ==> !is_named(name@)(#[trigger] self@.tracks[j]),
            decreases self.tracks.len() - i,
        {
            if text::same_text(self.tracks[i].name.as_str(), name) {
                proof {
                    assert(is_named(name@)(self@.tracks[i as int]));
                    seqs::lemma_first_where_found(self@.tracks, is_named(name@), i as int);
                }
                return Some(i);
            }
            assert(!is_named(name@)(self@.tracks[i as int]));
            i = i + 1;
        }
        proof {
            seqs::lemma_first_where_none(self@.tracks, is_named(name@));
        }
        None
    }

    /// The track of the clip, and its place there.
    pub fn find_clip(&self, clip_id: ClipId) -> (r: Option<(usize, usize)>)
        ensures
            match r {
                Some((ti, ci)) => found_at(self@.tracks, clip_id, ti as int, ci as int) && find(
                    self@.tracks,
                    clip_id,
                ) == Some((ti as int, ci as int)),
                None => find(self@.tracks, clip_id) is None,
            },
    {
        let mut i: usize = 0;
        while i < self.tracks.len()
            invariant
                i <= self.tracks.len(),
                self@.tracks.len() == self.tracks@.len(),
                forall|j: int|
                    0 <= j < self@.tracks.len() ==> #[trigger] self@.tracks[j]
                        == self.tracks@[j]@,
                forall|t: int, c: int|
                    0 <= t < i && 0 <= c < self@.tracks[t].clips.len() ==> (
                    #[trigger] self@.tracks[t].clips[c]).clip.id != clip_id,
            decreases self.tracks.len() - i,
        {
            assert(self@.tracks[i as int] == self.tracks@[i as int]@);
            match self.tracks[i].position(clip_id) {
                Some(ci) => {
                    proof {
                        lemma_found(self@.tracks, clip_id, i as int, ci as int);
                    }
                    return Some((i, ci));
                },
                None => {},
            }
            i = i + 1;
        }
        proof {
            if exists|ti: int, ci: int| found_at(self@.tracks, clip_id, ti, ci) {
                let (ti, ci) = choose|ti: int, ci: int| found_at(self@.tracks, clip_id, ti, ci);
                assert(self@.tracks[ti].clips[ci].clip.id != clip_id);
            }
        }
        None
    }

    /// All clips, one track after the other.
    pub fn all_clips(&self) -> (r: Vec<&Clip>)
        ensures
            r@.len() == all_placed(self@.tracks).len(),
            forall|i: int|
                0 <= i < r@.len() ==> (#[trigger] r@[i])@ == all_placed(self@.tracks)[i].clip,
    {
        let ghost tracks = self@.tracks;
        let mut r: Vec<&Clip> = Vec::new();
        let mut i: usize = 0;
        assert(tracks.take(0) =~= Seq::empty());
        while i < self.tracks.len()
            invariant
                i <= self.tracks.len(),
                tracks == self@.tracks,
                tracks.len() == self.tracks@.len(),
                r@.len() == all_placed(tracks.take(i as int)).len(),
                forall|j: int|
                    0 <= j < r@.len() ==> (#[trigger] r@[j])@ == all_placed(
                        tracks.take(i as int),
                    )[j].clip,
            decreases self.tracks.len() - i,
        {
            let t: &Track = &self.tracks[i];
            let ghost seen = all_placed(tracks.take(i as int));
            proof {
                assert(tracks[i as int] == t@);
                assert(tracks.take(i + 1).drop_last() =~= tracks.take(i as int));
                assert(all_placed(tracks.take(i + 1)) == seen + t@.clips);
            }
            let mut k: usize = 0;
            while k < t.clips.len()
                invariant
                    k <= t.clips.len(),
                    t@.clips.len() == t.clips@.len(),
                    r@.len() == seen.len() + k,
                    forall|j: int|
                        0 <= j < r@.len() ==> (#[trigger] r@[j])@ == (seen + t@.clips)[j].clip,
                decreases t.clips.len() - k,
            {
                r.push(&t.clips[k].clip);
                assert((seen + t@.clips)[seen.len() + k] == t@.clips[k as int]);
                k = k + 1;
            }
            i = i + 1;
        }
        assert(tracks.take(i as int) =~= tracks);
        r
    }

    /// How many clips there are on all tracks.
    pub fn clip_count(&self) -> (n: usize)
        requires
            all_placed(self@.tracks).len() <= usize::MAX,
        ensures
            n == all_placed(self@.tracks).len(),
    {
        let ghost tracks = self@.tracks;
        let mut n: usize = 0;
        let mut i: usize = 0;
        assert(tracks.take(0) =~= Seq::empty());
        while i < self.tracks.len()
            invariant
                i <= self.tracks.len(),
                tracks == self@.tracks,
                tracks.len() == self.tracks@.len(),
                all_placed(tracks).len() <= usize::MAX,
                n == all_placed(tracks.take(i as int)).len(),
            decreases self.tracks.len() - i,
        {
            proof {
                assert(tracks[i as int] == self.tracks@[i as int]@);
                assert(tracks.take(i + 1).drop_last() =~= tracks.take(i as int));
                lemma_all_placed_prefix(tracks, i + 1);
            }
            n = n + self.tracks[i].clips.len();
            i = i + 1;
        }
        assert(tracks.take(i as int) =~= tracks);
        n
    }

    /// Whether no track has a clip.
    pub fn is_empty(&self) -> (r: bool)
        ensures
            r == (forall|i: int|
                0 <= i < self@.tracks.len() ==> (#[trigger] self@.tracks[i]).clips.len() == 0),
    {
        let mut i: usize = 0;
        while i < self.tracks.len()
            invariant
                i <= self.tracks.len(),
                self@.tracks.len() == self.tracks@.len(),
                forall|j: int|
                    0 <= j < self@.tracks.len() ==> #[trigger] self@.tracks[j]
                        == self.tracks@[j]@,
                forall|j: int| 0 <= j < i ==> (#[trigger] self@.tracks[j]).clips.len() == 0,
            decreases self.tracks.len() - i,
        {
            assert(self@.tracks[i as int] == self.tracks@[i as int]@);
            if self.tracks[i].clips.len() != 0 {
                return false;
            }
            i = i + 1;
        }
        true
    }

    /// The tracks of one kind with their places, in the order of the project.
    pub fn tracks_of_kind(&self, kind: TrackKind) -> (r: Vec<(usize, &Track)>)
        ensures
            numbered_views(r@) == numbered(self@.tracks).filter(of_kind(kind)),
    {
        let ghost all = numbered(self@.tracks);
        let ghost keep = of_kind(kind);
        let mut r: Vec<(usize, &Track)> = Vec::new();
        let mut i: usize = 0;
        assert(numbered_views(r@) =~= all.take(0).filter(keep)) by {
            reveal(Seq::filter);
        }
        while i < self.tracks.len()
            invariant
                i <= self.tracks.len(),
                all == numbered(self@.tracks),
                keep == of_kind(kind),
                self@.tracks.len() == self.tracks@.len(),
                numbered_views(r@) == all.take(i as int).filter(keep),
            decreases self.tracks.len() - i,
        {
            let t: &Track = &self.tracks[i];
            proof {
                reveal(Seq::filter);
                assert(all[i as int] == (i as int, t@));
                assert(all.take(i + 1).drop_last() =~= all.take(i as int));
                assert(all.take(i + 1).last() == all[i as int]);
            }
            if t.kind == kind {
                let ghost before = r@;
                r.push((i, t));
                assert(numbered_views(r@) =~= numbered_views(before).push(
                    (i as int, t@),
                ));
            }
            i = i + 1;
        }
        assert(all.take(i as int) =~= all);
        r
    }

    fn video_tracks_in(&self, layer: usize) -> (r: Vec<(usize, &Track)>)
        ensures
            numbered_views(r@) == numbered(self@.tracks).filter(of_layer(layer)),
    {
        let ghost all = numbered(self@.tracks);
        let ghost keep = of_layer(layer);
        let mut r: Vec<(usize, &Track)> = Vec::new();
        let mut i: usize = 0;
        assert(numbered_views(r@) =~= all.take(0).filter(keep)) by {
            reveal(Seq::filter);
        }
        while i < self.tracks.len()
            invariant
                i <= self.tracks.len(),
                all == numbered(self@.tracks),
                keep == of_layer(layer),
                self@.tracks.len() == self.tracks@.len(),
                numbered_views(r@) == all.take(i as int).filter(keep),
            decreases self.tracks.len() - i,
        {
            let t: &Track = &self.tracks[i];
            proof {
                reveal(Seq::filter);
                assert(all[i as int] == (i as int, t@));
                assert(all.take(i + 1).drop_last() =~= all.take(i as int));
                assert(all.take(i + 1).last() == all[i as int]);
            }
            if t.kind == TrackKind::Video && t.layer() == layer {
                let ghost before = r@;
                r.push((i, t));
                assert(numbered_views(r@) =~= numbered_views(before).push(
                    (i as int, t@),
                ));
            }
            i = i + 1;
        }
        assert(all.take(i as int) =~= all);
        r
    }

    /// The video tracks with their places, from the bottom layer to the top:
    /// V1 before V2. Those of one layer are in the order of the project.
    pub fn video_tracks(&self) -> (r: Vec<(usize, &Track)>)
        ensures
            numbered_views(r@) == numbered(self@.tracks).filter(of_layer(0)) + numbered(
                self@.tracks,
            ).filter(of_layer(1)),
    {
        let mut r: Vec<(usize, &Track)> = self.video_tracks_in(0);
        let mut top: Vec<(usize, &Track)> = self.video_tracks_in(1);
        let ghost bottom = r@;
        let ghost over = top@;
        r.append(&mut top);
        assert(numbered_views(r@) =~= numbered_views(bottom) + numbered_views(over));
        r
    }

    /// The audio tracks with their places.
    pub fn audio_tracks(&self) -> (r: Vec<(usize, &Track)>)
        ensures
            numbered_views(r@) == numbered(self@.tracks).filter(
                of_kind(TrackKind::Audio),
            ),
    {
        self.tracks_of_kind(TrackKind::Audio)
    }

    /// The clips of V1, in the order in which they start.
    pub fn to_playlist(&self) -> (res: Playlist)
        ensures
            is_playlist_of(res@, self@.tracks),
    {
        match self.track_index_by_name("V1") {
            Some(i) => {
                let mut sorted: Track = self.tracks[i].clone();
                sorted.sort_clips();
                let mut pl: Playlist = Playlist::new();
                let mut k: usize = 0;
                while k < sorted.clips.len()
                    invariant
                        k <= sorted.clips.len(),
                        pl@ == clips_only(sorted@.clips).take(k as int),
                    decreases sorted.clips.len() - k,
                {
                    pl.push(sorted.clips[k].clip.clone());
                    k = k + 1;
                    assert(clips_only(sorted@.clips).take(k as int) =~= clips_only(
                        sorted@.clips,
                    ).take(k - 1).push(sorted.clips@[k - 1]@.clip));
                }
                assert(clips_only(sorted@.clips).take(k as int) =~= clips_only(sorted@.clips));
                pl
            },
            None => Playlist::new(),
        }
    }
}

proof fn lemma_row_is_in_order(clips: Seq<ClipView>, i: int, j: int)
    requires
        0 <= i <= j < clips.len(),
        forall|k: int| 0 <= k < clips.len() ==> (#[trigger] clips[k]).dur_us() >= 0,
    ensures
        played(clips, i) <= played(clips, j),
    decreases j,
{
    if i < j {
        lemma_row_is_in_order(clips, i, j - 1);
        assert(clips[j - 1].dur_us() >= 0);
    }
}

/// Clips that lie one after the other are in the order in which they start.
pub proof fn lemma_row_is_sorted(clips: Seq<ClipView>)
    requires
        fits_in_a_row(clips),
        forall|k: int| 0 <= k < clips.len() ==> (#[trigger] clips[k]).dur_us() >= 0,
    ensures
        sorting::stably_sorted(in_a_row(clips), in_a_row(clips), by_start()),
{
    let row = in_a_row(clips);
    assert forall|i: int, j: int|
        #![trigger row[i], row[j]]
        0 <= i <= j < row.len() implies !sorting::before(
        by_start()(row[j]),
        by_start()(row[i]),
    ) by {
        lemma_row_is_in_order(clips, i, j);
        assert(i64::MIN <= played(clips, i) <= i64::MAX);
        assert(i64::MIN <= played(clips, j) <= i64::MAX);
    }
    assert(sorting::stably_sorted(row, row, by_start()));
}

/// A playlist that was made into a project comes back from it as it was.
pub proof fn lemma_playlist_round_trip(
    out: Seq<ClipView>,
    clips: Seq<ClipView>,
    tracks: Seq<TrackView>,
)
    requires
        fits_in_a_row(clips),
        forall|k: int| 0 <= k < clips.len() ==> (#[trigger] clips[k]).dur_us() >= 0,
        holds_in_a_row(ProjectView { tracks }, clips),
        is_playlist_of(out, tracks),
    ensures
        out == clips,
{
    let empty = emptied(tracks);
    assert(empty[0].name == "V2"@ && empty[1].name == "V1"@);
    assert(tracks[0] == empty[0]);
    reveal_strlit("V1");
    reveal_strlit("V2");
    assert("V1"@[1] != "V2"@[1]);
    assert(is_named("V1"@)(tracks[1]));
    seqs::lemma_first_where_found(tracks, is_named("V1"@), 1);
    let row = in_a_row(clips);
    let sorted = choose|sorted: Seq<TrackClipView>|
        sorting::stably_sorted(sorted, row, by_start()) && out == #[trigger] clips_only(sorted);
    lemma_row_is_sorted(clips);
    sorting::lemma_stably_sorted_is_unique(sorted, row, row, by_start());
    assert(clips_only(row) =~= clips);
}

pub proof fn lemma_all_placed_prefix(tracks: Seq<TrackView>, n: int)
    requires
        0 <= n <= tracks.len(),
    ensures
        all_placed(tracks.take(n)).len() <= all_placed(tracks).len(),
        forall|i: int|
            0 <= i < all_placed(tracks.take(n)).len() ==> #[trigger] all_placed(tracks)[i]
                == all_placed(tracks.take(n))[i],
    decreases tracks.len() - n,
{
    if n == tracks.len() {
        assert(tracks.take(n) =~= tracks);
    } else {
        lemma_all_placed_prefix(tracks, n + 1);
        assert(tracks.take(n + 1).drop_last() =~= tracks.take(n));
        let short = all_placed(tracks.take(n));
        let long = all_placed(tracks.take(n + 1));
        assert forall|i: int| 0 <= i < short.len() implies #[trigger] all_placed(tracks)[i]
            == short[i] by {
            assert(long[i] == short[i]);
        }
    }
}

} // verus!
