//! Which clips of a playlist lie on which track of a project.
//!
//! A clip names its track by a number: 0 stands for the video track V1, 1 for
//! V2, and so on.

use vstd::prelude::*;
use vstd::string::*;

use super::timeline_view;
use super::timeline_view::{position_after, start_of};
use crate::domain::clip::{Clip, ClipView};
use crate::domain::playlist::Playlist;
use crate::domain::project;
use crate::domain::project::{Project, Track, TrackClip, TrackClipView, TrackKind, TrackView};
use crate::ident::TrackId;
use crate::seqs;
use crate::text;

verus! {

/// The name of the video track that `value` stands for.
pub open spec fn lane_name(value: u8) -> Seq<char> {
    "V"@ + text::dec((value + 1) as nat)
}

/// Whether a track is the one that `value` stands for.
pub open spec fn is_lane(value: u8) -> spec_fn(TrackView) -> bool {
    |t: TrackView| t.kind == TrackKind::Video && t.name == lane_name(value)
}

/// The place of the track that `value` stands for.
pub open spec fn lane_index(tracks: Seq<TrackView>, value: u8) -> Option<int> {
    seqs::first_where(tracks, is_lane(value))
}

/// The least number from `from` on that stands for a track.
pub open spec fn least_lane(t: TrackView, from: int) -> Option<u8>
    decreases 256 - from,
{
    if from < 0 || from >= 256 {
        None
    } else if is_lane(from as u8)(t) {
        Some(from as u8)
    } else {
        least_lane(t, from + 1)
    }
}

/// The number that stands for a track. Tracks of sound have none.
pub open spec fn lane_of(t: TrackView) -> Option<u8> {
    least_lane(t, 0)
}

fn lane_text(value: u8) -> (s: String)
    ensures
        s@ == lane_name(value),
{
    let mut s: String = "V".to_owned();
    text::push_dec(&mut s, value as u128 + 1);
    s
}

fn stands_for(t: &Track, value: u8) -> (r: bool)
    ensures
        r == is_lane(value)(t@),
{
    match t.kind {
        TrackKind::Video => {
            let name: String = lane_text(value);
            text::same_text(t.name.as_str(), name.as_str())
        },
        TrackKind::Audio => false,
    }
}

fn lane_value(t: &Track) -> (r: Option<u8>)
    ensures
        r == lane_of(t@),
{
    let mut v: u16 = 0;
    while v < 256
        invariant
            v <= 256,
            lane_of(t@) == least_lane(t@, v as int),
        decreases 256 - v,
    {
        if stands_for(t, v as u8) {
            return Some(v as u8);
        }
        v = v + 1;
    }
    None
}

/// The clips of the track `value` among the first `n` clips, each where it lies
/// on the timeline.
pub open spec fn lane_clips(clips: Seq<ClipView>, value: u8, n: int) -> Seq<TrackClipView>
    decreases n,
{
    if n <= 0 {
        Seq::empty()
    } else if clips[n - 1].video_track == value {
        lane_clips(clips, value, n - 1).push(
            TrackClipView {
                clip: clips[n - 1],
                start_us: timeline_view::start_at(clips, n - 1),
            },
        )
    } else {
        lane_clips(clips, value, n - 1)
    }
}

/// The number under which the track at `i` gets clips. Of two tracks of one
/// name only the first gets any.
pub open spec fn served_lane(tracks: Seq<TrackView>, i: int) -> Option<u8> {
    match lane_of(tracks[i]) {
        Some(v) => if lane_index(tracks, v) == Some(i) {
            Some(v)
        } else {
            None
        },
        None => None,
    }
}

/// The clips that the track at `i` gets.
pub open spec fn clips_for(tracks: Seq<TrackView>, i: int, clips: Seq<ClipView>) -> Seq<
    TrackClipView,
> {
    match served_lane(tracks, i) {
        Some(v) => lane_clips(clips, v, clips.len() as int),
        None => Seq::empty(),
    }
}

/// The tracks with the clips of a playlist in place of their own.
pub open spec fn populated(tracks: Seq<TrackView>, clips: Seq<ClipView>) -> Seq<TrackView> {
    Seq::new(
        tracks.len(),
        |i: int| TrackView { clips: clips_for(tracks, i, clips), ..tracks[i] },
    )
}

fn placed_on(playlist: &Playlist, value: u8) -> (row: Vec<TrackClip>)
    ensures
        project::placed_views(row@) == lane_clips(playlist@, value, playlist@.len() as int),
{
    let clips: &[Clip] = playlist.clips();
    let mut row: Vec<TrackClip> = Vec::new();
    let mut at: i64 = 0;
    let mut i: usize = 0;
    assert(project::placed_views(row@) =~= Seq::<TrackClipView>::empty());
    while i < clips.len()
        invariant
            i <= clips.len(),
            clips@.len() == playlist@.len(),
            forall|j: int| 0 <= j < clips@.len() ==> (#[trigger] clips@[j])@ == playlist@[j],
            at == timeline_view::cursor(playlist@, value, i as int),
            project::placed_views(row@) == lane_clips(playlist@, value, i as int),
        decreases clips.len() - i,
    {
        let c: &Clip = &clips[i];
        if c.video_track == value {
            let start: i64 = start_of(c, at);
            let ghost had = row@;
            let placed: TrackClip = TrackClip { clip: c.clone(), start_us: start };
            row.push(placed);
            assert(project::placed_views(row@) =~= project::placed_views(had).push(placed@));
            at = position_after(start, c.effective_duration_us());
        }
        i = i + 1;
    }
    row
}

/// The letter that names of tracks of a kind begin with.
pub open spec fn letter(kind: TrackKind) -> Seq<char> {
    match kind {
        TrackKind::Video => "V"@,
        TrackKind::Audio => "A"@,
    }
}

/// The name of the `n`-th track of a kind.
pub open spec fn numbered_name(kind: TrackKind, n: int) -> Seq<char> {
    letter(kind) + text::dec(n as nat)
}

/// How many of the tracks are of a kind.
pub open spec fn count_of(tracks: Seq<TrackView>, kind: TrackKind) -> int
    decreases tracks.len(),
{
    if tracks.len() == 0 {
        0
    } else if tracks.last().kind == kind {
        count_of(tracks.drop_last(), kind) + 1
    } else {
        count_of(tracks.drop_last(), kind)
    }
}

/// A track that stands for a number above `removed` stands for the number
/// before it.
pub open spec fn moved_down(t: TrackView, removed: u8) -> TrackView {
    match lane_of(t) {
        Some(v) => if v > removed {
            TrackView { name: lane_name((v - 1) as u8), ..t }
        } else {
            t
        },
        None => t,
    }
}

/// The tracks without the one at `i`. Where that one stands for a number, the
/// tracks above it close up.
pub open spec fn without_track(tracks: Seq<TrackView>, i: int) -> Seq<TrackView> {
    let rest = tracks.remove(i);
    match lane_of(tracks[i]) {
        Some(v) => Seq::new(rest.len(), |k: int| moved_down(rest[k], v)),
        None => rest,
    }
}

impl Project {
    /// The place of the track that `value` stands for.
    pub fn track_index_for_video_track_value(&self, value: u8) -> (r: Option<usize>)
        ensures
            match r {
                Some(i) => i < self@.tracks.len() && lane_index(self@.tracks, value) == Some(
                    i as int,
                ),
                None => lane_index(self@.tracks, value) is None,
            },
    {
        let mut i: usize = 0;
        while i < self.tracks.len()
            invariant
                i <= self.tracks.len(),
                self@.tracks.len() == self.tracks@.len(),
                forall|j: int| 0 <= j < i ==> !is_lane(value)(#[trigger] self@.tracks[j]),
            decreases self.tracks.len() - i,
        {
            let t: &Track = &self.tracks[i];
            assert(self@.tracks[i as int] == t@);
            if stands_for(t, value) {
                proof {
                    seqs::lemma_first_where_found(self@.tracks, is_lane(value), i as int);
                }
                return Some(i);
            }
            i = i + 1;
        }
        proof {
            seqs::lemma_first_where_none(self@.tracks, is_lane(value));
        }
        None
    }

    /// The number that stands for the track at `idx`, if there is one.
    pub fn video_track_value_for_index(&self, idx: usize) -> (r: Option<u8>)
        ensures
            r == if idx < self@.tracks.len() {
                lane_of(self@.tracks[idx as int])
            } else {
                None
            },
    {
        if idx < self.tracks.len() {
            lane_value(&self.tracks[idx])
        } else {
            None
        }
    }

    /// Put the clips of a playlist onto their tracks in place of the clips
    /// there, each where it lies on the timeline. Everything else about the
    /// tracks stays.
    pub fn populate_from_playlist(&mut self, playlist: &Playlist)
        ensures
            final(self)@.tracks == populated(old(self)@.tracks, playlist@),
    {
        let ghost tracks = self@.tracks;
        let n: usize = self.tracks.len();
        let mut lanes: Vec<Option<u8>> = Vec::new();
        let mut i: usize = 0;
        while i < n
            invariant
                i <= n,
                n == self.tracks@.len(),
                self@.tracks == tracks,
                tracks.len() == n,
                lanes@.len() == i,
                forall|j: int| 0 <= j < i ==> #[trigger] lanes@[j] == served_lane(tracks, j),
            decreases n - i,
        {
            assert(tracks[i as int] == self.tracks@[i as int]@);
            let lane: Option<u8> = match lane_value(&self.tracks[i]) {
                Some(v) => match self.track_index_for_video_track_value(v) {
                    Some(at) => if at == i {
                        Some(v)
                    } else {
                        None
                    },
                    None => None,
                },
                None => None,
            };
            lanes.push(lane);
            i = i + 1;
        }
        let mut k: usize = 0;
        while k < n
            invariant
                k <= n,
                n == self.tracks@.len(),
                tracks.len() == n,
                lanes@.len() == n,
                forall|j: int| 0 <= j < n ==> #[trigger] lanes@[j] == served_lane(tracks, j),
                forall|j: int|
                    0 <= j < k ==> (#[trigger] self.tracks@[j])@ == populated(tracks, playlist@)[j],
                forall|j: int| k <= j < n ==> (#[trigger] self.tracks@[j])@ == tracks[j],
            decreases n - k,
        {
            let row: Vec<TrackClip> = match lanes[k] {
                Some(v) => placed_on(playlist, v),
                None => Vec::new(),
            };
            assert(project::placed_views(row@) =~= clips_for(tracks, k as int, playlist@));
            let ghost before = self.tracks@;
            self.tracks[k].clips = row;
            assert(self.tracks@[k as int]@ == populated(tracks, playlist@)[k as int]);
            assert forall|j: int| k < j < n implies (#[trigger] self.tracks@[j])@
                == tracks[j] by {
                assert(self.tracks@[j] == before[j]);
            }
            assert forall|j: int| 0 <= j < k implies (#[trigger] self.tracks@[j])@ == populated(
                tracks,
                playlist@,
            )[j] by {
                assert(self.tracks@[j] == before[j]);
            }
            k = k + 1;
        }
        assert(self@.tracks =~= populated(tracks, playlist@));
    }

    /// Whether every clip ends within the timeline.
    pub fn ends_in_range(&self) -> (r: bool)
        ensures
            r == project::ends_fit(project::all_placed(self@.tracks)),
    {
        let ghost tracks = self@.tracks;
        let mut i: usize = 0;
        assert(tracks.take(0) =~= Seq::empty());
        while i < self.tracks.len()
            invariant
                i <= self.tracks.len(),
                tracks == self@.tracks,
                tracks.len() == self.tracks@.len(),
                project::ends_fit(project::all_placed(tracks.take(i as int))),
            decreases self.tracks.len() - i,
        {
            let t: &Track = &self.tracks[i];
            let ghost seen = project::all_placed(tracks.take(i as int));
            proof {
                assert(tracks[i as int] == t@);
                assert(tracks.take(i + 1).drop_last() =~= tracks.take(i as int));
                assert(project::all_placed(tracks.take(i + 1)) == seen + t@.clips);
            }
            let mut k: usize = 0;
            while k < t.clips.len()
                invariant
                    k <= t.clips.len(),
                    t@.clips.len() == t.clips@.len(),
                    0 <= i < tracks.len(),
                    tracks == self@.tracks,
                    tracks[i as int] == t@,
                    seen == project::all_placed(tracks.take(i as int)),
                    project::all_placed(tracks.take(i + 1)) == seen + t@.clips,
                    forall|j: int| 0 <= j < k ==> (#[trigger] t@.clips[j]).end_fits(),
                decreases t.clips.len() - k,
            {
                let tc: &TrackClip = &t.clips[k];
                assert(t@.clips[k as int] == tc@);
                let end: i128 = tc.start_us as i128 + tc.clip.effective_duration_us() as i128;
                if end < -0x8000_0000_0000_0000 || end > 0x7fff_ffff_ffff_ffff {
                    proof {
                        let at = seen.len() + k;
                        assert(project::all_placed(tracks.take(i + 1))[at] == tc@);
                        project::lemma_all_placed_prefix(tracks, i + 1);
                        assert(project::all_placed(tracks)[at] == tc@);
                    }
                    return false;
                }
                k = k + 1;
            }
            assert(project::ends_fit(project::all_placed(tracks.take(i + 1)))) by {
                let all = project::all_placed(tracks.take(i + 1));
                assert forall|j: int| 0 <= j < all.len() implies (
                #[trigger] all[j]).end_fits() by {
                    if j < seen.len() {
                        assert(all[j] == seen[j]);
                    } else {
                        assert(all[j] == t@.clips[j - seen.len()]);
                    }
                }
            }
            i = i + 1;
        }
        assert(tracks.take(i as int) =~= tracks);
        true
    }

    /// The name of the next track of a kind: its number is one more than there
    /// are tracks of the kind.
    pub fn next_track_name(&self, kind: TrackKind) -> (s: String)
        ensures
            s@ == numbered_name(kind, count_of(self@.tracks, kind) + 1),
    {
        let ghost tracks = self@.tracks;
        let mut n: usize = 0;
        let mut i: usize = 0;
        assert(tracks.take(0) =~= Seq::empty());
        while i < self.tracks.len()
            invariant
                i <= self.tracks.len(),
                tracks == self@.tracks,
                tracks.len() == self.tracks@.len(),
                n == count_of(tracks.take(i as int), kind),
                n <= i,
            decreases self.tracks.len() - i,
        {
            proof {
                assert(tracks[i as int] == self.tracks@[i as int]@);
                assert(tracks.take(i + 1).drop_last() =~= tracks.take(i as int));
            }
            if self.tracks[i].kind == kind {
                n = n + 1;
            }
            i = i + 1;
        }
        assert(tracks.take(i as int) =~= tracks);
        let mut s: String = match kind {
            TrackKind::Video => "V".to_owned(),
            TrackKind::Audio => "A".to_owned(),
        };
        text::push_dec(&mut s, n as u128 + 1);
        s
    }

    /// Append an empty track under the given identifier.
    pub fn add_track_with_id(&mut self, id: TrackId, name: &str, kind: TrackKind)
        ensures
            final(self)@.tracks == old(self)@.tracks.push(project::empty_track(id, name@, kind)),
    {
        let t: Track = Track::with_id(id, name, kind);
        self.tracks.push(t);
        assert(self@.tracks =~= old(self)@.tracks.push(t@));
    }

    /// Take out the track at `idx`. Where it stands for a number, the tracks
    /// above it close up.
    pub fn remove_track(&mut self, idx: usize)
        requires
            idx < old(self)@.tracks.len(),
        ensures
            final(self)@.tracks == without_track(old(self)@.tracks, idx as int),
    {
        let ghost tracks = self@.tracks;
        let removed: Option<u8> = lane_value(&self.tracks[idx]);
        let _gone: Track = self.tracks.remove(idx);
        assert(self@.tracks =~= tracks.remove(idx as int));
        let ghost rest = self@.tracks;
        if let Some(v) = removed {
            let n: usize = self.tracks.len();
            let mut k: usize = 0;
            while k < n
                invariant
                    k <= n,
                    n == self.tracks@.len(),
                    rest.len() == n,
                    forall|j: int|
                        0 <= j < k ==> (#[trigger] self.tracks@[j])@ == moved_down(rest[j], v),
                    forall|j: int| k <= j < n ==> (#[trigger] self.tracks@[j])@ == rest[j],
                decreases n - k,
            {
                let ghost before = self.tracks@;
                if let Some(own) = lane_value(&self.tracks[k]) {
                    if own > v {
                        self.tracks[k].name = lane_text((own - 1) as u8);
                    }
                }
                assert(self.tracks@[k as int]@ == moved_down(rest[k as int], v));
                assert forall|j: int| k < j < n implies (#[trigger] self.tracks@[j])@
                    == rest[j] by {
                    assert(self.tracks@[j] == before[j]);
                }
                assert forall|j: int| 0 <= j < k implies (#[trigger] self.tracks@[j])@
                    == moved_down(rest[j], v) by {
                    assert(self.tracks@[j] == before[j]);
                }
                k = k + 1;
            }
            assert(self@.tracks =~= without_track(tracks, idx as int));
        }
    }
}

/// The clip at `i` of a playlist where it lies on the timeline.
pub open spec fn placed_at(clips: Seq<ClipView>, i: int) -> TrackClipView {
    TrackClipView { clip: clips[i], start_us: timeline_view::start_at(clips, i) }
}

/// The clips of a track are those of the playlist that name it, each where it
/// lies on the timeline.
pub proof fn lemma_lane_holds_its_clips(
    clips: Seq<ClipView>,
    value: u8,
    n: int,
    tc: TrackClipView,
)
    requires
        0 <= n <= clips.len(),
    ensures
        lane_clips(clips, value, n).contains(tc) == exists|i: int|
            0 <= i < n && tc == #[trigger] placed_at(clips, i) && clips[i].video_track == value,
    decreases n,
{
    if n > 0 {
        lemma_lane_holds_its_clips(clips, value, n - 1, tc);
        let before = lane_clips(clips, value, n - 1);
        let row = lane_clips(clips, value, n);
        let last = placed_at(clips, n - 1);
        if row.contains(tc) {
            let k = choose|k: int| 0 <= k < row.len() && row[k] == tc;
            if k < before.len() {
                assert(before[k] == tc);
                assert(before.contains(tc));
            } else {
                assert(tc == last);
            }
        }
        if exists|i: int|
            0 <= i < n && tc == #[trigger] placed_at(clips, i) && clips[i].video_track == value {
            let i = choose|i: int|
                0 <= i < n && tc == #[trigger] placed_at(clips, i) && clips[i].video_track == value;
            if i < n - 1 {
                let k = choose|k: int| 0 <= k < before.len() && before[k] == tc;
                assert(row[k] == tc);
            } else {
                assert(row[row.len() - 1] == tc);
            }
        }
    }
}

proof fn lemma_all_placed_contains(tracks: Seq<TrackView>, tc: TrackClipView)
    ensures
        project::all_placed(tracks).contains(tc) == exists|t: int|
            0 <= t < tracks.len() && (#[trigger] tracks[t]).clips.contains(tc),
    decreases tracks.len(),
{
    if tracks.len() > 0 {
        let rest = tracks.drop_last();
        lemma_all_placed_contains(rest, tc);
        let all = project::all_placed(tracks);
        let seen = project::all_placed(rest);
        let last = tracks.last().clips;
        assert(all == seen + last);
        if all.contains(tc) {
            let k = choose|k: int| 0 <= k < all.len() && all[k] == tc;
            if k < seen.len() {
                assert(seen[k] == tc);
                let t = choose|t: int|
                    0 <= t < rest.len() && (#[trigger] rest[t]).clips.contains(tc);
                assert(tracks[t] == rest[t]);
            } else {
                assert(last[k - seen.len()] == tc);
                assert(tracks[tracks.len() - 1].clips.contains(tc));
            }
        }
        if exists|t: int| 0 <= t < tracks.len() && (#[trigger] tracks[t]).clips.contains(tc) {
            let t = choose|t: int|
                0 <= t < tracks.len() && (#[trigger] tracks[t]).clips.contains(tc);
            if t < rest.len() {
                assert(rest[t] == tracks[t]);
                let k = choose|k: int| 0 <= k < seen.len() && seen[k] == tc;
                assert(all[k] == tc);
            } else {
                let c = choose|c: int| 0 <= c < last.len() && last[c] == tc;
                assert(all[seen.len() + c] == tc);
            }
        }
    }
}

/// Where every clip's track exists, the project holds exactly the clips of the
/// playlist, each where it lies on the timeline.
pub proof fn lemma_project_holds_the_playlist(
    tracks: Seq<TrackView>,
    clips: Seq<ClipView>,
    tc: TrackClipView,
)
    requires
        forall|i: int|
            0 <= i < clips.len() ==> lane_index(tracks, (#[trigger] clips[i]).video_track) is Some,
    ensures
        project::all_placed(populated(tracks, clips)).contains(tc) == exists|i: int|
            0 <= i < clips.len() && tc == #[trigger] placed_at(clips, i),
{
    let filled = populated(tracks, clips);
    let n = clips.len() as int;
    lemma_all_placed_contains(filled, tc);
    if project::all_placed(filled).contains(tc) {
        let t = choose|t: int| 0 <= t < filled.len() && (#[trigger] filled[t]).clips.contains(tc);
        let v = served_lane(tracks, t).unwrap();
        assert(filled[t].clips == lane_clips(clips, v, n));
        lemma_lane_holds_its_clips(clips, v, n, tc);
    }
    if exists|i: int| 0 <= i < clips.len() && tc == #[trigger] placed_at(clips, i) {
        let i = choose|i: int| 0 <= i < clips.len() && tc == #[trigger] placed_at(clips, i);
        let v = clips[i].video_track;
        let t = lane_index(tracks, v).unwrap();
        lemma_lane_and_track_belong_together(tracks, v, t);
        lemma_lane_holds_its_clips(clips, v, n, tc);
        assert(filled[t].clips == lane_clips(clips, v, n));
        assert(filled[t].clips.contains(tc));
    }
}

proof fn lemma_least_lane(t: TrackView, value: u8, from: int)
    requires
        is_lane(value)(t),
        0 <= from <= value,
    ensures
        least_lane(t, from) matches Some(v) && is_lane(v)(t) && from <= v <= value,
    decreases 256 - from,
{
    if !is_lane(from as u8)(t) {
        assert(from != value);
        lemma_least_lane(t, value, from + 1);
    }
}

/// Decimal numbers of one text are one number.
pub proof fn lemma_dec_is_injective(a: nat, b: nat)
    requires
        text::dec(a) == text::dec(b),
    ensures
        a == b,
    decreases a,
{
    lemma_dec_len(a);
    lemma_dec_len(b);
    assert(text::dec(a).last() == text::digit((a % 10) as int)) by {
        assert(a < 10 ==> a % 10 == a);
    }
    assert(text::dec(b).last() == text::digit((b % 10) as int)) by {
        assert(b < 10 ==> b % 10 == b);
    }
    assert(a % 10 == b % 10);
    if a >= 10 && b >= 10 {
        assert(text::dec(a).drop_last() =~= text::dec(a / 10));
        assert(text::dec(b).drop_last() =~= text::dec(b / 10));
        lemma_dec_is_injective(a / 10, b / 10);
    }
}

proof fn lemma_dec_len(n: nat)
    ensures
        text::dec(n).len() >= 1,
        n >= 10 ==> text::dec(n).len() >= 2,
    decreases n,
{
    if n >= 10 {
        lemma_dec_len(n / 10);
    }
}

/// Different numbers stand for differently named tracks.
pub proof fn lemma_lane_names_differ(a: u8, b: u8)
    requires
        lane_name(a) == lane_name(b),
    ensures
        a == b,
{
    let x = text::dec((a + 1) as nat);
    let y = text::dec((b + 1) as nat);
    assert(x =~= lane_name(a).skip("V"@.len() as int));
    assert(y =~= lane_name(b).skip("V"@.len() as int));
    lemma_dec_is_injective((a + 1) as nat, (b + 1) as nat);
}

/// A number and the track that it stands for belong together.
pub proof fn lemma_lane_and_track_belong_together(tracks: Seq<TrackView>, value: u8, i: int)
    requires
        lane_index(tracks, value) == Some(i),
    ensures
        0 <= i < tracks.len(),
        lane_of(tracks[i]) == Some(value),
        served_lane(tracks, i) == Some(value),
{
    seqs::lemma_first_where(tracks, is_lane(value));
    lemma_least_lane(tracks[i], value, 0);
    let v = lane_of(tracks[i]).unwrap();
    assert(lane_name(v) == lane_name(value));
    lemma_lane_names_differ(v, value);
}

/// Where every clip's track exists, the project lasts as long as the timeline
/// of the playlist.
pub proof fn lemma_project_lasts_as_the_timeline(tracks: Seq<TrackView>, clips: Seq<ClipView>)
    requires
        timeline_view::fits_timeline(clips),
        forall|i: int|
            0 <= i < clips.len() ==> lane_index(tracks, (#[trigger] clips[i]).video_track) is Some,
        clips.len() > 0 ==> exists|i: int|
            0 <= i < clips.len() && #[trigger] timeline_view::end_at(clips, i) >= 0,
    ensures
        project::is_latest_end(
            project::all_placed(populated(tracks, clips)),
            timeline_view::latest_end(clips, clips.len() as int) as int,
        ),
{
    let all = project::all_placed(populated(tracks, clips));
    let n = clips.len() as int;
    let total = timeline_view::latest_end(clips, n);
    timeline_view::lemma_total_is_latest_end(clips, n);
    assert forall|i: int| 0 <= i < n implies all.contains(#[trigger] placed_at(clips, i))
        && placed_at(clips, i).end() == timeline_view::end_at(clips, i) by {
        lemma_project_holds_the_playlist(tracks, clips, placed_at(clips, i));
        assert(timeline_view::start_at(clips, i) + clips[i].dur_us() <= i64::MAX);
    }
    assert forall|k: int| 0 <= k < all.len() implies n > 0 && (#[trigger] all[k]).end()
        <= total by {
        lemma_project_holds_the_playlist(tracks, clips, all[k]);
        assert(all.contains(all[k]));
        let i = choose|i: int| 0 <= i < n && all[k] == #[trigger] placed_at(clips, i);
        assert(timeline_view::end_at(clips, i) <= total);
    }
    if n > 0 {
        let w = choose|i: int| 0 <= i < n && #[trigger] timeline_view::end_at(clips, i) >= 0;
        let best = if total == 0 {
            w
        } else {
            choose|i: int| 0 <= i < n && #[trigger] timeline_view::end_at(clips, i) == total
        };
        assert(timeline_view::end_at(clips, best) == total);
        assert(all.contains(placed_at(clips, best)));
        let k = choose|k: int| 0 <= k < all.len() && all[k] == placed_at(clips, best);
        assert(all[k].end() == total);
    } else {
        assert(all.len() > 0 ==> all[0].end() <= total);
    }
}

} // verus!
