//! The flags of the tracks, and the rows that show the tracks.

use vstd::prelude::*;
use vstd::string::*;

use super::lanes;
use crate::domain::project::{Project, Track, TrackKind, TrackView};
use crate::seqs;
use crate::text;

verus! {

/// Which tracks are muted, soloed and locked, by their places.
#[derive(Debug)]
pub struct TracksState {
    pub muted: Vec<bool>,
    pub soloed: Vec<bool>,
    pub locked: Vec<bool>,
}

#[verifier::ext_equal]
pub struct TracksView {
    pub muted: Seq<bool>,
    pub soloed: Seq<bool>,
    pub locked: Seq<bool>,
}

impl View for TracksState {
    type V = TracksView;

    open spec fn view(&self) -> TracksView {
        TracksView { muted: self.muted@, soloed: self.soloed@, locked: self.locked@ }
    }
}

/// The first `n` flags; those that are not there yet are off.
pub open spec fn resized(flags: Seq<bool>, n: int) -> Seq<bool> {
    Seq::new(
        n as nat,
        |i: int|
            if i < flags.len() {
                flags[i]
            } else {
                false
            },
    )
}

/// The flags without the one at `i`, if there is one.
pub open spec fn dropped(flags: Seq<bool>, i: int) -> Seq<bool> {
    if i < flags.len() {
        flags.remove(i)
    } else {
        flags
    }
}

/// The flag at `i`; one that is not there is off.
pub open spec fn flag(flags: Seq<bool>, i: int) -> bool {
    if 0 <= i < flags.len() {
        flags[i]
    } else {
        false
    }
}

impl TracksView {
    pub open spec fn resized(self, n: int) -> TracksView {
        TracksView {
            muted: resized(self.muted, n),
            soloed: resized(self.soloed, n),
            locked: resized(self.locked, n),
        }
    }

    pub open spec fn dropped(self, i: int) -> TracksView {
        TracksView {
            muted: dropped(self.muted, i),
            soloed: dropped(self.soloed, i),
            locked: dropped(self.locked, i),
        }
    }

    /// The flags that the tracks themselves carry.
    pub open spec fn of_tracks(tracks: Seq<TrackView>) -> TracksView {
        TracksView {
            muted: Seq::new(tracks.len(), |i: int| tracks[i].muted),
            soloed: Seq::new(tracks.len(), |i: int| tracks[i].solo),
            locked: Seq::new(tracks.len(), |i: int| tracks[i].locked),
        }
    }

    /// The tracks with these flags.
    pub open spec fn on(self, tracks: Seq<TrackView>) -> Seq<TrackView> {
        Seq::new(
            tracks.len(),
            |i: int|
                TrackView {
                    muted: flag(self.muted, i),
                    solo: flag(self.soloed, i),
                    locked: flag(self.locked, i),
                    ..tracks[i]
                },
        )
    }
}

/// One of the flags of a track.
#[derive(Clone, Copy, Debug, PartialEq, Eq, Structural)]
pub enum TrackFlag {
    Muted,
    Soloed,
    Locked,
}

impl TracksView {
    /// One flag of the track at `i` the other way round.
    pub open spec fn toggled(self, i: int, which: TrackFlag) -> TracksView {
        match which {
            TrackFlag::Muted => TracksView { muted: self.muted.update(i, !self.muted[i]), ..self },
            TrackFlag::Soloed => TracksView {
                soloed: self.soloed.update(i, !self.soloed[i]),
                ..self
            },
            TrackFlag::Locked => TracksView {
                locked: self.locked.update(i, !self.locked[i]),
                ..self
            },
        }
    }
}

fn resize_flags(flags: &mut Vec<bool>, n: usize)
    ensures
        final(flags)@ == resized(old(flags)@, n as int),
{
    let ghost was = flags@;
    flags.truncate(n);
    while flags.len() < n
        invariant
            flags@.len() <= n,
            forall|i: int|
                0 <= i < flags@.len() ==> #[trigger] flags@[i] == if i < was.len() {
                    was[i]
                } else {
                    false
                },
            flags@.len() >= was.len() || flags@.len() == n,
        decreases n - flags@.len(),
    {
        flags.push(false);
    }
    assert(flags@ =~= resized(was, n as int));
}

fn drop_flag(flags: &mut Vec<bool>, i: usize)
    ensures
        final(flags)@ == dropped(old(flags)@, i as int),
{
    if i < flags.len() {
        let _gone: bool = flags.remove(i);
        assert(flags@ =~= old(flags)@.remove(i as int));
    }
}

fn flag_at(flags: &Vec<bool>, i: usize) -> (r: bool)
    ensures
        r == flag(flags@, i as int),
{
    if i < flags.len() {
        flags[i]
    } else {
        false
    }
}

impl TracksState {
    /// All flags off, for each track of a project.
    pub fn for_project(project: &Project) -> (s: Self)
        ensures
            s@ == (TracksView {
                muted: Seq::empty(),
                soloed: Seq::empty(),
                locked: Seq::empty(),
            }).resized(project@.tracks.len() as int),
    {
        let mut s: TracksState = TracksState {
            muted: Vec::new(),
            soloed: Vec::new(),
            locked: Vec::new(),
        };
        s.resize(project.tracks.len());
        s
    }

    /// Keep the flags of the first `n` tracks; new ones are off.
    pub fn resize(&mut self, n: usize)
        ensures
            final(self)@ == old(self)@.resized(n as int),
    {
        resize_flags(&mut self.muted, n);
        resize_flags(&mut self.soloed, n);
        resize_flags(&mut self.locked, n);
    }

    /// Take out the flags of the track at `idx`; those behind it move up.
    pub fn remove(&mut self, idx: usize)
        ensures
            final(self)@ == old(self)@.dropped(idx as int),
    {
        drop_flag(&mut self.muted, idx);
        drop_flag(&mut self.soloed, idx);
        drop_flag(&mut self.locked, idx);
    }

    /// Turn one flag of the track at `idx` the other way round.
    pub fn toggle(&mut self, idx: usize, which: TrackFlag)
        requires
            idx < old(self)@.muted.len(),
            idx < old(self)@.soloed.len(),
            idx < old(self)@.locked.len(),
        ensures
            final(self)@ == old(self)@.toggled(idx as int, which),
    {
        match which {
            TrackFlag::Muted => {
                let was: bool = self.muted[idx];
                self.muted.set(idx, !was);
            },
            TrackFlag::Soloed => {
                let was: bool = self.soloed[idx];
                self.soloed.set(idx, !was);
            },
            TrackFlag::Locked => {
                let was: bool = self.locked[idx];
                self.locked.set(idx, !was);
            },
        }
    }

    /// The flags that the tracks of a project carry themselves.
    pub fn from_tracks(project: &Project) -> (s: Self)
        ensures
            s@ == TracksView::of_tracks(project@.tracks),
    {
        let mut s: TracksState = TracksState {
            muted: Vec::new(),
            soloed: Vec::new(),
            locked: Vec::new(),
        };
        let ghost tracks = project@.tracks;
        let mut i: usize = 0;
        while i < project.tracks.len()
            invariant
                i <= project.tracks.len(),
                tracks == project@.tracks,
                tracks.len() == project.tracks@.len(),
                s@.muted.len() == i,
                s@.soloed.len() == i,
                s@.locked.len() == i,
                forall|j: int|
                    0 <= j < i ==> (#[trigger] s@.muted[j]) == tracks[j].muted,
                forall|j: int|
                    0 <= j < i ==> (#[trigger] s@.soloed[j]) == tracks[j].solo,
                forall|j: int|
                    0 <= j < i ==> (#[trigger] s@.locked[j]) == tracks[j].locked,
            decreases project.tracks.len() - i,
        {
            let t: &Track = &project.tracks[i];
            assert(tracks[i as int] == t@);
            s.muted.push(t.muted);
            s.soloed.push(t.solo);
            s.locked.push(t.locked);
            i = i + 1;
        }
        assert(s@ =~= TracksView::of_tracks(tracks));
        s
    }

    /// Give the tracks of a project these flags.
    pub fn apply_to(&self, project: &mut Project)
        ensures
            final(project)@.tracks == self@.on(old(project)@.tracks),
    {
        let ghost tracks = project@.tracks;
        let n: usize = project.tracks.len();
        let mut i: usize = 0;
        while i < n
            invariant
                i <= n,
                n == project.tracks@.len(),
                tracks.len() == n,
                forall|j: int| 0 <= j < i ==> (#[trigger] project.tracks@[j])@ == self@.on(tracks)[j],
                forall|j: int| i <= j < n ==> (#[trigger] project.tracks@[j])@ == tracks[j],
            decreases n - i,
        {
            let ghost before = project.tracks@;
            project.tracks[i].muted = flag_at(&self.muted, i);
            project.tracks[i].solo = flag_at(&self.soloed, i);
            project.tracks[i].locked = flag_at(&self.locked, i);
            assert(project.tracks@[i as int]@ == self@.on(tracks)[i as int]);
            assert forall|j: int| i < j < n implies (#[trigger] project.tracks@[j])@
                == tracks[j] by {
                assert(project.tracks@[j] == before[j]);
            }
            assert forall|j: int| 0 <= j < i implies (#[trigger] project.tracks@[j])@ == self@.on(
                tracks,
            )[j] by {
                assert(project.tracks@[j] == before[j]);
            }
            i = i + 1;
        }
        assert(project@.tracks =~= self@.on(tracks));
    }
}

/// Whether any track is soloed.
pub open spec fn any_solo(tracks: Seq<TrackView>) -> bool {
    exists|i: int| 0 <= i < tracks.len() && (#[trigger] tracks[i]).solo
}

/// The tracks as they sound: where any track is soloed, all others are muted.
pub open spec fn as_heard(tracks: Seq<TrackView>) -> Seq<TrackView> {
    if any_solo(tracks) {
        Seq::new(
            tracks.len(),
            |i: int|
                TrackView {
                    muted: tracks[i].muted || !tracks[i].solo,
                    ..tracks[i]
                },
        )
    } else {
        tracks
    }
}

/// Where any track of a project is soloed, mute all others.
pub fn apply_solo(project: &mut Project)
    ensures
        final(project)@.tracks == as_heard(old(project)@.tracks),
{
    let ghost tracks = project@.tracks;
    let n: usize = project.tracks.len();
    let mut any: bool = false;
    let mut i: usize = 0;
    while i < n
        invariant
            i <= n,
            n == project.tracks@.len(),
            project@.tracks == tracks,
            tracks.len() == n,
            any == exists|j: int| 0 <= j < i && (#[trigger] tracks[j]).solo,
        decreases n - i,
    {
        assert(tracks[i as int] == project.tracks@[i as int]@);
        if project.tracks[i].solo {
            any = true;
            assert(tracks[i as int].solo);
        }
        i = i + 1;
    }
    if any {
        let mut k: usize = 0;
        while k < n
            invariant
                k <= n,
                n == project.tracks@.len(),
                tracks.len() == n,
                any_solo(tracks),
                forall|j: int|
                    0 <= j < k ==> (#[trigger] project.tracks@[j])@ == as_heard(tracks)[j],
                forall|j: int| k <= j < n ==> (#[trigger] project.tracks@[j])@ == tracks[j],
            decreases n - k,
        {
            let ghost before = project.tracks@;
            if !project.tracks[k].solo {
                project.tracks[k].muted = true;
            }
            assert(project.tracks@[k as int]@ == as_heard(tracks)[k as int]);
            assert forall|j: int| k < j < n implies (#[trigger] project.tracks@[j])@
                == tracks[j] by {
                assert(project.tracks@[j] == before[j]);
            }
            assert forall|j: int| 0 <= j < k implies (#[trigger] project.tracks@[j])@ == as_heard(
                tracks,
            )[j] by {
                assert(project.tracks@[j] == before[j]);
            }
            k = k + 1;
        }
        assert(project@.tracks =~= as_heard(tracks));
    }
}

/// The name of the video track whose clips a track of sound belongs to: A1
/// goes with V1.
pub open spec fn paired_name(name: Seq<char>) -> Option<Seq<char>> {
    if name.len() > 1 && name[0] == 'A' {
        Some("V"@ + name.skip(1))
    } else {
        None
    }
}

/// The name of the video track whose clips a track of sound belongs to.
pub fn paired_video_track_name(audio_track_name: &str) -> (r: Option<String>)
    ensures
        text::opt_view(r) == paired_name(audio_track_name@),
{
    let chars: Vec<char> = text::chars_of(audio_track_name);
    if chars.len() > 1 && chars[0] == 'A' {
        let mut s: String = "V".to_owned();
        let mut i: usize = 1;
        assert(s@ =~= "V"@ + audio_track_name@.subrange(1, 1));
        while i < chars.len()
            invariant
                1 <= i <= chars.len(),
                chars@ == audio_track_name@,
                s@ == "V"@ + audio_track_name@.subrange(1, i as int),
            decreases chars.len() - i,
        {
            s.push(chars[i]);
            i = i + 1;
            assert(s@ =~= "V"@ + audio_track_name@.subrange(1, i as int));
        }
        assert(audio_track_name@.subrange(1, i as int) =~= audio_track_name@.skip(1));
        Some(s)
    } else {
        None
    }
}

/// What is shown of a track.
#[derive(Debug)]
pub struct TrackRow {
    pub name: String,
    pub is_audio: bool,
    /// The place of the track whose clips are shown.
    pub shown: usize,
    /// The clips belong to another track and are only shown here.
    pub display_only: bool,
    pub muted: bool,
    pub soloed: bool,
    pub locked: bool,
    pub video_track_value: Option<u8>,
}

#[verifier::ext_equal]
pub struct TrackRowView {
    pub name: Seq<char>,
    pub is_audio: bool,
    pub shown: usize,
    pub display_only: bool,
    pub muted: bool,
    pub soloed: bool,
    pub locked: bool,
    pub video_track_value: Option<u8>,
}

impl View for TrackRow {
    type V = TrackRowView;

    open spec fn view(&self) -> TrackRowView {
        TrackRowView {
            name: self.name@,
            is_audio: self.is_audio,
            shown: self.shown,
            display_only: self.display_only,
            muted: self.muted,
            soloed: self.soloed,
            locked: self.locked,
            video_track_value: self.video_track_value,
        }
    }
}

pub open spec fn row_view() -> spec_fn(TrackRow) -> TrackRowView {
    |r: TrackRow| r@
}

/// A video track of the given name that holds clips.
pub open spec fn shows_for(name: Seq<char>) -> spec_fn(TrackView) -> bool {
    |t: TrackView| t.kind == TrackKind::Video && t.name == name && t.clips.len() > 0
}

/// The place of the video track whose clips are shown on the track at `i`: only
/// an empty track of sound shows those of another.
pub open spec fn shown_from(tracks: Seq<TrackView>, i: int) -> Option<int> {
    let t = tracks[i];
    if t.kind == TrackKind::Audio && t.clips.len() == 0 {
        match paired_name(t.name) {
            Some(name) => seqs::first_where(tracks, shows_for(name)),
            None => None,
        }
    } else {
        None
    }
}

/// What is shown of the track at `i`.
pub open spec fn row_of(tracks: Seq<TrackView>, flags: TracksView, i: int) -> TrackRowView {
    TrackRowView {
        name: tracks[i].name,
        is_audio: tracks[i].kind == TrackKind::Audio,
        shown: match shown_from(tracks, i) {
            Some(j) => j as usize,
            None => i as usize,
        },
        display_only: shown_from(tracks, i) is Some,
        muted: flag(flags.muted, i),
        soloed: flag(flags.soloed, i),
        locked: flag(flags.locked, i),
        video_track_value: lanes::lane_of(tracks[i]),
    }
}

/// What is shown of the tracks.
pub open spec fn rows_of(tracks: Seq<TrackView>, flags: TracksView) -> Seq<TrackRowView> {
    Seq::new(tracks.len(), |i: int| row_of(tracks, flags, i))
}

fn shown_on(project: &Project, i: usize) -> (r: Option<usize>)
    requires
        i < project@.tracks.len(),
    ensures
        match r {
            Some(j) => j < project@.tracks.len() && shown_from(project@.tracks, i as int) == Some(
                j as int,
            ),
            None => shown_from(project@.tracks, i as int) is None,
        },
{
    let ghost tracks = project@.tracks;
    assert(tracks.len() == project.tracks@.len());
    let t: &Track = &project.tracks[i];
    assert(tracks[i as int] == t@);
    assert(t@.clips.len() == t.clips@.len());
    match t.kind {
        TrackKind::Video => return None,
        TrackKind::Audio => {},
    }
    if t.clips.len() > 0 {
        return None;
    }
    let name: String = match paired_video_track_name(t.name.as_str()) {
        Some(name) => name,
        None => return None,
    };
    let mut j: usize = 0;
    while j < project.tracks.len()
        invariant
            j <= project.tracks.len(),
            i < project.tracks.len(),
            tracks == project@.tracks,
            tracks.len() == project.tracks@.len(),
            tracks[i as int].kind == TrackKind::Audio,
            tracks[i as int].clips.len() == 0,
            paired_name(tracks[i as int].name) == Some(name@),
            forall|k: int| 0 <= k < j ==> !shows_for(name@)(#[trigger] tracks[k]),
        decreases project.tracks.len() - j,
    {
        let c: &Track = &project.tracks[j];
        assert(tracks[j as int] == c@);
        assert(c@.clips.len() == c.clips@.len());
        let video: bool = match c.kind {
            TrackKind::Video => true,
            TrackKind::Audio => false,
        };
        if video && c.clips.len() > 0 && text::same_text(c.name.as_str(), name.as_str()) {
            proof {
                seqs::lemma_first_where_found(tracks, shows_for(name@), j as int);
            }
            return Some(j);
        }
        j = j + 1;
    }
    proof {
        seqs::lemma_first_where_none(tracks, shows_for(name@));
    }
    None
}

/// What is shown of the tracks of a project. An empty track of sound shows the
/// clips of the video track that it goes with.
pub fn track_rows(project: &Project, flags: &TracksState) -> (rows: Vec<TrackRow>)
    ensures
        rows@.map_values(row_view()) == rows_of(project@.tracks, flags@),
{
    let ghost tracks = project@.tracks;
    let mut rows: Vec<TrackRow> = Vec::new();
    let mut i: usize = 0;
    while i < project.tracks.len()
        invariant
            i <= project.tracks.len(),
            tracks == project@.tracks,
            tracks.len() == project.tracks@.len(),
            rows@.len() == i,
            forall|j: int| 0 <= j < i ==> (#[trigger] rows@[j])@ == row_of(tracks, flags@, j),
        decreases project.tracks.len() - i,
    {
        let t: &Track = &project.tracks[i];
        assert(tracks[i as int] == t@);
        let from: Option<usize> = shown_on(project, i);
        let (shown, display_only): (usize, bool) = match from {
            Some(j) => (j, true),
            None => (i, false),
        };
        let row: TrackRow = TrackRow {
            name: t.name.clone(),
            is_audio: match t.kind {
                TrackKind::Audio => true,
                TrackKind::Video => false,
            },
            shown,
            display_only,
            muted: flag_at(&flags.muted, i),
            soloed: flag_at(&flags.soloed, i),
            locked: flag_at(&flags.locked, i),
            video_track_value: project.video_track_value_for_index(i),
        };
        rows.push(row);
        i = i + 1;
    }
    assert(rows@.map_values(row_view()) =~= rows_of(tracks, flags@));
    rows
}

/// A track whose flags were read from it keeps them.
pub proof fn lemma_flags_round_trip(tracks: Seq<TrackView>)
    ensures
        TracksView::of_tracks(tracks).on(tracks) == tracks,
{
    assert(TracksView::of_tracks(tracks).on(tracks) =~= tracks);
}

/// Turning a flag the other way round twice changes nothing.
pub proof fn lemma_toggle_twice(flags: TracksView, i: int, which: TrackFlag)
    requires
        0 <= i < flags.muted.len(),
        0 <= i < flags.soloed.len(),
        0 <= i < flags.locked.len(),
    ensures
        flags.toggled(i, which).toggled(i, which) == flags,
{
    assert(flags.toggled(i, which).toggled(i, which) =~= flags);
}

/// Where a track is soloed, exactly the soloed tracks that are not muted
/// themselves are heard.
pub proof fn lemma_solo_silences_the_rest(tracks: Seq<TrackView>, i: int)
    requires
        any_solo(tracks),
        0 <= i < tracks.len(),
    ensures
        !as_heard(tracks)[i].muted <==> tracks[i].solo && !tracks[i].muted,
{
}

} // verus!
