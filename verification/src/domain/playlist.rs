//! A list of clips in playing order.

use vstd::prelude::*;

use super::clip;
use super::clip::{Clip, ClipView};
use crate::errors::{CoreError, CoreErrorView, CoreResult};
use crate::ident::ClipId;
use crate::seqs;

verus! {

#[derive(Debug)]
pub struct Playlist {
    clips: Vec<Clip>,
}

impl View for Playlist {
    type V = Seq<ClipView>;

    closed spec fn view(&self) -> Seq<ClipView> {
        clip::clip_views(self.clips@)
    }
}

/// Whether a clip has the given identifier.
pub open spec fn has_id(id: ClipId) -> spec_fn(ClipView) -> bool {
    |c: ClipView| c.id == id
}

/// The place of the first clip with the given identifier.
pub open spec fn index_of(clips: Seq<ClipView>, id: ClipId) -> Option<int> {
    seqs::first_where(clips, has_id(id))
}

/// A copy of several clips.
pub fn clone_clips(clips: &[Clip]) -> (res: Vec<Clip>)
    ensures
        clip::clip_views(res@) == clip::clip_views(clips@),
        res@.len() == clips@.len(),
{
    let mut res: Vec<Clip> = Vec::new();
    let mut i: usize = 0;
    while i < clips.len()
        invariant
            i <= clips.len(),
            res@.len() == i,
            forall|j: int| 0 <= j < i ==> (#[trigger] res@[j])@ == clips@[j]@,
        decreases clips.len() - i,
    {
        res.push(clips[i].clone());
        i = i + 1;
    }
    assert(clip::clip_views(res@) =~= clip::clip_views(clips@));
    res
}

impl Clone for Playlist {
    fn clone(&self) -> (res: Self)
        ensures
            res@ == self@,
    {
        Playlist { clips: clone_clips(self.clips.as_slice()) }
    }
}

impl Default for Playlist {
    fn default() -> (res: Self)
        ensures
            res@ == Seq::<ClipView>::empty(),
    {
        Playlist::new()
    }
}

impl Playlist {
    pub fn new() -> (res: Self)
        ensures
            res@ == Seq::<ClipView>::empty(),
    {
        let res: Playlist = Playlist { clips: Vec::new() };
        assert(res@ =~= Seq::<ClipView>::empty());
        res
    }

    /// A playlist of the given clips.
    pub fn from_clips(clips: Vec<Clip>) -> (res: Self)
        ensures
            res@ == clip::clip_views(clips@),
    {
        Playlist { clips }
    }

    pub fn push(&mut self, clip: Clip)
        ensures
            final(self)@ == old(self)@.push(clip@),
            final(self)@.len() == old(self)@.len() + 1,
            final(self)@.last() == clip@,
            forall|j: int| 0 <= j < old(self)@.len() ==> #[trigger] final(self)@[j] == old(self)@[j],
    {
        self.clips.push(clip);
        assert(self@ =~= old(self)@.push(clip@));
    }

    /// Where the clip with the given identifier stands.
    pub fn position(&self, id: ClipId) -> (r: Option<usize>)
        ensures
            match r {
                Some(i) => i < self@.len() && self@[i as int].id == id && index_of(self@, id)
                    == Some(i as int),
                None => index_of(self@, id) is None,
            },
    {
        let mut i: usize = 0;
        while i < self.clips.len()
            invariant
                i <= self.clips.len(),
                self@.len() == self.clips@.len(),
                forall|j: int| 0 <= j < self@.len() ==> #[trigger] self@[j] == self.clips@[j]@,
                forall|j: int| 0 <= j < i ==> !has_id(id)(#[trigger] self@[j]),
            decreases self.clips.len() - i,
        {
            if self.clips[i].id == id {
                proof {
                    assert(has_id(id)(self@[i as int]));
                    seqs::lemma_first_where_found(self@, has_id(id), i as int);
                }
                return Some(i);
            }
            assert(!has_id(id)(self@[i as int]));
            i = i + 1;
        }
        proof {
            seqs::lemma_first_where_none(self@, has_id(id));
        }
        None
    }

    /// Take out the clip with the given identifier.
    pub fn remove(&mut self, id: ClipId) -> (r: CoreResult<Clip>)
        ensures
            match index_of(old(self)@, id) {
                Some(i) => r matches Ok(c) && c@ == old(self)@[i] && final(self)@
                    == old(self)@.remove(i),
                None => r matches Err(e) && e@ == CoreErrorView::ClipNotFound(id) && final(self)@
                    == old(self)@,
            },
            r matches Ok(c) ==> c@.id == id && old(self)@.contains(c@) && final(self)@.len()
                == old(self)@.len() - 1 && forall|j: int|
                0 <= j < final(self)@.len() ==> #[trigger] final(self)@[j] == old(self)@[j]
                    || final(self)@[j] == old(self)@[j + 1],
            r is Err ==> forall|j: int|
                0 <= j < old(self)@.len() ==> (#[trigger] old(self)@[j]).id != id,
    {
        proof {
            seqs::lemma_first_where(old(self)@, has_id(id));
            if index_of(old(self)@, id) is None {
                assert forall|j: int| 0 <= j < old(self)@.len() implies (
                #[trigger] old(self)@[j]).id != id by {
                    assert(!has_id(id)(old(self)@[j]));
                }
            }
        }
        match self.position(id) {
            Some(i) => {
                let c: Clip = self.clips.remove(i);
                assert(self@ =~= old(self)@.remove(i as int));
                Ok(c)
            },
            None => Err(CoreError::ClipNotFound(id)),
        }
    }

    /// Move the clip at `from` to `to`; the clips between close up.
    pub fn reorder(&mut self, from: usize, to: usize) -> (r: CoreResult<()>)
        ensures
            old(self)@.len() <= usize::MAX,
            if from >= old(self)@.len() {
                r matches Err(e) && e@ == (CoreErrorView::InvalidReorder {
                    index: from,
                    len: old(self)@.len() as usize,
                }) && final(self)@ == old(self)@
            } else if to >= old(self)@.len() {
                r matches Err(e) && e@ == (CoreErrorView::InvalidReorder {
                    index: to,
                    len: old(self)@.len() as usize,
                }) && final(self)@ == old(self)@
            } else {
                r is Ok && final(self)@ == old(self)@.remove(from as int).insert(
                    to as int,
                    old(self)@[from as int],
                )
            },
            final(self)@.len() == old(self)@.len(),
            r is Ok ==> final(self)@[to as int] == old(self)@[from as int],
            r is Ok ==> forall|j: int|
                0 <= j < old(self)@.len() && (j < from && j < to || j > from && j > to)
                    ==> #[trigger] final(self)@[j] == old(self)@[j],
            r is Ok ==> forall|j: int|
                from <= j < to ==> #[trigger] final(self)@[j] == old(self)@[j + 1],
            r is Ok ==> forall|j: int|
                to < j <= from ==> #[trigger] final(self)@[j] == old(self)@[j - 1],
    {
        let len: usize = self.clips.len();
        if from >= len {
            return Err(CoreError::InvalidReorder { index: from, len });
        }
        if to >= len {
            return Err(CoreError::InvalidReorder { index: to, len });
        }
        let c: Clip = self.clips.remove(from);
        self.clips.insert(to, c);
        assert(self@ =~= old(self)@.remove(from as int).insert(
            to as int,
            old(self)@[from as int],
        ));
        Ok(())
    }

    pub fn clips(&self) -> (r: &[Clip])
        ensures
            clip::clip_views(r@) == self@,
            r@.len() == self@.len(),
            forall|i: int| 0 <= i < self@.len() ==> (#[trigger] r@[i])@ == self@[i],
    {
        self.clips.as_slice()
    }

    pub fn clips_mut(&mut self) -> (r: &mut [Clip])
        ensures
            r@.len() == old(self)@.len(),
            forall|i: int| 0 <= i < r@.len() ==> (#[trigger] r@[i])@ == old(self)@[i],
            final(self)@ == clip::clip_views(final(r)@),
    {
        self.clips.as_mut_slice()
    }

    /// Put `clip` in place of the one at `index`.
    pub fn replace(&mut self, index: usize, clip: Clip)
        requires
            index < old(self)@.len(),
        ensures
            final(self)@ == old(self)@.update(index as int, clip@),
            final(self)@[index as int] == clip@,
            forall|j: int|
                0 <= j < old(self)@.len() && j != index ==> #[trigger] final(self)@[j]
                    == old(self)@[j],
    {
        self.clips.set(index, clip);
        assert(self@ =~= old(self)@.update(index as int, clip@));
    }

    pub fn insert(&mut self, index: usize, clip: Clip) -> (r: CoreResult<()>)
        ensures
            old(self)@.len() <= usize::MAX,
            if index > old(self)@.len() {
                r matches Err(e) && e@ == (CoreErrorView::InvalidReorder {
                    index,
                    len: old(self)@.len() as usize,
                }) && final(self)@ == old(self)@
            } else {
                r is Ok && final(self)@ == old(self)@.insert(index as int, clip@)
            },
            r is Ok ==> final(self)@[index as int] == clip@,
            r is Ok ==> forall|j: int|
                0 <= j < index ==> #[trigger] final(self)@[j] == old(self)@[j],
            r is Ok ==> forall|j: int|
                index < j <= old(self)@.len() ==> #[trigger] final(self)@[j] == old(self)@[j - 1],
    {
        let len: usize = self.clips.len();
        if index > len {
            return Err(CoreError::InvalidReorder { index, len });
        }
        self.clips.insert(index, clip);
        assert(self@ =~= old(self)@.insert(index as int, clip@));
        Ok(())
    }

    pub fn len(&self) -> (n: usize)
        ensures
            n == self@.len(),
    {
        self.clips.len()
    }

    pub fn is_empty(&self) -> (r: bool)
        ensures
            r == (self@.len() == 0),
    {
        self.clips.len() == 0
    }
}

/// Moving a clip changes neither which clips there are nor how many.
pub proof fn lemma_reorder_keeps_clips(clips: Seq<ClipView>, from: int, to: int)
    requires
        0 <= from < clips.len(),
        0 <= to < clips.len(),
    ensures
        clips.remove(from).insert(to, clips[from]).to_multiset() == clips.to_multiset(),
        clips.remove(from).insert(to, clips[from]).len() == clips.len(),
{
    broadcast use vstd::seq_lib::group_to_multiset_ensures;

    vstd::seq_lib::to_multiset_remove(clips, from);
    vstd::seq_lib::to_multiset_insert(clips.remove(from), to, clips[from]);
    assert(clips.contains(clips[from]));
    assert(clips.to_multiset().count(clips[from]) > 0);
    assert(clips.to_multiset().remove(clips[from]).insert(clips[from]) =~= clips.to_multiset());
}

/// Moving a clip back undoes the move.
pub proof fn lemma_reorder_undone_by_moving_back(clips: Seq<ClipView>, from: int, to: int)
    requires
        0 <= from < clips.len(),
        0 <= to < clips.len(),
    ensures
        ({
            let moved = clips.remove(from).insert(to, clips[from]);
            moved.remove(to).insert(from, moved[to]) == clips
        }),
{
    let moved = clips.remove(from).insert(to, clips[from]);
    assert(moved.remove(to) =~= clips.remove(from));
    assert(moved.remove(to).insert(from, moved[to]) =~= clips);
}

} // verus!
