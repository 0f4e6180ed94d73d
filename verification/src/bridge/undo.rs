//! Undo and redo by snapshots of the playlist.

use vstd::prelude::*;

use crate::domain::clip::ClipView;
use crate::domain::playlist::Playlist;

verus! {

/// How many steps can be undone.
pub const MAX_HISTORY: usize = 50;

/// The snapshots to go back and forth to, the nearest one last.
#[derive(Debug)]
pub struct UndoStack {
    undo: Vec<Playlist>,
    redo: Vec<Playlist>,
}

#[verifier::ext_equal]
pub struct UndoView {
    pub undo: Seq<Seq<ClipView>>,
    pub redo: Seq<Seq<ClipView>>,
}

pub open spec fn playlist_view() -> spec_fn(Playlist) -> Seq<ClipView> {
    |p: Playlist| p@
}

impl View for UndoStack {
    type V = UndoView;

    closed spec fn view(&self) -> UndoView {
        UndoView {
            undo: self.undo@.map_values(playlist_view()),
            redo: self.redo@.map_values(playlist_view()),
        }
    }
}

/// `stack` with one more snapshot. The oldest one goes where there would be
/// too many.
pub open spec fn pushed(stack: Seq<Seq<ClipView>>, snapshot: Seq<ClipView>) -> Seq<Seq<ClipView>> {
    if stack.len() + 1 > MAX_HISTORY {
        stack.push(snapshot).skip(1)
    } else {
        stack.push(snapshot)
    }
}

impl UndoView {
    /// Neither stack holds more than [`MAX_HISTORY`] snapshots.
    pub open spec fn bounded(self) -> bool {
        self.undo.len() <= MAX_HISTORY && self.redo.len() <= MAX_HISTORY
    }

    pub open spec fn checkpointed(self, current: Seq<ClipView>) -> UndoView {
        UndoView { undo: pushed(self.undo, current), redo: Seq::empty() }
    }

    /// The stacks after going a step back from `current`.
    pub open spec fn stepped_back(self, current: Seq<ClipView>) -> UndoView {
        if self.undo.len() == 0 {
            self
        } else {
            UndoView { undo: self.undo.drop_last(), redo: pushed(self.redo, current) }
        }
    }

    /// The stacks after going a step forth from `current`.
    pub open spec fn stepped_forth(self, current: Seq<ClipView>) -> UndoView {
        if self.redo.len() == 0 {
            self
        } else {
            UndoView { undo: pushed(self.undo, current), redo: self.redo.drop_last() }
        }
    }
}

fn push_bounded(stack: &mut Vec<Playlist>, current: &Playlist)
    ensures
        final(stack)@.map_values(playlist_view()) == pushed(
            old(stack)@.map_values(playlist_view()),
            current@,
        ),
{
    stack.push(current.clone());
    let ghost grown = stack@;
    assert(grown.map_values(playlist_view()) =~= old(stack)@.map_values(playlist_view()).push(
        current@,
    ));
    if stack.len() > MAX_HISTORY {
        stack.remove(0);
        assert(stack@.map_values(playlist_view()) =~= grown.map_values(playlist_view()).skip(1));
    }
}

impl Default for UndoStack {
    fn default() -> (res: Self)
        ensures
            res@ == (UndoView { undo: Seq::empty(), redo: Seq::empty() }),
    {
        UndoStack::new()
    }
}

impl UndoStack {
    pub fn new() -> (res: Self)
        ensures
            res@ == (UndoView { undo: Seq::empty(), redo: Seq::empty() }),
    {
        let res: UndoStack = UndoStack { undo: Vec::new(), redo: Vec::new() };
        assert(res@.undo =~= Seq::empty());
        assert(res@.redo =~= Seq::empty());
        res
    }

    /// Remember the playlist as it is, before it is changed. What had been
    /// undone cannot be redone any more.
    pub fn checkpoint(&mut self, current: &Playlist)
        ensures
            final(self)@ == old(self)@.checkpointed(current@),
    {
        push_bounded(&mut self.undo, current);
        self.redo.clear();
        assert(self@.redo =~= Seq::empty());
    }

    /// The playlist as it was before the last change, if there was one.
    pub fn undo(&mut self, current: &Playlist) -> (r: Option<Playlist>)
        ensures
            match r {
                Some(p) => old(self)@.undo.len() > 0 && p@ == old(self)@.undo.last(),
                None => old(self)@.undo.len() == 0,
            },
            final(self)@ == old(self)@.stepped_back(current@),
    {
        match self.undo.pop() {
            Some(prev) => {
                push_bounded(&mut self.redo, current);
                assert(self@.undo =~= old(self)@.undo.drop_last());
                Some(prev)
            },
            None => {
                assert(old(self)@.undo.len() == 0);
                None
            },
        }
    }

    /// The playlist as it was before the last undo, if there was one.
    pub fn redo(&mut self, current: &Playlist) -> (r: Option<Playlist>)
        ensures
            match r {
                Some(p) => old(self)@.redo.len() > 0 && p@ == old(self)@.redo.last(),
                None => old(self)@.redo.len() == 0,
            },
            final(self)@ == old(self)@.stepped_forth(current@),
    {
        match self.redo.pop() {
            Some(next) => {
                push_bounded(&mut self.undo, current);
                assert(self@.redo =~= old(self)@.redo.drop_last());
                Some(next)
            },
            None => {
                assert(old(self)@.redo.len() == 0);
                None
            },
        }
    }

    pub fn can_undo(&self) -> (r: bool)
        ensures
            r == (self@.undo.len() > 0),
    {
        self.undo.len() > 0
    }

    pub fn can_redo(&self) -> (r: bool)
        ensures
            r == (self@.redo.len() > 0),
    {
        self.redo.len() > 0
    }

    /// How many steps can be undone.
    pub fn undo_len(&self) -> (n: usize)
        ensures
            n == self@.undo.len(),
    {
        self.undo.len()
    }

    /// Forget everything.
    pub fn clear(&mut self)
        ensures
            final(self)@ == (UndoView { undo: Seq::empty(), redo: Seq::empty() }),
    {
        self.undo.clear();
        self.redo.clear();
        assert(self@.undo =~= Seq::empty());
        assert(self@.redo =~= Seq::empty());
    }
}

/// Whatever was on the stacks, undoing right after a checkpoint gives back the
/// playlist of the checkpoint, and redoing after that the changed one.
pub proof fn lemma_undo_then_redo(
    stacks: UndoView,
    before: Seq<ClipView>,
    after: Seq<ClipView>,
)
    requires
        stacks.bounded(),
    ensures
        ({
            let marked = stacks.checkpointed(before);
            let undone = marked.stepped_back(after);
            let redone = undone.stepped_forth(before);
            &&& marked.undo.len() > 0 && marked.undo.last() == before
            &&& undone.redo.len() > 0 && undone.redo.last() == after
            &&& redone == marked
        }),
{
    let marked = stacks.checkpointed(before);
    let undone = marked.stepped_back(after);
    let redone = undone.stepped_forth(before);
    assert(pushed(undone.undo, before) =~= marked.undo);
    assert(redone.redo =~= Seq::empty());
}

/// The stacks never hold more than [`MAX_HISTORY`] snapshots.
pub proof fn lemma_history_is_bounded(stacks: UndoView, current: Seq<ClipView>)
    requires
        stacks.bounded(),
    ensures
        stacks.checkpointed(current).bounded(),
        stacks.stepped_back(current).bounded(),
        stacks.stepped_forth(current).bounded(),
{
}

} // verus!
