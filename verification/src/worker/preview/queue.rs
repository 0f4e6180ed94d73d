//! The pictures between the render thread and the present thread.

use vstd::prelude::*;

use crate::engine::decoder::{DecodedFrame, DecodedFrameView};

verus! {

/// A rendered picture, and the generation it was rendered for.
#[derive(Debug)]
pub struct PictureItem {
    pub gen: u64,
    pub frame: DecodedFrame,
}

#[verifier::ext_equal]
pub struct PictureItemView {
    pub gen: u64,
    pub frame: DecodedFrameView,
}

impl View for PictureItem {
    type V = PictureItemView;

    open spec fn view(&self) -> PictureItemView {
        PictureItemView { gen: self.gen, frame: self.frame@ }
    }
}

pub open spec fn item_view() -> spec_fn(PictureItem) -> PictureItemView {
    |p: PictureItem| p@
}

/// The render thread is at most so many pictures ahead.
pub const PICTURE_QUEUE_DEPTH: usize = 6;

/// The pictures between the render thread and the present thread, the next one
/// first.
#[derive(Debug)]
pub struct PictureQueue {
    items: Vec<PictureItem>,
}

impl View for PictureQueue {
    type V = Seq<PictureItemView>;

    closed spec fn view(&self) -> Seq<PictureItemView> {
        self.items@.map_values(item_view())
    }
}

/// A picture that waits to be due, as contracts speak of it.
pub open spec fn opt_item(p: Option<PictureItem>) -> Option<PictureItemView> {
    match p {
        Some(item) => Some(item@),
        None => None,
    }
}

pub open spec fn opt_frame(f: Option<DecodedFrame>) -> Option<DecodedFrameView> {
    match f {
        Some(frame) => Some(frame@),
        None => None,
    }
}

/// The picture to show, and what is left.
#[verifier::ext_equal]
pub struct Taken {
    pub frame: Option<DecodedFrameView>,
    pub pending: Option<PictureItemView>,
    pub queue: Seq<PictureItemView>,
}

/// Whether a picture is due at a time; without a time every picture is.
pub open spec fn is_due(item: PictureItemView, target: Option<i64>) -> bool {
    match target {
        Some(t) => item.frame.pts_us <= t,
        None => true,
    }
}

/// What taking a picture does: pictures of other generations are dropped, and
/// of those that are due the last one is taken. The first one that is not due
/// is kept for later.
pub open spec fn taken(
    queue: Seq<PictureItemView>,
    pending: Option<PictureItemView>,
    gen: u64,
    target: Option<i64>,
    chosen: Option<DecodedFrameView>,
) -> Taken
    decreases queue.len(),
{
    match pending {
        Some(item) => if is_due(item, target) {
            if queue.len() == 0 {
                Taken { frame: Some(item.frame), pending: None, queue }
            } else if queue[0].gen == gen {
                taken(queue.skip(1), Some(queue[0]), gen, target, Some(item.frame))
            } else {
                taken(queue.skip(1), None, gen, target, Some(item.frame))
            }
        } else {
            Taken { frame: chosen, pending, queue }
        },
        None => if queue.len() == 0 {
            Taken { frame: chosen, pending: None, queue }
        } else if queue[0].gen == gen {
            taken(queue.skip(1), Some(queue[0]), gen, target, chosen)
        } else {
            taken(queue.skip(1), None, gen, target, chosen)
        },
    }
}

impl PictureQueue {
    pub fn new() -> (q: Self)
        ensures
            q@ == Seq::<PictureItemView>::empty(),
    {
        let q: PictureQueue = PictureQueue { items: Vec::new() };
        assert(q@ =~= Seq::<PictureItemView>::empty());
        q
    }

    pub fn len(&self) -> (n: usize)
        ensures
            n == self@.len(),
    {
        self.items.len()
    }

    /// Put a picture into the queue, or give it back where there is no room.
    pub fn push(&mut self, item: PictureItem) -> (r: Result<(), PictureItem>)
        ensures
            if old(self)@.len() < PICTURE_QUEUE_DEPTH {
                r is Ok && final(self)@ == old(self)@.push(item@)
            } else {
                r matches Err(back) && back@ == item@ && final(self)@ == old(self)@
            },
            old(self)@.len() <= PICTURE_QUEUE_DEPTH ==> final(self)@.len() <= PICTURE_QUEUE_DEPTH,
    {
        if self.items.len() < PICTURE_QUEUE_DEPTH {
            self.items.push(item);
            assert(self@ =~= old(self)@.push(item@));
            Ok(())
        } else {
            Err(item)
        }
    }

    /// Take the newest picture that is due. Without a time that is the newest
    /// of all. `pending` is the one picture that was looked at too early.
    pub fn take_frame(
        &mut self,
        cur_gen: u64,
        pending: &mut Option<PictureItem>,
        target: Option<i64>,
    ) -> (frame: Option<DecodedFrame>)
        ensures
            ({
                let t = taken(old(self)@, opt_item(*old(pending)), cur_gen, target, None);
                &&& opt_frame(frame) == t.frame
                &&& opt_item(*final(pending)) == t.pending
                &&& final(self)@ == t.queue
            }),
    {
        let ghost expected = taken(self@, opt_item(*pending), cur_gen, target, None);
        let mut chosen: Option<DecodedFrame> = None;
        let mut held: Option<PictureItem> = None;
        std::mem::swap(&mut held, pending);
        loop
            invariant_except_break
                expected == taken(
                    self@,
                    opt_item(held),
                    cur_gen,
                    target,
                    opt_frame(chosen),
                ),
            ensures
                opt_frame(chosen) == expected.frame,
                opt_item(held) == expected.pending,
                self@ == expected.queue,
            decreases
                    self.items.len(),
                    (if held is Some {
                        1int
                    } else {
                        0int
                    }),
        {
            let ghost queue = self@;
            match held {
                Some(item) => {
                    let due: bool = match target {
                        Some(t) => item.frame.pts_us <= t,
                        None => true,
                    };
                    if !due {
                        held = Some(item);
                        break;
                    }
                    chosen = Some(item.frame);
                    held = None;
                },
                None => {
                    held = None;
                },
            }
            if self.items.len() == 0 {
                break;
            }
            let next: PictureItem = self.items.remove(0);
            assert(next@ == queue[0]);
            assert(self@ =~= queue.skip(1));
            if next.gen == cur_gen {
                held = Some(next);
            }
        }
        *pending = held;
        chosen
    }
}

/// Only pictures of the current generation are shown, and none before it is
/// due; one that waits belongs to the current generation too.
pub proof fn lemma_only_due_pictures_are_shown(
    queue: Seq<PictureItemView>,
    pending: Option<PictureItemView>,
    gen: u64,
    target: Option<i64>,
    chosen: Option<DecodedFrameView>,
)
    requires
        pending matches Some(item) ==> item.gen == gen,
        chosen matches Some(f) ==> (target matches Some(t) ==> f.pts_us <= t),
    ensures
        ({
            let r = taken(queue, pending, gen, target, chosen);
            &&& (r.frame matches Some(f) ==> (target matches Some(t) ==> f.pts_us <= t))
            &&& (r.pending matches Some(item) ==> item.gen == gen && !is_due(item, target))
            &&& r.queue.len() <= queue.len()
            &&& (target is None ==> r.pending is None && r.queue.len() == 0)
            &&& (r.frame matches Some(f) ==> r.frame == chosen || (pending matches Some(item)
                && item.frame == f) || exists|i: int|
                0 <= i < queue.len() && (#[trigger] queue[i]).gen == gen && queue[i].frame == f)
        }),
    decreases queue.len(),
{
    let r = taken(queue, pending, gen, target, chosen);
    let rest = queue.skip(1);
    let (next, kept): (Option<PictureItemView>, Option<DecodedFrameView>) = match pending {
        Some(item) => if is_due(item, target) {
            (
                if queue.len() > 0 && queue[0].gen == gen {
                    Some(queue[0])
                } else {
                    None
                },
                Some(item.frame),
            )
        } else {
            (pending, chosen)
        },
        None => (
            if queue.len() > 0 && queue[0].gen == gen {
                Some(queue[0])
            } else {
                None
            },
            chosen,
        ),
    };
    let stops = queue.len() == 0 || (pending matches Some(item) && !is_due(item, target));
    if !stops {
        lemma_only_due_pictures_are_shown(rest, next, gen, target, kept);
        if let Some(f) = r.frame {
            if exists|i: int|
                0 <= i < rest.len() && (#[trigger] rest[i]).gen == gen && rest[i].frame == f {
                let i = choose|i: int|
                    0 <= i < rest.len() && (#[trigger] rest[i]).gen == gen && rest[i].frame == f;
                assert(queue[i + 1] == rest[i]);
            }
        }
    }
}

} // verus!
