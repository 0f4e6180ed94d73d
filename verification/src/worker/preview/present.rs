//! The thread that shows pictures when they are due.

use vstd::prelude::*;

use super::queue;
use super::queue::{PictureItem, PictureItemView, PictureQueue};
use super::{clamp_position, preview_meta, Flow, PictureCtrl, PictureCtrlView, PreviewMeta};
use crate::domain::project;
use crate::domain::project::{Project, ProjectView};
use crate::engine::audio::SAMPLE_RATE;
use crate::engine::decoder::{DecodedFrame, DecodedFrameView};
use crate::engine::pixels;
use crate::engine::pixels::black_canvas;
use crate::worker::job::{Event, EventView};

verus! {

/// Pictures that are later than this make the render thread jump ahead, and it
/// is told so at most once in this time.
pub const RESYNC_AFTER_US: i64 = 250_000;

/// The present thread.
#[derive(Debug)]
pub struct PresentState {
    project: Project,
    playing: bool,
    last_delivered_us: i64,
    anchor: Option<(u32, i64)>,
    gen: u64,
    pending: Option<PictureItem>,
    last_resync_us: Option<i64>,
    duration_us: i64,
    frame_interval_ns: u64,
    next_due_ns: u64,
}

#[verifier::ext_equal]
pub struct PresentView {
    pub project: ProjectView,
    pub playing: bool,
    /// The time of the picture shown last.
    pub last_delivered_us: i64,
    /// The sound clock when playing began, and the time of the picture then.
    pub anchor: Option<(u32, i64)>,
    pub gen: u64,
    /// The one picture that was looked at before it was due.
    pub pending: Option<PictureItemView>,
    /// Where the render thread was told to jump to last.
    pub last_resync_us: Option<i64>,
    pub duration_us: i64,
    pub frame_interval_ns: u64,
    /// When the next picture is due by the wall clock.
    pub next_due_ns: u64,
}

impl View for PresentState {
    type V = PresentView;

    closed spec fn view(&self) -> PresentView {
        PresentView {
            project: self.project@,
            playing: self.playing,
            last_delivered_us: self.last_delivered_us,
            anchor: self.anchor,
            gen: self.gen,
            pending: queue::opt_item(self.pending),
            last_resync_us: self.last_resync_us,
            duration_us: self.duration_us,
            frame_interval_ns: self.frame_interval_ns,
            next_due_ns: self.next_due_ns,
        }
    }
}

/// What a step brings.
#[derive(Debug)]
pub struct Tick {
    /// What is to be told: a picture to show, or that the end is reached.
    pub event: Option<Event>,
    /// The pictures are late: the render thread has to jump to this time.
    pub resync_to_us: Option<i64>,
}

#[verifier::ext_equal]
pub struct TickView {
    pub event: Option<EventView>,
    pub resync_to_us: Option<i64>,
}

impl View for Tick {
    type V = TickView;

    open spec fn view(&self) -> TickView {
        TickView { event: event_view(self.event), resync_to_us: self.resync_to_us }
    }
}

pub open spec fn event_view(e: Option<Event>) -> Option<EventView> {
    match e {
        Some(e) => Some(e@),
        None => None,
    }
}

/// A picture, as it is told to the user.
pub open spec fn shown(frame: Option<DecodedFrameView>) -> Option<EventView> {
    match frame {
        Some(frame) => Some(EventView::FrameReady { clip_id: 0, frame }),
        None => None,
    }
}

/// What is told when the preview comes to its end or is stopped.
pub open spec fn ended() -> EventView {
    EventView::PreviewEnded { clip_id: 0 }
}

/// A step's outcome: what it brings, the thread and the queue.
#[verifier::ext_equal]
pub struct Stepped {
    pub tick: TickView,
    pub state: PresentView,
    pub queue: Seq<PictureItemView>,
}

/// The time by the sound clock: one sample of [`SAMPLE_RATE`] a second after
/// the other since the anchor. The clock starts over after its greatest value.
pub open spec fn clock_target(anchor: (u32, i64), frames_now: u32) -> i64 {
    let frames = if frames_now >= anchor.0 {
        frames_now - anchor.0
    } else {
        frames_now + 0x1_0000_0000 - anchor.0
    };
    (anchor.1 + frames * 1_000_000 / 48_000) as i64
}

impl PresentView {
    /// The duration is that of the project, and the picture that waits belongs
    /// to the current generation.
    pub open spec fn wf(self) -> bool {
        &&& project::is_latest_end(
            project::all_placed(self.project.tracks),
            self.duration_us as int,
        )
        &&& self.pending matches Some(item) ==> item.gen == self.gen
    }

    /// The thread after a message at the time `now_ns`; `duration_us` and
    /// `frame_interval_ns` are those of the project that the message brings, if
    /// it brings one.
    pub open spec fn told(
        self,
        ctrl: PictureCtrlView,
        now_ns: u64,
        duration_us: i64,
        frame_interval_ns: u64,
    ) -> PresentView {
        match ctrl {
            PictureCtrlView::Play => PresentView {
                playing: true,
                anchor: None,
                next_due_ns: now_ns,
                ..self
            },
            PictureCtrlView::Pause => PresentView { playing: false, anchor: None, ..self },
            PictureCtrlView::Seek { pts_us, gen } => PresentView {
                gen,
                last_delivered_us: super::onto_timeline(pts_us, self.duration_us),
                anchor: None,
                next_due_ns: now_ns,
                last_resync_us: None,
                pending: None,
                ..self
            },
            PictureCtrlView::Stop => self,
            PictureCtrlView::UpdateProject { project, gen } => PresentView {
                project,
                gen,
                duration_us,
                frame_interval_ns,
                pending: None,
                ..self
            },
        }
    }

    /// A picture that is due at `target` is taken and shown, if there is one.
    pub open spec fn delivering(
        self,
        queue: Seq<PictureItemView>,
        target: Option<i64>,
    ) -> Stepped {
        let t = queue::taken(queue, self.pending, self.gen, target, None);
        Stepped {
            tick: TickView { event: shown(t.frame), resync_to_us: None },
            state: PresentView {
                pending: t.pending,
                last_delivered_us: match t.frame {
                    Some(f) => f.pts_us,
                    None => self.last_delivered_us,
                },
                ..self
            },
            queue: t.queue,
        }
    }

    /// The end is reached.
    pub open spec fn ending(self, queue: Seq<PictureItemView>) -> Stepped {
        Stepped {
            tick: TickView { event: Some(ended()), resync_to_us: None },
            state: PresentView { playing: false, ..self },
            queue,
        }
    }

    /// Whether the pictures are so late at `target_us` that the render thread
    /// has to jump ahead, and it was not told so just now.
    pub open spec fn is_late(self, target_us: i64) -> bool {
        &&& target_us - self.last_delivered_us > RESYNC_AFTER_US
        &&& match self.last_resync_us {
            Some(at) => target_us - at > RESYNC_AFTER_US,
            None => true,
        }
    }

    /// A step by the sound clock, anchored now where it is not yet.
    pub open spec fn by_sound(
        self,
        queue: Seq<PictureItemView>,
        clock_at_anchor: u32,
        frames_now: u32,
    ) -> Stepped {
        let anchor = match self.anchor {
            Some(x) => x,
            None => (clock_at_anchor, self.last_delivered_us),
        };
        let target = clock_target(anchor, frames_now);
        if target >= self.duration_us {
            (PresentView { anchor: None, ..self }).ending(queue)
        } else {
            let s = (PresentView { anchor: Some(anchor), ..self }).delivering(queue, Some(target));
            if s.state.is_late(target) {
                Stepped { tick: TickView { resync_to_us: Some(target), ..s.tick }, ..s }
            } else {
                s
            }
        }
    }

    /// A step by the wall clock.
    pub open spec fn by_wall(self, queue: Seq<PictureItemView>) -> Stepped {
        let target = (self.last_delivered_us + self.frame_interval_ns / 1000) as i64;
        let ticked = PresentView {
            next_due_ns: (self.next_due_ns + self.frame_interval_ns) as u64,
            ..self
        };
        if target >= self.duration_us {
            ticked.ending(queue)
        } else {
            ticked.delivering(queue, Some(target))
        }
    }
}

/// What is told when the preview opens: the preview itself, of the given size,
/// and a black picture.
pub open spec fn opening_events(
    duration_us: i64,
    meta: PreviewMeta,
    width: u32,
    height: u32,
) -> (EventView, EventView) {
    (
        EventView::PreviewOpened {
            clip_id: 0,
            duration_us,
            width,
            height,
            frame_rate_num: meta.fps_num,
            frame_rate_den: meta.fps_den,
        },
        EventView::FrameReady {
            clip_id: 0,
            frame: DecodedFrameView { width, height, pts_us: 0, rgba: pixels::black(width * height) },
        },
    )
}

impl PresentState {
    /// A thread at the start of a project.
    pub fn new(project: Project, gen: u64, frame_interval_ns: u64, now_ns: u64) -> (s: Self)
        requires
            project::ends_fit(project::all_placed(project@.tracks)),
        ensures
            s@.wf(),
            s@ == (PresentView {
                project: project@,
                playing: false,
                last_delivered_us: 0,
                anchor: None,
                gen,
                pending: None,
                last_resync_us: None,
                duration_us: s@.duration_us,
                frame_interval_ns,
                next_due_ns: now_ns,
            }),
    {
        let duration_us: i64 = project.duration_us();
        PresentState {
            project,
            playing: false,
            last_delivered_us: 0,
            anchor: None,
            gen,
            pending: None,
            last_resync_us: None,
            duration_us,
            frame_interval_ns,
            next_due_ns: now_ns,
        }
    }

    pub fn is_playing(&self) -> (r: bool)
        ensures
            r == self@.playing,
    {
        self.playing
    }

    /// What is told when the preview opens in the given size.
    pub fn opening(&self, width: u32, height: u32) -> (r: (Event, Event))
        requires
            width * height * 4 <= usize::MAX,
        ensures
            (r.0@, r.1@) == opening_events(
                self@.duration_us,
                super::meta_of(self@.project.tracks),
                width,
                height,
            ),
    {
        let meta: PreviewMeta = preview_meta(&self.project);
        let rgba: Vec<u8> = black_canvas(width, height);
        (
            Event::PreviewOpened {
                clip_id: 0,
                duration_us: self.duration_us,
                width,
                height,
                frame_rate_num: meta.fps_num,
                frame_rate_den: meta.fps_den,
            },
            Event::FrameReady {
                clip_id: 0,
                frame: DecodedFrame { width, height, pts_us: 0, rgba },
            },
        )
    }

    /// What is told when the preview comes to its end or is stopped.
    pub fn closing(&self) -> (e: Event)
        ensures
            e@ == ended(),
    {
        Event::PreviewEnded { clip_id: 0 }
    }

    /// Take a message. A seek or a change of the project drops the picture
    /// that waits. The answer is whether to go on, and what is to be told: that
    /// the preview has ended, where it is stopped.
    pub fn control(&mut self, ctrl: PictureCtrl, now_ns: u64, frame_interval_ns: u64) -> (r: (
        Flow,
        Option<Event>,
    ))
        requires
            old(self)@.wf(),
            ctrl@ matches PictureCtrlView::UpdateProject { project, .. } ==> project::ends_fit(
                project::all_placed(project.tracks),
            ),
        ensures
            final(self)@.wf(),
            final(self)@ == old(self)@.told(
                ctrl@,
                now_ns,
                final(self)@.duration_us,
                frame_interval_ns,
            ),
            if ctrl@ is Stop {
                r.0 == Flow::Stop && event_view(r.1) == Some(ended())
            } else {
                r.0 == Flow::Continue && r.1 is None
            },
    {
        match ctrl {
            PictureCtrl::Play => {
                self.playing = true;
                self.next_due_ns = now_ns;
                self.anchor = None;
            },
            PictureCtrl::Pause => {
                self.playing = false;
                self.anchor = None;
            },
            PictureCtrl::Seek { pts_us, gen } => {
                self.gen = gen;
                self.last_delivered_us = clamp_position(pts_us, self.duration_us);
                self.anchor = None;
                self.next_due_ns = now_ns;
                self.last_resync_us = None;
                self.pending = None;
            },
            PictureCtrl::Stop => {
                return (Flow::Stop, Some(self.closing()));
            },
            PictureCtrl::UpdateProject { project, gen } => {
                self.gen = gen;
                self.duration_us = project.duration_us();
                self.project = project;
                self.frame_interval_ns = frame_interval_ns;
                self.pending = None;
            },
        }
        (Flow::Continue, None)
    }

    fn deliver(&mut self, pictures: &mut PictureQueue, target: Option<i64>) -> (tick: Tick)
        requires
            old(self)@.wf(),
        ensures
            final(self)@.wf(),
            (Stepped { tick: tick@, state: final(self)@, queue: final(pictures)@ }) == old(
                self,
            )@.delivering(old(pictures)@, target),
    {
        proof {
            queue::lemma_only_due_pictures_are_shown(
                pictures@,
                self@.pending,
                self@.gen,
                target,
                None,
            );
        }
        let frame: Option<DecodedFrame> = pictures.take_frame(self.gen, &mut self.pending, target);
        match frame {
            Some(frame) => {
                self.last_delivered_us = frame.pts_us;
                Tick { event: Some(Event::FrameReady { clip_id: 0, frame }), resync_to_us: None }
            },
            None => Tick { event: None, resync_to_us: None },
        }
    }

    /// A step while nothing plays: the newest picture is shown, such as the
    /// one after a seek.
    pub fn tick_paused(&mut self, pictures: &mut PictureQueue) -> (tick: Tick)
        requires
            old(self)@.wf(),
        ensures
            final(self)@.wf(),
            (Stepped { tick: tick@, state: final(self)@, queue: final(pictures)@ }) == old(
                self,
            )@.delivering(old(pictures)@, None),
    {
        self.deliver(pictures, None)
    }

    /// A step by the sound clock. `clock_at_anchor` is what the clock says
    /// where it is to be anchored now, `frames_now` what it says after that.
    pub fn tick_sound(
        &mut self,
        pictures: &mut PictureQueue,
        clock_at_anchor: u32,
        frames_now: u32,
    ) -> (tick: Tick)
        requires
            old(self)@.wf(),
        ensures
            final(self)@.wf(),
            (Stepped { tick: tick@, state: final(self)@, queue: final(pictures)@ }) == old(
                self,
            )@.by_sound(old(pictures)@, clock_at_anchor, frames_now),
    {
        let anchor: (u32, i64) = match self.anchor {
            Some(x) => x,
            None => (clock_at_anchor, self.last_delivered_us),
        };
        self.anchor = Some(anchor);
        let frames: i128 = if frames_now >= anchor.0 {
            (frames_now - anchor.0) as i128
        } else {
            frames_now as i128 + 0x1_0000_0000 - anchor.0 as i128
        };
        let target: i64 = (anchor.1 as i128 + frames * 1_000_000 / (SAMPLE_RATE as i128)) as i64;
        if target >= self.duration_us {
            self.playing = false;
            self.anchor = None;
            return Tick { event: Some(self.closing()), resync_to_us: None };
        }
        let mut tick: Tick = self.deliver(pictures, Some(target));
        let behind: i128 = target as i128 - self.last_delivered_us as i128;
        let told: bool = match self.last_resync_us {
            Some(at) => target as i128 - at as i128 <= RESYNC_AFTER_US as i128,
            None => false,
        };
        if behind > RESYNC_AFTER_US as i128 && !told {
            tick.resync_to_us = Some(target);
        }
        tick
    }

    /// Take note that generation `gen` begins at `target_us`, and tell the
    /// render thread to jump there.
    pub fn resync(&mut self, target_us: i64, gen: u64) -> (ctrl: PictureCtrl)
        requires
            old(self)@.wf(),
        ensures
            final(self)@.wf(),
            final(self)@ == (PresentView {
                gen,
                pending: None,
                last_resync_us: Some(target_us),
                ..old(self)@
            }),
            ctrl@ == (PictureCtrlView::Seek { pts_us: target_us, gen }),
    {
        self.gen = gen;
        self.pending = None;
        self.last_resync_us = Some(target_us);
        PictureCtrl::Seek { pts_us: target_us, gen }
    }

    /// How long to wait for the next picture by the wall clock.
    pub fn wait_ns(&self, now_ns: u64) -> (ns: u64)
        ensures
            ns == if now_ns < self@.next_due_ns {
                self@.next_due_ns - now_ns
            } else {
                0
            },
    {
        if now_ns < self.next_due_ns {
            self.next_due_ns - now_ns
        } else {
            0
        }
    }

    /// A step by the wall clock, after waiting.
    pub fn tick_wall(&mut self, pictures: &mut PictureQueue) -> (tick: Tick)
        requires
            old(self)@.wf(),
        ensures
            final(self)@.wf(),
            (Stepped { tick: tick@, state: final(self)@, queue: final(pictures)@ }) == old(
                self,
            )@.by_wall(old(pictures)@),
    {
        self.next_due_ns = (self.next_due_ns as u128 + self.frame_interval_ns as u128) as u64;
        let step: u64 = self.frame_interval_ns / 1000;
        let target: i64 = (self.last_delivered_us as i128 + step as i128) as i64;
        if target >= self.duration_us {
            self.playing = false;
            return Tick { event: Some(self.closing()), resync_to_us: None };
        }
        self.deliver(pictures, Some(target))
    }
}

/// The sound clock may start over: only the time since the anchor counts.
pub proof fn lemma_clock_may_wrap(anchor: u32, at_us: i64, played: u32)
    requires
        at_us + played * 1_000_000 / 48_000 <= i64::MAX,
    ensures
        clock_target(
            (anchor, at_us),
            ((anchor + played) % 0x1_0000_0000) as u32,
        ) == at_us + played * 1_000_000 / 48_000,
{
}

/// After telling the render thread to jump, it is told again only once the
/// clock has moved on by more than [`RESYNC_AFTER_US`].
pub proof fn lemma_resync_is_rate_limited(s: PresentView, told_us: i64, gen: u64, target_us: i64)
    requires
        target_us - told_us <= RESYNC_AFTER_US,
    ensures
        !(PresentView { gen, pending: None, last_resync_us: Some(told_us), ..s }).is_late(target_us),
{
}

} // verus!
