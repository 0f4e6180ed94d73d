//! The thread that renders pictures ahead of time.

use vstd::prelude::*;

use super::{clamp_position, Flow, PictureCtrl, PictureCtrlView};
use crate::domain::project;
use crate::domain::project::{Project, ProjectView};

verus! {

/// What became of a picture that was put into the queue.
#[derive(Clone, Copy, Debug, PartialEq, Eq)]
pub enum Sent {
    Taken,
    /// The queue was full.
    Full,
    /// Nobody takes pictures any more.
    Closed,
}

/// What the render thread does next.
#[derive(Clone, Copy, Debug, PartialEq, Eq)]
pub enum RenderAction {
    /// Offer the picture again that the queue had no room for.
    Retry,
    /// Nothing.
    Idle,
    /// Render the picture for this time and generation.
    Render { pts_us: i64, gen: u64 },
}

/// The render thread.
#[derive(Debug)]
pub struct RenderState {
    project: Project,
    playing: bool,
    head_us: i64,
    gen: u64,
    owed: bool,
    waiting: bool,
    duration_us: i64,
    frame_interval_ns: u64,
}

#[verifier::ext_equal]
pub struct RenderView {
    pub project: ProjectView,
    pub playing: bool,
    /// The time of the next picture.
    pub head_us: i64,
    pub gen: u64,
    /// One picture is owed after a seek, even while nothing plays.
    pub owed: bool,
    /// A rendered picture waits for room in the queue.
    pub waiting: bool,
    pub duration_us: i64,
    pub frame_interval_ns: u64,
}

impl View for RenderState {
    type V = RenderView;

    closed spec fn view(&self) -> RenderView {
        RenderView {
            project: self.project@,
            playing: self.playing,
            head_us: self.head_us,
            gen: self.gen,
            owed: self.owed,
            waiting: self.waiting,
            duration_us: self.duration_us,
            frame_interval_ns: self.frame_interval_ns,
        }
    }
}

impl RenderView {
    /// The duration is that of the project.
    pub open spec fn wf(self) -> bool {
        project::is_latest_end(project::all_placed(self.project.tracks), self.duration_us as int)
    }

    /// Whether there is anything to do without a new message.
    pub open spec fn has_work(self) -> bool {
        self.playing || self.waiting || self.owed
    }

    /// The thread after a message; `duration_us` and `frame_interval_ns` are
    /// those of the project that the message brings, if it brings one.
    pub open spec fn told(
        self,
        ctrl: PictureCtrlView,
        duration_us: i64,
        frame_interval_ns: u64,
    ) -> RenderView {
        match ctrl {
            PictureCtrlView::Play => RenderView { playing: true, ..self },
            PictureCtrlView::Pause => RenderView { playing: false, ..self },
            PictureCtrlView::Seek { pts_us, gen } => RenderView {
                gen,
                head_us: super::onto_timeline(pts_us, self.duration_us),
                waiting: false,
                owed: true,
                ..self
            },
            PictureCtrlView::Stop => self,
            PictureCtrlView::UpdateProject { project, gen } => RenderView {
                project,
                gen,
                duration_us,
                frame_interval_ns,
                waiting: false,
                owed: true,
                ..self
            },
        }
    }

    /// What to do when there is no message left.
    pub open spec fn next_action(self) -> RenderAction {
        if self.waiting {
            RenderAction::Retry
        } else if !self.playing && !self.owed {
            RenderAction::Idle
        } else if self.head_us >= self.duration_us {
            RenderAction::Idle
        } else {
            RenderAction::Render { pts_us: self.head_us, gen: self.gen }
        }
    }

    /// The thread after deciding: at the end of the timeline it stops.
    pub open spec fn decided(self) -> RenderView {
        if !self.waiting && (self.playing || self.owed) && self.head_us >= self.duration_us {
            RenderView { playing: false, owed: false, ..self }
        } else {
            self
        }
    }

    /// The thread after offering a picture to the queue. Only a picture that
    /// was taken moves it on.
    pub open spec fn offered(self, what: Sent) -> RenderView {
        match what {
            Sent::Taken => RenderView {
                waiting: false,
                owed: false,
                head_us: if self.playing {
                    (self.head_us + self.frame_interval_ns / 1000) as i64
                } else {
                    self.head_us
                },
                ..self
            },
            Sent::Full => RenderView { waiting: true, ..self },
            Sent::Closed => self,
        }
    }
}

impl RenderState {
    /// A thread at the start of a project. `frame_interval_ns` is the time
    /// between two pictures.
    pub fn new(project: Project, gen: u64, frame_interval_ns: u64) -> (s: Self)
        requires
            project::ends_fit(project::all_placed(project@.tracks)),
        ensures
            s@.wf(),
            s@ == (RenderView {
                project: project@,
                playing: false,
                head_us: 0,
                gen,
                owed: false,
                waiting: false,
                duration_us: s@.duration_us,
                frame_interval_ns,
            }),
    {
        let duration_us: i64 = project.duration_us();
        RenderState {
            project,
            playing: false,
            head_us: 0,
            gen,
            owed: false,
            waiting: false,
            duration_us,
            frame_interval_ns,
        }
    }

    pub fn project(&self) -> (p: &Project)
        ensures
            p@ == self@.project,
    {
        &self.project
    }

    pub fn is_busy(&self) -> (r: bool)
        ensures
            r == self@.has_work(),
    {
        self.playing || self.waiting || self.owed
    }

    /// Take a message. `frame_interval_ns` is the time between two pictures of
    /// the project that it brings, if it brings one. After a seek or a change
    /// of the project, a picture that waits for room is dropped, and one
    /// picture is owed.
    pub fn control(&mut self, ctrl: PictureCtrl, frame_interval_ns: u64) -> (flow: Flow)
        requires
            old(self)@.wf(),
            ctrl@ matches PictureCtrlView::UpdateProject { project, .. } ==> project::ends_fit(
                project::all_placed(project.tracks),
            ),
        ensures
            final(self)@.wf(),
            final(self)@ == old(self)@.told(ctrl@, final(self)@.duration_us, frame_interval_ns),
            flow == if ctrl@ is Stop {
                Flow::Stop
            } else {
                Flow::Continue
            },
    {
        match ctrl {
            PictureCtrl::Play => {
                self.playing = true;
            },
            PictureCtrl::Pause => {
                self.playing = false;
            },
            PictureCtrl::Seek { pts_us, gen } => {
                self.gen = gen;
                self.head_us = clamp_position(pts_us, self.duration_us);
                self.waiting = false;
                self.owed = true;
            },
            PictureCtrl::Stop => {
                return Flow::Stop;
            },
            PictureCtrl::UpdateProject { project, gen } => {
                self.gen = gen;
                self.duration_us = project.duration_us();
                self.project = project;
                self.frame_interval_ns = frame_interval_ns;
                self.waiting = false;
                self.owed = true;
            },
        }
        Flow::Continue
    }

    /// Decide what to do when there is no message left. A picture that waits
    /// for room goes first, so that none is rendered twice. At the end of the
    /// timeline rendering stops.
    pub fn next(&mut self) -> (a: RenderAction)
        ensures
            a == old(self)@.next_action(),
            final(self)@ == old(self)@.decided(),
    {
        if self.waiting {
            RenderAction::Retry
        } else if !self.playing && !self.owed {
            RenderAction::Idle
        } else if self.head_us >= self.duration_us {
            self.playing = false;
            self.owed = false;
            RenderAction::Idle
        } else {
            RenderAction::Render { pts_us: self.head_us, gen: self.gen }
        }
    }

    /// Take note of what became of the picture that was offered to the queue.
    pub fn sent(&mut self, what: Sent) -> (flow: Flow)
        ensures
            final(self)@ == old(self)@.offered(what),
            flow == if what is Closed {
                Flow::Stop
            } else {
                Flow::Continue
            },
    {
        match what {
            Sent::Taken => {
                if self.playing {
                    let step: u64 = self.frame_interval_ns / 1000;
                    self.head_us = (self.head_us as i128 + step as i128) as i64;
                }
                self.waiting = false;
                self.owed = false;
                Flow::Continue
            },
            Sent::Full => {
                self.waiting = true;
                Flow::Continue
            },
            Sent::Closed => Flow::Stop,
        }
    }
}

/// After a seek the thread renders exactly the picture at the new position,
/// for the new generation, and after that it is as idle as it was: scrubbing
/// does not start playing.
pub proof fn lemma_paused_seek_renders_one_picture(s: RenderView, pts_us: i64, gen: u64)
    requires
        !s.playing,
        0 <= pts_us < s.duration_us,
    ensures
        ({
            let sought = s.told(PictureCtrlView::Seek { pts_us, gen }, 0, 0);
            &&& sought.next_action() == (RenderAction::Render { pts_us, gen })
            &&& sought.decided() == sought
            &&& sought.offered(Sent::Taken).next_action() == RenderAction::Idle
            &&& !sought.offered(Sent::Taken).has_work()
            &&& sought.offered(Sent::Full).next_action() == RenderAction::Retry
            &&& sought.offered(Sent::Full).offered(Sent::Taken) == sought.offered(Sent::Taken)
        }),
{
}

/// While it plays, the thread renders one picture after the other, and a full
/// queue makes it skip none.
pub proof fn lemma_full_queue_skips_nothing(s: RenderView)
    requires
        s.playing,
        !s.waiting,
        s.head_us < s.duration_us,
    ensures
        s.offered(Sent::Full).next_action() == RenderAction::Retry,
        s.offered(Sent::Full).offered(Sent::Taken) == s.offered(Sent::Taken),
        s.head_us + s.frame_interval_ns / 1000 < s.duration_us ==> s.offered(
            Sent::Taken,
        ).next_action() == (RenderAction::Render {
            pts_us: (s.head_us + s.frame_interval_ns / 1000) as i64,
            gen: s.gen,
        }),
{
}

} // verus!
