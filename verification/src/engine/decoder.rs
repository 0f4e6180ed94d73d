//! Decoded pictures, and which one to show.

use vstd::prelude::*;

verus! {

/// A picture of a video.
#[derive(Debug)]
pub struct DecodedFrame {
    pub width: u32,
    pub height: u32,
    pub pts_us: i64,
    /// Four bytes for each pixel, row by row.
    pub rgba: Vec<u8>,
}

#[verifier::ext_equal]
pub struct DecodedFrameView {
    pub width: u32,
    pub height: u32,
    pub pts_us: i64,
    pub rgba: Seq<u8>,
}

impl View for DecodedFrame {
    type V = DecodedFrameView;

    open spec fn view(&self) -> DecodedFrameView {
        DecodedFrameView {
            width: self.width,
            height: self.height,
            pts_us: self.pts_us,
            rgba: self.rgba@,
        }
    }
}

/// What a stream tells of itself.
#[derive(Clone, Copy, Debug, PartialEq, Eq, Structural)]
pub struct StreamMeta {
    pub duration_us: i64,
    pub frame_rate_num: i32,
    pub frame_rate_den: i32,
}

impl StreamMeta {
    /// The frame rate as a fraction; a stream without one has none.
    pub fn frame_rate(&self) -> (r: Option<(i32, i32)>)
        ensures
            r == if self.frame_rate_den == 0 {
                None
            } else {
                Some((self.frame_rate_num, self.frame_rate_den))
            },
    {
        if self.frame_rate_den == 0 {
            None
        } else {
            Some((self.frame_rate_num, self.frame_rate_den))
        }
    }
}

/// Decoding goes on without seeking over at most so much time.
pub const SEEK_THRESHOLD_US: i64 = 200_000;

/// Whether a decoder that last gave the picture at `last` has to seek for the
/// one at `target`: at the start, backwards, and far ahead.
pub open spec fn must_seek(last: Option<i64>, target: i64) -> bool {
    match last {
        None => true,
        Some(l) => target < l || target - l > SEEK_THRESHOLD_US,
    }
}

/// Whether a decoder that last gave the picture at `last_pts_us` has to seek
/// for the one at `target_us`.
pub fn needs_seek(last_pts_us: Option<i64>, target_us: i64) -> (r: bool)
    ensures
        r == must_seek(last_pts_us, target_us),
{
    match last_pts_us {
        None => true,
        Some(last) => target_us < last || target_us as i128 - last as i128
            > SEEK_THRESHOLD_US as i128,
    }
}

/// A place to seek to: not before the start of the file.
pub fn seek_target(pts_us: i64) -> (r: i64)
    ensures
        r == if pts_us > 0 {
            pts_us
        } else {
            0
        },
{
    if pts_us > 0 {
        pts_us
    } else {
        0
    }
}

/// What decoding one more picture brought.
#[derive(Clone, Copy, Debug, PartialEq, Eq)]
pub enum Decoded {
    /// A picture for this time.
    At(i64),
    /// The end of the file.
    End,
    /// An error.
    Failed,
}

/// What to do after that.
#[derive(Clone, Copy, Debug, PartialEq, Eq)]
pub enum DecodeStep {
    /// Decode one more.
    Again,
    /// Show the picture decoded last.
    Show,
    /// There is nothing to show.
    GiveUp,
}

/// The search for the picture at a time.
#[derive(Clone, Copy, Debug, PartialEq, Eq)]
pub struct FrameSearch {
    /// The time of the picture decoded last.
    pub last_pts_us: Option<i64>,
}

impl FrameSearch {
    pub fn new() -> (s: Self)
        ensures
            s.last_pts_us is None,
    {
        FrameSearch { last_pts_us: None }
    }

    /// Begin the search for the picture at `target_us`. Tells whether to seek
    /// there first.
    pub fn begin(&self, target_us: i64) -> (seek: bool)
        ensures
            seek == must_seek(self.last_pts_us, target_us),
    {
        needs_seek(self.last_pts_us, target_us)
    }

    /// Take note that the decoder did seek.
    pub fn sought(&mut self)
        ensures
            final(self).last_pts_us is None,
    {
        self.last_pts_us = None;
    }

    /// Take note of what was decoded. The first picture that is not before
    /// `target_us` is shown, or the last one of the file.
    pub fn decoded(&mut self, target_us: i64, what: Decoded) -> (step: DecodeStep)
        ensures
            match what {
                Decoded::At(pts) => final(self).last_pts_us == Some(pts) && step == if pts
                    >= target_us {
                    DecodeStep::Show
                } else {
                    DecodeStep::Again
                },
                Decoded::End => *final(self) == *old(self) && step == DecodeStep::Show,
                Decoded::Failed => *final(self) == *old(self) && step == DecodeStep::GiveUp,
            },
    {
        match what {
            Decoded::At(pts) => {
                self.last_pts_us = Some(pts);
                if pts >= target_us {
                    DecodeStep::Show
                } else {
                    DecodeStep::Again
                }
            },
            Decoded::End => DecodeStep::Show,
            Decoded::Failed => DecodeStep::GiveUp,
        }
    }
}

/// At least two threads decode, and at most eight.
pub open spec fn threads_for(cpus: int) -> int {
    if cpus < 2 {
        2
    } else if cpus > 8 {
        8
    } else {
        cpus
    }
}

/// How many threads decode on a machine with `cpus` processors.
pub fn clamp_threads(cpus: usize) -> (n: usize)
    ensures
        n == threads_for(cpus as int),
{
    if cpus < 2 {
        2
    } else if cpus > 8 {
        8
    } else {
        cpus
    }
}

/// `num_cpus::get` counts the processors that the program may use. What it
/// finds depends on the machine, so nothing is said of it.
#[verifier::external_body]
fn cpu_count() -> (n: usize) {
    num_cpus::get()
}

/// How many threads decode on this machine.
pub fn decoder_threads() -> (n: usize)
    ensures
        2 <= n <= 8,
{
    let cpus: usize = cpu_count();
    clamp_threads(cpus)
}

} // verus!
