//! What all the command lines share, and how a run ends.

use vstd::prelude::*;

use crate::domain::clip::Clip;
use crate::domain::codec::{CodecProfile, CodecProfileView, Resolution};
use crate::domain::project;
use crate::domain::project::{Project, TrackView};
use crate::engine::errors::{EngineError, EngineErrorView, EngineResult};
use crate::paths;
use crate::text;

verus! {

/// The programs to run.
#[derive(Debug)]
pub struct FfmpegEngine {
    pub ffmpeg_bin: String,
    pub ffprobe_bin: String,
}

impl Default for FfmpegEngine {
    fn default() -> (e: Self)
        ensures
            e.ffmpeg_bin@ == "ffmpeg"@,
            e.ffprobe_bin@ == "ffprobe"@,
    {
        FfmpegEngine { ffmpeg_bin: "ffmpeg".to_owned(), ffprobe_bin: "ffprobe".to_owned() }
    }
}

/// The ffprobe that belongs to an ffmpeg: the one in the same folder where
/// ffmpeg is named by an absolute path, or else the one on the search path.
pub open spec fn ffprobe_beside(ffmpeg: Seq<char>) -> Seq<char> {
    match paths::parent_of(ffmpeg) {
        Some(dir) => if ffmpeg[0] == '/' {
            paths::joined(dir, "ffprobe"@)
        } else {
            "ffprobe"@
        },
        None => "ffprobe"@,
    }
}

/// The ffprobe that belongs to an ffmpeg.
pub fn derive_ffprobe(ffmpeg_path: &str) -> (s: String)
    ensures
        s@ == ffprobe_beside(ffmpeg_path@),
{
    match paths::parent(ffmpeg_path) {
        Some(dir) => {
            let chars: Vec<char> = text::chars_of(ffmpeg_path);
            if chars.len() > 0 && chars[0] == '/' {
                paths::join(dir.as_str(), "ffprobe")
            } else {
                "ffprobe".to_owned()
            }
        },
        None => "ffprobe".to_owned(),
    }
}

impl FfmpegEngine {
    /// The ffmpeg at a path, or else the one on the search path, and the ffprobe
    /// that belongs to it.
    pub fn for_path(ffmpeg_path: &Option<String>) -> (e: Self)
        ensures
            e.ffmpeg_bin@ == match text::opt_view(*ffmpeg_path) {
                Some(p) => p,
                None => "ffmpeg"@,
            },
            e.ffprobe_bin@ == ffprobe_beside(e.ffmpeg_bin@),
    {
        let ffmpeg_bin: String = match ffmpeg_path {
            Some(p) => p.clone(),
            None => "ffmpeg".to_owned(),
        };
        let ffprobe_bin: String = derive_ffprobe(ffmpeg_bin.as_str());
        FfmpegEngine { ffmpeg_bin, ffprobe_bin }
    }
}

/// Append an argument.
pub(crate) fn arg(args: &mut Vec<String>, a: &str)
    ensures
        text::views(final(args)@) == text::views(old(args)@).push(a@),
{
    args.push(a.to_owned());
    assert(text::views(args@) =~= text::views(old(args)@).push(a@));
}

/// Append an argument.
pub(crate) fn arg_text(args: &mut Vec<String>, a: String)
    ensures
        text::views(final(args)@) == text::views(old(args)@).push(a@),
{
    args.push(a);
    assert(text::views(args@) =~= text::views(old(args)@).push(a@));
}

/// Overwrite the output, and print errors only.
pub open spec fn quiet() -> Seq<Seq<char>> {
    Seq::empty().push("-y"@).push("-hide_banner"@).push("-loglevel"@).push("error"@)
}

pub(crate) fn quiet_args() -> (args: Vec<String>)
    ensures
        text::views(args@) == quiet(),
{
    let mut args: Vec<String> = Vec::new();
    assert(text::views(args@) =~= Seq::empty());
    arg(&mut args, "-y");
    arg(&mut args, "-hide_banner");
    arg(&mut args, "-loglevel");
    arg(&mut args, "error");
    args
}

/// How a run of a program ended.
#[derive(Clone, Copy, Debug, PartialEq, Eq)]
pub enum ProcessEnd {
    /// It ended by itself. A program that was killed has no code.
    Exited { success: bool, code: Option<i32> },
    /// It was stopped because the job was cancelled.
    Cancelled,
}

/// What the end of a run means for the job.
pub fn job_outcome(end: ProcessEnd) -> (r: EngineResult<()>)
    ensures
        match end {
            ProcessEnd::Exited { success: true, .. } => r is Ok,
            ProcessEnd::Exited { success: false, code } => r matches Err(e) && e@
                == EngineErrorView::NonZeroExit(
                match code {
                    Some(c) => c,
                    None => -1i32,
                },
            ),
            ProcessEnd::Cancelled => r matches Err(e) && e@ == EngineErrorView::Cancelled,
        },
{
    match end {
        ProcessEnd::Exited { success, code } => if success {
            Ok(())
        } else {
            match code {
                Some(c) => Err(EngineError::NonZeroExit(c)),
                None => Err(EngineError::NonZeroExit(-1)),
            }
        },
        ProcessEnd::Cancelled => Err(EngineError::Cancelled),
    }
}

/// Full HD in H.264 and AAC, thirty frames a second.
pub open spec fn full_hd() -> CodecProfileView {
    CodecProfileView {
        video_codec: "h264"@,
        audio_codec: "aac"@,
        resolution: Resolution { width: 1920, height: 1080 },
        frame_rate_mhz: 30_000,
        pixel_format: "yuv420p"@,
    }
}

/// What an export is encoded to: the profile of the first clip, or full HD
/// where there is no clip.
pub open spec fn target_of(tracks: Seq<TrackView>) -> CodecProfileView {
    if project::all_placed(tracks).len() > 0 {
        project::all_placed(tracks)[0].clip.info.profile
    } else {
        full_hd()
    }
}

/// What an export of the project is encoded to.
pub fn export_target(project: &Project) -> (p: CodecProfile)
    ensures
        p@ == target_of(project@.tracks),
{
    let clips: Vec<&Clip> = project.all_clips();
    if clips.len() > 0 {
        clips[0].info.profile.clone()
    } else {
        CodecProfile {
            video_codec: "h264".to_owned(),
            audio_codec: "aac".to_owned(),
            resolution: Resolution { width: 1920, height: 1080 },
            frame_rate_mhz: 30_000,
            pixel_format: "yuv420p".to_owned(),
        }
    }
}

} // verus!
