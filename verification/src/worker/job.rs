//! What the window asks of the worker, and what the worker reports.

use vstd::prelude::*;

use crate::domain::clip::{Clip, ClipView, MediaInfo, MediaInfoView};
use crate::domain::export_spec::{ExportSpec, ExportSpecView};
use crate::domain::project::{Project, ProjectView};
use crate::engine::decoder::{DecodedFrame, DecodedFrameView};
use crate::engine::errors::{EngineError, EngineErrorView, EngineResult};
use crate::ident::{ClipId, JobId};
use crate::scalar::Scalar;
use crate::text;

verus! {

/// What the window asks of the worker.
#[derive(Debug)]
pub enum Command {
    Probe { id: JobId, path: String },
    Merge { id: JobId, project: Project, spec: ExportSpec },
    Cancel { id: JobId },
    /// Show the project in the preview.
    OpenPreview { project: Project },
    PlayPreview,
    PausePreview,
    SeekPreview { pts_us: i64 },
    GenerateThumbnails { clip_id: ClipId, path: String, out_dir: String, count: usize },
    GenerateWaveform { clip_id: ClipId, path: String, out_path: String },
    SetMasterMuted(bool),
    SetMasterVolume(Scalar),
    Shutdown,
}

#[verifier::ext_equal]
pub enum CommandView {
    Probe { id: JobId, path: Seq<char> },
    Merge { id: JobId, project: ProjectView, spec: ExportSpecView },
    Cancel { id: JobId },
    OpenPreview { project: ProjectView },
    PlayPreview,
    PausePreview,
    SeekPreview { pts_us: i64 },
    GenerateThumbnails { clip_id: ClipId, path: Seq<char>, out_dir: Seq<char>, count: usize },
    GenerateWaveform { clip_id: ClipId, path: Seq<char>, out_path: Seq<char> },
    SetMasterMuted(bool),
    SetMasterVolume(Scalar),
    Shutdown,
}

impl View for Command {
    type V = CommandView;

    open spec fn view(&self) -> CommandView {
        match *self {
            Command::Probe { id, path } => CommandView::Probe { id, path: path@ },
            Command::Merge { id, project, spec } => CommandView::Merge {
                id,
                project: project@,
                spec: spec@,
            },
            Command::Cancel { id } => CommandView::Cancel { id },
            Command::OpenPreview { project } => CommandView::OpenPreview { project: project@ },
            Command::PlayPreview => CommandView::PlayPreview,
            Command::PausePreview => CommandView::PausePreview,
            Command::SeekPreview { pts_us } => CommandView::SeekPreview { pts_us },
            Command::GenerateThumbnails { clip_id, path, out_dir, count } =>
            CommandView::GenerateThumbnails {
                clip_id,
                path: path@,
                out_dir: out_dir@,
                count,
            },
            Command::GenerateWaveform { clip_id, path, out_path } =>
            CommandView::GenerateWaveform { clip_id, path: path@, out_path: out_path@ },
            Command::SetMasterMuted(m) => CommandView::SetMasterMuted(m),
            Command::SetMasterVolume(v) => CommandView::SetMasterVolume(v),
            Command::Shutdown => CommandView::Shutdown,
        }
    }
}

/// What the worker reports.
#[derive(Debug)]
pub enum Event {
    Probed { id: JobId, path: String, info: MediaInfo },
    ClipReady(Clip),
    /// How much of an export is done. The seconds are a double-precision number,
    /// by its bits.
    Progress { id: JobId, fraction: Scalar, processed_secs_bits: u64 },
    Finished { id: JobId, output: String },
    Failed { id: JobId, message: String },
    Cancelled { id: JobId },
    PreviewOpened {
        clip_id: ClipId,
        duration_us: i64,
        width: u32,
        height: u32,
        frame_rate_num: i32,
        frame_rate_den: i32,
    },
    FrameReady { clip_id: ClipId, frame: DecodedFrame },
    PreviewEnded { clip_id: ClipId },
    AudioMeter { peak_l: Scalar, peak_r: Scalar },
    ThumbnailsReady { clip_id: ClipId, paths: Vec<String> },
    WaveformReady { clip_id: ClipId, path: String },
}

#[verifier::ext_equal]
pub enum EventView {
    Probed { id: JobId, path: Seq<char>, info: MediaInfoView },
    ClipReady(ClipView),
    Progress { id: JobId, fraction: Scalar, processed_secs_bits: u64 },
    Finished { id: JobId, output: Seq<char> },
    Failed { id: JobId, message: Seq<char> },
    Cancelled { id: JobId },
    PreviewOpened {
        clip_id: ClipId,
        duration_us: i64,
        width: u32,
        height: u32,
        frame_rate_num: i32,
        frame_rate_den: i32,
    },
    FrameReady { clip_id: ClipId, frame: DecodedFrameView },
    PreviewEnded { clip_id: ClipId },
    AudioMeter { peak_l: Scalar, peak_r: Scalar },
    ThumbnailsReady { clip_id: ClipId, paths: Seq<Seq<char>> },
    WaveformReady { clip_id: ClipId, path: Seq<char> },
}

impl View for Event {
    type V = EventView;

    open spec fn view(&self) -> EventView {
        match *self {
            Event::Probed { id, path, info } => EventView::Probed {
                id,
                path: path@,
                info: info@,
            },
            Event::ClipReady(clip) => EventView::ClipReady(clip@),
            Event::Progress { id, fraction, processed_secs_bits } => EventView::Progress {
                id,
                fraction,
                processed_secs_bits,
            },
            Event::Finished { id, output } => EventView::Finished { id, output: output@ },
            Event::Failed { id, message } => EventView::Failed { id, message: message@ },
            Event::Cancelled { id } => EventView::Cancelled { id },
            Event::PreviewOpened {
                clip_id,
                duration_us,
                width,
                height,
                frame_rate_num,
                frame_rate_den,
            } => EventView::PreviewOpened {
                clip_id,
                duration_us,
                width,
                height,
                frame_rate_num,
                frame_rate_den,
            },
            Event::FrameReady { clip_id, frame } => EventView::FrameReady {
                clip_id,
                frame: frame@,
            },
            Event::PreviewEnded { clip_id } => EventView::PreviewEnded { clip_id },
            Event::AudioMeter { peak_l, peak_r } => EventView::AudioMeter { peak_l, peak_r },
            Event::ThumbnailsReady { clip_id, paths } => EventView::ThumbnailsReady {
                clip_id,
                paths: text::views(paths@),
            },
            Event::WaveformReady { clip_id, path } => EventView::WaveformReady {
                clip_id,
                path: path@,
            },
        }
    }
}

/// What is reported of an export that is under way.
pub fn progress_event(id: JobId, fraction: Scalar, processed_secs_bits: u64) -> (e: Event)
    ensures
        e@ == (EventView::Progress { id, fraction, processed_secs_bits }),
{
    Event::Progress { id, fraction, processed_secs_bits }
}

/// What is reported of a probe.
pub fn probe_event(id: JobId, path: String, result: EngineResult<MediaInfo>) -> (e: Event)
    ensures
        e@ == match result {
            Ok(info) => EventView::Probed { id, path: path@, info: info@ },
            Err(x) => EventView::Failed { id, message: x@.text() },
        },
{
    match result {
        Ok(info) => Event::Probed { id, path, info },
        Err(x) => Event::Failed { id, message: x.message() },
    }
}

/// What is reported of an export. A cancelled one did not fail.
pub fn merge_event(id: JobId, output: String, result: EngineResult<()>) -> (e: Event)
    ensures
        e@ == match result {
            Ok(_) => EventView::Finished { id, output: output@ },
            Err(x) => match x@ {
                EngineErrorView::Cancelled => EventView::Cancelled { id },
                other => EventView::Failed { id, message: other.text() },
            },
        },
{
    match result {
        Ok(_) => Event::Finished { id, output },
        Err(x) => match x {
            EngineError::Cancelled => Event::Cancelled { id },
            other => Event::Failed { id, message: other.message() },
        },
    }
}

} // verus!
