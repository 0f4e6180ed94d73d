//! The preview: what its threads do next.
//!
//! One thread renders pictures ahead of time into a short queue, one shows
//! them when they are due, and one feeds the sound device. Each picture carries
//! the generation of the position it was rendered for; a seek or a change of
//! the project begins a new generation, and pictures of an older one are never
//! shown.

pub mod frame;
pub mod laws;
pub mod present;
pub mod queue;
pub mod render;
pub mod sound;
pub mod thread_laws;

use vstd::prelude::*;

use crate::domain::clip::Clip;
use crate::domain::project;
use crate::domain::project::{Project, ProjectView, TrackView};
use crate::ident::ClipId;
use crate::scalar::Scalar;

verus! {

/// What the preview is told.
#[derive(Debug)]
pub enum PreviewCtrl {
    Play,
    Pause,
    Seek { pts_us: i64 },
    Stop,
    SetMuted(bool),
    SetVolume(Scalar),
    UpdateProject(Project),
}

#[verifier::ext_equal]
pub enum PreviewCtrlView {
    Play,
    Pause,
    Seek { pts_us: i64 },
    Stop,
    SetMuted(bool),
    SetVolume(Scalar),
    UpdateProject(ProjectView),
}

impl View for PreviewCtrl {
    type V = PreviewCtrlView;

    open spec fn view(&self) -> PreviewCtrlView {
        match *self {
            PreviewCtrl::Play => PreviewCtrlView::Play,
            PreviewCtrl::Pause => PreviewCtrlView::Pause,
            PreviewCtrl::Seek { pts_us } => PreviewCtrlView::Seek { pts_us },
            PreviewCtrl::Stop => PreviewCtrlView::Stop,
            PreviewCtrl::SetMuted(m) => PreviewCtrlView::SetMuted(m),
            PreviewCtrl::SetVolume(v) => PreviewCtrlView::SetVolume(v),
            PreviewCtrl::UpdateProject(p) => PreviewCtrlView::UpdateProject(p@),
        }
    }
}

/// What the render thread and the present thread are told.
#[derive(Debug)]
pub enum PictureCtrl {
    Play,
    Pause,
    Seek { pts_us: i64, gen: u64 },
    Stop,
    UpdateProject { project: Project, gen: u64 },
}

#[verifier::ext_equal]
pub enum PictureCtrlView {
    Play,
    Pause,
    Seek { pts_us: i64, gen: u64 },
    Stop,
    UpdateProject { project: ProjectView, gen: u64 },
}

impl View for PictureCtrl {
    type V = PictureCtrlView;

    open spec fn view(&self) -> PictureCtrlView {
        match *self {
            PictureCtrl::Play => PictureCtrlView::Play,
            PictureCtrl::Pause => PictureCtrlView::Pause,
            PictureCtrl::Seek { pts_us, gen } => PictureCtrlView::Seek { pts_us, gen },
            PictureCtrl::Stop => PictureCtrlView::Stop,
            PictureCtrl::UpdateProject { project, gen } => PictureCtrlView::UpdateProject {
                project: project@,
                gen,
            },
        }
    }
}

/// What the sound thread is told.
#[derive(Debug)]
pub enum AudioCtrl {
    Play,
    Pause,
    Seek(i64),
    Stop,
    SetMuted(bool),
    SetVolume(Scalar),
    UpdateProject(Project),
}

#[verifier::ext_equal]
pub enum AudioCtrlView {
    Play,
    Pause,
    Seek(i64),
    Stop,
    SetMuted(bool),
    SetVolume(Scalar),
    UpdateProject(ProjectView),
}

impl View for AudioCtrl {
    type V = AudioCtrlView;

    open spec fn view(&self) -> AudioCtrlView {
        match *self {
            AudioCtrl::Play => AudioCtrlView::Play,
            AudioCtrl::Pause => AudioCtrlView::Pause,
            AudioCtrl::Seek(us) => AudioCtrlView::Seek(us),
            AudioCtrl::Stop => AudioCtrlView::Stop,
            AudioCtrl::SetMuted(m) => AudioCtrlView::SetMuted(m),
            AudioCtrl::SetVolume(v) => AudioCtrlView::SetVolume(v),
            AudioCtrl::UpdateProject(p) => AudioCtrlView::UpdateProject(p@),
        }
    }
}

/// The messages that one message to the preview becomes.
#[derive(Debug)]
pub struct Routed {
    pub render: Option<PictureCtrl>,
    pub present: Option<PictureCtrl>,
    pub audio: Option<AudioCtrl>,
}

#[verifier::ext_equal]
pub struct RoutedView {
    pub render: Option<PictureCtrlView>,
    pub present: Option<PictureCtrlView>,
    pub audio: Option<AudioCtrlView>,
}

impl View for Routed {
    type V = RoutedView;

    open spec fn view(&self) -> RoutedView {
        RoutedView {
            render: match self.render {
                Some(c) => Some(c@),
                None => None,
            },
            present: match self.present {
                Some(c) => Some(c@),
                None => None,
            },
            audio: match self.audio {
                Some(c) => Some(c@),
                None => None,
            },
        }
    }
}

/// Whether a message begins a new generation of pictures.
pub open spec fn starts_generation(ctrl: PreviewCtrlView) -> bool {
    ctrl is Seek || ctrl is UpdateProject
}

/// Whether a message begins a new generation of pictures.
pub fn begins_generation(ctrl: &PreviewCtrl) -> (r: bool)
    ensures
        r == starts_generation(ctrl@),
{
    match ctrl {
        PreviewCtrl::Seek { .. } => true,
        PreviewCtrl::UpdateProject(_) => true,
        _ => false,
    }
}

/// What the picture threads are told of a message; `gen` is the generation
/// that it begins.
pub open spec fn for_pictures(ctrl: PreviewCtrlView, gen: u64) -> Option<PictureCtrlView> {
    match ctrl {
        PreviewCtrlView::Play => Some(PictureCtrlView::Play),
        PreviewCtrlView::Pause => Some(PictureCtrlView::Pause),
        PreviewCtrlView::Seek { pts_us } => Some(PictureCtrlView::Seek { pts_us, gen }),
        PreviewCtrlView::Stop => Some(PictureCtrlView::Stop),
        PreviewCtrlView::UpdateProject(project) => Some(
            PictureCtrlView::UpdateProject { project, gen },
        ),
        PreviewCtrlView::SetMuted(_) => None,
        PreviewCtrlView::SetVolume(_) => None,
    }
}

/// What the sound thread is told of a message.
pub open spec fn for_audio(ctrl: PreviewCtrlView) -> AudioCtrlView {
    match ctrl {
        PreviewCtrlView::Play => AudioCtrlView::Play,
        PreviewCtrlView::Pause => AudioCtrlView::Pause,
        PreviewCtrlView::Seek { pts_us } => AudioCtrlView::Seek(pts_us),
        PreviewCtrlView::Stop => AudioCtrlView::Stop,
        PreviewCtrlView::UpdateProject(project) => AudioCtrlView::UpdateProject(project),
        PreviewCtrlView::SetMuted(m) => AudioCtrlView::SetMuted(m),
        PreviewCtrlView::SetVolume(v) => AudioCtrlView::SetVolume(v),
    }
}

/// Pass a message on to the threads. Both picture threads get the same
/// generation. Without a sound device there is no sound thread.
pub fn route(ctrl: PreviewCtrl, gen: u64, has_audio: bool) -> (r: Routed)
    ensures
        r@.render == for_pictures(ctrl@, gen),
        r@.present == for_pictures(ctrl@, gen),
        r@.audio == if has_audio {
            Some(for_audio(ctrl@))
        } else {
            None
        },
{
    let (render, present, audio): (Option<PictureCtrl>, Option<PictureCtrl>, AudioCtrl) =
        match ctrl {
        PreviewCtrl::Play => (Some(PictureCtrl::Play), Some(PictureCtrl::Play), AudioCtrl::Play),
        PreviewCtrl::Pause => (
            Some(PictureCtrl::Pause),
            Some(PictureCtrl::Pause),
            AudioCtrl::Pause,
        ),
        PreviewCtrl::Seek { pts_us } => (
            Some(PictureCtrl::Seek { pts_us, gen }),
            Some(PictureCtrl::Seek { pts_us, gen }),
            AudioCtrl::Seek(pts_us),
        ),
        PreviewCtrl::Stop => (Some(PictureCtrl::Stop), Some(PictureCtrl::Stop), AudioCtrl::Stop),
        PreviewCtrl::SetMuted(m) => (None, None, AudioCtrl::SetMuted(m)),
        PreviewCtrl::SetVolume(v) => (None, None, AudioCtrl::SetVolume(v)),
        PreviewCtrl::UpdateProject(project) => (
            Some(PictureCtrl::UpdateProject { project: project.clone(), gen }),
            Some(PictureCtrl::UpdateProject { project: project.clone(), gen }),
            AudioCtrl::UpdateProject(project),
        ),
    };
    Routed {
        render,
        present,
        audio: if has_audio {
            Some(audio)
        } else {
            None
        },
    }
}

/// The preview shows at most so many pictures a second.
pub const PREVIEW_MAX_FPS: i32 = 60;

/// The size and the frame rate of the preview.
#[derive(Clone, Copy, Debug, PartialEq, Eq)]
pub struct PreviewMeta {
    pub width: u32,
    pub height: u32,
    pub fps_num: i32,
    pub fps_den: i32,
}

/// The preview goes by the first clip of the project; without one it is small
/// HD at thirty pictures a second.
pub open spec fn meta_of(tracks: Seq<TrackView>) -> PreviewMeta {
    let placed = project::all_placed(tracks);
    if placed.len() > 0 {
        let profile = placed[0].clip.info.profile;
        let num = profile.frame_rate_mhz as i32;
        PreviewMeta {
            width: profile.resolution.width,
            height: profile.resolution.height,
            fps_num: if num > PREVIEW_MAX_FPS * 1000 {
                (PREVIEW_MAX_FPS * 1000) as i32
            } else {
                num
            },
            fps_den: 1000,
        }
    } else {
        PreviewMeta { width: 1280, height: 720, fps_num: 30, fps_den: 1 }
    }
}

/// The size and the frame rate of the preview of a project.
pub fn preview_meta(project: &Project) -> (m: PreviewMeta)
    ensures
        m == meta_of(project@.tracks),
{
    let clips: Vec<&Clip> = project.all_clips();
    if clips.len() > 0 {
        let c: &Clip = clips[0];
        let num: i32 = c.info.profile.frame_rate_mhz as i32;
        PreviewMeta {
            width: c.info.profile.resolution.width,
            height: c.info.profile.resolution.height,
            fps_num: if num > 60_000 {
                60_000
            } else {
                num
            },
            fps_den: 1000,
        }
    } else {
        PreviewMeta { width: 1280, height: 720, fps_num: 30, fps_den: 1 }
    }
}

/// The longest side of the preview in pixels. The window is small; an export
/// is not bounded by this.
pub const PREVIEW_MAX_DIM: u32 = 1280;

/// The longest side of a picture where it is too long for the preview.
pub fn oversize(w: u32, h: u32) -> (r: Option<u32>)
    ensures
        ({
            let longest = if w > h {
                w
            } else {
                h
            };
            r == if longest > PREVIEW_MAX_DIM {
                Some(longest)
            } else {
                None
            }
        }),
{
    let longest: u32 = if w > h {
        w
    } else {
        h
    };
    if longest > PREVIEW_MAX_DIM {
        Some(longest)
    } else {
        None
    }
}

/// A position brought onto a timeline of the given length.
pub open spec fn onto_timeline(pts_us: i64, duration_us: i64) -> i64 {
    let end = if duration_us > 0 {
        duration_us
    } else {
        0
    };
    if pts_us < 0 {
        0
    } else if pts_us > end {
        end
    } else {
        pts_us
    }
}

/// A position brought onto a timeline of the given length.
pub fn clamp_position(pts_us: i64, duration_us: i64) -> (r: i64)
    ensures
        r == onto_timeline(pts_us, duration_us),
{
    let end: i64 = if duration_us > 0 {
        duration_us
    } else {
        0
    };
    if pts_us < 0 {
        0
    } else if pts_us > end {
        end
    } else {
        pts_us
    }
}

/// Whether a thread goes on after a message.
#[derive(Clone, Copy, Debug, PartialEq, Eq)]
pub enum Flow {
    Continue,
    Stop,
}

/// Where in its source a clip is at a time of the timeline.
pub open spec fn source_time(t_us: i64, start_us: i64, trim_in_us: i64) -> i64 {
    (t_us - start_us + trim_in_us) as i64
}

/// Where in its source a clip is at a time of the timeline.
pub fn source_us(t_us: i64, start_us: i64, trim_in_us: i64) -> (us: i64)
    ensures
        us == source_time(t_us, start_us, trim_in_us),
{
    (t_us as i128 - start_us as i128 + trim_in_us as i128) as i64
}

/// The identifiers of the clips of a project, track by track.
pub open spec fn ids_of(tracks: Seq<TrackView>) -> Seq<ClipId> {
    let placed = project::all_placed(tracks);
    Seq::new(placed.len(), |i: int| placed[i].clip.id)
}

/// The clips of a project. Decoders of other clips are not needed any more.
pub fn live_clips(project: &Project) -> (r: Vec<ClipId>)
    ensures
        r@ == ids_of(project@.tracks),
{
    let clips: Vec<&Clip> = project.all_clips();
    let mut r: Vec<ClipId> = Vec::new();
    let mut i: usize = 0;
    while i < clips.len()
        invariant
            i <= clips.len(),
            clips@.len() == project::all_placed(project@.tracks).len(),
            forall|j: int|
                0 <= j < clips@.len() ==> (#[trigger] clips@[j])@ == project::all_placed(
                    project@.tracks,
                )[j].clip,
            r@ == ids_of(project@.tracks).take(i as int),
        decreases clips.len() - i,
    {
        let c: &Clip = clips[i];
        assert(clips@[i as int]@ == project::all_placed(project@.tracks)[i as int].clip);
        r.push(c.id);
        i = i + 1;
        assert(r@ =~= ids_of(project@.tracks).take(i as int));
    }
    assert(r@ =~= ids_of(project@.tracks));
    r
}

/// Both picture threads always hear of the same generation.
pub proof fn lemma_generations_agree(ctrl: PreviewCtrlView, gen: u64)
    ensures
        match for_pictures(ctrl, gen) {
            Some(PictureCtrlView::Seek { gen: g, .. }) => g == gen && starts_generation(ctrl),
            Some(PictureCtrlView::UpdateProject { gen: g, .. }) => g == gen
                && starts_generation(ctrl),
            _ => !starts_generation(ctrl),
        },
{
}

} // verus!
