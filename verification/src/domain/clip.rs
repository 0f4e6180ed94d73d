//! A clip: a window onto a source file, and how it looks and sounds.

use vstd::prelude::*;

use super::codec::{CodecProfile, CodecProfileView};
use super::transform;
use super::transform::{
    ColorGrading, Crop, Keyframe, PositionSample, TransformKeys, TransformKeysView, TransformSamples,
};
use crate::ident;
use crate::ident::ClipId;
use crate::scalar::{Scalar, ONE_BITS};
use crate::text;
use crate::time::Duration;

verus! {

/// What probing a source file tells.
#[derive(Debug)]
pub struct MediaInfo {
    pub duration: Duration,
    pub profile: CodecProfile,
}

#[verifier::ext_equal]
pub struct MediaInfoView {
    pub duration: Duration,
    pub profile: CodecProfileView,
}

impl View for MediaInfo {
    type V = MediaInfoView;

    open spec fn view(&self) -> MediaInfoView {
        MediaInfoView { duration: self.duration, profile: self.profile@ }
    }
}

impl Clone for MediaInfo {
    fn clone(&self) -> (res: Self)
        ensures
            res@ == self@,
    {
        MediaInfo { duration: self.duration, profile: self.profile.clone() }
    }
}

/// A clip on the timeline.
#[derive(Debug)]
pub struct Clip {
    pub id: ClipId,
    pub path: String,
    pub info: MediaInfo,
    /// Where in the source the clip begins.
    pub trim_in: Duration,
    /// Where in the source the clip ends.
    pub trim_out: Duration,
    /// Preview pictures, the earliest first.
    pub thumbnails: Vec<String>,
    /// The loudness, as a factor.
    pub volume: Scalar,
    pub muted: bool,
    /// Where the waveform peaks are cached.
    pub waveform_path: Option<String>,
    /// The video track that the clip lies on, 0 being the lowest.
    pub video_track: u8,
    pub opacity: Scalar,
    /// The scale on both axes.
    pub scale: Scalar,
    pub position_x: i32,
    pub position_y: i32,
    /// The further scale on each axis.
    pub scale_x: Scalar,
    pub scale_y: Scalar,
    /// Clockwise, around the centre of the clip.
    pub rotation_deg: Scalar,
    pub flip_h: bool,
    pub flip_v: bool,
    pub crop: Option<Crop>,
    pub transform_keys: TransformKeys,
    pub brightness: Scalar,
    pub contrast: Scalar,
    pub saturation: Scalar,
    pub color_grading: ColorGrading,
    /// Where the clip was put on the timeline. Without it the clip follows the
    /// one before it on its track.
    pub start_us: Option<i64>,
    /// The clip whose pictures and waveform this one shares.
    pub origin_id: Option<ClipId>,
}

/// A clip as contracts speak of it.
#[verifier::ext_equal]
pub struct ClipView {
    pub id: ClipId,
    pub path: Seq<char>,
    pub info: MediaInfoView,
    pub trim_in: Duration,
    pub trim_out: Duration,
    pub thumbnails: Seq<Seq<char>>,
    pub volume: Scalar,
    pub muted: bool,
    pub waveform_path: Option<Seq<char>>,
    pub video_track: u8,
    pub opacity: Scalar,
    pub scale: Scalar,
    pub position_x: i32,
    pub position_y: i32,
    pub scale_x: Scalar,
    pub scale_y: Scalar,
    pub rotation_deg: Scalar,
    pub flip_h: bool,
    pub flip_v: bool,
    pub crop: Option<Crop>,
    pub transform_keys: TransformKeysView,
    pub brightness: Scalar,
    pub contrast: Scalar,
    pub saturation: Scalar,
    pub color_grading: ColorGrading,
    pub start_us: Option<i64>,
    pub origin_id: Option<ClipId>,
}

impl View for Clip {
    type V = ClipView;

    open spec fn view(&self) -> ClipView {
        ClipView {
            id: self.id,
            path: self.path@,
            info: self.info@,
            trim_in: self.trim_in,
            trim_out: self.trim_out,
            thumbnails: text::views(self.thumbnails@),
            volume: self.volume,
            muted: self.muted,
            waveform_path: text::opt_view(self.waveform_path),
            video_track: self.video_track,
            opacity: self.opacity,
            scale: self.scale,
            position_x: self.position_x,
            position_y: self.position_y,
            scale_x: self.scale_x,
            scale_y: self.scale_y,
            rotation_deg: self.rotation_deg,
            flip_h: self.flip_h,
            flip_v: self.flip_v,
            crop: self.crop,
            transform_keys: self.transform_keys@,
            brightness: self.brightness,
            contrast: self.contrast,
            saturation: self.saturation,
            color_grading: self.color_grading,
            start_us: self.start_us,
            origin_id: self.origin_id,
        }
    }
}

/// How items are viewed one by one.
pub open spec fn clip_view() -> spec_fn(Clip) -> ClipView {
    |c: Clip| c@
}

/// The clips of a sequence, each as contracts speak of it.
pub open spec fn clip_views(clips: Seq<Clip>) -> Seq<ClipView> {
    clips.map_values(clip_view())
}

impl Clone for Clip {
    fn clone(&self) -> (res: Self)
        ensures
            res@ == self@,
    {
        Clip {
            id: self.id,
            path: self.path.clone(),
            info: self.info.clone(),
            trim_in: self.trim_in,
            trim_out: self.trim_out,
            thumbnails: text::clone_texts(&self.thumbnails),
            volume: self.volume,
            muted: self.muted,
            waveform_path: text::clone_opt(&self.waveform_path),
            video_track: self.video_track,
            opacity: self.opacity,
            scale: self.scale,
            position_x: self.position_x,
            position_y: self.position_y,
            scale_x: self.scale_x,
            scale_y: self.scale_y,
            rotation_deg: self.rotation_deg,
            flip_h: self.flip_h,
            flip_v: self.flip_v,
            crop: self.crop,
            transform_keys: self.transform_keys.clone(),
            brightness: self.brightness,
            contrast: self.contrast,
            saturation: self.saturation,
            color_grading: self.color_grading,
            start_us: self.start_us,
            origin_id: self.origin_id,
        }
    }
}

/// A position is that of the channel where it has keyframes.
pub open spec fn position_sample(keys: Seq<Keyframe>, t_us: i64, own: i32) -> PositionSample {
    if keys.len() == 0 {
        PositionSample::Static(own)
    } else {
        PositionSample::Animated(transform::sample(keys, t_us, Scalar { bits: 0 }))
    }
}

impl ClipView {
    /// How long the clip plays.
    pub open spec fn length(self) -> Duration {
        Duration {
            nanos: if self.trim_out.nanos >= self.trim_in.nanos {
                (self.trim_out.nanos - self.trim_in.nanos) as u128
            } else {
                0
            },
        }
    }

    /// How long the clip plays, in microseconds.
    pub open spec fn dur_us(self) -> i64 {
        self.length().us()
    }

    /// The clip whose pictures and waveform are shown.
    pub open spec fn asset(self) -> ClipId {
        match self.origin_id {
            Some(id) => id,
            None => self.id,
        }
    }

    /// The times of the clip fit the timeline.
    pub open spec fn fits_timeline(self) -> bool {
        &&& self.trim_in.fits_timeline()
        &&& self.trim_out.fits_timeline()
        &&& self.info.duration.fits_timeline()
    }

    /// The clip's look at `rel_us` after it starts to be visible.
    pub open spec fn look(self, rel_us: i64) -> TransformSamples {
        let k = self.transform_keys;
        TransformSamples {
            opacity: transform::sample(k.opacity, rel_us, self.opacity),
            scale: transform::sample(k.scale, rel_us, self.scale),
            scale_x: transform::sample(k.scale_x, rel_us, self.scale_x),
            scale_y: transform::sample(k.scale_y, rel_us, self.scale_y),
            position_x: position_sample(k.position_x, rel_us, self.position_x),
            position_y: position_sample(k.position_y, rel_us, self.position_y),
            rotation_deg: transform::sample(k.rotation_deg, rel_us, self.rotation_deg),
            flip_h: self.flip_h,
            flip_v: self.flip_v,
            crop: match self.crop {
                Some(c) => if c.cuts_nothing() {
                    None
                } else {
                    Some(c)
                },
                None => None,
            },
            brightness: self.brightness,
            contrast: self.contrast,
            saturation: self.saturation,
            color_grading: self.color_grading,
        }
    }
}

/// A whole source file as a clip, with nothing changed about it.
pub open spec fn whole_file(id: ClipId, path: Seq<char>, info: MediaInfoView) -> ClipView {
    let zero = Scalar { bits: 0 };
    let one = Scalar { bits: ONE_BITS };
    ClipView {
        id,
        path,
        info,
        trim_in: Duration { nanos: 0 },
        trim_out: info.duration,
        thumbnails: Seq::empty(),
        volume: one,
        muted: false,
        waveform_path: None,
        video_track: 0,
        opacity: one,
        scale: one,
        position_x: 0,
        position_y: 0,
        scale_x: one,
        scale_y: one,
        rotation_deg: zero,
        flip_h: false,
        flip_v: false,
        crop: None,
        transform_keys: TransformKeysView::still(),
        brightness: zero,
        contrast: one,
        saturation: one,
        color_grading: ColorGrading::neutral(),
        start_us: None,
        origin_id: None,
    }
}

impl Clip {
    /// A clip of a whole source file, under a fresh identifier.
    pub fn new(path: String, info: MediaInfo) -> (res: Self)
        ensures
            ident::is_random_id(res@.id),
            res@ == whole_file(res@.id, path@, info@),
    {
        let id: ClipId = ident::fresh_id();
        Clip::with_id(id, path, info)
    }

    /// A clip of a whole source file, under the given identifier.
    pub fn with_id(id: ClipId, path: String, info: MediaInfo) -> (res: Self)
        ensures
            res@ == whole_file(id, path@, info@),
    {
        let zero: Scalar = Scalar::zero();
        let one: Scalar = Scalar::one();
        let trim_out: Duration = info.duration;
        let res: Clip = Clip {
            id,
            path,
            info,
            trim_in: Duration::zero(),
            trim_out,
            thumbnails: Vec::new(),
            volume: one,
            muted: false,
            waveform_path: None,
            video_track: 0,
            opacity: one,
            scale: one,
            position_x: 0,
            position_y: 0,
            scale_x: one,
            scale_y: one,
            rotation_deg: zero,
            flip_h: false,
            flip_v: false,
            crop: None,
            transform_keys: TransformKeys::default(),
            brightness: zero,
            contrast: one,
            saturation: one,
            color_grading: ColorGrading::default(),
            start_us: None,
            origin_id: None,
        };
        assert(res@.thumbnails =~= Seq::empty());
        res
    }

    /// The clip's look at `rel_us` after it starts to be visible: each channel
    /// is read where it has keyframes, the clip's own value holds where it has
    /// none. Flips and crop are not animated.
    pub fn resolved_transform(&self, rel_us: i64) -> (r: TransformSamples)
        ensures
            r == self@.look(rel_us),
    {
        let k: &TransformKeys = &self.transform_keys;
        let crop: Option<Crop> = match self.crop {
            Some(c) => if c.is_noop() {
                None
            } else {
                Some(c)
            },
            None => None,
        };
        let position_x: PositionSample = if k.position_x.is_animated() {
            PositionSample::Animated(k.position_x.eval(rel_us, Scalar { bits: 0 }))
        } else {
            PositionSample::Static(self.position_x)
        };
        let position_y: PositionSample = if k.position_y.is_animated() {
            PositionSample::Animated(k.position_y.eval(rel_us, Scalar { bits: 0 }))
        } else {
            PositionSample::Static(self.position_y)
        };
        TransformSamples {
            opacity: k.opacity.eval(rel_us, self.opacity),
            scale: k.scale.eval(rel_us, self.scale),
            scale_x: k.scale_x.eval(rel_us, self.scale_x),
            scale_y: k.scale_y.eval(rel_us, self.scale_y),
            position_x,
            position_y,
            rotation_deg: k.rotation_deg.eval(rel_us, self.rotation_deg),
            flip_h: self.flip_h,
            flip_v: self.flip_v,
            crop,
            brightness: self.brightness,
            contrast: self.contrast,
            saturation: self.saturation,
            color_grading: self.color_grading,
        }
    }

    /// Whether two clips can be joined without encoding anew.
    pub fn is_compatible_with(&self, other: &Clip) -> (r: bool)
        ensures
            r == (self@.info.profile == other@.info.profile),
    {
        self.info.profile.same_as(&other.info.profile)
    }

    /// How long the clip plays.
    pub fn effective_duration(&self) -> (d: Duration)
        ensures
            d == self@.length(),
    {
        self.trim_out.saturating_sub(self.trim_in)
    }

    pub fn effective_duration_us(&self) -> (us: i64)
        ensures
            us == self@.dur_us(),
    {
        self.effective_duration().as_timeline_us()
    }

    pub fn trim_in_us(&self) -> (us: i64)
        ensures
            us == self@.trim_in.us(),
    {
        self.trim_in.as_timeline_us()
    }

    pub fn trim_out_us(&self) -> (us: i64)
        ensures
            us == self@.trim_out.us(),
    {
        self.trim_out.as_timeline_us()
    }

    pub fn source_duration_us(&self) -> (us: i64)
        ensures
            us == self@.info.duration.us(),
    {
        self.info.duration.as_timeline_us()
    }

    /// Whether the clip shows less than its whole source.
    pub fn is_trimmed(&self) -> (r: bool)
        ensures
            r == (self@.trim_in.nanos > 0 || self@.trim_out.nanos < self@.info.duration.nanos),
    {
        self.trim_in.nanos > 0 || self.trim_out.nanos < self.info.duration.nanos
    }

    /// The clip whose pictures and waveform are shown for this one: for the
    /// right half of a split, the clip that was split.
    pub fn asset_id(&self) -> (id: ClipId)
        ensures
            id == self@.asset(),
    {
        match self.origin_id {
            Some(id) => id,
            None => self.id,
        }
    }
}

} // verus!
