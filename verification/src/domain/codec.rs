//! What a media file is encoded with.

use vstd::prelude::*;

verus! {

#[derive(Clone, Copy, Debug, PartialEq, Eq, Hash, Structural)]
pub struct Resolution {
    pub width: u32,
    pub height: u32,
}

impl Resolution {
    /// 3840 by 2160.
    pub fn uhd_4k() -> (r: Self)
        ensures
            r.width == 3840,
            r.height == 2160,
    {
        Resolution { width: 3840, height: 2160 }
    }
}

/// The codecs and the picture format of a file. Files of one profile can be
/// joined without encoding anew.
#[derive(Debug, Hash)]
pub struct CodecProfile {
    pub video_codec: String,
    pub audio_codec: String,
    pub resolution: Resolution,
    /// Frames per thousand seconds.
    pub frame_rate_mhz: u32,
    pub pixel_format: String,
}

#[verifier::ext_equal]
pub struct CodecProfileView {
    pub video_codec: Seq<char>,
    pub audio_codec: Seq<char>,
    pub resolution: Resolution,
    pub frame_rate_mhz: u32,
    pub pixel_format: Seq<char>,
}

impl View for CodecProfile {
    type V = CodecProfileView;

    open spec fn view(&self) -> CodecProfileView {
        CodecProfileView {
            video_codec: self.video_codec@,
            audio_codec: self.audio_codec@,
            resolution: self.resolution,
            frame_rate_mhz: self.frame_rate_mhz,
            pixel_format: self.pixel_format@,
        }
    }
}

impl Clone for CodecProfile {
    fn clone(&self) -> (res: Self)
        ensures
            res@ == self@,
    {
        CodecProfile {
            video_codec: self.video_codec.clone(),
            audio_codec: self.audio_codec.clone(),
            resolution: self.resolution,
            frame_rate_mhz: self.frame_rate_mhz,
            pixel_format: self.pixel_format.clone(),
        }
    }
}

impl CodecProfile {
    /// Whether two profiles agree in every field.
    pub fn same_as(&self, other: &CodecProfile) -> (same: bool)
        ensures
            same == (self@ == other@),
    {
        let same: bool = self.video_codec == other.video_codec && self.audio_codec
            == other.audio_codec && self.resolution == other.resolution && self.frame_rate_mhz
            == other.frame_rate_mhz && self.pixel_format == other.pixel_format;
        assert(same == (self@ =~= other@));
        same
    }
}

} // verus!
