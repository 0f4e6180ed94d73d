//! What ffprobe tells about a file.

use vstd::prelude::*;

use super::command;
use crate::domain::clip::{MediaInfo, MediaInfoView};
use crate::domain::codec::{CodecProfile, CodecProfileView, Resolution};
use crate::engine::errors::{EngineError, EngineErrorView, EngineResult};
use crate::seqs;
use crate::text;
use crate::time::Duration;

verus! {

/// One stream of a file.
#[derive(Debug)]
pub struct ProbeStream {
    pub codec_type: String,
    pub codec_name: String,
    pub width: u32,
    pub height: u32,
    pub pix_fmt: String,
    pub r_frame_rate: String,
}

#[verifier::ext_equal]
pub struct ProbeStreamView {
    pub codec_type: Seq<char>,
    pub codec_name: Seq<char>,
    pub width: u32,
    pub height: u32,
    pub pix_fmt: Seq<char>,
    pub r_frame_rate: Seq<char>,
}

impl View for ProbeStream {
    type V = ProbeStreamView;

    open spec fn view(&self) -> ProbeStreamView {
        ProbeStreamView {
            codec_type: self.codec_type@,
            codec_name: self.codec_name@,
            width: self.width,
            height: self.height,
            pix_fmt: self.pix_fmt@,
            r_frame_rate: self.r_frame_rate@,
        }
    }
}

pub open spec fn stream_view() -> spec_fn(ProbeStream) -> ProbeStreamView {
    |s: ProbeStream| s@
}

pub open spec fn stream_views(s: Seq<ProbeStream>) -> Seq<ProbeStreamView> {
    s.map_values(stream_view())
}

/// Whether a stream is of the given type.
pub open spec fn has_type(kind: Seq<char>) -> spec_fn(ProbeStreamView) -> bool {
    |s: ProbeStreamView| s.codec_type == kind
}

/// The first stream of the given type.
pub open spec fn first_of(streams: Seq<ProbeStreamView>, kind: Seq<char>) -> Option<int> {
    seqs::first_where(streams, has_type(kind))
}

fn find_stream(streams: &Vec<ProbeStream>, kind: &str) -> (r: Option<usize>)
    ensures
        match r {
            Some(i) => i < streams@.len() && first_of(stream_views(streams@), kind@) == Some(
                i as int,
            ),
            None => first_of(stream_views(streams@), kind@) is None,
        },
{
    let ghost all = stream_views(streams@);
    let mut i: usize = 0;
    while i < streams.len()
        invariant
            i <= streams.len(),
            all == stream_views(streams@),
            forall|j: int| 0 <= j < i ==> !has_type(kind@)(#[trigger] all[j]),
        decreases streams.len() - i,
    {
        assert(all[i as int] == streams@[i as int]@);
        if text::same_text(streams[i].codec_type.as_str(), kind) {
            proof {
                assert(has_type(kind@)(all[i as int]));
                seqs::lemma_first_where_found(all, has_type(kind@), i as int);
            }
            return Some(i);
        }
        i = i + 1;
    }
    proof {
        seqs::lemma_first_where_none(all, has_type(kind@));
    }
    None
}

/// The place of the video stream, whose frame rate counts.
pub fn video_stream(streams: &Vec<ProbeStream>) -> (r: Option<usize>)
    ensures
        match r {
            Some(i) => i < streams@.len() && first_of(stream_views(streams@), "video"@) == Some(
                i as int,
            ),
            None => first_of(stream_views(streams@), "video"@) is None,
        },
{
    find_stream(streams, "video")
}

/// What the streams tell of the file. Without an audio stream the audio codec
/// is empty, and a frame rate that is not known is zero.
pub open spec fn info_of(
    streams: Seq<ProbeStreamView>,
    frame_rate_mhz: Option<u32>,
    duration: Duration,
) -> Result<MediaInfoView, EngineErrorView> {
    match first_of(streams, "video"@) {
        None => Err(EngineErrorView::ProbeParse("no video stream"@)),
        Some(v) => Ok(
            MediaInfoView {
                duration,
                profile: CodecProfileView {
                    video_codec: streams[v].codec_name,
                    audio_codec: match first_of(streams, "audio"@) {
                        Some(a) => streams[a].codec_name,
                        None => Seq::empty(),
                    },
                    resolution: Resolution {
                        width: streams[v].width,
                        height: streams[v].height,
                    },
                    frame_rate_mhz: match frame_rate_mhz {
                        Some(f) => f,
                        None => 0,
                    },
                    pixel_format: streams[v].pix_fmt,
                },
            },
        ),
    }
}

/// What the streams of a file tell of it. `frame_rate_mhz` is the frame rate
/// of its video stream.
pub fn media_info(
    streams: &Vec<ProbeStream>,
    frame_rate_mhz: Option<u32>,
    duration: Duration,
) -> (r: EngineResult<MediaInfo>)
    ensures
        match info_of(stream_views(streams@), frame_rate_mhz, duration) {
            Ok(info) => r matches Ok(i) && i@ == info,
            Err(e) => r matches Err(x) && x@ == e,
        },
{
    let v: usize = match find_stream(streams, "video") {
        Some(v) => v,
        None => return Err(EngineError::ProbeParse("no video stream".to_owned())),
    };
    let audio_codec: String = match find_stream(streams, "audio") {
        Some(a) => streams[a].codec_name.clone(),
        None => String::new(),
    };
    let mhz: u32 = match frame_rate_mhz {
        Some(f) => f,
        None => 0,
    };
    assert(stream_views(streams@)[v as int] == streams@[v as int]@);
    Ok(
        MediaInfo {
            duration,
            profile: CodecProfile {
                video_codec: streams[v].codec_name.clone(),
                audio_codec,
                resolution: Resolution { width: streams[v].width, height: streams[v].height },
                frame_rate_mhz: mhz,
                pixel_format: streams[v].pix_fmt.clone(),
            },
        },
    )
}

/// Whether a character is a slash.
pub open spec fn is_slash() -> spec_fn(char) -> bool {
    |c: char| c == '/'
}

/// The two parts of a fraction: what stands before and after the first slash.
pub open spec fn fraction(s: Seq<char>) -> Option<(Seq<char>, Seq<char>)> {
    match seqs::first_where(s, is_slash()) {
        Some(i) => Some((s.take(i), s.skip(i + 1))),
        None => None,
    }
}

/// The two parts of a frame rate such as `30000/1001`.
pub fn split_rational(s: &str) -> (r: Option<(String, String)>)
    ensures
        match r {
            Some((num, den)) => fraction(s@) == Some((num@, den@)),
            None => fraction(s@) is None,
        },
{
    let chars: Vec<char> = text::chars_of(s);
    let mut i: usize = 0;
    while i < chars.len()
        invariant
            i <= chars.len(),
            chars@ == s@,
            forall|j: int| 0 <= j < i ==> !is_slash()(#[trigger] s@[j]),
        decreases chars.len() - i,
    {
        if chars[i] == '/' {
            proof {
                assert(is_slash()(s@[i as int]));
                seqs::lemma_first_where_found(s@, is_slash(), i as int);
            }
            let num: String = text::text_of(&chars, 0, i);
            let den: String = text::text_of(&chars, i + 1, chars.len());
            assert(num@ =~= s@.take(i as int));
            assert(den@ =~= s@.skip(i + 1));
            return Some((num, den));
        }
        i = i + 1;
    }
    proof {
        seqs::lemma_first_where_none(s@, is_slash());
    }
    None
}

/// The arguments that make ffprobe describe a file as JSON.
pub open spec fn describe_args(path: Seq<char>) -> Seq<Seq<char>> {
    Seq::empty().push("-v"@).push("error"@).push("-print_format"@).push("json"@).push(
        "-show_streams"@,
    ).push("-show_format"@).push(path)
}

/// The arguments that make ffprobe describe a file as JSON.
pub fn probe_args(path: &str) -> (args: Vec<String>)
    ensures
        text::views(args@) == describe_args(path@),
{
    let mut args: Vec<String> = Vec::new();
    assert(text::views(args@) =~= Seq::empty());
    command::arg(&mut args, "-v");
    command::arg(&mut args, "error");
    command::arg(&mut args, "-print_format");
    command::arg(&mut args, "json");
    command::arg(&mut args, "-show_streams");
    command::arg(&mut args, "-show_format");
    command::arg(&mut args, path);
    args
}

} // verus!
