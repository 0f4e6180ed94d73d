//! Small preview pictures of a video.

use vstd::prelude::*;
use vstd::string::*;

use super::decoder::{DecodedFrame, DecodedFrameView};
use crate::paths;
use crate::text;

verus! {

/// A video counts as at least a second long.
pub const MIN_TOTAL_US: i64 = 1_000_000;

/// So many pictures are decoded in search of one.
pub const MAX_PULLS: usize = 200;

/// How long a video counts as.
pub open spec fn counted_us(duration_us: i64) -> int {
    if duration_us > MIN_TOTAL_US {
        duration_us as int
    } else {
        MIN_TOTAL_US as int
    }
}

/// The time of the `i`-th of `count` pictures that are spread evenly.
pub open spec fn picture_time(duration_us: i64, i: int, count: int) -> int {
    counted_us(duration_us) * i / count
}

/// The times of `count` pictures that are spread evenly over a video.
pub fn thumbnail_times(duration_us: i64, count: usize) -> (times: Vec<i64>)
    ensures
        times@ == Seq::new(count as nat, |i: int| picture_time(duration_us, i, count as int) as i64),
{
    let total: i128 = if duration_us > MIN_TOTAL_US {
        duration_us as i128
    } else {
        MIN_TOTAL_US as i128
    };
    let ghost all = Seq::new(
        count as nat,
        |i: int| picture_time(duration_us, i, count as int) as i64,
    );
    let mut times: Vec<i64> = Vec::new();
    let mut i: usize = 0;
    assert(times@ =~= all.take(0));
    while i < count
        invariant
            i <= count,
            total == counted_us(duration_us),
            all == Seq::new(
                count as nat,
                |i: int| picture_time(duration_us, i, count as int) as i64,
            ),
            times@ == all.take(i as int),
        decreases count - i,
    {
        assert(0 <= total * i <= 0x7fff_ffff_ffff_ffff * 0xffff_ffff_ffff_ffff) by (
            nonlinear_arith)
            requires
                0 <= total <= 0x7fff_ffff_ffff_ffff,
                0 <= i <= 0xffff_ffff_ffff_ffff,
        ;
        let t: i128 = total * (i as i128) / (count as i128);
        times.push(t as i64);
        assert(all[i as int] == t as i64);
        assert(all.take(i + 1) =~= all.take(i as int).push(t as i64));
        i = i + 1;
    }
    assert(all.take(i as int) =~= all);
    times
}

/// The search for one picture: the first that is not before the time wanted,
/// else the last one that was found within [`MAX_PULLS`].
#[derive(Clone, Copy, Debug, PartialEq, Eq)]
pub struct PullState {
    pub target_us: i64,
    pub pulls: usize,
}

impl PullState {
    pub fn new(target_us: i64) -> (s: Self)
        ensures
            s.target_us == target_us,
            s.pulls == 0,
    {
        PullState { target_us, pulls: 0 }
    }

    /// Take note of a picture for `pts_us`. Tells whether to look on.
    pub fn pulled(&mut self, pts_us: i64) -> (more: bool)
        requires
            old(self).pulls < MAX_PULLS,
        ensures
            final(self).pulls == old(self).pulls + 1,
            final(self).target_us == old(self).target_us,
            more == (pts_us < old(self).target_us && final(self).pulls < MAX_PULLS),
    {
        self.pulls = self.pulls + 1;
        pts_us < self.target_us && self.pulls < MAX_PULLS
    }
}

/// A picture with three bytes for each pixel, row by row.
#[derive(Debug)]
pub struct Picture {
    pub width: u32,
    pub height: u32,
    pub rgb: Vec<u8>,
}

#[verifier::ext_equal]
pub struct PictureView {
    pub width: u32,
    pub height: u32,
    pub rgb: Seq<u8>,
}

impl View for Picture {
    type V = PictureView;

    open spec fn view(&self) -> PictureView {
        PictureView { width: self.width, height: self.height, rgb: self.rgb@ }
    }
}

/// The small picture that `image` makes of a large one: what
/// `DynamicImage::thumbnail` and `DynamicImage::to_rgb8` give.
pub uninterp spec fn thumbnail_of(
    width: u32,
    height: u32,
    rgba: Seq<u8>,
    max_width: u32,
    max_height: u32,
) -> PictureView;

/// A picture with all its bytes that is not empty and fits the given size.
pub open spec fn fits_size(p: PictureView, max_width: u32, max_height: u32) -> bool {
    &&& 1 <= p.width <= max_width
    &&& 1 <= p.height <= max_height
    &&& p.rgb.len() == p.width * p.height * 3
}

/// Sizes between which `image` can scale. It adds up the pixels that make one
/// small pixel in 32 bits, so they may not be too many: either the whole
/// picture has few enough, or it is at most 2048 times as wide and as high as
/// the size that it has to fit.
pub open spec fn can_scale(width: u32, height: u32, max_width: u32, max_height: u32) -> bool {
    &&& 1 <= max_width <= 65_535
    &&& 1 <= max_height <= 65_535
    &&& max_width * max_height * 4 <= isize::MAX
    &&& {
        ||| width * height <= 0xff_ffff
        ||| width <= 2_048 * max_width && height <= 2_048 * max_height
    }
}

/// `image::ImageBuffer::from_raw` takes the pixels, `DynamicImage::thumbnail`
/// scales them down to fit the given size, keeping the proportions, and
/// `DynamicImage::to_rgb8` drops the fourth byte of each pixel. The result is
/// at least one pixel wide and high, fits the size, and has three bytes for
/// each pixel. There is none where the pixels are too few.
#[verifier::external_body]
fn scale_down(
    width: u32,
    height: u32,
    rgba: Vec<u8>,
    max_width: u32,
    max_height: u32,
) -> (p: Option<Picture>)
    requires
        can_scale(width, height, max_width, max_height),
    ensures
        p.is_some() == (width * height * 4 <= rgba@.len()),
        p.is_some() ==> p.unwrap()@ == thumbnail_of(width, height, rgba@, max_width, max_height),
        p.is_some() ==> fits_size(p.unwrap()@, max_width, max_height),
{
    let buffer = image::ImageBuffer::<image::Rgba<u8>, Vec<u8>>::from_raw(width, height, rgba)?;
    let small = image::DynamicImage::ImageRgba8(buffer).thumbnail(max_width, max_height).to_rgb8();
    Some(Picture { width: small.width(), height: small.height(), rgb: small.into_raw() })
}

/// The JPEG file that `image` makes of a picture.
pub uninterp spec fn jpeg_of(width: u32, height: u32, rgb: Seq<u8>) -> Seq<u8>;

/// The sizes that a JPEG file can have.
pub open spec fn is_jpeg_size(width: u32, height: u32) -> bool {
    1 <= width <= 65_535 && 1 <= height <= 65_535
}

/// `image::codecs::jpeg::JpegEncoder::encode` writes a picture as a JPEG file.
/// It takes any picture of 1 to 65535 pixels in width and height.
#[verifier::external_body]
fn encode_jpeg(width: u32, height: u32, rgb: &Vec<u8>) -> (bytes: Option<Vec<u8>>)
    requires
        rgb@.len() == width * height * 3,
    ensures
        bytes.is_some() == is_jpeg_size(width, height),
        bytes.is_some() ==> bytes.unwrap()@ == jpeg_of(width, height, rgb@),
{
    let mut out: Vec<u8> = Vec::new();
    let color = image::ExtendedColorType::Rgb8;
    image::codecs::jpeg::JpegEncoder::new(&mut out).encode(rgb, width, height, color).ok()?;
    Some(out)
}

/// Why a decoder or a preview picture failed.
#[derive(Debug)]
pub enum DecoderError {
    Ffmpeg(String),
    NoVideoStream(String),
    Io(String),
    ImageEncode(String),
}

#[verifier::ext_equal]
pub enum DecoderErrorView {
    Ffmpeg(Seq<char>),
    NoVideoStream(Seq<char>),
    Io(Seq<char>),
    ImageEncode(Seq<char>),
}

impl View for DecoderError {
    type V = DecoderErrorView;

    open spec fn view(&self) -> DecoderErrorView {
        match *self {
            DecoderError::Ffmpeg(s) => DecoderErrorView::Ffmpeg(s@),
            DecoderError::NoVideoStream(s) => DecoderErrorView::NoVideoStream(s@),
            DecoderError::Io(s) => DecoderErrorView::Io(s@),
            DecoderError::ImageEncode(s) => DecoderErrorView::ImageEncode(s@),
        }
    }
}

impl DecoderErrorView {
    /// The message shown to the user.
    pub open spec fn text(self) -> Seq<char> {
        match self {
            DecoderErrorView::Ffmpeg(s) => "ffmpeg error: "@ + s,
            DecoderErrorView::NoVideoStream(s) => "no video stream in "@ + s,
            DecoderErrorView::Io(s) => "io error: "@ + s,
            DecoderErrorView::ImageEncode(s) => "image encode error: "@ + s,
        }
    }
}

impl DecoderError {
    /// The message shown to the user.
    pub fn message(&self) -> (s: String)
        ensures
            s@ == self@.text(),
    {
        match self {
            DecoderError::Ffmpeg(why) => {
                let mut s: String = "ffmpeg error: ".to_owned();
                s.append(why.as_str());
                s
            },
            DecoderError::NoVideoStream(path) => {
                let mut s: String = "no video stream in ".to_owned();
                s.append(path.as_str());
                s
            },
            DecoderError::Io(why) => {
                let mut s: String = "io error: ".to_owned();
                s.append(why.as_str());
                s
            },
            DecoderError::ImageEncode(why) => {
                let mut s: String = "image encode error: ".to_owned();
                s.append(why.as_str());
                s
            },
        }
    }
}

/// The JPEG file of a small picture.
pub open spec fn jpeg_of_picture(p: PictureView) -> Seq<u8> {
    jpeg_of(p.width, p.height, p.rgb)
}

/// Whether a frame has all its pixels.
pub open spec fn is_whole(frame: DecodedFrameView) -> bool {
    frame.width * frame.height * 4 <= frame.rgba.len()
}

/// Make a JPEG file of a frame, scaled down to fit the given size.
pub fn thumbnail_jpeg(frame: DecodedFrame, max_width: u32, max_height: u32) -> (r: Result<
    Vec<u8>,
    DecoderError,
>)
    requires
        can_scale(frame@.width, frame@.height, max_width, max_height),
    ensures
        if is_whole(frame@) {
            r matches Ok(bytes) && bytes@ == jpeg_of_picture(
                thumbnail_of(
                    frame@.width,
                    frame@.height,
                    frame@.rgba,
                    max_width,
                    max_height,
                ),
            )
        } else {
            r matches Err(e) && e@ == DecoderErrorView::ImageEncode("bad rgba buffer size"@)
        },
{
    match scale_down(frame.width, frame.height, frame.rgba, max_width, max_height) {
        Some(p) => match encode_jpeg(p.width, p.height, &p.rgb) {
            Some(bytes) => Ok(bytes),
            None => Err(DecoderError::ImageEncode("bad picture size".to_owned())),
        },
        None => Err(DecoderError::ImageEncode("bad rgba buffer size".to_owned())),
    }
}

/// Whether a picture of the given size can be made a thumbnail that fits the
/// other size.
pub fn is_scalable(width: u32, height: u32, max_width: u32, max_height: u32) -> (r: bool)
    ensures
        r == can_scale(width, height, max_width, max_height),
{
    if max_width < 1 || max_width > 65_535 || max_height < 1 || max_height > 65_535 {
        return false;
    }
    assert(max_width * max_height * 4 <= 65_535 * 65_535 * 4) by (nonlinear_arith)
        requires
            max_width <= 65_535,
            max_height <= 65_535,
    ;
    assert(width * height <= 0xffff_ffff * 0xffff_ffff) by (nonlinear_arith)
        requires
            width <= 0xffff_ffff,
            height <= 0xffff_ffff,
    ;
    let wanted: u64 = max_width as u64 * max_height as u64 * 4;
    wanted <= isize::MAX as u64 && (width as u64 * height as u64 <= 0xff_ffff || (width
        <= 2_048 * max_width && height <= 2_048 * max_height))
}

/// The file of the `i`-th preview picture.
pub open spec fn thumbnail_path_of(dir: Seq<char>, i: int) -> Seq<char> {
    paths::joined(dir, text::dec(i as nat) + ".jpg"@)
}

/// The file of the `i`-th preview picture.
pub fn thumbnail_path(out_dir: &str, i: usize) -> (s: String)
    ensures
        s@ == thumbnail_path_of(out_dir@, i as int),
{
    let mut name: String = String::new();
    text::push_dec(&mut name, i as u128);
    assert(name@ =~= text::dec(i as nat));
    name.append(".jpg");
    paths::join(out_dir, name.as_str())
}

/// The pictures come in order, the first at the start, and none lies behind
/// the end.
pub proof fn lemma_thumbnail_times_are_spread(duration_us: i64, i: int, count: int)
    requires
        0 <= i < count,
    ensures
        picture_time(duration_us, 0, count) == 0,
        0 <= picture_time(duration_us, i, count) < counted_us(duration_us),
        i + 1 < count ==> picture_time(duration_us, i, count) <= picture_time(
            duration_us,
            i + 1,
            count,
        ),
{
    let total = counted_us(duration_us);
    assert(total * 0 == 0) by (nonlinear_arith);
    assert(0int / count == 0) by (nonlinear_arith)
        requires
            count > 0,
    ;
    assert(0 <= total * i / count < total) by (nonlinear_arith)
        requires
            0 <= i < count,
            total > 0,
    ;
    assert(total * i / count <= total * (i + 1) / count) by (nonlinear_arith)
        requires
            0 <= i < count,
            total > 0,
    ;
}

} // verus!
