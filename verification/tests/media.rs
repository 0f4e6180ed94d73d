use video_merger::engine::audio::{
    bar_ranges, take_samples, waveform_to_bars, AudioOutputError, Peak, PeakCollector, WaveformError, WaveformPeaks,
};
use video_merger::engine::decoder::{
    clamp_threads, decoder_threads, needs_seek, seek_target, DecodeStep, Decoded, DecodedFrame,
    FrameSearch, StreamMeta,
};
use video_merger::engine::pixels::{black_canvas, even_dim, pack_rows, padded_row_bytes};
use video_merger::engine::thumbnails::{
    is_scalable, thumbnail_jpeg, thumbnail_path, thumbnail_times, DecoderError, PullState,
};
use video_merger::scalar::Scalar;

fn num(x: f32) -> Scalar {
    Scalar { bits: x.to_bits() }
}

#[test]
fn waveform_file_round_trip() {
    let w = WaveformPeaks {
        bucket_us: 10_000,
        peaks: vec![
            Peak { min: num(-0.5), max: num(0.25) },
            Peak { min: num(-0.0), max: num(f32::NAN) },
        ],
    };
    let bytes = w.to_bytes();
    let back = WaveformPeaks::from_bytes(&bytes).unwrap();
    assert_eq!(back.bucket_us, 10_000);
    assert_eq!(back.peaks, w.peaks);
    let mut bad = bytes.clone();
    bad[0] = b'X';
    assert!(matches!(WaveformPeaks::from_bytes(&bad), Err(WaveformError::BadMagic)));
    assert!(WaveformPeaks::from_bytes(&bytes[..bytes.len() - 1]).is_err());
    assert!(WaveformPeaks::from_bytes(&[]).is_err());
}

#[test]
fn peaks_are_collected_by_buckets() {
    let mut c = PeakCollector::new();
    for i in 0..1000 {
        c.push(num(if i == 3 { -0.75 } else if i == 490 { 0.5 } else { 0.0 }));
    }
    let w = c.finish();
    assert_eq!(w.bucket_us, 10_000);
    assert_eq!(w.peaks.len(), 3);
    assert_eq!(w.peaks[0].min, num(-0.75));
    assert_eq!(w.peaks[1].max, num(0.5));
    assert!(PeakCollector::new().finish().peaks.is_empty());
}

#[test]
fn bars_show_all_peaks() {
    assert_eq!(bar_ranges(5, 2), vec![(0, 2), (2, 5)]);
    assert_eq!(bar_ranges(2, 9), vec![(0, 1), (1, 2)]);
    let w = WaveformPeaks {
        bucket_us: 10_000,
        peaks: vec![
            Peak { min: num(-0.5), max: num(0.25) },
            Peak { min: num(-3.0), max: num(0.1) },
            Peak { min: num(0.2), max: num(2.0) },
        ],
    };
    let bars = waveform_to_bars(&w, 2);
    assert_eq!(bars.len(), 2);
    assert_eq!((bars[0].peak, bars[0].min, bars[0].max), (num(0.5), num(-0.5), num(0.25)));
    assert_eq!((bars[1].peak, bars[1].min, bars[1].max), (num(1.0), num(-1.0), num(1.0)));
    let none = WaveformPeaks { bucket_us: 10_000, peaks: vec![] };
    assert!(waveform_to_bars(&none, 200).is_empty());
}

#[test]
fn missing_samples_are_silent() {
    let mut b = vec![num(1.0), num(2.0), num(3.0)];
    assert_eq!(take_samples(&mut b, 1), vec![num(1.0), num(2.0)]);
    assert_eq!(take_samples(&mut b, 2), vec![num(3.0), num(0.0), num(0.0), num(0.0)]);
    assert!(b.is_empty());
}

#[test]
fn a_missing_device_is_told() {
    assert_eq!(
        AudioOutputError::NoDevice.message(),
        "no default audio output device available"
    );
    assert_eq!(
        AudioOutputError::Config("x".into()).message(),
        "could not negotiate stream config: x"
    );
    assert_eq!(AudioOutputError::Stream("x".into()).message(), "cpal stream error: x");
}

#[test]
fn decoders_seek_when_far_off() {
    assert!(needs_seek(None, 0));
    assert!(needs_seek(Some(100), 99));
    assert!(!needs_seek(Some(100), 200_100));
    assert!(needs_seek(Some(100), 200_101));
    assert_eq!(seek_target(-5), seek_target(0));
    let mut s = FrameSearch::new();
    assert!(s.begin(50_000));
    s.sought();
    assert_eq!(s.decoded(50_000, Decoded::At(20_000)), DecodeStep::Again);
    assert_eq!(s.decoded(50_000, Decoded::At(50_000)), DecodeStep::Show);
    assert!(!s.begin(90_000));
    assert_eq!(s.decoded(90_000, Decoded::End), DecodeStep::Show);
    assert_eq!(s.decoded(90_000, Decoded::Failed), DecodeStep::GiveUp);
}

#[test]
fn streams_without_a_rate() {
    let m = StreamMeta { duration_us: 1, frame_rate_num: 30, frame_rate_den: 0 };
    assert_eq!(m.frame_rate(), None);
    let m = StreamMeta { duration_us: 1, frame_rate_num: 30000, frame_rate_den: 1001 };
    assert_eq!(m.frame_rate(), Some((30000, 1001)));
}

#[test]
fn threads_go_by_the_processors() {
    assert_eq!(clamp_threads(1), 2);
    assert_eq!(clamp_threads(5), 5);
    assert_eq!(clamp_threads(64), 8);
    assert_eq!(decoder_threads(), num_cpus::get().clamp(2, 8));
}

#[test]
fn rows_are_packed() {
    assert_eq!(padded_row_bytes(64), 256);
    assert_eq!(padded_row_bytes(65), 512);
    let padded = [1u8, 2, 0, 3, 4, 0];
    assert_eq!(pack_rows(&padded, 3, 2, 2), vec![1, 2, 3, 4]);
    assert_eq!(even_dim(0), 2);
    assert_eq!(even_dim(721), 720);
    assert_eq!(black_canvas(1, 2), vec![0, 0, 0, 255, 0, 0, 0, 255]);
}

#[test]
fn thumbnails_are_spread_over_the_clip() {
    assert_eq!(thumbnail_times(10_000_000, 5), vec![0, 2_000_000, 4_000_000, 6_000_000, 8_000_000]);
    assert!(thumbnail_times(10, 0).is_empty());
    assert_eq!(thumbnail_path("/t", 3), "/t/3.jpg");
    let mut p = PullState::new(100);
    assert!(p.pulled(50));
    assert!(!p.pulled(100));
}

fn frame(width: u32, height: u32) -> DecodedFrame {
    let mut rgba = Vec::new();
    for i in 0..width * height {
        rgba.push((i % 251) as u8);
        rgba.push((i / 7 % 256) as u8);
        rgba.push(9);
        rgba.push(255);
    }
    DecodedFrame { width, height, pts_us: 0, rgba }
}

#[test]
fn preview_pictures_are_small_jpeg_files() {
    let f = frame(640, 480);
    let (w, h, rgba) = (f.width, f.height, f.rgba.clone());
    let bytes = thumbnail_jpeg(f, 160, 90).unwrap();
    assert_eq!(&bytes[..3], &[0xff, 0xd8, 0xff]);
    let buffer = image::ImageBuffer::<image::Rgba<u8>, Vec<u8>>::from_raw(w, h, rgba).unwrap();
    let small = image::DynamicImage::ImageRgba8(buffer).thumbnail(160, 90).to_rgb8();
    assert_eq!((small.width(), small.height()), (120, 90));
    let mut expected = Vec::new();
    image::codecs::jpeg::JpegEncoder::new(&mut expected)
        .encode(&small, 120, 90, image::ExtendedColorType::Rgb8)
        .unwrap();
    assert_eq!(bytes, expected);
    let mut short = frame(64, 64);
    short.rgba.pop();
    match thumbnail_jpeg(short, 160, 90) {
        Err(DecoderError::ImageEncode(why)) => assert_eq!(why, "bad rgba buffer size"),
        other => panic!("{other:?}"),
    }
    assert_eq!(DecoderError::Ffmpeg("x".into()).message(), "ffmpeg error: x");
    assert_eq!(DecoderError::NoVideoStream("/a".into()).message(), "no video stream in /a");
    assert_eq!(DecoderError::Io("x".into()).message(), "io error: x");
    assert_eq!(DecoderError::ImageEncode("x".into()).message(), "image encode error: x");
}

#[test]
fn pictures_of_many_sizes_can_be_scaled() {
    assert!(is_scalable(1920, 1080, 160, 90));
    assert!(is_scalable(3840, 2160, 1, 1));
    assert!(is_scalable(65_535, 65_535, 32, 32));
    assert!(is_scalable(0, 0, 1, 1));
    assert!(!is_scalable(65_535, 65_535, 31, 31));
    assert!(!is_scalable(64, 64, 0, 90));
    assert!(!is_scalable(64, 64, 90, 65_536));
    for (w, h) in [(1, 1), (8, 8), (64, 300)] {
        let bytes = thumbnail_jpeg(frame(64, 48), w, h).unwrap();
        let back = image::load_from_memory(&bytes).unwrap();
        assert!(back.width() <= w && back.height() <= h);
        assert!(back.width() >= 1 && back.height() >= 1);
    }
}
