use video_merger::domain::clip::MediaInfo;
use video_merger::engine::errors::{EngineError, EngineResult};
use video_merger::engine::ffmpeg::command::{job_outcome, FfmpegEngine, ProcessEnd};
use video_merger::engine::ffmpeg::probe::{media_info, probe_args, split_rational, ProbeStream};
use video_merger::engine::ffmpeg::probe::video_stream;
use video_merger::engine::ffmpeg::progress::progress_us;
use video_merger::time::Duration;

const SAMPLE: &str = r#"{
    "streams": [
        {"codec_type":"video","codec_name":"h264","width":3840,"height":2160,"pix_fmt":"yuv420p","r_frame_rate":"30000/1001"},
        {"codec_type":"audio","codec_name":"aac"}
    ],
    "format": {"duration":"12.345"}
}"#;

fn text(v: &serde_json::Value, key: &str) -> String {
    v.get(key).and_then(|x| x.as_str()).unwrap_or("").to_string()
}

fn rate_mhz(s: &str) -> Option<u32> {
    let (num, den) = split_rational(s)?;
    let n: f64 = num.parse().ok()?;
    let d: f64 = den.parse().ok()?;
    if d == 0.0 {
        return None;
    }
    Some(((n / d) * 1000.0).round() as u32)
}

fn parse_ffprobe_json(bytes: &[u8]) -> EngineResult<MediaInfo> {
    let v: serde_json::Value =
        serde_json::from_slice(bytes).map_err(|e| EngineError::ProbeParse(e.to_string()))?;
    let streams: Vec<ProbeStream> = v["streams"]
        .as_array()
        .unwrap()
        .iter()
        .map(|s| ProbeStream {
            codec_type: text(s, "codec_type"),
            codec_name: text(s, "codec_name"),
            width: s.get("width").and_then(|x| x.as_u64()).unwrap_or(0) as u32,
            height: s.get("height").and_then(|x| x.as_u64()).unwrap_or(0) as u32,
            pix_fmt: text(s, "pix_fmt"),
            r_frame_rate: text(s, "r_frame_rate"),
        })
        .collect();
    let rate = video_stream(&streams).and_then(|i| rate_mhz(&streams[i].r_frame_rate));
    let secs: f64 = text(&v["format"], "duration").parse().unwrap_or(0.0);
    let nanos = std::time::Duration::from_secs_f64(secs.max(0.0)).as_nanos();
    media_info(&streams, rate, Duration { nanos })
}

#[test]
fn parses_full_4k_h264_sample() {
    let info = parse_ffprobe_json(SAMPLE.as_bytes()).unwrap();
    assert_eq!(info.profile.video_codec, "h264");
    assert_eq!(info.profile.audio_codec, "aac");
    assert_eq!(info.profile.resolution.width, 3840);
    assert_eq!(info.profile.resolution.height, 2160);
    assert_eq!(info.profile.frame_rate_mhz, 29970);
    assert!((info.duration.nanos as f64 / 1e9 - 12.345).abs() < 1e-6);
}

#[test]
fn errors_on_no_video_stream() {
    let json = br#"{"streams":[{"codec_type":"audio","codec_name":"aac"}],"format":{}}"#;
    assert!(parse_ffprobe_json(json).is_err());
}

#[test]
fn no_video_stream_is_told() {
    let e = media_info(&vec![], None, Duration::zero()).unwrap_err();
    assert_eq!(e.message(), "probe parse error: no video stream");
}

#[test]
fn fractions_are_split_at_the_first_slash() {
    assert_eq!(split_rational("30000/1001"), Some(("30000".into(), "1001".into())));
    assert_eq!(split_rational("1/2/3"), Some(("1".into(), "2/3".into())));
    assert_eq!(split_rational("30"), None);
    assert_eq!(rate_mhz("0/0"), None);
    assert_eq!(rate_mhz("25/1"), Some(25_000));
}

#[test]
fn programs_and_their_ends() {
    let e = FfmpegEngine::default();
    assert_eq!((e.ffmpeg_bin.as_str(), e.ffprobe_bin.as_str()), ("ffmpeg", "ffprobe"));
    assert_eq!(probe_args("/a/b.mp4").last().unwrap(), "/a/b.mp4");
    assert!(job_outcome(ProcessEnd::Exited { success: true, code: Some(0) }).is_ok());
    let e = job_outcome(ProcessEnd::Exited { success: false, code: Some(3) }).unwrap_err();
    assert_eq!(e.message(), "media engine exited with status 3");
    let e = job_outcome(ProcessEnd::Exited { success: false, code: None }).unwrap_err();
    assert_eq!(e.message(), "media engine exited with status -1");
    let e = job_outcome(ProcessEnd::Cancelled).unwrap_err();
    assert_eq!(e.message(), "job was cancelled");
    assert_eq!(
        EngineError::BinaryMissing("ffmpeg".into()).message(),
        "media engine binary not found on PATH: ffmpeg"
    );
    assert_eq!(EngineError::Io("gone".into()).message(), "io error: gone");
}

#[test]
fn progress_lines() {
    assert_eq!(progress_us("out_time_us=1500000"), Some(1_500_000));
    assert_eq!(progress_us("out_time_us= 7 "), Some(7));
    assert_eq!(progress_us("out_time_us=N/A"), None);
    assert_eq!(progress_us("frame=3"), None);
    assert_eq!(progress_us("out_time_us=18446744073709551615"), Some(u64::MAX));
    assert_eq!(progress_us("out_time_us=18446744073709551616"), None);
}
