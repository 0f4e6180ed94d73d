use std::path::Path;
use video_merger::bridge::models::{
    asset_thumbnails, asset_waveform, set_data_dir, Thumbnails, Waveform,
};
use video_merger::domain::clip::{Clip, MediaInfo};
use video_merger::domain::codec::{CodecProfile, Resolution};
use video_merger::domain::playlist::Playlist;
use video_merger::errors::CoreError;
use video_merger::paths;
use video_merger::services::timeline_ops::split_at;
use video_merger::text::{parse_u64, push_dec, push_dec_padded, push_dec_signed};
use video_merger::time::Duration;

#[test]
fn paths_agree_with_the_standard_library() {
    let samples = [
        "/a/b/c.mp4", "a.mp4", "/a.mp4", "/", "", "/a/", "/a//b//", "a/b.tar.gz", ".hidden",
        "/x/.hidden", "/x/..", "..", ".", "/x/y.", "a/./b", "/a/b.", "./a", "a//", "//a", "/a/b/.",
        "x.JPG", "dir.d/file", "a", "a/", "a/.", "./.", "./", "//", "/.", "/./a", "/a/./b", "a/b",
        "a/../b", "/a", "/a/b", "/..", ".//a", "ünï/cödé.Mp4",
    ];
    for s in samples {
        let p = Path::new(s);
        let name = p.file_name().map(|n| n.to_string_lossy().to_string());
        assert_eq!(paths::file_name(s), name, "file name of {s:?}");
        assert_eq!(paths::display_name(s), name.unwrap_or_default(), "display name of {s:?}");
        let ext = p.extension().map(|n| n.to_string_lossy().to_string());
        assert_eq!(paths::extension(s), ext, "extension of {s:?}");
        let parent = p.parent().map(|n| n.to_string_lossy().to_string());
        assert_eq!(paths::parent(s), parent, "parent of {s:?}");
        for other in samples {
            assert_eq!(paths::same_path(s, other), p == Path::new(other), "{s:?} and {other:?}");
        }
    }
    for (dir, name) in [("/a", "b"), ("/a/", "b"), ("", "b"), ("a/b", "c.d")] {
        assert_eq!(paths::join(dir, name), Path::new(dir).join(name).to_string_lossy());
    }
}

#[test]
fn videos_and_pictures_by_extension() {
    for s in ["a.mp4", "/x/b.MOV", "c.mkv", "d.Avi", "e.webm", "f.m4v"] {
        assert!(paths::is_video_file(s), "{s}");
    }
    for s in ["a.mp3", "mp4", ".mp4", "a.mp4.txt", ""] {
        assert!(!paths::is_video_file(s), "{s}");
    }
    assert!(paths::is_jpeg_file("0.jpg") && paths::is_jpeg_file("/t/1.JPEG"));
    assert!(!paths::is_jpeg_file("0.png"));
}

#[test]
fn numbers_are_written_in_decimal() {
    let mut s = String::new();
    push_dec(&mut s, 0);
    s.push(' ');
    push_dec(&mut s, u128::MAX);
    s.push(' ');
    push_dec_signed(&mut s, i64::MIN);
    s.push(' ');
    push_dec_padded(&mut s, 7, 3);
    s.push(' ');
    push_dec_padded(&mut s, 1234, 2);
    assert_eq!(s, format!("0 {} {} 007 1234", u128::MAX, i64::MIN));
    let digits: Vec<char> = "18446744073709551615".chars().collect();
    assert_eq!(parse_u64(&digits, 0, digits.len()), Some(u64::MAX));
    let not: Vec<char> = "12x".chars().collect();
    assert_eq!(parse_u64(&not, 0, 3), None);
    assert_eq!(parse_u64(&not, 0, 2), Some(12));
    assert_eq!(parse_u64(&not, 0, 0), None);
}

#[test]
fn core_errors_have_messages() {
    let id = 0xfeed_u128;
    assert_eq!(
        CoreError::ClipNotFound(id).message(),
        format!("clip not found: {}", uuid::Uuid::from_u128(id))
    );
    assert_eq!(
        CoreError::InvalidReorder { index: 4, len: 2 }.message(),
        "invalid reorder: index 4 out of bounds (len 2)"
    );
    assert_eq!(CoreError::EmptyPlaylist.message(), "empty playlist cannot be merged");
    assert_eq!(CoreError::UnsupportedFile("/a.txt".into()).message(), "unsupported file: /a.txt");
    assert_eq!(CoreError::InvalidTrim("why".into()).message(), "invalid trim: why");
}

fn clip() -> Clip {
    Clip::new(
        "/v/a.mp4".to_string(),
        MediaInfo {
            duration: Duration::from_secs(5),
            profile: CodecProfile {
                video_codec: "h264".into(),
                audio_codec: "".into(),
                resolution: Resolution::uhd_4k(),
                frame_rate_mhz: 30_000,
                pixel_format: "yuv420p".into(),
            },
        },
    )
}

#[test]
fn pictures_and_waveforms_are_found() {
    let mut dir: Option<String> = None;
    let mut c = clip();
    assert!(matches!(asset_thumbnails(&c, &dir), Thumbnails::Nowhere));
    assert!(matches!(asset_waveform(&c, &dir), Waveform::Nowhere));
    set_data_dir(&mut dir, "/first".into());
    set_data_dir(&mut dir, "/second".into());
    let id = uuid::Uuid::from_u128(c.id);
    match asset_thumbnails(&c, &dir) {
        Thumbnails::Folder(f) => assert_eq!(f, format!("/first/thumbs/{id}")),
        other => panic!("{other:?}"),
    }
    match asset_waveform(&c, &dir) {
        Waveform::Cached(f) => assert_eq!(f, format!("/first/waveforms/{id}.bin")),
        other => panic!("{other:?}"),
    }
    c.thumbnails = vec!["/t/1.jpg".into()];
    c.waveform_path = Some("/w.bin".into());
    match asset_thumbnails(&c, &dir) {
        Thumbnails::Files(f) => assert_eq!(f, vec!["/t/1.jpg".to_string()]),
        other => panic!("{other:?}"),
    }
    match asset_waveform(&c, &dir) {
        Waveform::File(f) => assert_eq!(f, "/w.bin"),
        other => panic!("{other:?}"),
    }
}

#[test]
fn halves_of_a_split_share_pictures_and_waveform() {
    let mut pl = Playlist::new();
    pl.push(clip());
    let id = pl.clips()[0].id;
    split_at(&mut pl, id, 2_000_000).unwrap();
    let dir = Some("/d".to_string());
    assert_ne!(pl.clips()[1].id, id);
    let name = uuid::Uuid::from_u128(id);
    for half in pl.clips() {
        match asset_thumbnails(half, &dir) {
            Thumbnails::Folder(f) => assert_eq!(f, format!("/d/thumbs/{name}")),
            other => panic!("{other:?}"),
        }
        match asset_waveform(half, &dir) {
            Waveform::Cached(f) => assert_eq!(f, format!("/d/waveforms/{name}.bin")),
            other => panic!("{other:?}"),
        }
    }
}
