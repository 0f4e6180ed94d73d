use video_merger::domain::clip::{Clip, MediaInfo};
use video_merger::domain::codec::{CodecProfile, Resolution};
use video_merger::domain::playlist::Playlist;
use video_merger::errors::CoreError;
use video_merger::services::timeline_ops::{ripple_delete, split_at, trim, TrimSide};
use video_merger::time::Duration;

fn clip(secs: f32) -> Clip {
    Clip::new(
        format!("/tmp/{}.mp4", secs),
        MediaInfo {
            duration: Duration::from_micros((secs * 1_000_000.0) as u64),
            profile: CodecProfile {
                video_codec: "h264".into(),
                audio_codec: "aac".into(),
                resolution: Resolution { width: 1920, height: 1080 },
                frame_rate_mhz: 30_000,
                pixel_format: "yuv420p".into(),
            },
        },
    )
}

#[test]
fn timeline_ops_split_creates_two_halves() {
    let mut pl = Playlist::new();
    pl.push(clip(10.0));
    let id = pl.clips()[0].id;
    split_at(&mut pl, id, 4_000_000).unwrap();
    assert_eq!(pl.len(), 2);
    assert_eq!(pl.clips()[0].effective_duration_us(), 4_000_000);
    assert_eq!(pl.clips()[1].effective_duration_us(), 6_000_000);
    assert_eq!(pl.clips()[0].path, pl.clips()[1].path);
    assert_ne!(pl.clips()[0].id, pl.clips()[1].id);
}

#[test]
fn split_on_pinned_clip_does_not_inherit_its_pin() {
    let mut pl = Playlist::new();
    let mut c = clip(10.0);
    c.start_us = Some(20_000_000);
    pl.push(c);
    let id = pl.clips()[0].id;
    split_at(&mut pl, id, 4_000_000).unwrap();
    assert_eq!(pl.clips()[0].start_us, Some(20_000_000), "left keeps its pin");
    assert_eq!(pl.clips()[1].start_us, None, "right packs after left, no pin");
}

#[test]
fn split_right_half_points_at_source_assets() {
    let mut pl = Playlist::new();
    pl.push(clip(10.0));
    let orig = pl.clips()[0].id;
    split_at(&mut pl, orig, 4_000_000).unwrap();
    let right = &pl.clips()[1];
    assert_ne!(right.id, orig, "right has a fresh id");
    assert_eq!(right.origin_id, Some(orig));
    assert_eq!(right.asset_id(), orig, "the right half shows the assets of the whole");
    let right_id = right.id;
    split_at(&mut pl, right_id, 2_000_000).unwrap();
    assert_eq!(pl.clips()[2].asset_id(), orig, "asset id survives a second split");
}

#[test]
fn split_at_edge_rejected() {
    let mut pl = Playlist::new();
    pl.push(clip(10.0));
    let id = pl.clips()[0].id;
    assert!(split_at(&mut pl, id, 0).is_err());
    assert!(split_at(&mut pl, id, 10_000_000).is_err());
}

#[test]
fn trim_left_clamps_to_minimum_window() {
    let mut pl = Playlist::new();
    pl.push(clip(5.0));
    let id = pl.clips()[0].id;
    trim(&mut pl, id, TrimSide::Left, 99_000_000).unwrap();
    let c = &pl.clips()[0];
    assert!(c.effective_duration_us() >= 100_000);
    assert!(c.trim_in_us() <= c.trim_out_us() - 100_000);
}

#[test]
fn trim_right_shortens() {
    let mut pl = Playlist::new();
    pl.push(clip(10.0));
    let id = pl.clips()[0].id;
    trim(&mut pl, id, TrimSide::Right, 6_000_000).unwrap();
    assert_eq!(pl.clips()[0].effective_duration_us(), 6_000_000);
    assert!(pl.clips()[0].is_trimmed());
}

#[test]
fn ripple_delete_removes() {
    let mut pl = Playlist::new();
    pl.push(clip(5.0));
    pl.push(clip(7.0));
    let id = pl.clips()[0].id;
    ripple_delete(&mut pl, id).unwrap();
    assert_eq!(pl.len(), 1);
}

#[test]
fn errors_name_the_clip_and_the_place() {
    let mut pl = Playlist::new();
    pl.push(clip(10.0));
    let id = pl.clips()[0].id;
    assert!(matches!(split_at(&mut pl, 5, 1), Err(CoreError::ClipNotFound(5))));
    assert!(matches!(trim(&mut pl, 5, TrimSide::Left, 1), Err(CoreError::ClipNotFound(5))));
    assert!(matches!(ripple_delete(&mut pl, 5), Err(CoreError::ClipNotFound(5))));
    let e = split_at(&mut pl, id, 10_000_000).unwrap_err();
    match &e {
        CoreError::InvalidTrim(why) => {
            assert_eq!(why, "split at 10000000us outside trim window (0..10000000)")
        }
        other => panic!("{other:?}"),
    }
    assert!(e.message().ends_with("split at 10000000us outside trim window (0..10000000)"));
    assert_eq!(pl.len(), 1);
}

#[test]
fn trims_stay_within_the_source() {
    let mut pl = Playlist::new();
    pl.push(clip(10.0));
    let id = pl.clips()[0].id;
    trim(&mut pl, id, TrimSide::Right, 99_000_000).unwrap();
    assert_eq!(pl.clips()[0].trim_out_us(), 10_000_000);
    trim(&mut pl, id, TrimSide::Left, 4_000_000).unwrap();
    trim(&mut pl, id, TrimSide::Right, 0).unwrap();
    assert_eq!(pl.clips()[0].trim_out_us(), 4_100_000);
    trim(&mut pl, id, TrimSide::Left, -7).unwrap();
    assert_eq!(pl.clips()[0].trim_in_us(), 0);
}
