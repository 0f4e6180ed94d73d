use video_merger::domain::clip::{Clip, MediaInfo};
use video_merger::domain::codec::{CodecProfile, Resolution};
use video_merger::domain::playlist::Playlist;
use video_merger::domain::project::{Project, Track, TrackClip, TrackKind};
use video_merger::errors::CoreError;
use video_merger::time::Duration;

fn make_clip(secs: f32) -> Clip {
    Clip::new(
        format!("/tmp/{}.mp4", secs),
        MediaInfo {
            duration: Duration::from_micros((secs * 1_000_000.0) as u64),
            profile: CodecProfile {
                video_codec: "h264".into(),
                audio_codec: "aac".into(),
                resolution: Resolution { width: 1920, height: 1080 },
                frame_rate_mhz: 30_000,
                pixel_format: "yuv420p".into(),
            },
        },
    )
}

#[test]
fn default_project_has_four_tracks() {
    let proj = Project::with_default_tracks();
    assert_eq!(proj.tracks.len(), 4);
    assert_eq!(proj.tracks[0].name, "V2");
    assert_eq!(proj.tracks[1].name, "V1");
    assert_eq!(proj.tracks[2].name, "A1");
    assert_eq!(proj.tracks[3].name, "A2");
}

#[test]
fn from_playlist_places_clips_sequentially() {
    let mut pl = Playlist::new();
    pl.push(make_clip(5.0));
    pl.push(make_clip(3.0));
    let proj = Project::from_playlist(&pl);

    let v1 = &proj.tracks[1];
    assert_eq!(v1.clips.len(), 2);
    assert_eq!(v1.clips[0].start_us, 0);
    assert_eq!(v1.clips[1].start_us, 5_000_000);
}

#[test]
fn from_playlist_mirrors_the_sound() {
    let mut pl = Playlist::new();
    pl.push(make_clip(5.0));
    pl.push(make_clip(3.0));
    let proj = Project::from_playlist(&pl);
    let starts = |i: usize| -> Vec<(u128, i64)> {
        proj.tracks[i].clips.iter().map(|c| (c.clip.id, c.start_us)).collect()
    };
    assert_eq!(starts(2), starts(1));
    assert_eq!(proj.tracks[2].name, "A1");
    assert!(proj.tracks[0].clips.is_empty() && proj.tracks[3].clips.is_empty());
}

#[test]
fn duration_us_is_max_end() {
    let mut proj = Project::with_default_tracks();
    let v1_idx = proj.track_index_by_name("V1").unwrap();
    proj.tracks[v1_idx].clips.push(TrackClip { clip: make_clip(10.0), start_us: 0 });
    let v2_idx = proj.track_index_by_name("V2").unwrap();
    proj.tracks[v2_idx].clips.push(TrackClip { clip: make_clip(5.0), start_us: 3_000_000 });
    assert_eq!(proj.duration_us(), 10_000_000);
}

#[test]
fn overlap_detection() {
    let mut track = Track::new("V1", TrackKind::Video);
    let clip = make_clip(5.0);
    track.clips.push(TrackClip { clip, start_us: 2_000_000 });
    assert!(track.would_overlap(4_000_000, 2_000_000, None));
    assert!(!track.would_overlap(0, 2_000_000, None));
    assert!(!track.would_overlap(7_000_000, 3_000_000, None));
}

#[test]
fn find_clip_across_tracks() {
    let mut proj = Project::with_default_tracks();
    let clip = make_clip(5.0);
    let clip_id = clip.id;
    proj.tracks[0].clips.push(TrackClip { clip, start_us: 0 });
    let (ti, ci) = proj.find_clip(clip_id).unwrap();
    assert_eq!(ti, 0);
    assert_eq!(ci, 0);
}

#[test]
fn empty_project_lasts_no_time() {
    let proj = Project::default();
    assert_eq!(proj.duration_us(), 0);
    assert!(proj.is_empty());
    assert_eq!(proj.clip_count(), 0);
    assert!(proj.find_clip(1).is_none());
    assert!(proj.track_index_by_name("V3").is_none());
    assert!(proj.ends_in_range());
}

#[test]
fn tracks_are_told_apart_by_kind() {
    let proj = Project::with_default_tracks();
    let video: Vec<usize> = proj.video_tracks().iter().map(|(i, _)| *i).collect();
    let audio: Vec<usize> = proj.audio_tracks().iter().map(|(i, _)| *i).collect();
    assert_eq!(video, vec![1, 0]);
    assert_eq!(audio, vec![2, 3]);
}

#[test]
fn playlist_round_trip() {
    let mut pl = Playlist::new();
    pl.push(make_clip(5.0));
    pl.push(make_clip(3.0));
    pl.push(make_clip(4.0));
    let ids: Vec<u128> = pl.clips().iter().map(|c| c.id).collect();
    let back = Project::from_playlist(&pl).to_playlist();
    let back_ids: Vec<u128> = back.clips().iter().map(|c| c.id).collect();
    assert_eq!(back_ids, ids);
}

#[test]
fn to_playlist_goes_by_start() {
    let mut proj = Project::with_default_tracks();
    let (a, b, c) = (make_clip(1.0), make_clip(2.0), make_clip(3.0));
    let ids = vec![b.id, c.id, a.id];
    proj.tracks[1].clips.push(TrackClip { clip: a, start_us: 9_000_000 });
    proj.tracks[1].clips.push(TrackClip { clip: b, start_us: 0 });
    proj.tracks[1].clips.push(TrackClip { clip: c, start_us: 4_000_000 });
    let got: Vec<u128> = proj.to_playlist().clips().iter().map(|c| c.id).collect();
    assert_eq!(got, ids);
}

#[test]
fn removing_a_clip_that_is_not_there() {
    let mut track = Track::new("V1", TrackKind::Video);
    match track.remove_clip(7) {
        Err(CoreError::ClipNotFound(id)) => assert_eq!(id, 7),
        other => panic!("{other:?}"),
    }
    let clip = make_clip(5.0);
    let id = clip.id;
    track.clips.push(TrackClip { clip, start_us: 1 });
    assert_eq!(track.find_clip(id).unwrap(), 0);
    assert_eq!(track.remove_clip(id).unwrap().clip.id, id);
    assert!(track.clips.is_empty());
}

#[test]
fn reordering_a_playlist() {
    let mut pl = Playlist::new();
    for s in [1.0, 2.0, 3.0] {
        pl.push(make_clip(s));
    }
    let ids: Vec<u128> = pl.clips().iter().map(|c| c.id).collect();
    pl.reorder(0, 2).unwrap();
    let now: Vec<u128> = pl.clips().iter().map(|c| c.id).collect();
    assert_eq!(now, vec![ids[1], ids[2], ids[0]]);
    pl.reorder(2, 0).unwrap();
    let back: Vec<u128> = pl.clips().iter().map(|c| c.id).collect();
    assert_eq!(back, ids);
    let e = pl.reorder(3, 0).unwrap_err();
    assert!(matches!(e, CoreError::InvalidReorder { index: 3, len: 3 }));
    let e = pl.reorder(0, 5).unwrap_err();
    assert!(matches!(e, CoreError::InvalidReorder { index: 5, len: 3 }));
    assert!(matches!(pl.remove(1), Err(CoreError::ClipNotFound(1))));
}

#[test]
fn identifiers_are_random_and_written_hyphenated() {
    let a = make_clip(1.0);
    let b = make_clip(1.0);
    assert_ne!(a.id, b.id);
    assert_ne!(a.id, 0);
    assert_eq!((a.id >> 76) & 0xf, 4);
    assert_eq!((a.id >> 62) & 0x3, 2);
    let row = video_merger::view_model::timeline_vm::ClipRow::from(&a);
    assert_eq!(row.id, uuid::Uuid::from_u128(a.id).to_string());
    assert_eq!(row.name, "1.mp4");
    assert_eq!(row.duration, "00:01");
    assert_eq!(row.resolution, "1920x1080");
}
