use video_merger::domain::clip::{Clip, MediaInfo};
use video_merger::domain::codec::{CodecProfile, Resolution};
use video_merger::domain::project::{Project, TrackClip};
use video_merger::errors::CoreError;
use video_merger::services::timeline_ops::TrimSide;
use video_merger::services::timeline_ops_mt::{
    append_clip, insert_clip, move_clip, ripple_delete_mt, split_at_mt, trim_mt,
};
use video_merger::time::Duration;

fn make_clip(secs: f32) -> Clip {
    Clip::new(
        format!("/tmp/{}.mp4", secs),
        MediaInfo {
            duration: Duration::from_micros((secs * 1_000_000.0) as u64),
            profile: CodecProfile {
                video_codec: "h264".into(),
                audio_codec: "aac".into(),
                resolution: Resolution { width: 1920, height: 1080 },
                frame_rate_mhz: 30_000,
                pixel_format: "yuv420p".into(),
            },
        },
    )
}

fn one_clip_project(secs: f32) -> (Project, u128) {
    let mut proj = Project::with_default_tracks();
    let clip = make_clip(secs);
    let id = clip.id;
    let v1 = proj.track_index_by_name("V1").unwrap();
    proj.tracks[v1].clips.push(TrackClip { clip, start_us: 0 });
    (proj, id)
}

#[test]
fn timeline_ops_mt_split_creates_two_halves() {
    let (mut proj, id) = one_clip_project(10.0);
    split_at_mt(&mut proj, id, 4_000_000).unwrap();
    let v1 = proj.track_index_by_name("V1").unwrap();
    assert_eq!(proj.tracks[v1].clips.len(), 2);
    assert_eq!(proj.tracks[v1].clips[0].clip.effective_duration_us(), 4_000_000);
    assert_eq!(proj.tracks[v1].clips[1].clip.effective_duration_us(), 6_000_000);
    assert_eq!(proj.tracks[v1].clips[1].start_us, 4_000_000);
}

#[test]
fn trim_left_shifts_start() {
    let (mut proj, id) = one_clip_project(10.0);
    trim_mt(&mut proj, id, TrimSide::Left, 2_000_000).unwrap();
    let v1 = proj.track_index_by_name("V1").unwrap();
    let tc = &proj.tracks[v1].clips[0];
    assert_eq!(tc.clip.trim_in_us(), 2_000_000);
    assert_eq!(tc.start_us, 2_000_000);
}

#[test]
fn ripple_delete_closes_gap() {
    let mut proj = Project::with_default_tracks();
    let v1 = proj.track_index_by_name("V1").unwrap();
    let c1 = make_clip(5.0);
    let c2 = make_clip(3.0);
    let c1_id = c1.id;
    proj.tracks[v1].clips.push(TrackClip { clip: c1, start_us: 0 });
    proj.tracks[v1].clips.push(TrackClip { clip: c2, start_us: 5_000_000 });

    ripple_delete_mt(&mut proj, c1_id).unwrap();
    assert_eq!(proj.tracks[v1].clips.len(), 1);
    assert_eq!(proj.tracks[v1].clips[0].start_us, 0);
}

#[test]
fn move_across_tracks() {
    let (mut proj, id) = one_clip_project(5.0);
    let v2 = proj.track_index_by_name("V2").unwrap();
    move_clip(&mut proj, id, v2, 2_000_000).unwrap();
    let v1 = proj.track_index_by_name("V1").unwrap();
    assert!(proj.tracks[v1].clips.is_empty());
    assert_eq!(proj.tracks[v2].clips.len(), 1);
    assert_eq!(proj.tracks[v2].clips[0].start_us, 2_000_000);
}

#[test]
fn overlap_rejected() {
    let mut proj = Project::with_default_tracks();
    let v1 = proj.track_index_by_name("V1").unwrap();
    let c1 = make_clip(5.0);
    proj.tracks[v1].clips.push(TrackClip { clip: c1, start_us: 0 });
    let c2 = make_clip(3.0);
    let result = insert_clip(&mut proj, v1, c2, 3_000_000);
    assert!(result.is_err());
}

#[test]
fn append_places_at_end() {
    let mut proj = Project::with_default_tracks();
    let v1 = proj.track_index_by_name("V1").unwrap();
    let c1 = make_clip(5.0);
    let c2 = make_clip(3.0);
    append_clip(&mut proj, v1, c1).unwrap();
    append_clip(&mut proj, v1, c2).unwrap();
    assert_eq!(proj.tracks[v1].clips.len(), 2);
    assert_eq!(proj.tracks[v1].clips[0].start_us, 0);
    assert_eq!(proj.tracks[v1].clips[1].start_us, 5_000_000);
}

#[test]
fn refused_edits_change_nothing() {
    let (mut proj, id) = one_clip_project(5.0);
    assert!(matches!(split_at_mt(&mut proj, 5, 1), Err(CoreError::ClipNotFound(5))));
    assert!(matches!(trim_mt(&mut proj, 5, TrimSide::Left, 1), Err(CoreError::ClipNotFound(5))));
    assert!(matches!(ripple_delete_mt(&mut proj, 5), Err(CoreError::ClipNotFound(5))));
    assert!(matches!(move_clip(&mut proj, 5, 0, 0), Err(CoreError::ClipNotFound(5))));
    assert!(move_clip(&mut proj, id, 9, 0).is_err());
    assert!(insert_clip(&mut proj, 9, make_clip(1.0), 0).is_err());
    assert!(append_clip(&mut proj, 9, make_clip(1.0)).is_err());
    assert!(split_at_mt(&mut proj, id, 5_000_000).is_err());
    assert_eq!(proj.clip_count(), 1);
    assert_eq!(proj.tracks[1].clips[0].start_us, 0);
    assert_eq!(proj.tracks[1].clips[0].clip.effective_duration_us(), 5_000_000);
}

#[test]
fn moving_onto_another_clip_is_refused() {
    let (mut proj, id) = one_clip_project(5.0);
    insert_clip(&mut proj, 0, make_clip(4.0), 1_000_000).unwrap();
    assert!(move_clip(&mut proj, id, 0, 4_999_999).is_err());
    assert_eq!(proj.tracks[1].clips.len(), 1);
    move_clip(&mut proj, id, 0, 5_000_000).unwrap();
    let starts: Vec<i64> = proj.tracks[0].clips.iter().map(|c| c.start_us).collect();
    assert_eq!(starts, vec![1_000_000, 5_000_000]);
}

fn starts(proj: &Project, track: usize) -> Vec<i64> {
    proj.tracks[track].clips.iter().map(|c| c.start_us).collect()
}

#[test]
fn trimming_into_a_neighbour_is_refused() {
    let mut proj = Project::with_default_tracks();
    append_clip(&mut proj, 1, make_clip(10.0)).unwrap();
    let a = proj.tracks[1].clips[0].clip.id;
    trim_mt(&mut proj, a, TrimSide::Right, 5_000_000).unwrap();
    append_clip(&mut proj, 1, make_clip(3.0)).unwrap();
    assert_eq!(starts(&proj, 1), vec![0, 5_000_000]);
    let r = trim_mt(&mut proj, a, TrimSide::Right, 8_000_000);
    assert!(matches!(r, Err(CoreError::InvalidTrim(_))));
    assert_eq!(proj.tracks[1].clips[0].end_us(), 5_000_000);
    assert_eq!(starts(&proj, 1), vec![0, 5_000_000]);

    let b = proj.tracks[1].clips[1].clip.id;
    trim_mt(&mut proj, b, TrimSide::Left, 1_000_000).unwrap();
    assert_eq!(starts(&proj, 1), vec![0, 6_000_000]);
    trim_mt(&mut proj, a, TrimSide::Right, 6_000_000).unwrap();
    let r = trim_mt(&mut proj, b, TrimSide::Left, 0);
    assert!(matches!(r, Err(CoreError::InvalidTrim(_))));
    assert_eq!(starts(&proj, 1), vec![0, 6_000_000]);
}

#[test]
fn ripple_goes_by_the_timeline() {
    let mut proj = Project::with_default_tracks();
    let mut ids = Vec::new();
    for (secs, start_us) in [(2.0, 10_000_000), (5.0, 0), (3.0, 5_000_000)] {
        let clip = make_clip(secs);
        ids.push(clip.id);
        proj.tracks[1].clips.push(TrackClip { clip, start_us });
    }
    ripple_delete_mt(&mut proj, ids[1]).unwrap();
    assert_eq!(starts(&proj, 1), vec![5_000_000, 0]);
    let left: Vec<u128> = proj.tracks[1].clips.iter().map(|c| c.clip.id).collect();
    assert_eq!(left, vec![ids[0], ids[2]]);
}

#[test]
fn places_before_the_start_are_tested_where_the_clip_comes_to_lie() {
    let (mut proj, _) = one_clip_project(5.0);
    let r = insert_clip(&mut proj, 1, make_clip(3.0), -3_000_000);
    assert!(matches!(r, Err(CoreError::InvalidTrim(_))));
    assert_eq!(starts(&proj, 1), vec![0]);
    append_clip(&mut proj, 1, make_clip(3.0)).unwrap();
    let last = proj.tracks[1].clips[1].clip.id;
    assert!(move_clip(&mut proj, last, 1, -3_000_000).is_err());
    assert_eq!(starts(&proj, 1), vec![0, 5_000_000]);
    move_clip(&mut proj, last, 0, -3_000_000).unwrap();
    assert_eq!(starts(&proj, 0), vec![0]);
}

#[test]
fn a_clip_of_no_length_moves_with_the_gap() {
    let mut proj = Project::with_default_tracks();
    let mut mark = make_clip(4.0);
    mark.trim_out = mark.trim_in;
    let gone = make_clip(5.0);
    let id = gone.id;
    for (clip, start_us) in [(make_clip(2.0), 0), (gone, 8_000_000), (mark, 8_000_000)] {
        proj.tracks[1].clips.push(TrackClip { clip, start_us });
    }
    let last = TrackClip { clip: make_clip(1.0), start_us: 13_000_000 };
    proj.tracks[1].clips.push(last);
    ripple_delete_mt(&mut proj, id).unwrap();
    assert_eq!(starts(&proj, 1), vec![0, 3_000_000, 8_000_000]);

    let mut proj = Project::with_default_tracks();
    let mut mark = make_clip(4.0);
    mark.trim_out = mark.trim_in;
    let gone = make_clip(5.0);
    let id = gone.id;
    proj.tracks[1].clips.push(TrackClip { clip: gone, start_us: 2_000_000 });
    proj.tracks[1].clips.push(TrackClip { clip: mark, start_us: 2_000_000 });
    ripple_delete_mt(&mut proj, id).unwrap();
    assert_eq!(starts(&proj, 1), vec![0]);
}
