use video_merger::bridge::timeline_view::{
    clip_at_us_on_track, drag_on_track, drag_to_start_us, effective_start_us,
    selected_clip_window, total_duration_us,
};
use video_merger::domain::clip::{Clip, MediaInfo};
use video_merger::domain::codec::{CodecProfile, Resolution};
use video_merger::domain::playlist::Playlist;
use video_merger::time::Duration;

fn fake_clip(secs: f32, track: u8) -> Clip {
    let mut c = Clip::new(
        format!("/tmp/{}-{}.mp4", track, secs),
        MediaInfo {
            duration: Duration::from_micros((secs * 1_000_000.0) as u64),
            profile: CodecProfile {
                video_codec: "h264".into(),
                audio_codec: "aac".into(),
                resolution: Resolution { width: 1920, height: 1080 },
                frame_rate_mhz: 30_000,
                pixel_format: "yuv420p".into(),
            },
        },
    );
    c.video_track = track;
    c
}

fn build(rows: &[(u8, f32)]) -> (Playlist, Vec<u128>) {
    let mut pl = Playlist::new();
    let mut ids = Vec::new();
    for &(t, d) in rows {
        let c = fake_clip(d, t);
        ids.push(c.id);
        pl.push(c);
    }
    (pl, ids)
}

/// A drag by `delta_px` pixels: where the clip lands, and where that is on
/// screen.
fn drag(
    pl: &Playlist,
    px_per_sec: f32,
    id: u128,
    delta_px: f32,
    playhead_us: i64,
) -> Option<(i64, f32)> {
    let cur_start = effective_start_us(pl, id)?;
    let us_per_px = 1_000_000.0 / px_per_sec;
    let raw = (((cur_start as f32) + delta_px * us_per_px).round() as i64).max(0);
    let snap_us = (8.0 * us_per_px) as i64;
    let start = drag_to_start_us(pl, id, raw, snap_us, playhead_us)?;
    Some((start, start as f32 / us_per_px))
}

#[test]
fn effective_start_packs_per_track() {
    let (pl, ids) = build(&[(0, 10.0), (1, 5.0), (0, 20.0), (1, 8.0), (0, 15.0)]);
    assert_eq!(effective_start_us(&pl, ids[0]), Some(0));
    assert_eq!(effective_start_us(&pl, ids[2]), Some(10_000_000));
    assert_eq!(effective_start_us(&pl, ids[4]), Some(30_000_000));
    assert_eq!(effective_start_us(&pl, ids[1]), Some(0));
    assert_eq!(effective_start_us(&pl, ids[3]), Some(5_000_000));
}

#[test]
fn effective_start_honors_pin_and_repacks_followers() {
    let (mut pl, ids) = build(&[(0, 10.0), (0, 20.0), (0, 15.0)]);
    pl.clips_mut()[1].start_us = Some(40_000_000);
    assert_eq!(effective_start_us(&pl, ids[0]), Some(0));
    assert_eq!(effective_start_us(&pl, ids[1]), Some(40_000_000));
    assert_eq!(effective_start_us(&pl, ids[2]), Some(60_000_000));
}

#[test]
fn total_duration_is_sum_when_packed() {
    let (pl, _) = build(&[(0, 10.0), (0, 20.0), (0, 15.0)]);
    assert_eq!(total_duration_us(&pl), 45_000_000);
}

#[test]
fn total_duration_is_max_end_with_a_gap() {
    let (mut pl, ids) = build(&[(0, 10.0), (0, 20.0)]);
    let i = pl.clips().iter().position(|c| c.id == ids[1]).unwrap();
    pl.clips_mut()[i].start_us = Some(100_000_000);
    assert_eq!(total_duration_us(&pl), 120_000_000);
}

#[test]
fn total_duration_is_max_across_tracks_not_their_sum() {
    let (pl, _) = build(&[(0, 10.0), (1, 8.0), (0, 20.0)]);
    assert_eq!(total_duration_us(&pl), 30_000_000);
}

#[test]
fn selected_window_returns_absolute_start() {
    let (pl, ids) = build(&[(0, 10.0), (0, 20.0), (0, 15.0)]);
    assert_eq!(selected_clip_window(&pl, Some(ids[1])), Some((10_000_000, 20_000_000)));
    assert_eq!(selected_clip_window(&pl, Some(0)), None);
    assert_eq!(selected_clip_window(&pl, None), None);
}

#[test]
fn drag_unknown_clip_returns_none() {
    let (pl, _) = build(&[(0, 10.0)]);
    assert!(drag(&pl, 6.0, 0, 100.0, 0).is_none());
    assert!(drag_to_start_us(&pl, 0, 100, 8, 0).is_none());
}

#[test]
fn drag_right_moves_start_by_delta_in_time() {
    let (mut pl, ids) = build(&[(0, 5.0)]);
    pl.clips_mut()[0].video_track = 0;
    let out = drag(&pl, 10.0, ids[0], 300.0, 999_000_000).unwrap();
    assert_eq!(out.0, 30_000_000);
    assert!((out.1 - 300.0).abs() < 0.5);
}

#[test]
fn drag_clamps_at_origin() {
    let (pl, ids) = build(&[(0, 5.0)]);
    let out = drag(&pl, 10.0, ids[0], -9999.0, -1).unwrap();
    assert_eq!(out.0, 0);
    assert_eq!(drag_to_start_us(&pl, ids[0], -5_000_000, 0, -1), Some(0));
}

#[test]
fn drag_snaps_trailing_edge_to_neighbour_start() {
    let (pl, ids) = build(&[(0, 10.0), (0, 10.0)]);
    let out = drag(&pl, 10.0, ids[1], -5.0, -1).unwrap();
    assert_eq!(out.0, 10_000_000, "snaps flush against A's right edge");
}

#[test]
fn clip_at_us_finds_clip_under_playhead_and_local_offset() {
    let (pl, ids) = build(&[(0, 10.0), (0, 20.0), (0, 15.0)]);
    assert_eq!(clip_at_us_on_track(&pl, 0, 15_000_000), Some((ids[1], 5_000_000)));
    assert_eq!(clip_at_us_on_track(&pl, 0, 0), Some((ids[0], 0)));
    assert_eq!(clip_at_us_on_track(&pl, 0, 30_000_000), Some((ids[2], 0)));
    assert_eq!(clip_at_us_on_track(&pl, 0, 999_000_000), None);
    assert_eq!(clip_at_us_on_track(&pl, 1, 15_000_000), None);
}

#[test]
fn clip_at_us_respects_gaps() {
    let (mut pl, ids) = build(&[(0, 10.0), (0, 10.0)]);
    pl.clips_mut()[1].start_us = Some(50_000_000);
    assert_eq!(clip_at_us_on_track(&pl, 0, 30_000_000), None, "playhead in the gap");
    assert_eq!(clip_at_us_on_track(&pl, 0, 55_000_000), Some((ids[1], 5_000_000)));
}

#[test]
fn drag_snaps_to_playhead() {
    let (pl, ids) = build(&[(0, 5.0)]);
    let out = drag(&pl, 10.0, ids[0], 498.0, 50_000_000).unwrap();
    assert_eq!(out.0, 50_000_000);
}

#[test]
fn drag_end_snaps_to_a_clip_of_the_other_track() {
    let (mut pl, ids) = build(&[(0, 5.0), (1, 10.0)]);
    pl.clips_mut()[1].start_us = Some(30_000_000);
    // The end of the dragged clip would be at 29.9 s; the other clip starts at
    // 30 s.
    assert_eq!(drag_on_track(&pl, ids[0], 1, 24_900_000, 800_000, -1), Some(25_000_000));
    // On its own track there is nothing to snap to.
    assert_eq!(drag_on_track(&pl, ids[0], 0, 24_900_000, 800_000, -1), Some(24_900_000));
}
