use video_merger::time::Duration;
use video_merger::view_model::ruler_vm::{format_label_secs, snap_step, tick_label, ticks, Tick};
use video_merger::view_model::timeline_vm::{format_duration, format_us};

/// Ticks for a zoom and a length in floating-point numbers, with their places
/// on screen.
fn ticks_px(px_per_sec: f32, total_secs: f32, target_label_px: f32) -> Vec<(f32, Tick)> {
    let px_per_sec = px_per_sec.max(0.5);
    let total_secs = total_secs.max(1.0);
    let raw_step = (target_label_px / px_per_sec).max(1.0);
    ticks(raw_step.ceil() as u32, total_secs as u32)
        .into_iter()
        .map(|t| (t.label_secs as f32 * px_per_sec, t))
        .collect()
}

#[test]
fn ticks_for_short_clip_at_default_zoom() {
    let t = ticks_px(6.0, 10.0, 80.0);
    assert!(!t.is_empty());
    assert!(t.iter().all(|x| x.0 >= 0.0));
}

#[test]
fn ticks_respect_decimation_cap() {
    let t = ticks_px(200.0, 100_000.0, 80.0);
    assert!(t.len() <= 4000);
}

#[test]
fn label_format() {
    assert_eq!(format_label_secs(0), "0:00");
    assert_eq!(format_label_secs(65), "1:05");
    assert_eq!(format_label_secs(3725), "1:02:05");
}

#[test]
fn ticks_are_evenly_spaced_and_labelled() {
    // At least 14 seconds between labels: 15, with a tick every 3.
    let t = ticks(14, 33);
    let secs: Vec<u32> = t.iter().map(|x| x.label_secs).collect();
    assert_eq!(secs, vec![0, 3, 6, 9, 12, 15, 18, 21, 24, 27, 30, 33]);
    let majors: Vec<u32> = t.iter().filter(|x| x.major).map(|x| x.label_secs).collect();
    assert_eq!(majors, vec![0, 15, 30]);
    assert_eq!(tick_label(&t[5]), "0:15");
    assert_eq!(tick_label(&t[1]), "");
}

#[test]
fn steps_come_from_the_ladder() {
    let steps: Vec<u32> =
        [0, 1, 2, 3, 11, 16, 31, 61, 121, 301, 601, 1801, 9999].iter().map(|&r| snap_step(r)).collect();
    assert_eq!(steps, vec![1, 1, 2, 5, 15, 30, 60, 120, 300, 600, 1800, 3600, 3600]);
}

#[test]
fn lengths_and_positions() {
    assert_eq!(format_duration(Duration::from_secs(59)), "00:59");
    assert_eq!(format_duration(Duration::from_secs(3599)), "59:59");
    assert_eq!(format_duration(Duration::from_secs(3_600)), "01:00:00");
    assert_eq!(format_duration(Duration::from_secs(360_061)), "100:01:01");
    assert_eq!(format_us(61_999_999), "01:01");
    assert_eq!(format_us(-5), "00:00");
}
