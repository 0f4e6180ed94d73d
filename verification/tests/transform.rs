use video_merger::domain::clip::{Clip, MediaInfo};
use video_merger::domain::codec::{CodecProfile, Resolution};
use video_merger::domain::transform::{
    AnimatedF32, Crop, Interp, Keyframe, PositionSample, ResolvedTransform, Sample,
    TransformChannel, TransformSamples,
};
use video_merger::scalar::Scalar;
use video_merger::time::Duration;

fn num(x: f32) -> Scalar {
    Scalar { bits: x.to_bits() }
}

fn val(s: Scalar) -> f32 {
    f32::from_bits(s.bits)
}

fn bezier(u: f32, p1: f32, p2: f32) -> f32 {
    let v = 1.0 - u;
    3.0 * v * v * u * p1 + 3.0 * v * u * u * p2 + u * u * u
}

fn slope(u: f32, p1: f32, p2: f32) -> f32 {
    (3.0 - 12.0 * u + 9.0 * u * u) * p1 + (6.0 * u - 9.0 * u * u) * p2 + 3.0 * u * u
}

/// The number that a sample stands for.
fn at(s: Sample) -> f32 {
    match s {
        Sample::Held(x) => val(x),
        Sample::Linear { from, to, elapsed_us, span_us } => {
            let f = elapsed_us as f32 / span_us as f32;
            val(from) + (val(to) - val(from)) * f
        }
        Sample::Bezier { from, to, elapsed_us, span_us, cp_x1, cp_y1, cp_x2, cp_y2 } => {
            let t = elapsed_us as f32 / span_us as f32;
            let mut u = t;
            for _ in 0..8 {
                let d = slope(u, val(cp_x1), val(cp_x2));
                if d.abs() < 1e-6 {
                    break;
                }
                u -= (bezier(u, val(cp_x1), val(cp_x2)) - t) / d;
            }
            let ratio = bezier(u.clamp(0.0, 1.0), val(cp_y1), val(cp_y2));
            val(from) + (val(to) - val(from)) * ratio
        }
    }
}

fn whole(p: PositionSample) -> i32 {
    match p {
        PositionSample::Static(x) => x,
        PositionSample::Animated(s) => at(s).round() as i32,
    }
}

fn resolved(s: TransformSamples) -> ResolvedTransform {
    ResolvedTransform {
        opacity: num(at(s.opacity)),
        scale_x: num(at(s.scale) * at(s.scale_x)),
        scale_y: num(at(s.scale) * at(s.scale_y)),
        position_x: whole(s.position_x),
        position_y: whole(s.position_y),
        rotation_deg: num(at(s.rotation_deg)),
        flip_h: s.flip_h,
        flip_v: s.flip_v,
        crop: s.crop,
        brightness: s.brightness,
        contrast: s.contrast,
        saturation: s.saturation,
        color_grading: s.color_grading,
    }
}

fn clip() -> Clip {
    Clip::new(
        "/tmp/a.mp4".to_string(),
        MediaInfo {
            duration: Duration::from_secs(5),
            profile: CodecProfile {
                video_codec: "h264".into(),
                audio_codec: "aac".into(),
                resolution: Resolution { width: 1920, height: 1080 },
                frame_rate_mhz: 30_000,
                pixel_format: "yuv420p".into(),
            },
        },
    )
}

#[test]
fn fresh_clip_resolves_to_identity() {
    assert!(resolved(clip().resolved_transform(0)).is_identity());
}

#[test]
fn uniform_scale_multiplies_per_axis() {
    let mut c = clip();
    c.scale = num(2.0);
    c.scale_x = num(1.5);
    let r = resolved(c.resolved_transform(0));
    assert!((val(r.scale_x) - 3.0).abs() < 1e-6, "uniform × per-axis");
    assert!((val(r.scale_y) - 2.0).abs() < 1e-6);
    assert!(!r.is_identity());
}

#[test]
fn noop_crop_is_dropped() {
    let mut c = clip();
    c.crop = Some(Crop { left: 0, top: 0, right: 0, bottom: 0 });
    assert_eq!(c.resolved_transform(0).crop, None);
}

#[test]
fn empty_track_uses_fallback() {
    let a = AnimatedF32::default();
    assert_eq!(at(a.eval(1000, num(0.7))), 0.7);
    assert!(!a.is_animated());
}

#[test]
fn linear_interpolation_and_clamping() {
    let mut a = AnimatedF32::default();
    a.upsert(0, num(0.0), 0);
    a.upsert(1_000_000, num(1.0), 0);
    assert_eq!(at(a.eval(-500, num(9.9))), 0.0, "held before first key");
    assert!((at(a.eval(500_000, num(9.9))) - 0.5).abs() < 1e-6, "midpoint");
    assert_eq!(at(a.eval(2_000_000, num(9.9))), 1.0, "held after last key");
}

#[test]
fn hold_interp_does_not_interpolate() {
    let mut a = AnimatedF32::default();
    a.upsert(0, num(0.0), 0);
    a.upsert(1_000_000, num(1.0), 0);
    assert_eq!(a.keys().len(), 2);
    let a = AnimatedF32::from_keys(vec![
        Keyframe { time_us: 0, value: num(0.0), interp: Interp::Hold, ..Default::default() },
        Keyframe {
            time_us: 1_000_000,
            value: num(1.0),
            interp: Interp::Linear,
            ..Default::default()
        },
    ]);
    assert_eq!(at(a.eval(500_000, num(9.9))), 0.0, "hold keeps the earlier value");
}

#[test]
fn bezier_interpolation_evaluates_smoothly() {
    let mut a = AnimatedF32::default();
    a.upsert(0, num(0.0), 0);
    a.upsert(1_000_000, num(100.0), 0);
    a.set_interp_near(0, Interp::Bezier, 0);
    let mid = at(a.eval(500_000, num(0.0)));
    assert!((mid - 50.0).abs() < 1e-5, "midpoint should be 50.0, got {}", mid);
    let early = at(a.eval(250_000, num(0.0)));
    assert!(early < 25.0, "ease-in should be slower than linear 25.0, got {}", early);
    let late = at(a.eval(750_000, num(0.0)));
    assert!(late > 75.0, "ease-out should be faster than linear 75.0, got {}", late);
}

#[test]
fn upsert_replaces_within_tolerance_and_remove_works() {
    let mut a = AnimatedF32::default();
    a.upsert(1_000_000, num(0.2), 1000);
    a.upsert(1_000_500, num(0.9), 1000);
    assert_eq!(a.keys().len(), 1);
    assert!((at(a.eval(1_000_000, num(0.0))) - 0.9).abs() < 1e-6);
    assert!(a.has_key_near(1_000_200, 1000));
    assert!(a.remove_near(1_000_000, 1000));
    assert!(!a.is_animated());
}

#[test]
fn keyframes_drive_resolved_transform() {
    let mut c = clip();
    c.transform_keys.opacity.upsert(0, num(0.0), 0);
    c.transform_keys.opacity.upsert(1_000_000, num(1.0), 0);
    assert!((val(resolved(c.resolved_transform(500_000)).opacity) - 0.5).abs() < 1e-6);
    c.scale = num(2.0);
    assert!((val(resolved(c.resolved_transform(500_000)).scale_x) - 2.0).abs() < 1e-6);
}

#[test]
fn keyframes_are_kept_in_order() {
    let mut a = AnimatedF32::default();
    for t in [3_000_000i64, 1_000_000, 2_000_000] {
        a.upsert(t, num(t as f32), 0);
    }
    let times: Vec<i64> = a.keys().iter().map(|k| k.time_us).collect();
    assert_eq!(times, vec![1_000_000, 2_000_000, 3_000_000]);
    assert_eq!(a.keyframe_interp_near(2_000_000, 0), Some(Interp::Linear));
    assert_eq!(a.keyframe_interp_near(2_500_000, 0), None);
    assert_eq!(
        a.eval(1_500_000, num(0.0)),
        Sample::Linear {
            from: num(1_000_000.0),
            to: num(2_000_000.0),
            elapsed_us: 500_000,
            span_us: 1_000_000,
        }
    );
}

#[test]
fn channels_have_numbers() {
    assert_eq!(TransformChannel::from_id(0), Some(TransformChannel::Opacity));
    assert_eq!(TransformChannel::from_id(6), Some(TransformChannel::Rotation));
    assert_eq!(TransformChannel::from_id(7), None);
    assert_eq!(TransformChannel::from_id(-1), None);
    let mut c = clip();
    c.transform_keys.channel_mut(TransformChannel::PositionY).upsert(5, num(1.0), 0);
    assert!(c.transform_keys.is_animated());
    assert!(c.transform_keys.channel(TransformChannel::PositionY).is_animated());
    assert!(!c.transform_keys.channel(TransformChannel::PositionX).is_animated());
}

#[test]
fn identity_bounds_are_those_of_the_numbers() {
    // Every single-precision number around the bounds of "within a thousandth".
    for centre in [1.0f32, 0.999, 1.001] {
        let mid = centre.to_bits();
        for bits in mid - 40..=mid + 40 {
            let x = f32::from_bits(bits);
            assert_eq!(num(x).is_near_one(), (x - 1.0).abs() < 1e-3, "{x:?}");
        }
    }
    for centre in [0.001f32, -0.001, 0.0005] {
        let mid = centre.to_bits();
        for bits in mid - 40..=mid + 40 {
            let x = f32::from_bits(bits);
            assert_eq!(num(x).is_near_zero(), x.abs() < 1e-3, "{x:?}");
        }
    }
    for x in [0.0f32, -0.0, 1.0, 0.99999994, -1.0, 2.0, f32::NAN, f32::INFINITY, f32::NEG_INFINITY] {
        assert_eq!(num(x).is_at_least_one(), x >= 1.0);
        assert_eq!(num(x).is_near_zero(), x.abs() < 1e-3);
        assert_eq!(num(x).is_near_one(), (x - 1.0).abs() < 1e-3);
        assert_eq!(num(x).is_not_a_number(), x.is_nan());
        for y in [0.0f32, -0.0, 1.0, -2.5, f32::NAN, f32::INFINITY, 1e-40, -1e-40] {
            assert_eq!(num(x).less_than(&num(y)), x < y, "{x:?} {y:?}");
        }
    }
}

#[test]
fn a_keyframe_holds_from_its_own_time_on() {
    let mut keys = Vec::new();
    for (time_us, value) in [(0, 0.0), (1_000_000, 1.0), (2_000_000, 2.0)] {
        keys.push(Keyframe {
            time_us,
            value: num(value),
            interp: Interp::Linear,
            cp_x1: num(0.25),
            cp_y1: num(0.0),
            cp_x2: num(0.75),
            cp_y2: num(1.0),
        });
    }
    keys[0].interp = Interp::Hold;
    let channel = AnimatedF32::from_keys(keys);
    assert_eq!(at(channel.eval(500_000, num(9.0))), 0.0);
    assert_eq!(at(channel.eval(999_999, num(9.0))), 0.0);
    assert_eq!(at(channel.eval(1_000_000, num(9.0))), 1.0);
    assert_eq!(at(channel.eval(1_500_000, num(9.0))), 1.5);
}

#[test]
fn graded_colours_are_no_identity() {
    assert!(ResolvedTransform::default().is_identity());
    let mut r = ResolvedTransform::default();
    r.color_grading.gain_r = num(0.0);
    assert!(!r.is_identity());
    let mut r = ResolvedTransform::default();
    r.color_grading.vignette = num(0.5);
    assert!(!r.is_identity());
    let mut r = ResolvedTransform::default();
    r.color_grading.temperature = num(0.0005);
    r.color_grading.gamma_g = num(1.0005);
    assert!(r.is_identity());
    assert!(r.color_grading.is_neutral());
}
