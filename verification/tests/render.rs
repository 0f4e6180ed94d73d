use video_merger::domain::clip::{Clip, MediaInfo};
use video_merger::domain::codec::{CodecProfile, Resolution};
use video_merger::domain::export_spec::{ContainerFormat, ExportSpec, Quality};
use video_merger::domain::playlist::Playlist;
use video_merger::domain::project::{Project, TrackClip};
use video_merger::domain::transform::{AnimatedF32, Crop, Interp, Keyframe};
use video_merger::engine::composite::{
    active_clips_at, build_render_plan, render_plan_to_merge_plan,
};
use video_merger::engine::ffmpeg::export::{export_job, ExportJob};
use video_merger::engine::ffmpeg::reencode::{
    build_args, build_filter, build_multitrack_args, build_multitrack_filter, format_us_to_ts,
    fps_text, lone_audio_start_us, quality_to_x264,
};
use video_merger::engine::ffmpeg::stream_copy::{concat_list, concat_list_name, stream_copy_args};
use video_merger::errors::CoreError;
use video_merger::scalar::Scalar;
use video_merger::services::compatibility::{CompatibilityAnalyzer, MergeStrategy};
use video_merger::services::merge_planner::{MergeInput, MergePlanner};
use video_merger::time::Duration;

fn profile() -> CodecProfile {
    CodecProfile {
        video_codec: "h264".into(),
        audio_codec: "aac".into(),
        resolution: Resolution { width: 1920, height: 1080 },
        frame_rate_mhz: 30_000,
        pixel_format: "yuv420p".into(),
    }
}

fn make_clip(secs: f32) -> Clip {
    Clip::new(
        format!("/tmp/{}.mp4", secs),
        MediaInfo {
            duration: Duration::from_micros((secs * 1_000_000.0) as u64),
            profile: profile(),
        },
    )
}

fn spec() -> ExportSpec {
    ExportSpec {
        output_path: "/out/merged.mp4".into(),
        format: ContainerFormat::Mp4,
        quality: Quality::High,
    }
}

#[test]
fn render_plan_separates_video_and_audio() {
    let mut proj = Project::with_default_tracks();
    let v1 = proj.track_index_by_name("V1").unwrap();
    proj.tracks[v1].clips.push(TrackClip { clip: make_clip(5.0), start_us: 0 });
    let v2 = proj.track_index_by_name("V2").unwrap();
    proj.tracks[v2].clips.push(TrackClip { clip: make_clip(3.0), start_us: 1_000_000 });

    let plan = build_render_plan(&proj);
    assert_eq!(plan.video_segments.len(), 2);
    assert_eq!(plan.audio_segments.len(), 0);
    assert_eq!(plan.total_duration_us, 5_000_000);
}

#[test]
fn z_order_v1_before_v2() {
    let mut proj = Project::with_default_tracks();
    let v1 = proj.track_index_by_name("V1").unwrap();
    let v2 = proj.track_index_by_name("V2").unwrap();
    proj.tracks[v1].clips.push(TrackClip { clip: make_clip(5.0), start_us: 0 });
    proj.tracks[v2].clips.push(TrackClip { clip: make_clip(5.0), start_us: 0 });

    let plan = build_render_plan(&proj);
    assert_eq!(plan.video_segments[0].z_order, 0);
    assert_eq!(plan.video_segments[1].z_order, 1);
}

#[test]
fn filter_for_two_inputs_has_both_normalize_chains_and_concat_n_2() {
    let f = build_filter(2, 3840, 2160, "29.970");
    assert!(f.contains("[0:v]scale=3840:2160"));
    assert!(f.contains("[1:v]scale=3840:2160"));
    assert!(f.contains("[0:a]aformat=sample_rates=48000:channel_layouts=stereo[a0]"));
    assert!(f.contains("[1:a]aformat=sample_rates=48000:channel_layouts=stereo[a1]"));
    assert!(f.contains("[v0][a0][v1][a1]concat=n=2:v=1:a=1[outv][outa]"));
    assert!(f.contains("fps=29.970"));
}

#[test]
fn quality_mappings() {
    assert_eq!(quality_to_x264(Quality::Lossless), (18, "slow"));
    assert_eq!(quality_to_x264(Quality::High), (20, "medium"));
    assert_eq!(quality_to_x264(Quality::Balanced), (23, "fast"));
}

#[test]
fn multitrack_filter_generates_overlay() {
    let mut proj = Project::with_default_tracks();
    let v1 = proj.track_index_by_name("V1").unwrap();
    proj.tracks[v1].clips.push(TrackClip {
        clip: Clip::new(
            "/tmp/base.mp4".to_string(),
            MediaInfo { duration: Duration::from_secs(10), profile: profile() },
        ),
        start_us: 0,
    });

    let plan = build_render_plan(&proj);
    let filter = build_multitrack_filter(&plan, 1920, 1080, "30.000", 0);
    assert!(filter.contains("color=c=black:s=1920x1080"));
    assert!(filter.contains("overlay"));
    assert!(filter.contains("[outv]"));
}

#[test]
fn every_segment_points_to_its_input() {
    let mut proj = Project::with_default_tracks();
    proj.tracks[0].clips.push(TrackClip { clip: make_clip(3.0), start_us: 0 });
    proj.tracks[1].clips.push(TrackClip { clip: make_clip(5.0), start_us: 2_000_000 });
    proj.tracks[1].clips.push(TrackClip { clip: make_clip(4.0), start_us: 0 });
    proj.tracks[2].clips.push(TrackClip { clip: make_clip(6.0), start_us: 0 });
    let plan = build_render_plan(&proj);
    let paths: Vec<String> = plan.inputs.iter().map(|i| i.path.clone()).collect();
    assert_eq!(paths, vec!["/tmp/4.mp4", "/tmp/5.mp4", "/tmp/3.mp4", "/tmp/6.mp4"]);
    let video: Vec<usize> = plan.video_segments.iter().map(|s| s.input_idx).collect();
    let audio: Vec<usize> = plan.audio_segments.iter().map(|s| s.input_idx).collect();
    assert_eq!(video, vec![0, 1, 2]);
    assert_eq!(audio, vec![3]);
    assert_eq!(plan.total_duration_us, 7_000_000);
    assert_eq!(lone_audio_start_us(&plan), Some(0));
    let merge = render_plan_to_merge_plan(&plan, spec(), profile());
    assert_eq!(merge.inputs.len(), 4);
    assert_eq!(merge.total_duration, Duration::from_secs(7));
    assert!(matches!(merge.strategy, MergeStrategy::Reencode { .. }));
}

#[test]
fn segments_of_one_source_share_an_input() {
    let mut proj = Project::with_default_tracks();
    proj.tracks[1].clips.push(TrackClip { clip: make_clip(5.0), start_us: 0 });
    proj.tracks[1].clips.push(TrackClip { clip: make_clip(5.0), start_us: 5_000_000 });
    let plan = build_render_plan(&proj);
    assert_eq!(plan.inputs.len(), 1);
    assert_eq!((plan.video_segments[0].input_idx, plan.video_segments[1].input_idx), (0, 0));

    let mut trimmed = make_clip(5.0);
    trimmed.trim_in = Duration::from_micros(1_000_000);
    proj.tracks[0].clips.push(TrackClip { clip: trimmed, start_us: 0 });
    proj.tracks[2].clips.push(TrackClip { clip: make_clip(5.0), start_us: 0 });
    proj.tracks[2].clips.push(TrackClip { clip: make_clip(3.0), start_us: 5_000_000 });
    let plan = build_render_plan(&proj);
    let video: Vec<usize> = plan.video_segments.iter().map(|s| s.input_idx).collect();
    let audio: Vec<usize> = plan.audio_segments.iter().map(|s| s.input_idx).collect();
    assert_eq!((plan.inputs.len(), video, audio), (3, vec![0, 0, 1], vec![0, 2]));
    assert_eq!(plan.inputs[1].trim_in_us, 1_000_000);
    assert_eq!(plan.inputs[2].path, "/tmp/3.mp4");
}

#[test]
fn sound_is_not_seen() {
    let mut proj = Project::with_default_tracks();
    proj.tracks[1].clips.push(TrackClip { clip: make_clip(5.0), start_us: 0 });
    proj.tracks[2].clips.push(TrackClip { clip: make_clip(5.0), start_us: 0 });
    let at: Vec<usize> = active_clips_at(&proj, 1).iter().map(|(i, _)| *i).collect();
    assert_eq!(at, vec![1]);
}

fn graph(clip: Clip, start_us: i64) -> String {
    let mut proj = Project::with_default_tracks();
    proj.tracks[1].clips.push(TrackClip { clip, start_us });
    build_multitrack_filter(&build_render_plan(&proj), 1920, 1080, "30.000", 0)
}

fn num(x: f32) -> Scalar {
    Scalar { bits: x.to_bits() }
}

#[test]
fn the_export_places_a_clip_where_it_belongs() {
    let plain = graph(make_clip(5.0), 0);
    assert_eq!(
        plain,
        "color=c=black:s=1920x1080:d=5.000000:r=30.000,format=yuv420p[base];\
         [0:v]scale=1920:1080:force_original_aspect_ratio=decrease,\
         pad=1920:1080:(ow-iw)/2:(oh-ih)/2,setsar=1,fps=30.000,format=yuva420p,\
         setpts=PTS+0/TB[ov0];[base][ov0]overlay=0:0:enable='between(t,0.000000,5.000000)'[cv0];\
         [cv0]null[outv];anullsrc=r=48000:cl=stereo:d=5.000000[outa]"
    );
    let mut clip = make_clip(5.0);
    clip.position_x = 120;
    clip.position_y = -40;
    assert_eq!(graph(clip, 0), plain.replace("overlay=0:0", "overlay=120:-40"));

    let mut clip = make_clip(5.0);
    clip.crop = Some(Crop { left: 1, top: 2, right: 3, bottom: 4 });
    clip.contrast = num(1.5);
    let g = graph(clip, 0);
    assert!(g.contains("[0:v]crop=iw-1-3:ih-2-4:1:2,eq=brightness=(0*2^(-149))"));
    assert!(g.contains(":contrast=(12582912*2^(-23)):saturation=(8388608*2^(-23)),scale=1920"));
    assert!(g.contains("overlay=0:0"));

    let mut clip = make_clip(5.0);
    clip.flip_h = true;
    clip.flip_v = true;
    clip.scale_x = num(0.5);
    clip.rotation_deg = num(-90.0);
    clip.opacity = num(0.25);
    clip.position_x = 7;
    let g = graph(clip, 0);
    assert!(g.contains("format=yuva420p,hflip,vflip,scale=w='max(2,trunc(iw*((8388608*2^(-23)))*((8388608*2^(-24)))/2)*2)':h="));
    assert!(g.contains(",rotate=a='((-11796480*2^(-17)))*PI/180':ow="));
    assert!(g.contains(":a='alpha(X,Y)*((8388608*2^(-25)))',setpts"));
    assert!(g.contains("overlay=x='(W-w)/2+7':y='(H-h)/2+0':enable"));
}

#[test]
fn animated_looks_are_exported_over_time() {
    let mut clip = make_clip(5.0);
    clip.transform_keys.position_x.upsert(0, num(0.0), 0);
    clip.transform_keys.position_x.upsert(2_000_000, num(1.0), 0);
    let g = graph(clip, 1_500_000);
    assert!(g.contains(
        "overlay=x='(W-w)/2+round(if(lt(((t-(1.500000))*1000000),(0)),(0*2^(-149)),\
         if(lt(((t-(1.500000))*1000000),(2000000)),\
         (0*2^(-149))+((8388608*2^(-23))-(0*2^(-149)))*(((t-(1.500000))*1000000)-(0))/2000000,\
         (8388608*2^(-23)))))':y='(H-h)/2+0':enable"
    ));
    let mut clip = make_clip(5.0);
    clip.transform_keys.opacity = AnimatedF32::from_keys(vec![
        Keyframe { time_us: 0, value: num(1.0), interp: Interp::Bezier, ..Default::default() },
        Keyframe { time_us: 9, value: num(2.0), interp: Interp::Hold, ..Default::default() },
        Keyframe { time_us: 12, value: num(4.0), ..Default::default() },
    ]);
    let g = graph(clip, 0);
    assert!(g.contains("a='alpha(X,Y)*(if(lt((T*1000000),(0)),(8388608*2^(-23)),"));
    assert!(g.contains("*(st(1,root(3*(1-ld(0))^2*ld(0)*(8388608*2^(-25))+3*"));
    assert!(g.contains("-(((T*1000000)-(0))/9),1));3*(1-ld(1))^2*ld(1)*(0*2^(-149))+"));
    assert!(g.contains("if(lt((T*1000000),(12)),(8388608*2^(-22)),(8388608*2^(-21)))"));
}

#[test]
fn numbers_come_apart_into_whole_ones() {
    for x in [0.0f32, -0.0, 1.0, -1.5, 0.1, 1e-40, f32::MAX, f32::MIN_POSITIVE] {
        let s = num(x);
        let (mantissa, exponent) = s.parts();
        let mut value = f64::from(mantissa) * 2f64.powi(exponent as i32);
        if s.is_negative() {
            value = -value;
        }
        assert_eq!((value as f32).to_bits(), x.to_bits());
    }
}

#[test]
fn whole_files_are_joined_without_encoding() {
    let mut proj = Project::with_default_tracks();
    assert!(matches!(export_job(&proj, &spec(), 0), ExportJob::Reencode { .. }));
    proj.tracks[1].clips.push(TrackClip { clip: make_clip(3.0), start_us: 2_000_000 });
    proj.tracks[1].clips.push(TrackClip { clip: make_clip(2.0), start_us: 0 });
    match export_job(&proj, &spec(), 0) {
        ExportJob::StreamCopy { list } => {
            assert_eq!(list, "file '/tmp/2.mp4'\nfile '/tmp/3.mp4'\n");
        }
        other => panic!("{other:?}"),
    }
    let encodes = |change: &dyn Fn(&mut Project)| -> bool {
        let mut p = proj.clone();
        change(&mut p);
        match export_job(&p, &spec(), 0) {
            ExportJob::Reencode { args } => {
                assert_eq!(args.last().unwrap(), "/out/merged.mp4");
                true
            }
            ExportJob::StreamCopy { .. } => false,
        }
    };
    assert!(!encodes(&|_| ()));
    assert!(encodes(&|p| p.tracks[1].clips[0].start_us = 2_000_001));
    assert!(encodes(&|p| p.tracks[1].clips[0].clip.trim_out = Duration::from_secs(2)));
    assert!(encodes(&|p| p.tracks[1].clips[0].clip.opacity = num(0.5)));
    assert!(encodes(&|p| p.tracks[1].clips[0].clip.color_grading.tint = num(0.5)));
    assert!(encodes(&|p| p.tracks[1].clips[0].clip.transform_keys.scale.upsert(0, num(1.0), 0)));
    assert!(encodes(&|p| p.tracks[1].clips[0].clip.info.profile.frame_rate_mhz = 25_000));
    assert!(encodes(&|p| p.tracks[1].clips[0].clip.muted = true));
    assert!(encodes(&|p| p.tracks[1].muted = true));
    assert!(encodes(&|p| {
        let clip = make_clip(1.0);
        p.tracks[2].clips.push(TrackClip { clip, start_us: 0 });
    }));
}

#[test]
fn active_clips_leave_out_muted_tracks() {
    let mut proj = Project::with_default_tracks();
    proj.tracks[0].clips.push(TrackClip { clip: make_clip(3.0), start_us: 1_000_000 });
    proj.tracks[1].clips.push(TrackClip { clip: make_clip(5.0), start_us: 0 });
    let at = |p: &Project, t: i64| -> Vec<usize> {
        active_clips_at(p, t).iter().map(|(i, _)| *i).collect()
    };
    assert_eq!(at(&proj, 0), vec![1]);
    assert_eq!(at(&proj, 1_000_000), vec![0, 1]);
    assert_eq!(at(&proj, 3_999_999), vec![0, 1]);
    assert_eq!(at(&proj, 4_000_000), vec![1]);
    assert_eq!(at(&proj, 5_000_000), Vec::<usize>::new());
    proj.tracks[1].muted = true;
    assert_eq!(at(&proj, 1_000_000), vec![0]);
}

#[test]
fn merge_plans_follow_the_profiles() {
    let mut pl = Playlist::new();
    assert!(matches!(MergePlanner::build(&pl, spec()), Err(CoreError::EmptyPlaylist)));
    pl.push(make_clip(2.0));
    pl.push(make_clip(3.0));
    let plan = MergePlanner::build(&pl, spec()).unwrap();
    assert!(matches!(plan.strategy, MergeStrategy::StreamCopy));
    assert_eq!(plan.total_duration, Duration::from_secs(5));
    assert_eq!(plan.inputs.len(), 2);
    pl.clips_mut()[1].info.profile.frame_rate_mhz = 25_000;
    let plan = MergePlanner::build(&pl, spec()).unwrap();
    match &plan.strategy {
        MergeStrategy::Reencode { target } => assert_eq!(target.frame_rate_mhz, 30_000),
        other => panic!("{other:?}"),
    }
    assert!(matches!(
        CompatibilityAnalyzer::analyze(&pl),
        Some(MergeStrategy::Reencode { .. })
    ));
    let args = build_args(&plan, &profile());
    assert_eq!(args.last().unwrap(), "/out/merged.mp4");
    assert!(args.iter().any(|a| a == "medium"));
    assert!(args.iter().any(|a| a == "/tmp/2.mp4"));
}

#[test]
fn timestamps_and_rates() {
    assert_eq!(format_us_to_ts(0), "00:00:00.000");
    assert_eq!(format_us_to_ts(3_723_456_999), "01:02:03.456");
    assert_eq!(format_us_to_ts(-4), "00:00:00.000");
    assert_eq!(fps_text(29_970), "29.970");
    assert_eq!(fps_text(30_000), "30.000");
}

#[test]
fn concat_lists_quote_paths() {
    let inputs = vec![
        MergeInput { path: "/a/plain.mp4".into(), trim_in_us: 0, trim_out_us: 1 },
        MergeInput { path: "/a/it's.mp4".into(), trim_in_us: 0, trim_out_us: 1 },
    ];
    let list = concat_list(&inputs);
    assert_eq!(list, "file '/a/plain.mp4'\nfile '/a/it'\\''s.mp4'\n");
    let a = concat_list_name();
    assert!(a.starts_with("video-merger-concat-") && a.ends_with(".txt"));
    assert_ne!(a, concat_list_name());
    let args = stream_copy_args("/tmp/l.txt", "/out/x.mp4");
    assert!(args.windows(2).any(|w| w[0] == "-i" && w[1] == "/tmp/l.txt"));
    assert!(args.windows(2).any(|w| w[0] == "-c" && w[1] == "copy"));
    assert_eq!(args.last().unwrap(), "/out/x.mp4");
}

#[test]
fn multitrack_export_names_every_input() {
    let mut proj = Project::with_default_tracks();
    proj.tracks[1].clips.push(TrackClip { clip: make_clip(5.0), start_us: 0 });
    proj.tracks[2].clips.push(TrackClip { clip: make_clip(4.0), start_us: 1_500_000 });
    let plan = build_render_plan(&proj);
    let args = build_multitrack_args(&plan, &spec(), &profile(), Quality::Balanced, 1_500);
    assert!(args.iter().any(|a| a == "/tmp/5.mp4"));
    assert!(args.iter().any(|a| a == "/tmp/4.mp4"));
    assert!(args.iter().any(|a| a == "fast"));
    let filter = build_multitrack_filter(&plan, 1920, 1080, "30.000", 1_500);
    assert!(filter.contains("1500"));
    assert_eq!(lone_audio_start_us(&plan), Some(1_500_000));
}
