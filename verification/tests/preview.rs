use video_merger::domain::clip::{Clip, MediaInfo};
use video_merger::domain::codec::{CodecProfile, Resolution};
use video_merger::domain::project::{Project, TrackClip};
use video_merger::engine::decoder::DecodedFrame;
use video_merger::engine::errors::EngineError;
use video_merger::scalar::Scalar;
use video_merger::time::Duration;
use video_merger::worker::dispatcher::{Action, DispatcherState};
use video_merger::worker::job::{merge_event, probe_event, progress_event, Command, Event};
use video_merger::worker::preview::frame::{frame_layers, shows_as_decoded};
use video_merger::worker::preview::present::PresentState;
use video_merger::worker::preview::queue::{PictureItem, PictureQueue};
use video_merger::worker::preview::render::{RenderAction, RenderState, Sent};
use video_merger::worker::preview::sound::{
    active_audio_clips_in_range, audio_pause_ms, BatchStep, SampleBuffer, SoundAction, SoundState,
};
use video_merger::worker::preview::{
    begins_generation, clamp_position, live_clips, oversize, preview_meta, route, source_us,
    AudioCtrl, Flow, PictureCtrl, PreviewCtrl,
};

const FRAME_NS: u64 = 40_000_000;

fn clip(id: u128, secs: u64) -> Clip {
    Clip::with_id(
        id,
        format!("/v/{id}.mp4"),
        MediaInfo {
            duration: Duration::from_secs(secs),
            profile: CodecProfile {
                video_codec: "h264".into(),
                audio_codec: "aac".into(),
                resolution: Resolution { width: 1920, height: 1080 },
                frame_rate_mhz: 25_000,
                pixel_format: "yuv420p".into(),
            },
        },
    )
}

fn track(p: &Project, name: &str) -> usize {
    p.track_index_by_name(name).unwrap()
}

fn put(p: &mut Project, name: &str, id: u128, start_us: i64, secs: u64) {
    let i = track(p, name);
    p.tracks[i].clips.push(TrackClip { clip: clip(id, secs), start_us });
}

fn project() -> Project {
    let mut p = Project::with_default_tracks();
    put(&mut p, "V1", 1, 0, 2);
    put(&mut p, "V1", 2, 2_000_000, 2);
    p
}

fn picture(gen: u64, pts_us: i64) -> PictureItem {
    PictureItem { gen, frame: DecodedFrame { width: 1, height: 1, pts_us, rgba: vec![0; 4] } }
}

#[test]
fn a_job_is_answered_by_its_outcome() {
    match merge_event(7, "/o.mp4".into(), Ok(())) {
        Event::Finished { id: 7, output } => assert_eq!(output, "/o.mp4"),
        other => panic!("{other:?}"),
    }
    match merge_event(7, "/o.mp4".into(), Err(EngineError::Cancelled)) {
        Event::Cancelled { id: 7 } => {}
        other => panic!("{other:?}"),
    }
    match merge_event(7, "/o.mp4".into(), Err(EngineError::NonZeroExit(2))) {
        Event::Failed { id: 7, message } => assert_eq!(message, "media engine exited with status 2"),
        other => panic!("{other:?}"),
    }
    match probe_event(8, "/a".into(), Err(EngineError::BinaryMissing("ffprobe".into()))) {
        Event::Failed { id: 8, message } => {
            assert_eq!(message, "media engine binary not found on PATH: ffprobe")
        }
        other => panic!("{other:?}"),
    }
    match probe_event(8, "/a".into(), Ok(clip(1, 3).info)) {
        Event::Probed { id: 8, path, info } => {
            assert_eq!((path.as_str(), info.duration), ("/a", Duration::from_secs(3)))
        }
        other => panic!("{other:?}"),
    }
    match progress_event(9, Scalar { bits: 0.5f32.to_bits() }, 2.0f64.to_bits()) {
        Event::Progress { id: 9, fraction, processed_secs_bits } => {
            assert_eq!(f32::from_bits(fraction.bits), 0.5);
            assert_eq!(f64::from_bits(processed_secs_bits), 2.0);
        }
        other => panic!("{other:?}"),
    }
}

#[test]
fn commands_start_work() {
    let mut d = DispatcherState::new();
    assert!(matches!(d.handle(Command::PlayPreview), Action::Ignore));
    assert!(matches!(d.handle(Command::Cancel { id: 5 }), Action::Ignore));
    assert!(matches!(
        d.handle(Command::OpenPreview { project: project() }),
        Action::StartPreview { .. }
    ));
    assert!(matches!(
        d.handle(Command::OpenPreview { project: project() }),
        Action::Control(PreviewCtrl::UpdateProject(_))
    ));
    assert!(matches!(
        d.handle(Command::SeekPreview { pts_us: 4 }),
        Action::Control(PreviewCtrl::Seek { pts_us: 4 })
    ));
    assert!(matches!(
        d.handle(Command::SetMasterMuted(true)),
        Action::Control(PreviewCtrl::SetMuted(true))
    ));
    assert!(matches!(d.handle(Command::Shutdown), Action::Stop));
}

#[test]
fn only_running_exports_can_be_cancelled() {
    let mut d = DispatcherState::new();
    let spec = video_merger::domain::export_spec::ExportSpec {
        output_path: "/o.mp4".into(),
        format: video_merger::domain::export_spec::ContainerFormat::Mp4,
        quality: video_merger::domain::export_spec::Quality::High,
    };
    let a = d.handle(Command::Merge { id: 5, project: project(), spec });
    assert!(matches!(a, Action::Merge { id: 5, .. }));
    assert!(matches!(d.handle(Command::Cancel { id: 5 }), Action::Cancel { id: 5 }));
    d.job_done(5);
    assert!(matches!(d.handle(Command::Cancel { id: 5 }), Action::Ignore));
}

#[test]
fn messages_go_to_the_threads_they_concern() {
    assert!(begins_generation(&PreviewCtrl::Seek { pts_us: 1 }));
    assert!(begins_generation(&PreviewCtrl::UpdateProject(project())));
    assert!(!begins_generation(&PreviewCtrl::Play));
    let r = route(PreviewCtrl::Seek { pts_us: 9 }, 3, true);
    assert!(matches!(r.render, Some(PictureCtrl::Seek { pts_us: 9, gen: 3 })));
    assert!(matches!(r.present, Some(PictureCtrl::Seek { pts_us: 9, gen: 3 })));
    assert!(matches!(r.audio, Some(AudioCtrl::Seek(9))));
    let r = route(PreviewCtrl::SetMuted(true), 3, true);
    assert!(r.render.is_none() && r.present.is_none());
    assert!(matches!(r.audio, Some(AudioCtrl::SetMuted(true))));
    assert!(route(PreviewCtrl::Play, 3, false).audio.is_none());
}

#[test]
fn preview_size_and_rate() {
    let m = preview_meta(&project());
    assert_eq!((m.width, m.height, m.fps_num, m.fps_den), (1920, 1080, 25_000, 1000));
    let m = preview_meta(&Project::with_default_tracks());
    assert_eq!((m.width, m.height, m.fps_num, m.fps_den), (1280, 720, 30, 1));
    let mut p = project();
    let v1 = track(&p, "V1");
    p.tracks[v1].clips[0].clip.info.profile.frame_rate_mhz = 120_000;
    assert_eq!(preview_meta(&p).fps_num, 60_000);
    assert_eq!(oversize(1920, 1080), Some(1920));
    assert_eq!(oversize(720, 1281), Some(1281));
    assert_eq!(oversize(1280, 720), None);
    assert_eq!(clamp_position(-4, 10), 0);
    assert_eq!(clamp_position(14, 10), 10);
    assert_eq!(clamp_position(4, 10), 4);
    assert_eq!(source_us(5, 3, 100), 102);
    assert_eq!(live_clips(&project()), vec![1, 2]);
}

#[test]
fn pictures_are_shown_when_due() {
    let mut q = PictureQueue::new();
    let mut pending = None;
    for (gen, at) in [(1, 5), (2, 10), (2, 20), (2, 30)] {
        assert!(q.push(picture(gen, at)).is_ok());
    }
    let f = q.take_frame(2, &mut pending, Some(25)).unwrap();
    assert_eq!(f.pts_us, 20);
    assert_eq!(pending.as_ref().unwrap().frame.pts_us, 30);
    assert!(q.take_frame(2, &mut pending, Some(29)).is_none());
    assert_eq!(q.take_frame(2, &mut pending, None).unwrap().pts_us, 30);
    assert!(pending.is_none());
    for i in 0..6 {
        assert!(q.push(picture(1, i)).is_ok());
    }
    assert_eq!(q.push(picture(1, 9)).unwrap_err().frame.pts_us, 9);
    assert_eq!(q.len(), 6);
}

#[test]
fn a_seek_renders_one_picture() {
    let mut r = RenderState::new(project(), 0, FRAME_NS);
    assert_eq!(r.next(), RenderAction::Idle);
    assert!(!r.is_busy());
    r.control(PictureCtrl::Seek { pts_us: 1_000_000, gen: 1 }, FRAME_NS);
    assert!(r.is_busy());
    assert_eq!(r.next(), RenderAction::Render { pts_us: 1_000_000, gen: 1 });
    assert_eq!(r.sent(Sent::Taken), Flow::Continue);
    assert_eq!(r.next(), RenderAction::Idle);
    assert_eq!(r.project().clip_count(), 2);
}

#[test]
fn playing_moves_on_by_a_frame() {
    let mut r = RenderState::new(project(), 0, FRAME_NS);
    r.control(PictureCtrl::Play, FRAME_NS);
    r.next();
    r.sent(Sent::Taken);
    assert_eq!(r.next(), RenderAction::Render { pts_us: 40_000, gen: 0 });
    assert_eq!(r.sent(Sent::Full), Flow::Continue);
    assert_eq!(r.next(), RenderAction::Retry);
    r.sent(Sent::Taken);
    assert_eq!(r.next(), RenderAction::Render { pts_us: 80_000, gen: 0 });
    assert_eq!(r.sent(Sent::Closed), Flow::Stop);
    r.control(PictureCtrl::Seek { pts_us: 99_000_000, gen: 1 }, FRAME_NS);
    assert_eq!(r.next(), RenderAction::Idle);
    assert!(!r.is_busy());
    assert_eq!(r.control(PictureCtrl::Stop, FRAME_NS), Flow::Stop);
}

#[test]
fn the_preview_opens_on_black() {
    let s = PresentState::new(project(), 0, FRAME_NS, 0);
    let (opened, frame) = s.opening(4, 2);
    match opened {
        Event::PreviewOpened { duration_us, width, height, frame_rate_num, .. } => {
            assert_eq!((duration_us, width, height), (4_000_000, 4, 2));
            assert_eq!(frame_rate_num, 25_000);
        }
        other => panic!("{other:?}"),
    }
    match frame {
        Event::FrameReady { frame, .. } => {
            assert_eq!(frame.rgba.len(), 32);
            assert_eq!(&frame.rgba[..4], &[0, 0, 0, 255]);
        }
        other => panic!("{other:?}"),
    }
}

fn shown_at(event: Option<Event>) -> i64 {
    match event {
        Some(Event::FrameReady { clip_id: 0, frame }) => frame.pts_us,
        other => panic!("{other:?}"),
    }
}

fn is_end(event: Option<Event>) -> bool {
    matches!(event, Some(Event::PreviewEnded { clip_id: 0 }))
}

#[test]
fn a_stopped_preview_tells_that_it_ended() {
    let mut s = PresentState::new(Project::with_default_tracks(), 0, FRAME_NS, 0);
    let (opened, black) = s.opening(1280, 720);
    assert!(matches!(
        opened,
        Event::PreviewOpened {
            clip_id: 0,
            duration_us: 0,
            width: 1280,
            height: 720,
            frame_rate_num: 30,
            frame_rate_den: 1,
        }
    ));
    assert_eq!(shown_at(Some(black)), 0);
    let (flow, event) = s.control(PictureCtrl::Pause, 0, FRAME_NS);
    assert!(flow == Flow::Continue && event.is_none());
    let (flow, event) = s.control(PictureCtrl::Stop, 0, FRAME_NS);
    assert_eq!(flow, Flow::Stop);
    assert!(is_end(event));
    assert!(is_end(Some(s.closing())));
}

#[test]
fn pictures_follow_the_sound_clock() {
    let mut s = PresentState::new(project(), 0, FRAME_NS, 0);
    let mut q = PictureQueue::new();
    s.control(PictureCtrl::Play, 0, FRAME_NS);
    assert!(s.is_playing());
    for at in [0, 40_000, 80_000] {
        q.push(picture(0, at)).unwrap();
    }
    let near_wrap = u32::MAX - 479;
    let t = s.tick_sound(&mut q, near_wrap, near_wrap);
    assert_eq!(shown_at(t.event), 0);
    let t = s.tick_sound(&mut q, 0, 480 * 3);
    assert_eq!(shown_at(t.event), 40_000);
    assert_eq!(t.resync_to_us, None);
    let t = s.tick_sound(&mut q, 0, 48_000);
    assert_eq!(shown_at(t.event), 80_000);
    assert_eq!(t.resync_to_us, Some(1_010_000));
    assert!(matches!(
        s.resync(1_010_000, 4),
        PictureCtrl::Seek { pts_us: 1_010_000, gen: 4 }
    ));
    assert_eq!(s.tick_sound(&mut q, 0, 49_000).resync_to_us, None);
    assert!(is_end(s.tick_sound(&mut q, 0, 48_000 * 5).event));
    assert!(!s.is_playing());
}

#[test]
fn without_sound_the_wall_clock_counts() {
    let mut s = PresentState::new(project(), 0, FRAME_NS, 1_000);
    let mut q = PictureQueue::new();
    q.push(picture(0, 0)).unwrap();
    assert_eq!(shown_at(s.tick_paused(&mut q).event), 0);
    s.control(PictureCtrl::Play, 1_000, FRAME_NS);
    assert_eq!(s.wait_ns(1_000), 0);
    q.push(picture(0, 40_000)).unwrap();
    assert_eq!(shown_at(s.tick_wall(&mut q).event), 40_000);
    assert_eq!(s.wait_ns(1_500), FRAME_NS - 500);
    s.control(PictureCtrl::Seek { pts_us: 3_990_000, gen: 0 }, 0, FRAME_NS);
    assert!(is_end(s.tick_wall(&mut q).event));
    assert!(!s.is_playing());
}

#[test]
fn sound_is_mixed_of_what_is_heard() {
    let mut p = project();
    put(&mut p, "A1", 3, 0, 1);
    let v1 = track(&p, "V1");
    p.tracks[v1].clips[1].clip.muted = true;
    p.tracks[v1].clips[1].clip.trim_in = Duration::from_micros(500_000);
    let ids = |r: Vec<(usize, &TrackClip)>| r.iter().map(|x| x.1.clip.id).collect::<Vec<_>>();
    assert_eq!(ids(active_audio_clips_in_range(&p, 0, 10)).len(), 2);
    assert!(ids(active_audio_clips_in_range(&p, 4_000_000, 5_000_000)).is_empty());
    let mut s = SoundState::new(p);
    assert!(!s.is_playing());
    assert_eq!(s.control(AudioCtrl::Play), SoundAction::Nothing);
    assert!(s.is_playing());
    assert_eq!(s.parts().len(), 2);
    assert_eq!(s.control(AudioCtrl::Seek(2_500_000)), SoundAction::MoveDecoders);
    let parts = s.parts();
    assert_eq!(parts.len(), 1);
    assert_eq!((parts[0].clip_id, parts[0].volume.bits), (2, 0));
    assert_eq!(parts[0].trim_in_us, 500_000);
    assert_eq!(s.decoder_target(2), Some(1_000_000));
    assert_eq!(s.decoder_target(99), None);
    assert!(s.wants_batch(19_201) && !s.wants_batch(19_200));
    assert_eq!(s.batch_sent(3_839), BatchStep::KeepRest);
    assert_eq!(s.playhead_us(), 2_500_000);
    assert_eq!(s.batch_sent(3_840), BatchStep::More);
    assert_eq!(s.playhead_us(), 2_540_000);
    assert_eq!(s.control(AudioCtrl::UpdateProject(project())), SoundAction::DropDecoders);
    s.control(AudioCtrl::Seek(3_980_000));
    assert_eq!(s.batch_sent(3_840), BatchStep::AtEnd);
    assert_eq!((audio_pause_ms(true), audio_pause_ms(false)), (50, 10));
    assert_eq!(s.kept_clips(), vec![1, 2]);
    assert_eq!(s.control(AudioCtrl::Stop), SoundAction::Stop);
}

#[test]
fn batches_are_filled_with_silence() {
    let one = Scalar { bits: 1.0f32.to_bits() };
    let mut b = SampleBuffer::new(0);
    assert!(b.is_off(10_001) && !b.is_off(10_000));
    assert_eq!(b.seek(1_000_000, 0, 500_000), 1_500_000);
    assert!(b.wants_more(0, 500_000, 1_500_001));
    assert!(!b.wants_more(0, 500_000, 1_500_000));
    b.extend(&vec![one; 3_841]);
    assert!(!b.wants_more(0, 500_000, 9_000_000));
    let first = b.take_batch();
    assert_eq!(first.len(), 3_840);
    assert!(first.iter().all(|s| *s == one));
    assert!(!b.is_off(1_040_000));
    let second = b.take_batch();
    assert_eq!(second[0], one);
    assert!(second[1..].iter().all(|s| s.bits == 0));
}

#[test]
fn layers_lie_over_each_other() {
    let mut p = project();
    put(&mut p, "V2", 5, 1_000_000, 1);
    let layers = frame_layers(&p, 1_500_000);
    let ids: Vec<u128> = layers.iter().map(|l| l.clip_id).collect();
    assert_eq!(ids, vec![1, 5]);
    assert_eq!((layers[0].level, layers[1].level), (0, 1));
    assert_eq!((layers[0].src_us, layers[1].src_us), (1_500_000, 500_000));
    assert_eq!(frame_layers(&p, 2_500_000).len(), 1);
    assert!(frame_layers(&p, 4_000_000).is_empty());
    assert!(shows_as_decoded(1, true, 4, 2, 4, 2));
    assert!(!shows_as_decoded(2, true, 4, 2, 4, 2));
    assert!(!shows_as_decoded(1, false, 4, 2, 4, 2));
    assert!(!shows_as_decoded(1, true, 4, 2, 8, 4));
}
