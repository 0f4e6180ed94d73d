use video_merger::bridge::arrange::{on_browse, on_file_dropped};
use video_merger::bridge::callbacks::{resolve_drag_track, JumpTo};
use video_merger::bridge::dispatch::{
    ClipEvent, PlayheadEvent, SelectedEvent, TrackEvent, UiEvent,
};
use video_merger::bridge::edits::Edit;
use video_merger::bridge::events::Moment;
use video_merger::bridge::state::{Action, Editor};
use video_merger::bridge::throttle::{SyncStep, SyncThrottle};
use video_merger::bridge::tracks::{
    apply_solo, paired_video_track_name, track_rows, TrackFlag, TracksState,
};
use video_merger::domain::clip::{Clip, MediaInfo};
use video_merger::domain::codec::{CodecProfile, Resolution};
use video_merger::domain::playlist::Playlist;
use video_merger::domain::project::{Project, TrackKind};
use video_merger::domain::transform::{Interp, TransformChannel};
use video_merger::engine::decoder::DecodedFrame;
use video_merger::persistence::config::AppConfig;
use video_merger::persistence::history::History;
use video_merger::scalar::Scalar;
use video_merger::services::timeline_ops::TrimSide;
use video_merger::time::Duration;
use video_merger::worker::job::{Command, Event};

fn info(secs: u64) -> MediaInfo {
    MediaInfo {
        duration: Duration::from_secs(secs),
        profile: CodecProfile {
            video_codec: "h264".into(),
            audio_codec: "aac".into(),
            resolution: Resolution { width: 1920, height: 1080 },
            frame_rate_mhz: 25_000,
            pixel_format: "yuv420p".into(),
        },
    }
}

fn at(fresh: u128, now_ns: u64) -> Moment {
    Moment {
        fresh,
        now_ns,
        since_epoch: Duration::from_secs(1_700_000_000),
        export_secs_bits: 3.0f64.to_bits(),
    }
}

fn num(x: f32) -> Scalar {
    Scalar { bits: x.to_bits() }
}

/// An editor with clips 1, 2, ... of the given lengths on the first track.
fn editor(lengths: &[u64]) -> Editor {
    let mut e = Editor::new(AppConfig::default(), History::default(), "/data".into());
    for (i, secs) in lengths.iter().enumerate() {
        let id = i as u128 + 1;
        let probed = Event::Probed { id: 100, path: format!("/v/{id}.mp4"), info: info(*secs) };
        e.apply(probed, at(id, 0));
    }
    e
}

fn ids(e: &Editor) -> Vec<u128> {
    e.playlist.clips().iter().map(|c| c.id).collect()
}

/// The actions, each by its name.
fn names(actions: &[Action]) -> Vec<String> {
    actions
        .iter()
        .map(|a| {
            let s = format!("{a:?}");
            s.split([' ', '(', '{']).next().unwrap().to_string()
        })
        .collect()
}

fn starts(p: &Project, name: &str) -> Vec<(u128, i64)> {
    let i = p.track_index_by_name(name).unwrap();
    p.tracks[i].clips.iter().map(|c| (c.clip.id, c.start_us)).collect()
}

fn text(id: u128) -> String {
    uuid::Uuid::from_u128(id).to_string()
}

fn sought(actions: &[Action]) -> Option<i64> {
    actions.iter().find_map(|a| match a {
        Action::Send(Command::SeekPreview { pts_us }) => Some(*pts_us),
        _ => None,
    })
}

#[test]
fn probed_files_become_clips() {
    let mut e = Editor::new(AppConfig::default(), History::default(), "/data".into());
    let probed = Event::Probed { id: 9, path: "/v/a.mp4".into(), info: info(4) };
    let actions = e.apply(probed, at(1, 0));
    assert_eq!(
        names(&actions),
        ["AddRow", "Status", "Ruler", "Send", "Send", "SyncTracks", "Send"]
    );
    match &actions[1] {
        Action::Status(s) => assert_eq!(s, "Added: a.mp4"),
        other => panic!("{other:?}"),
    }
    match &actions[3] {
        Action::Send(Command::GenerateThumbnails { clip_id: 1, out_dir, count: 10, .. }) => {
            assert_eq!(*out_dir, format!("/data/thumbs/{}", text(1)))
        }
        other => panic!("{other:?}"),
    }
    assert_eq!(starts(&e.project, "V1"), vec![(1, 0)]);
    assert!(e.undo.can_undo());
    e.on_undo();
    assert!(e.playlist.is_empty());
    assert!(starts(&e.project, "V1").is_empty());
    e.on_redo();
    assert_eq!(ids(&e), vec![1]);
}

#[test]
fn files_are_taken_in() {
    let actions = on_browse(&vec!["/a.mp4".to_string(), "/b.mp4".to_string()]);
    assert_eq!(names(&actions).len(), 3);
    assert!(actions.iter().any(|a| matches!(a, Action::Status(s) if s == "Probing 2 file(s)…")));
    match on_file_dropped("/x/c.MKV".into()) {
        Some(Command::Probe { path, .. }) => assert_eq!(path, "/x/c.MKV"),
        other => panic!("{other:?}"),
    }
    assert!(on_file_dropped("/x/c.txt".into()).is_none());
}

#[test]
fn clips_are_removed() {
    let mut e = editor(&[2, 3]);
    let actions = e.on_remove(1);
    assert_eq!(ids(&e), vec![2]);
    match &actions[2] {
        Action::Status(s) => assert_eq!(s, "1 clips in timeline"),
        other => panic!("{other:?}"),
    }
    assert!(e.on_remove(77).is_empty());
}

#[test]
fn dragged_clips_land() {
    let mut e = editor(&[2, 3]);
    assert_eq!(resolve_drag_track(&e.project, 0, -1), 1);
    assert_eq!(resolve_drag_track(&e.project, 0, 1), 0);
    let p = e.drag_preview(2, -1, 7_000_000, 0).unwrap();
    assert_eq!((p.start_us, p.duration_us), (2_000_000, 3_000_000));
    assert_eq!((p.dest_track, p.new_start_us), (1, 7_000_000));
    assert_eq!((p.row, p.dest_row), (Some(1), Some(0)));
    assert!(e.drag_preview(77, 0, 0, 0).is_none());
    let actions = e.on_drag_released(2, -1, 7_000_000, 0);
    assert_eq!(names(&actions), ["SyncTracks", "SyncClips", "Ruler", "SyncPreview"]);
    assert_eq!(starts(&e.project, "V2"), vec![(2, 7_000_000)]);
    assert!(e.on_drag_released(1, 0, 0, 0).is_empty());
}

#[test]
fn a_selected_clip_is_previewed() {
    let mut e = editor(&[2, 3]);
    assert!(e.on_play_toggle().is_empty());
    let actions = e.select_and_open(2, Some(500_000));
    assert_eq!(names(&actions), ["Select", "SyncTracks", "Keyframes", "SyncPreview", "Send"]);
    assert_eq!(sought(&actions), Some(2_500_000));
    match &actions[0] {
        Action::Select(d) => {
            assert_eq!(d.name, "2.mp4");
            assert_eq!(d.codec, "h264 / aac");
            assert_eq!((d.project_width, d.height), (1920, 1080));
        }
        other => panic!("{other:?}"),
    }
    assert_eq!((e.selected, e.preview.playhead_us), (Some(2), 2_500_000));
    assert_eq!(e.timeline_us(), 5_000_000);
    assert_eq!(names(&e.on_play_toggle()), ["Send", "Playing"]);
    assert!(e.preview.playing);
    assert_eq!(names(&e.on_play_toggle()), ["Send", "Playing", "Fps"]);
    assert_eq!(sought(&e.on_seek(1_000_000)), Some(1_000_000));
    assert_eq!(e.preview.playhead_us, 1_000_000);
    let opened = Event::PreviewOpened {
        clip_id: 0,
        duration_us: 5_000_000,
        width: 1,
        height: 1,
        frame_rate_num: 25,
        frame_rate_den: 1,
    };
    e.apply(opened, at(0, 0));
    assert_eq!(sought(&e.on_jump(JumpTo::End)), Some(4_900_000));
    assert_eq!(sought(&e.on_jump(JumpTo::Start)), Some(0));
    assert_eq!(sought(&e.on_step_frame(2)), Some(1_080_000));
    assert_eq!(sought(&e.on_step_frame(-1000)), Some(0));
}

#[test]
fn clips_are_trimmed_and_split() {
    let mut e = editor(&[4, 3]);
    let actions = e.on_trim_released(1, true, -1_000_000);
    assert_eq!(names(&actions)[..2], ["SyncClips", "Ruler"]);
    assert_eq!(e.playlist.clips()[0].effective_duration_us(), 3_000_000);
    assert_eq!(starts(&e.project, "V1"), vec![(1, 0), (2, 3_000_000)]);
    e.on_seek(1_000_000);
    e.on_split(50);
    assert_eq!(ids(&e), vec![1, 50, 2]);
    assert_eq!(starts(&e.project, "V1"), vec![(1, 0), (50, 1_000_000), (2, 3_000_000)]);
    e.on_undo();
    assert_eq!(ids(&e), vec![1, 2]);
    e.select_and_open(1, Some(500_000));
    e.on_set_inout(TrimSide::Left);
    assert_eq!(e.playlist.clips()[0].trim_in_us(), 500_000);
    let actions = e.on_ripple_delete();
    assert_eq!(ids(&e), vec![2]);
    assert!(names(&actions).contains(&"Deselect".to_string()));
    assert_eq!(e.selected, None);
    assert!(e.on_split(51).is_empty());
}

#[test]
fn the_selected_clip_is_edited() {
    let mut e = editor(&[4]);
    assert!(e.on_edit(Edit::Muted(true)).is_empty());
    e.select_and_open(1, None);
    let before = e.undo.undo_len();
    assert_eq!(names(&e.on_edit(Edit::Opacity(num(0.5)))), ["SyncPreview"]);
    assert_eq!(e.undo.undo_len(), before);
    e.on_edit(Edit::Volume(num(0.25)));
    assert_eq!(e.undo.undo_len(), before + 1);
    e.on_gesture_begin();
    assert_eq!(e.undo.undo_len(), before + 2);
    e.on_edit(Edit::PositionX(-7));
    e.on_edit(Edit::Grading { name: "gamma_g".into(), value: num(2.0) });
    e.on_edit(Edit::Grading { name: "sepia".into(), value: num(3.0) });
    let c = &e.playlist.clips()[0];
    assert_eq!((c.opacity, c.volume, c.position_x), (num(0.5), num(0.25), -7));
    assert_eq!(c.color_grading.gamma_g, num(2.0));
    assert_eq!(c.color_grading.gamma_r, num(1.0));
    e.on_undo();
    assert_eq!(e.playlist.clips()[0].position_x, 0);
    assert_eq!(e.playlist.clips()[0].opacity, num(0.5));
}

#[test]
fn keyframes_are_toggled() {
    let mut e = editor(&[4]);
    assert!(e.keyframe_flags().is_none());
    e.select_and_open(1, Some(1_000_000));
    assert_eq!(e.clip_rel_us(1), 1_000_000);
    e.on_keyframe_toggle(TransformChannel::PositionX, num(12.0));
    let keys = e.playlist.clips()[0].transform_keys.position_x.keys().to_vec();
    assert_eq!(keys.len(), 1);
    assert_eq!((keys[0].time_us, keys[0].value), (1_000_000, num(12.0)));
    e.on_keyframe_toggle(TransformChannel::Opacity, num(12.0));
    e.on_keyframe_interp(TransformChannel::Opacity, "hold");
    let keys = e.playlist.clips()[0].transform_keys.opacity.keys().to_vec();
    assert_eq!((keys[0].value, keys[0].interp), (num(1.0), Interp::Hold));
    let f = e.keyframe_flags().unwrap();
    assert!(f.opacity.here && f.opacity.animated && !f.scale.animated);
    assert_eq!((f.opacity_interp.as_str(), f.rotation_interp.as_str()), ("hold", "linear"));
    e.on_seek(1_015_000);
    e.on_keyframe_toggle(TransformChannel::Opacity, num(0.0));
    assert!(!e.playlist.clips()[0].transform_keys.opacity.is_animated());
}

#[test]
fn tracks_are_added_and_deleted() {
    let mut e = editor(&[2, 3, 1]);
    e.on_move_to_track(2, 1);
    assert_eq!(starts(&e.project, "V2"), vec![(2, 0)]);
    assert!(e.on_move_to_track(2, 9).is_empty());
    e.on_add_track(TrackKind::Video, 60);
    assert_eq!(e.project.tracks.last().unwrap().name, "V3");
    e.on_move_to_track(3, 2);
    assert_eq!(starts(&e.project, "V3"), vec![(3, 0)]);
    let v2 = e.project.track_index_by_name("V2").unwrap() as i32;
    e.on_delete_track(v2);
    assert_eq!(ids(&e), vec![1, 3]);
    assert_eq!(starts(&e.project, "V1"), vec![(1, 0)]);
    assert_eq!(starts(&e.project, "V2"), vec![(3, 0)]);
    assert!(e.on_delete_track(-1).is_empty());
    assert!(e.on_delete_track(40).is_empty());
}

#[test]
fn detached_sound_is_taken_over_or_not() {
    let mut e = editor(&[2, 3]);
    assert!(e.on_detach_audio(None).is_empty());
    assert_eq!(ids(&e), vec![1, 2]);
    let mut pl = Playlist::new();
    pl.push(e.playlist.clips()[1].clone());
    assert_eq!(e.on_detach_audio(Some(pl)).len(), 4);
    assert_eq!(starts(&e.project, "V1"), vec![(2, 0)]);
    e.on_undo();
    assert_eq!(ids(&e), vec![1, 2]);
}

#[test]
fn track_flags_reach_the_project() {
    let mut e = editor(&[2]);
    e.on_toggle_track_flag(1, TrackFlag::Muted);
    e.on_toggle_track_flag(0, TrackFlag::Soloed);
    assert!(e.project.tracks[1].muted && e.project.tracks[0].solo);
    assert!(e.on_toggle_track_flag(-1, TrackFlag::Muted).is_empty());
    let flags = TracksState::from_tracks(&e.project);
    assert_eq!((flags.muted[1], flags.soloed[0], flags.locked[0]), (true, true, false));
    let mut p = e.project.clone();
    apply_solo(&mut p);
    assert_eq!(
        p.tracks.iter().map(|t| t.muted).collect::<Vec<_>>(),
        vec![false, true, true, true]
    );
    e.on_toggle_track_flag(1, TrackFlag::Muted);
    assert!(!e.project.tracks[1].muted);
}

#[test]
fn rows_show_paired_sound() {
    let e = editor(&[2]);
    let rows = track_rows(&e.project, &e.tracks);
    let shown: Vec<(String, usize, bool)> =
        rows.iter().map(|r| (r.name.clone(), r.shown, r.display_only)).collect();
    assert_eq!(
        shown,
        vec![
            ("V2".to_string(), 0, false),
            ("V1".to_string(), 1, false),
            ("A1".to_string(), 1, true),
            ("A2".to_string(), 3, false),
        ]
    );
    assert_eq!(rows[0].video_track_value, Some(1));
    assert_eq!(rows[2].video_track_value, None);
    assert_eq!(paired_video_track_name("A12").as_deref(), Some("V12"));
    assert_eq!(paired_video_track_name("A"), None);
    assert_eq!(paired_video_track_name("V1"), None);
}

#[test]
fn exports_run_their_course() {
    let mut e = editor(&[]);
    assert_eq!(names(&e.on_export("/o.mp4".into(), 5)), ["Status"]);
    let mut e = editor(&[2, 3]);
    assert!(e.can_export());
    let actions = e.on_export("/out/o.mp4".into(), 5);
    assert_eq!(names(&actions), ["Exporting", "Progress", "Status", "Send"]);
    match &actions[3] {
        Action::Send(Command::Merge { id: 5, project, spec }) => {
            assert_eq!(project.clip_count(), 2);
            assert_eq!(spec.output_path, "/out/o.mp4");
        }
        other => panic!("{other:?}"),
    }
    assert_eq!(e.job_meta[&5].input_count, 2);
    assert_eq!(e.job_meta[&5].duration, Duration::from_secs(5));
    assert!(matches!(e.on_cancel()[..], [Action::Send(Command::Cancel { id: 5 })]));
    let done = Event::Finished { id: 5, output: "/out/o.mp4".into() };
    let actions = e.apply(done, at(0, 0));
    assert_eq!(names(&actions)[3..], ["SaveHistory", "SaveConfig"]);
    assert_eq!(e.history.records[0].input_count, 2);
    assert_eq!(e.history.records[0].finished_at, Duration::from_secs(1_700_000_000));
    assert_eq!(e.config.default_output_dir.as_deref(), Some("/out"));
    assert!(e.active_job.is_none() && e.job_meta.is_empty());
    assert!(e.on_cancel().is_empty());
}

#[test]
fn failed_exports_are_told() {
    let mut e = editor(&[2]);
    e.on_export("/o.mp4".into(), 5);
    let actions = e.apply(Event::Failed { id: 5, message: "no".into() }, at(0, 0));
    assert_eq!(names(&actions), ["Exporting", "Status", "Toast"]);
    assert!(e.history.records.is_empty() && e.job_meta.is_empty());
    e.on_export("/o.mp4".into(), 6);
    let actions = e.on_export_refused(6);
    assert!(matches!(&actions[1], Action::Status(s) if s == "Failed to enqueue export"));
    assert!(e.active_job.is_none());
    e.on_export("/o.mp4".into(), 7);
    let actions = e.apply(Event::Cancelled { id: 7 }, at(0, 0));
    assert!(matches!(&actions[1], Action::Status(s) if s == "Cancelled"));
}

#[test]
fn shown_pictures_are_counted_over_a_second() {
    let mut e = editor(&[2]);
    let show = |e: &mut Editor, pts_us: i64, now_ns: u64| {
        let frame = DecodedFrame { width: 1, height: 1, pts_us, rgba: vec![0; 4] };
        let actions = e.apply(Event::FrameReady { clip_id: 0, frame }, at(0, now_ns));
        match actions[0] {
            Action::Fps(n) => n,
            ref other => panic!("{other:?}"),
        }
    };
    assert_eq!(show(&mut e, 0, 0), 1);
    assert_eq!(show(&mut e, 40_000, 1_000_000_000), 2);
    assert_eq!(show(&mut e, 80_000, 1_000_000_001), 2);
    assert_eq!(e.preview.playhead_us, 80_000);
    let actions = e.apply(Event::PreviewEnded { clip_id: 0 }, at(0, 0));
    assert_eq!(names(&actions), ["Playing", "Fps"]);
    assert!(e.preview.frame_history.is_empty());
}

#[test]
fn assets_are_kept_with_their_clip() {
    let mut e = editor(&[2]);
    let ready = Event::ThumbnailsReady { clip_id: 1, paths: vec!["/t/0.jpg".into()] };
    assert!(matches!(e.apply(ready, at(0, 0))[..], [Action::RefreshRow(1)]));
    let ready = Event::WaveformReady { clip_id: 1, path: "/w.bin".into() };
    e.apply(ready, at(0, 0));
    assert_eq!(e.playlist.clips()[0].thumbnails, vec!["/t/0.jpg".to_string()]);
    assert_eq!(e.playlist.clips()[0].waveform_path.as_deref(), Some("/w.bin"));
    let late = Event::WaveformReady { clip_id: 9, path: "/w.bin".into() };
    assert!(e.apply(late, at(0, 0)).is_empty());
}

#[test]
fn projects_are_saved_and_loaded() {
    let mut e = editor(&[2, 3, 4]);
    e.on_move_to_track(3, 1);
    e.on_toggle_track_flag(2, TrackFlag::Locked);
    let file = e.project_to_save(num(6.0));
    assert!(matches!(e.on_saved("/p/x.json"), Action::Status(s) if s == "Saved: x.json"));
    let mut other = editor(&[7]);
    let actions = other.on_loaded(&file, "/p/x.json");
    assert!(matches!(actions.last(), Some(Action::Status(s)) if s == "Loaded: x.json"));
    assert_eq!(starts(&other.project, "V1"), vec![(1, 0), (2, 2_000_000)]);
    assert!(starts(&other.project, "V2").is_empty());
    assert!(other.tracks.locked[2]);
    assert!(!other.undo.can_undo());
}

#[test]
fn window_events_are_dispatched() {
    let mut e = editor(&[2, 3]);
    let select = UiEvent::Clip { id: text(1), what: ClipEvent::Select };
    assert_eq!(names(&e.dispatch(select))[0], "Select");
    let odd = UiEvent::Clip { id: "not an id".into(), what: ClipEvent::Remove };
    assert!(e.dispatch(odd).is_empty());
    let reveal = UiEvent::Clip { id: text(2), what: ClipEvent::RevealInFinder };
    assert!(matches!(&e.dispatch(reveal)[..], [Action::Reveal(p)] if p == "/v/2.mp4"));
    e.dispatch(UiEvent::Playhead(PlayheadEvent::Seek { pts_us: 1_000_000 }));
    e.dispatch(UiEvent::Playhead(PlayheadEvent::Split));
    assert_eq!(e.playlist.len(), 3);
    assert_ne!(e.playlist.clips()[1].id, 0);
    e.dispatch(UiEvent::Undo);
    assert_eq!(ids(&e), vec![1, 2]);
    e.dispatch(UiEvent::Redo);
    assert_eq!(e.playlist.len(), 3);
    e.dispatch(UiEvent::Track(TrackEvent::AddAudio));
    assert_eq!(e.project.tracks.last().unwrap().name, "A3");
    e.dispatch(UiEvent::Clip { id: text(2), what: ClipEvent::Select });
    e.dispatch(UiEvent::Selected(SelectedEvent::Change(Edit::FlipH(true))));
    assert!(e.playlist.clips()[2].flip_h);
    let odd = SelectedEvent::KeyframeToggle { channel: 99, position: num(0.0) };
    assert!(e.dispatch(UiEvent::Selected(odd)).is_empty());
    let muted = e.dispatch(UiEvent::ToggleMasterMute);
    assert!(matches!(
        muted[..],
        [Action::Send(Command::SetMasterMuted(true)), Action::MasterMuted(true)]
    ));
    assert!(e.dispatch(UiEvent::CancelClicked).is_empty());
}

#[test]
fn preview_updates_are_throttled() {
    let mut t = SyncThrottle::new();
    assert_eq!(t.request(100), SyncStep::Send);
    assert_eq!(t.request(132), SyncStep::Wait);
    assert!(t.delay_over(182));
    assert_eq!(t.request(183), SyncStep::Wait);
    assert_eq!(t.request(215), SyncStep::Send);
    assert!(!t.delay_over(233));
}

#[test]
fn projects_follow_their_playlist() {
    let mut e = editor(&[2]);
    let mut c = Clip::with_id(8, "/v/8.mp4".into(), info(1));
    c.start_us = Some(5_000_000);
    e.playlist.push(c);
    e.project.populate_from_playlist(&e.playlist);
    assert_eq!(starts(&e.project, "V1"), vec![(1, 0), (8, 5_000_000)]);
    e.playlist = Default::default();
    e.sync_playlist_from_project();
    assert_eq!(ids(&e), vec![1, 8]);
    assert_eq!(e.project.video_track_value_for_index(1), Some(0));
    assert_eq!(e.project.track_index_for_video_track_value(1), Some(0));
    assert_eq!(e.project.track_index_for_video_track_value(2), None);
    assert!(e.project.ends_in_range());
    assert_eq!(e.project.next_track_name(TrackKind::Video), "V3");
}
