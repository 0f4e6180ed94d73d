use video_merger::bridge::models::{thumbs_dir, waveform_path};
use video_merger::domain::playlist::Playlist;
use video_merger::engine::audio::waveform_cache_path;
use video_merger::engine::ffmpeg::command::{derive_ffprobe, FfmpegEngine};
use video_merger::persistence::config::{AppConfig, Theme};
use video_merger::persistence::history::{ExportRecord, History};
use video_merger::persistence::project::{migrate_to_v3, Project, DEFAULT_ZOOM_BITS};
use video_merger::persistence::storage::Storage;
use video_merger::scalar::Scalar;
use video_merger::time::Duration;

fn zoom() -> Scalar {
    Scalar { bits: 6.0f32.to_bits() }
}

#[test]
fn migration_v2_to_v3() {
    let old = Project {
        version: 2,
        project: None,
        playlist: Some(Playlist::new()),
        zoom_px_per_sec: zoom(),
    };
    let migrated = migrate_to_v3(old);
    assert_eq!(migrated.version, 3);
    assert!(migrated.project.is_some());
    assert!(migrated.playlist.is_none());
}

#[test]
fn core_project_from_empty() {
    let proj = Project { version: 3, project: None, playlist: None, zoom_px_per_sec: zoom() };
    let core = proj.core_project();
    assert_eq!(core.tracks.len(), 4);
}

#[test]
fn current_files_are_taken_as_they_are() {
    assert_eq!(zoom().bits, DEFAULT_ZOOM_BITS);
    let core = video_merger::domain::project::Project::with_default_tracks();
    let id = core.tracks[0].id;
    let file = Project::new(core, zoom()).upgraded();
    assert_eq!(file.version, 3);
    assert_eq!(file.core_project().tracks[0].id, id);
    assert!(file.playlist_compat().is_empty());
    let old = Project { version: 1, project: None, playlist: None, zoom_px_per_sec: zoom() };
    assert!(old.can_be_opened());
    assert_eq!(old.upgraded().version, 3);
}

#[test]
fn history_is_newest_first_and_bounded() {
    let mut h = History::default();
    for i in 0..60 {
        h.push(ExportRecord {
            output_path: format!("/out/{i}.mp4"),
            input_count: i,
            finished_at: Duration::from_secs(i as u64),
            duration_secs_bits: (i as f64).to_bits(),
        });
    }
    assert_eq!(h.records.len(), 50);
    assert_eq!(h.records[0].output_path, "/out/59.mp4");
    assert_eq!(h.records[49].output_path, "/out/10.mp4");
}

#[test]
fn the_folder_of_an_export_becomes_the_default() {
    let mut c = AppConfig::default();
    assert_eq!(c.theme, Theme::System);
    assert!(c.update_default_output_dir("/home/me/out.mp4"));
    assert_eq!(c.default_output_dir.as_deref(), Some("/home/me"));
    assert!(!c.update_default_output_dir("/home/me/other.mp4"));
    assert!(!c.update_default_output_dir("out.mp4"));
    assert_eq!(c.default_output_dir.as_deref(), Some("/home/me"));
    for written in ["/home/me/", "/home//me", "/home/./me", "//home/me/."] {
        c.default_output_dir = Some(written.to_string());
        assert!(!c.update_default_output_dir("/home/me/a.mp4"), "{written}");
        assert_eq!(c.default_output_dir.as_deref(), Some(written));
    }
    c.default_output_dir = Some("home/me".to_string());
    assert!(c.update_default_output_dir("/home/me/a.mp4"));
    assert_eq!(c.default_output_dir.as_deref(), Some("/home/me"));
}

#[test]
fn ffprobe_lies_beside_ffmpeg() {
    assert_eq!(derive_ffprobe("ffmpeg"), "ffprobe");
    assert_eq!(derive_ffprobe("/opt/ff/bin/ffmpeg"), "/opt/ff/bin/ffprobe");
    assert_eq!(derive_ffprobe("/ffmpeg"), "/ffprobe");
    assert_eq!(derive_ffprobe("bin/ffmpeg"), "ffprobe");
    assert_eq!(derive_ffprobe("./ffmpeg"), "ffprobe");
    let e = FfmpegEngine::for_path(&None);
    assert_eq!((e.ffmpeg_bin.as_str(), e.ffprobe_bin.as_str()), ("ffmpeg", "ffprobe"));
    let e = FfmpegEngine::for_path(&Some("/opt/ff/ffmpeg".into()));
    assert_eq!(e.ffprobe_bin, "/opt/ff/ffprobe");
}

#[test]
fn files_are_kept_in_their_folders() {
    let s = Storage { config_dir: "/c".into(), data_dir: "/d".into() };
    assert_eq!(s.config_file(), "/c/config.toml");
    assert_eq!(s.history_file(), "/d/history.json");
    let id = 0x0123_4567_89ab_cdef_0123_4567_89ab_cdefu128;
    let name = uuid::Uuid::from_u128(id).to_string();
    assert_eq!(thumbs_dir("/d", id), format!("/d/thumbs/{name}"));
    assert_eq!(waveform_path("/d", id), format!("/d/waveforms/{name}.bin"));
    assert_eq!(waveform_cache_path("/d", id), format!("/d/waveforms/{name}.bin"));
}
