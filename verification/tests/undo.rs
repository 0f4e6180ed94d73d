use video_merger::bridge::undo::{UndoStack, MAX_HISTORY};
use video_merger::domain::clip::{Clip, MediaInfo};
use video_merger::domain::codec::{CodecProfile, Resolution};
use video_merger::domain::playlist::Playlist;
use video_merger::time::Duration;

fn clip(secs: f32) -> Clip {
    Clip::new(
        format!("/tmp/{}.mp4", secs),
        MediaInfo {
            duration: Duration::from_micros((secs * 1_000_000.0) as u64),
            profile: CodecProfile {
                video_codec: "h264".into(),
                audio_codec: "aac".into(),
                resolution: Resolution { width: 1920, height: 1080 },
                frame_rate_mhz: 30_000,
                pixel_format: "yuv420p".into(),
            },
        },
    )
}

#[test]
fn undo_restores_prior_state() {
    let mut stack = UndoStack::new();
    let mut pl = Playlist::new();
    pl.push(clip(1.0));

    stack.checkpoint(&pl);
    pl.push(clip(2.0));
    assert_eq!(pl.len(), 2);

    let prev = stack.undo(&pl).unwrap();
    assert_eq!(prev.len(), 1);
    assert!(stack.can_redo());
}

#[test]
fn redo_replays() {
    let mut stack = UndoStack::new();
    let mut pl = Playlist::new();
    pl.push(clip(1.0));
    stack.checkpoint(&pl);
    pl.push(clip(2.0));

    let undone = stack.undo(&pl).unwrap();
    let redone = stack.redo(&undone).unwrap();
    assert_eq!(redone.len(), 2);
}

#[test]
fn checkpoint_clears_redo() {
    let mut stack = UndoStack::new();
    let mut pl = Playlist::new();
    pl.push(clip(1.0));
    stack.checkpoint(&pl);
    pl.push(clip(2.0));
    let _ = stack.undo(&pl);
    assert!(stack.can_redo());

    stack.checkpoint(&pl);
    assert!(!stack.can_redo(), "checkpoint should clear redo branch");
}

#[test]
fn bounded_at_max_history() {
    let mut stack = UndoStack::new();
    let pl = Playlist::new();
    for _ in 0..(MAX_HISTORY + 10) {
        stack.checkpoint(&pl);
    }
    assert_eq!(stack.undo_len(), MAX_HISTORY);
}

#[test]
fn clearing_forgets_both_directions() {
    let mut stack = UndoStack::default();
    let mut pl = Playlist::new();
    stack.checkpoint(&pl);
    pl.push(clip(2.0));
    stack.checkpoint(&pl);
    let _ = stack.undo(&pl);
    assert!(stack.can_undo() && stack.can_redo());
    stack.clear();
    assert!(!stack.can_undo() && !stack.can_redo());
    assert!(stack.undo(&pl).is_none());
    assert!(stack.redo(&pl).is_none());
}

#[test]
fn snapshots_keep_every_field() {
    let mut stack = UndoStack::new();
    let mut pl = Playlist::new();
    let mut c = clip(3.0);
    c.start_us = Some(7_000_000);
    c.video_track = 1;
    c.thumbnails = vec!["/t/0.jpg".to_string()];
    pl.push(c);
    let id = pl.clips()[0].id;
    stack.checkpoint(&pl);
    pl.clips_mut()[0].start_us = None;
    let back = stack.undo(&pl).unwrap();
    assert_eq!(back.clips()[0].id, id);
    assert_eq!(back.clips()[0].start_us, Some(7_000_000));
    assert_eq!(back.clips()[0].video_track, 1);
    assert_eq!(back.clips()[0].thumbnails, vec!["/t/0.jpg".to_string()]);
    assert_eq!(back.clips()[0].path, "/tmp/3.mp4");
}
