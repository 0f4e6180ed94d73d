//! Command lines for ffmpeg and ffprobe, and what to make of their output.

pub mod command;
pub mod export;
pub mod form_laws;
pub mod graph_laws;
pub mod laws;
pub mod look;
pub mod probe;
pub mod progress;
pub mod reencode;
pub mod stream_copy;

pub use command::FfmpegEngine;
