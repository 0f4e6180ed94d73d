//! Exporting and decoding: what to render, how to ask ffmpeg for it, and what
//! to do with decoded pictures and sound.

pub mod audio;
pub mod composite;
pub mod decoder;
pub mod errors;
pub mod ffmpeg;
pub mod laws;
pub mod media_laws;
pub mod pixels;
pub mod thumbnails;

pub use errors::{EngineError, EngineResult};
