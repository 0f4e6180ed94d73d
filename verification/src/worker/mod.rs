//! The background worker: jobs, and the threads behind the preview.

pub mod dispatcher;
pub mod job;
pub mod laws;
pub mod preview;

pub use job::{Command, Event};
