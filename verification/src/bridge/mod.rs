//! What the window shows and what its buttons do.

pub mod arrange;
pub mod callbacks;
pub mod deletion;
pub mod dispatch;
pub mod edit_laws;
pub mod edits;
pub mod events;
pub mod lanes;
pub mod laws;
pub mod models;
pub mod state;
pub mod throttle;
pub mod timeline_laws;
pub mod timeline_view;
pub mod tracks;
pub mod undo;
