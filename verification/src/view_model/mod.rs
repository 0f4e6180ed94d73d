//! What the window shows: labels, ticks and rows.

pub mod ruler_vm;
pub mod timeline_vm;
