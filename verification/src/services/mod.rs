//! What can be done with playlists and projects.

pub mod compatibility;
pub mod laws;
pub mod merge_planner;
pub mod timeline_ops;
pub mod timeline_ops_mt;

pub use compatibility::{CompatibilityAnalyzer, MergeStrategy};
pub use merge_planner::{MergeInput, MergePlan, MergePlanner};
pub use timeline_ops::{ripple_delete, split_at, trim, TrimSide};
pub use timeline_ops_mt::{
    append_clip, insert_clip, move_clip, ripple_delete_mt, split_at_mt, trim_mt,
};
