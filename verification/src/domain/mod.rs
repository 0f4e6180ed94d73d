//! Clips, playlists, projects and what describes them.

pub mod clip;
pub mod codec;
pub mod export_spec;
pub mod laws;
pub mod playlist;
pub mod project;
pub mod transform;

pub use clip::{Clip, MediaInfo};
pub use codec::{CodecProfile, Resolution};
pub use export_spec::{ContainerFormat, ExportSpec, Quality};
pub use playlist::Playlist;
pub use project::{Project, Track, TrackClip, TrackKind};
pub use transform::{Crop, ResolvedTransform};
