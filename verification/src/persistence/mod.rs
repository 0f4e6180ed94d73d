//! What is kept on disk: the settings, the export history and project files.

pub mod config;
pub mod history;
pub mod project;
pub mod storage;

pub use config::{AppConfig, Theme};
pub use history::{ExportRecord, History};
pub use storage::Storage;
