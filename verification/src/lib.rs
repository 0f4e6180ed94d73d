//! The model of a multi-track video editor and exporter, with its rules
//! verified: clips and tracks, timeline edits, export planning, ffmpeg
//! command lines, preview scheduling, project files and the editor's state.

pub mod bridge;
pub mod domain;
pub mod engine;
pub mod errors;
pub mod ident;
pub mod laws;
pub mod paths;
pub mod persistence;
pub mod scalar;
pub mod seqs;
pub mod services;
pub mod sorting;
pub mod text;
pub mod time;
pub mod view_model;
pub mod worker;

use vstd::prelude::*;

verus! {

} // verus!
