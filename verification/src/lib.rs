//! Core logic of a local screen recorder with automatic transcription:
//! quality presets, the recording history and its cleanup policy, the
//! settings, the transcription queue and its worker's decisions, the SubRip
//! rendering of transcripts, and the decisions of the capture and encoding
//! pipelines.

pub mod text;
pub mod clock;
pub mod presets;
pub mod settings;
pub mod history;
pub mod transcription;
pub mod transcription_queue;
pub mod screen;
pub mod encoding;
pub mod audio;
pub mod recorder;
pub mod permissions;
pub mod camera;
pub mod commands;
