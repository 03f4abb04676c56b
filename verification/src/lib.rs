//! Core logic of the YuMo dictation tool: transcript post-processing,
//! the recording pipeline state machine, device bookkeeping, statistics
//! helpers and the platform layer's decisions.

pub mod audio_cue;
pub mod audio_io;
pub mod commands;
pub mod custom_models;
pub mod custom_worker;
pub mod daemon;
pub mod db;
pub mod device_watcher;
pub mod error;
pub mod pipeline;
pub mod platform;
pub mod settings;
pub mod sprites;
pub mod state;
pub mod text_processor;
pub mod unicode;

pub use self::platform::permissions;
