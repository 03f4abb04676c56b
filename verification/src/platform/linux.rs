//! Linux implementations.

pub mod audio_ctrl;
pub mod keychain;
pub mod paster;
pub mod permissions;
pub mod recorder;
