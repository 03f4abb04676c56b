//! Platform layer: shared types, the per-platform traits, and the Linux,
//! Windows and macOS implementations. The modules re-exported at this level
//! are those of the platform the library is built for here (Linux).

pub mod traits;
pub mod types;
pub mod clipboard;
pub mod linux;
pub mod windows;
pub mod macos;

pub use self::types::{AudioInputDevice, PermissionStatus, PasteToolsStatus};
pub use self::linux::{audio_ctrl, keychain, paster, permissions, recorder};
