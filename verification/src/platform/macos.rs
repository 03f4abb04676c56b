//! macOS decisions; the Objective-C, CoreAudio and Security framework calls
//! they are made on live with the application.

pub mod keychain;
pub mod paster;
pub mod permissions;
