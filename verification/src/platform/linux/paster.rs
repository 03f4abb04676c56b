//! Linux strategy: write text to the clipboard only; the user pastes with
//! Ctrl+V. There is no paste simulation — xdotool, wtype and enigo are all
//! unreliable across desktop environments and Wayland/X11 combinations.
//! Clipboard failures are swallowed: reads give `None`, writes do nothing.

use vstd::prelude::*;
use crate::error::AppResult;
use crate::platform::clipboard::{open_clipboard, clipboard_clear, clipboard_get_text, clipboard_set_text};
use crate::platform::traits::PlatformPaster;

verus! {

fn read_clipboard_impl() -> Option<String> {
    match open_clipboard() {
        Ok(mut cb) => match clipboard_get_text(&mut cb) {
            Ok(text) => Some(text),
            Err(_) => None,
        },
        Err(_) => None,
    }
}

fn clear_clipboard_impl() {
    match open_clipboard() {
        Ok(mut cb) => {
            let _ = clipboard_clear(&mut cb);
        },
        Err(_) => {},
    }
}

fn write_clipboard_impl(text: &str) {
    match open_clipboard() {
        Ok(mut cb) => {
            let _ = clipboard_set_text(&mut cb, text);
        },
        Err(_) => {},
    }
}

pub struct LinuxPaster;

impl PlatformPaster for LinuxPaster {
    fn read_clipboard() -> (r: AppResult<Option<String>>)
        ensures
            r is Ok,
    {
        Ok(read_clipboard_impl())
    }

    fn write_clipboard(text: &str) -> (r: AppResult<()>)
        ensures
            r is Ok,
    {
        write_clipboard_impl(text);
        Ok(())
    }

    fn save_clipboard() -> (r: AppResult<Option<String>>)
        ensures
            r is Ok,
    {
        Ok(read_clipboard_impl())
    }

    fn restore_clipboard(saved: Option<String>) -> (r: AppResult<()>)
        ensures
            r is Ok,
    {
        restore_clipboard(saved);
        Ok(())
    }

    fn simulate_paste() -> (r: AppResult<()>)
        ensures
            r is Ok,
    {
        Ok(())
    }
}

/// The clipboard's text, or `None` when it is empty, not text, or cannot
/// be opened.
pub fn read_clipboard() -> Option<String> {
    read_clipboard_impl()
}

/// Puts `text` on the clipboard; failures are ignored.
pub fn write_clipboard(text: &str) {
    write_clipboard_impl(text);
}

/// The clipboard's text, kept to be restored later.
pub fn save_clipboard() -> Option<String> {
    read_clipboard_impl()
}

/// Puts saved text back; with nothing saved (the clipboard held no text)
/// the clipboard is cleared, so it ends as it was saved. Failures are
/// ignored.
pub fn restore_clipboard(saved: Option<String>) {
    match saved {
        Some(text) => write_clipboard_impl(text.as_str()),
        None => clear_clipboard_impl(),
    }
}

/// No paste simulation on Linux.
pub fn simulate_paste() {
}

/// On Linux, pasting writes the text to the clipboard and always succeeds;
/// the user pastes manually, so there is nothing to restore.
pub fn paste_text(text: &str, _restore_delay_ms: u64) -> (r: AppResult<()>)
    ensures
        r is Ok,
{
    write_clipboard(text);
    Ok(())
}

} // verus!
