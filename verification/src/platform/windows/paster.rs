//! Windows clipboard access through `arboard`. Unlike Linux, a clipboard
//! that cannot be opened or written is reported as an `Io` error. Paste
//! simulation (a synthetic Ctrl+V) and the delayed restore run in the
//! application layer.

use vstd::prelude::*;
use crate::error::{AppError, AppResult};
use crate::platform::clipboard::{open_clipboard, clipboard_clear, clipboard_get_text, clipboard_set_text};
use crate::platform::linux::keychain::io_error_prefixed;
use crate::unicode::concat;

verus! {

proof fn lemma_prefixed(prefix: Seq<char>, detail: Seq<char>)
    ensures
        (prefix + detail).take(prefix.len() as int) == prefix,
{
    assert((prefix + detail).take(prefix.len() as int) =~= prefix);
}

fn open_failed(detail: String) -> (e: AppError)
    ensures
        io_error_prefixed(e, "Failed to open clipboard: "@),
{
    proof { lemma_prefixed("Failed to open clipboard: "@, detail@); }
    AppError::Io(concat("Failed to open clipboard: ", detail.as_str()))
}

fn write_failed(detail: String) -> (e: AppError)
    ensures
        io_error_prefixed(e, "Failed to write clipboard: "@),
{
    proof { lemma_prefixed("Failed to write clipboard: "@, detail@); }
    AppError::Io(concat("Failed to write clipboard: ", detail.as_str()))
}

fn clear_failed(detail: String) -> (e: AppError)
    ensures
        io_error_prefixed(e, "Failed to clear clipboard: "@),
{
    proof { lemma_prefixed("Failed to clear clipboard: "@, detail@); }
    AppError::Io(concat("Failed to clear clipboard: ", detail.as_str()))
}

pub struct WindowsPaster;

impl WindowsPaster {
    /// The clipboard's text; `None` when it holds no text; an error when it
    /// cannot be opened.
    pub fn read_clipboard() -> (r: AppResult<Option<String>>)
        ensures
            r matches Err(e) ==> io_error_prefixed(e, "Failed to open clipboard: "@),
    {
        match open_clipboard() {
            Ok(mut cb) => match clipboard_get_text(&mut cb) {
                Ok(text) => Ok(Some(text)),
                Err(_) => Ok(None),
            },
            Err(d) => Err(open_failed(d)),
        }
    }

    /// Puts `text` on the clipboard.
    pub fn write_clipboard(text: &str) -> (r: AppResult<()>)
        ensures
            r matches Err(e) ==> io_error_prefixed(e, "Failed to open clipboard: "@)
                || io_error_prefixed(e, "Failed to write clipboard: "@),
    {
        match open_clipboard() {
            Ok(mut cb) => match clipboard_set_text(&mut cb, text) {
                Ok(()) => Ok(()),
                Err(d) => Err(write_failed(d)),
            },
            Err(d) => Err(open_failed(d)),
        }
    }

    /// The clipboard's text, kept to be restored later.
    pub fn save_clipboard() -> (r: AppResult<Option<String>>)
        ensures
            r matches Err(e) ==> io_error_prefixed(e, "Failed to open clipboard: "@),
    {
        Self::read_clipboard()
    }

    /// Puts saved text back; with nothing saved (the clipboard held no text)
    /// the clipboard is cleared, so it ends as it was saved.
    pub fn restore_clipboard(saved: Option<String>) -> (r: AppResult<()>)
        ensures
            saved is Some ==> (r matches Err(e) ==> io_error_prefixed(e, "Failed to open clipboard: "@)
                || io_error_prefixed(e, "Failed to write clipboard: "@)),
            saved is None ==> (r matches Err(e) ==> io_error_prefixed(e, "Failed to open clipboard: "@)
                || io_error_prefixed(e, "Failed to clear clipboard: "@)),
    {
        match saved {
            Some(text) => Self::write_clipboard(text.as_str()),
            None => match open_clipboard() {
                Ok(mut cb) => match clipboard_clear(&mut cb) {
                    Ok(()) => Ok(()),
                    Err(d) => Err(clear_failed(d)),
                },
                Err(d) => Err(open_failed(d)),
            },
        }
    }
}

/// The clipboard's text; `None` when it holds none or cannot be opened.
pub fn read_clipboard() -> Option<String> {
    match WindowsPaster::read_clipboard() {
        Ok(t) => t,
        Err(_) => None,
    }
}

/// Puts `text` on the clipboard; a failure is dropped.
pub fn write_clipboard(text: &str) {
    let _ = WindowsPaster::write_clipboard(text);
}

/// The clipboard's text, kept to be restored later.
pub fn save_clipboard() -> Option<String> {
    match WindowsPaster::save_clipboard() {
        Ok(t) => t,
        Err(_) => None,
    }
}

/// Puts saved text back; a failure is dropped.
pub fn restore_clipboard(saved: Option<String>) {
    let _ = WindowsPaster::restore_clipboard(saved);
}

} // verus!
