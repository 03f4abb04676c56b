//! The system clipboard, through `arboard`. What the clipboard holds is
//! machine state shared with every other program, so nothing is promised of
//! what a read returns or of whether an access succeeds; the callers decide
//! what to do with each outcome.

use vstd::prelude::*;
use arboard::Clipboard;

verus! {

#[verifier::external_type_specification]
#[verifier::external_body]
pub struct ExClipboard(Clipboard);

/// Calls `arboard::Clipboard::new`; a failure is carried as the error's
/// message. Whether the clipboard can be opened depends on the session.
#[verifier::external_body]
pub(crate) fn open_clipboard() -> (r: Result<Clipboard, String>) {
    match Clipboard::new() {
        Ok(cb) => Ok(cb),
        Err(e) => Err(e.to_string()),
    }
}

/// Calls `Clipboard::get_text`; a failure (empty clipboard, non-text
/// content, access error) is carried as the error's message. The text is
/// whatever the clipboard holds.
#[verifier::external_body]
pub(crate) fn clipboard_get_text(cb: &mut Clipboard) -> (r: Result<String, String>) {
    match cb.get_text() {
        Ok(t) => Ok(t),
        Err(e) => Err(e.to_string()),
    }
}

/// Calls `Clipboard::set_text`; a failure is carried as the error's message.
#[verifier::external_body]
pub(crate) fn clipboard_set_text(cb: &mut Clipboard, text: &str) -> (r: Result<(), String>) {
    match cb.set_text(text) {
        Ok(()) => Ok(()),
        Err(e) => Err(e.to_string()),
    }
}

/// Calls `Clipboard::clear`, which removes whatever the clipboard holds; a
/// failure is carried as the error's message.
#[verifier::external_body]
pub(crate) fn clipboard_clear(cb: &mut Clipboard) -> (r: Result<(), String>) {
    match cb.clear() {
        Ok(()) => Ok(()),
        Err(e) => Err(e.to_string()),
    }
}

} // verus!
