//! macOS pasting: the general pasteboard and a synthetic Cmd+V, both driven
//! by the application layer through AppKit and CoreGraphics.

use vstd::prelude::*;

verus! {

pub struct MacosPaster;

/// The pasteboard type for plain UTF-8 text (`NSPasteboardTypeString`).
pub const PASTEBOARD_TYPE_STRING: &'static str = "public.utf8-plain-text";

/// Virtual key code of V, posted with the Command flag.
pub const KEY_CODE_V: u16 = 0x09;

} // verus!
