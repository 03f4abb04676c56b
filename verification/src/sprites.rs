//! Sprite sheets: how a sheet's image is handed to the front end, and where
//! its background colour is sampled before the background is removed.
//! Reading, copying, decoding and encoding the files is done by the
//! application layer.

use vstd::prelude::*;
use crate::audio_io::{base64_encode, base64_of};
use crate::unicode::{concat, owned, push_str_chars_string, same_text};

verus! {

/// The MIME type under which an image with extension `ext` is served:
/// `gif` and `jpg` / `jpeg` by name, anything else as PNG.
pub open spec fn mime_for_extension(ext: Seq<char>) -> Seq<char> {
    if ext == "gif"@ {
        "image/gif"@
    } else if ext == "jpg"@ || ext == "jpeg"@ {
        "image/jpeg"@
    } else {
        "image/png"@
    }
}

/// The MIME type for an image file's extension.
pub fn image_mime(ext: &str) -> (r: String)
    ensures
        r@ == mime_for_extension(ext@),
{
    if same_text(ext, "gif") {
        owned("image/gif")
    } else if same_text(ext, "jpg") || same_text(ext, "jpeg") {
        owned("image/jpeg")
    } else {
        owned("image/png")
    }
}

/// The `data:` URI of an image with the given MIME type and bytes.
pub open spec fn image_uri(mime: Seq<char>, data: Seq<u8>) -> Seq<char> {
    "data:"@ + mime + ";base64,"@ + base64_of(data)
}

/// The image's bytes as a `data:<mime>;base64,` URI.
pub fn image_data_uri(mime: &str, data: &[u8]) -> (r: String)
    ensures
        r@ == image_uri(mime@, data@),
{
    let b64 = base64_encode(data);
    let mut r = concat("data:", mime);
    push_str_chars_string(&mut r, ";base64,");
    push_str_chars_string(&mut r, b64.as_str());
    r
}

/// How far from the edges the corners are sampled: 14 pixels, or a quarter
/// of the shorter side when that is less.
pub open spec fn sample_inset(width: u32, height: u32) -> u32 {
    let shorter = if width <= height { width } else { height };
    if 14 <= shorter / 4 { 14 } else { (shorter / 4) as u32 }
}

/// The four points, one near each corner, whose colours are compared to
/// find the background: top left, top right, bottom left, bottom right,
/// each `sample_inset` pixels in from both edges.
pub open spec fn sample_points(width: u32, height: u32) -> Seq<(u32, u32)> {
    let i = sample_inset(width, height);
    let right = (width - 1 - i) as u32;
    let bottom = (height - 1 - i) as u32;
    seq![(i, i), (right, i), (i, bottom), (right, bottom)]
}

/// The sample points of an image of the given size; an image has at least
/// one pixel each way.
pub fn sprite_sample_points(width: u32, height: u32) -> (r: Vec<(u32, u32)>)
    requires
        width > 0,
        height > 0,
    ensures
        r@ == sample_points(width, height),
        forall|k: int| 0 <= k < 4 ==> (#[trigger] r@[k]).0 < width && r@[k].1 < height,
{
    let shorter = if width <= height { width } else { height };
    let inset = if 14 <= shorter / 4 { 14 } else { shorter / 4 };
    let right = width - 1 - inset;
    let bottom = height - 1 - inset;
    let r = vec![(inset, inset), (right, inset), (inset, bottom), (right, bottom)];
    assert(r@ =~= sample_points(width, height));
    r
}

} // verus!
