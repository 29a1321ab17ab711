//! Drag-and-drop overlay and clipboard image paste checks.
//!
//! Pasted images are validated here and raw RGBA pixels are encoded as PNG
//! with the `image` crate; saving the file is left to the caller.

use crate::completions::{path_file_name, std_path_file_name};
use crate::text::{concat2, concat3, dec, fmt_u64, fmt_usize, owned, str_eq};
use image::codecs::png::PngEncoder;
use image::{ExtendedColorType, ImageEncoder};
use std::io::Cursor;
use vstd::prelude::*;

verus! {

/// Whether the drop-target overlay should be painted.
pub fn drop_overlay_should_show(dragging_files: bool) -> (r: bool)
    ensures
        r == dragging_files,
{
    dragging_files
}

/// File extension for a pasted image MIME type.
pub open spec fn mime_extension(mime: Seq<char>) -> Option<Seq<char>> {
    if mime == "image/png"@ {
        Some("png"@)
    } else if mime == "image/jpeg"@ || mime == "image/jpg"@ {
        Some("jpg"@)
    } else if mime == "image/gif"@ {
        Some("gif"@)
    } else if mime == "image/webp"@ {
        Some("webp"@)
    } else {
        None
    }
}

/// File extension for a pasted image MIME type, if supported.
pub fn extension_for_mime(mime_type: &str) -> (r: Option<&'static str>)
    ensures
        match r {
            Some(e) => mime_extension(mime_type@) == Some(e@),
            None => mime_extension(mime_type@) is None,
        },
{
    if str_eq(mime_type, "image/png") {
        Some("png")
    } else if str_eq(mime_type, "image/jpeg") || str_eq(mime_type, "image/jpg") {
        Some("jpg")
    } else if str_eq(mime_type, "image/gif") {
        Some("gif")
    } else if str_eq(mime_type, "image/webp") {
        Some("webp")
    } else {
        None
    }
}

/// Error text for an image over `max_bytes`.
pub open spec fn size_limit_text(max_bytes: u64) -> Seq<char> {
    "Pasted image exceeds the "@ + dec((max_bytes / 1_048_576) as nat) + " MB attachment size limit."@
}

fn size_limit_error(max_bytes: u64) -> (r: String)
    ensures
        r@ == size_limit_text(max_bytes),
{
    let mb = fmt_u64(max_bytes / 1_048_576);
    concat3("Pasted image exceeds the ", mb.as_str(), " MB attachment size limit.")
}

/// What [`check_pasted_image`] returns: the file extension, or why the paste is refused.
pub open spec fn pasted_image_check(len: usize, mime: Seq<char>, max_bytes: u64) -> Result<
    Seq<char>,
    Seq<char>,
> {
    if len == 0 {
        Err("Pasted image is empty."@)
    } else if len > max_bytes {
        Err(size_limit_text(max_bytes))
    } else {
        match mime_extension(mime) {
            Some(e) => Ok(e),
            None => Err("Unsupported pasted image type: "@ + mime),
        }
    }
}

/// Checks pasted encoded image bytes of length `len` against the size limit
/// and the supported types; returns the file extension to save them under.
pub fn check_pasted_image(len: usize, mime_type: &str, max_bytes: u64) -> (r: Result<
    &'static str,
    String,
>)
    ensures
        match r {
            Ok(e) => pasted_image_check(len, mime_type@, max_bytes) == Ok::<Seq<char>, Seq<char>>(
                e@,
            ),
            Err(m) => pasted_image_check(len, mime_type@, max_bytes) == Err::<Seq<char>, Seq<char>>(
                m@,
            ),
        },
{
    if len == 0 {
        return Err(owned("Pasted image is empty."));
    }
    if len as u64 > max_bytes {
        return Err(size_limit_error(max_bytes));
    }
    match extension_for_mime(mime_type) {
        Some(e) => Ok(e),
        None => Err(concat2("Unsupported pasted image type: ", mime_type)),
    }
}

/// `paste-{millis}.{ext}`.
pub fn paste_file_name(millis: u64, ext: &str) -> (r: String)
    ensures
        r@ == "paste-"@ + dec(millis as nat) + "."@ + ext@,
{
    let m = fmt_u64(millis);
    let mut r = concat2("paste-", m.as_str());
    r.append(".");
    r.append(ext);
    r
}

/// Context block that stands for a pasted image in the prompt.
pub fn image_context_block(name: &str) -> (r: String)
    ensures
        r@ == "[Attached image: "@ + name@ + "]"@,
{
    concat3("[Attached image: ", name, "]")
}

/// The PNG file (or the error text) that the `image` crate's PNG encoder
/// produces for an RGBA8 pixel buffer of the given size.
pub uninterp spec fn png_rgba8_encoding(rgba: Seq<u8>, width: u32, height: u32) -> Result<
    Seq<u8>,
    Seq<char>,
>;

/// RGBA8 buffer length the encoder expects: `4 * width * height`, saturating at `u64::MAX`.
pub open spec fn rgba8_buffer_size(width: u32, height: u32) -> int {
    if 4 * width * height > u64::MAX {
        u64::MAX as int
    } else {
        4 * width * height
    }
}

/// Calls `PngEncoder::write_image` with `ExtendedColorType::Rgba8`; the
/// contract names its output (or error text) `png_rgba8_encoding` of the
/// pixels and size. The encoder asserts the buffer length, so `requires`
/// demands the length it expects.
#[verifier::external_body]
fn encode_png_rgba8(rgba: &[u8], width: u32, height: u32) -> (r: Result<Vec<u8>, String>)
    requires
        rgba8_buffer_size(width, height) == rgba@.len(),
    ensures
        match r {
            Ok(b) => png_rgba8_encoding(rgba@, width, height) == Ok::<Seq<u8>, Seq<char>>(b@),
            Err(e) => png_rgba8_encoding(rgba@, width, height) == Err::<Seq<u8>, Seq<char>>(e@),
        },
{
    let mut png_bytes: Vec<u8> = Vec::new();
    let res = PngEncoder::new(Cursor::new(&mut png_bytes)).write_image(
        rgba,
        width,
        height,
        ExtendedColorType::Rgba8,
    );
    match res {
        Ok(()) => Ok(png_bytes),
        Err(e) => Err(format!("{e}")),
    }
}

/// What [`encode_pasted_rgba`] returns: the PNG bytes, or why the paste is refused.
pub open spec fn rgba_paste_result(width: usize, height: usize, rgba: Seq<u8>, max_bytes: u64) -> Result<
    Seq<u8>,
    Seq<char>,
> {
    let expected = width * height * 4;
    if expected > usize::MAX {
        Err("Invalid pasted image dimensions."@)
    } else if rgba.len() != expected {
        Err(
            "Pasted image pixel data length mismatch (expected "@ + dec(expected as nat)
                + " bytes, got "@ + dec(rgba.len()) + ")."@,
        )
    } else if expected > max_bytes {
        Err(size_limit_text(max_bytes))
    } else {
        match png_rgba8_encoding(rgba, width as u32, height as u32) {
            Ok(b) => Ok(b),
            Err(e) => Err("failed to encode pasted image as PNG: "@ + e),
        }
    }
}

/// Inputs on which the encoder's own buffer-length assertion holds, with the
/// dimensions narrowed to `u32` as the encoder takes them.
pub open spec fn rgba_paste_ok(width: usize, height: usize, len: nat, max_bytes: u64) -> bool {
    let expected = width * height * 4;
    (expected <= usize::MAX && len == expected && expected <= max_bytes) ==> rgba8_buffer_size(
        width as u32,
        height as u32,
    ) == len
}

/// Validates raw RGBA8 pixels of a pasted image and encodes them as PNG.
pub fn encode_pasted_rgba(width: usize, height: usize, rgba: &[u8], max_bytes: u64) -> (r: Result<
    Vec<u8>,
    String,
>)
    requires
        rgba_paste_ok(width, height, rgba@.len(), max_bytes),
    ensures
        match r {
            Ok(b) => rgba_paste_result(width, height, rgba@, max_bytes) == Ok::<Seq<u8>, Seq<char>>(
                b@,
            ),
            Err(m) => rgba_paste_result(width, height, rgba@, max_bytes) == Err::<
                Seq<u8>,
                Seq<char>,
            >(m@),
        },
{
    let expected: usize = match width.checked_mul(height) {
        Some(n) => match n.checked_mul(4) {
            Some(m) => m,
            None => {
                return Err(owned("Invalid pasted image dimensions."));
            },
        },
        None => {
            proof {
                assert(width * height * 4 > usize::MAX) by (nonlinear_arith)
                    requires
                        width * height > usize::MAX,
                ;
            }
            return Err(owned("Invalid pasted image dimensions."));
        },
    };
    if rgba.len() != expected {
        let e = fmt_usize(expected);
        let g = fmt_usize(rgba.len());
        let mut msg = concat3("Pasted image pixel data length mismatch (expected ", e.as_str(), " bytes, got ");
        msg.append(g.as_str());
        msg.append(").");
        return Err(msg);
    }
    if expected as u64 > max_bytes {
        return Err(size_limit_error(max_bytes));
    }
    let w: u32 = #[verifier::truncate] (width as u32);
    let h: u32 = #[verifier::truncate] (height as u32);
    match encode_png_rgba8(rgba, w, h) {
        Ok(b) => Ok(b),
        Err(e) => Err(concat2("failed to encode pasted image as PNG: ", e.as_str())),
    }
}

/// Why a dropped path could not be attached.
#[derive(Debug, Clone, Copy, PartialEq, Eq, Structural)]
pub enum DropErrorKind {
    /// The file looks binary.
    BinaryFile,
    /// The file exceeds the attachment size limit.
    FileTooLarge,
    /// The path is a directory.
    IsDirectory,
    /// Any other failure; its text is passed as the detail.
    Other,
}

/// The message for a dropped file named `name` that could not be attached.
pub open spec fn drop_error_text(name: Seq<char>, kind: DropErrorKind, detail: Seq<char>) -> Seq<char> {
    match kind {
        DropErrorKind::BinaryFile => "Unsupported file type: "@ + name
            + " appears to be binary and cannot be attached as text. Use an image (png/jpg/gif/webp/svg) or a text file."@,
        DropErrorKind::FileTooLarge => "File too large: "@ + name
            + " exceeds the attachment size limit."@,
        DropErrorKind::IsDirectory => "Cannot attach directory: "@ + name
            + ". Drop individual files instead."@,
        DropErrorKind::Other => "Could not attach "@ + name + ": "@ + detail,
    }
}

/// Formats a drop/ingest failure for the file `name` into a clear, actionable message.
pub fn drop_error_message(name: &str, kind: DropErrorKind, detail: &str) -> (r: String)
    ensures
        r@ == drop_error_text(name@, kind, detail@),
{
    match kind {
        DropErrorKind::BinaryFile => concat3(
            "Unsupported file type: ",
            name,
            " appears to be binary and cannot be attached as text. Use an image (png/jpg/gif/webp/svg) or a text file.",
        ),
        DropErrorKind::FileTooLarge => concat3(
            "File too large: ",
            name,
            " exceeds the attachment size limit.",
        ),
        DropErrorKind::IsDirectory => concat3(
            "Cannot attach directory: ",
            name,
            ". Drop individual files instead.",
        ),
        DropErrorKind::Other => {
            let mut m = concat3("Could not attach ", name, ": ");
            m.append(detail);
            m
        },
    }
}

/// The name a dropped path is shown by: its last component, or the whole path.
pub open spec fn drop_name(path: Seq<char>) -> Seq<char> {
    match std_path_file_name(path) {
        Some(n) => n,
        None => path,
    }
}

/// Formats a drop/ingest failure for `path` into a clear, actionable message.
pub fn format_drop_error(path: &str, kind: DropErrorKind, detail: &str) -> (r: String)
    ensures
        r@ == drop_error_text(drop_name(path@), kind, detail@),
{
    let name = match path_file_name(path) {
        Some(n) => n,
        None => owned(path),
    };
    drop_error_message(name.as_str(), kind, detail)
}

} // verus!
