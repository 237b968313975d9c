//! File previews: which kind of preview a file gets, and what it holds.

use vstd::prelude::*;
use vstd::string::*;
use crate::limits::MAX_PREVIEW_CHARS;
use crate::path::{Platform, extension, path_extension};
use crate::text::{same_text, take_chars, utf8};
use crate::types::{get_extension, lower_extension};

verus! {

/// Maximum size in bytes of an image that is previewed.
pub const MAX_PREVIEW_FILE_SIZE: usize = 5_000_000;

/// A thumbnail: an image as base64 text, with its media type.
#[derive(Debug, Clone, PartialEq, Eq)]
pub struct Thumbnail {
    pub base64: String,
    pub mime: String,
}

/// File preview content types.
#[derive(Debug, Clone, PartialEq, Eq)]
pub enum FilePreview {
    Text { content: String, truncated: bool },
    Image { base64: String, mime: String },
    Unsupported { mime: String },
}

/// The kind of preview that a file gets.
#[derive(Debug, Clone, Copy, PartialEq, Eq, Structural)]
pub enum PreviewKind {
    Text,
    Image,
    Unsupported,
}

/// The extension names a text format.
pub open spec fn is_text_extension(e: Seq<char>) -> bool {
    ||| e == "txt"@ || e == "md"@ || e == "json"@ || e == "xml"@ || e == "html"@
    ||| e == "css"@ || e == "js"@ || e == "ts"@ || e == "tsx"@ || e == "jsx"@
    ||| e == "rs"@ || e == "py"@ || e == "go"@ || e == "java"@ || e == "c"@
    ||| e == "cpp"@ || e == "h"@ || e == "hpp"@ || e == "toml"@ || e == "yaml"@
    ||| e == "yml"@ || e == "ini"@ || e == "cfg"@ || e == "conf"@ || e == "sh"@
    ||| e == "bat"@ || e == "ps1"@ || e == "log"@ || e == "csv"@
}

/// The extension names an image format.
pub open spec fn is_image_extension(e: Seq<char>) -> bool {
    ||| e == "png"@ || e == "jpg"@ || e == "jpeg"@ || e == "gif"@
    ||| e == "bmp"@ || e == "webp"@ || e == "ico"@
}

/// The kind of preview for a lowercase extension.
pub open spec fn kind_of_extension(e: Seq<char>) -> PreviewKind {
    if is_text_extension(e) {
        PreviewKind::Text
    } else if is_image_extension(e) {
        PreviewKind::Image
    } else {
        PreviewKind::Unsupported
    }
}

/// The kind of preview for a path: that of its lowercase extension, a path
/// without extension counting as one with the empty extension.
pub open spec fn kind_of_path(path: Seq<char>, p: Platform) -> PreviewKind {
    match lower_extension(path, p) {
        Some(e) => kind_of_extension(e),
        None => kind_of_extension(Seq::empty()),
    }
}

fn text_extension(e: &str) -> (b: bool)
    ensures
        b == is_text_extension(e@),
{
    same_text(e, "txt") || same_text(e, "md") || same_text(e, "json") || same_text(e, "xml")
        || same_text(e, "html") || same_text(e, "css") || same_text(e, "js") || same_text(e, "ts")
        || same_text(e, "tsx") || same_text(e, "jsx") || same_text(e, "rs") || same_text(e, "py")
        || same_text(e, "go") || same_text(e, "java") || same_text(e, "c") || same_text(e, "cpp")
        || same_text(e, "h") || same_text(e, "hpp") || same_text(e, "toml") || same_text(e, "yaml")
        || same_text(e, "yml") || same_text(e, "ini") || same_text(e, "cfg") || same_text(
        e,
        "conf",
    ) || same_text(e, "sh") || same_text(e, "bat") || same_text(e, "ps1") || same_text(e, "log")
        || same_text(e, "csv")
}

fn image_extension(e: &str) -> (b: bool)
    ensures
        b == is_image_extension(e@),
{
    same_text(e, "png") || same_text(e, "jpg") || same_text(e, "jpeg") || same_text(e, "gif")
        || same_text(e, "bmp") || same_text(e, "webp") || same_text(e, "ico")
}

/// Decides which kind of preview a file gets, by its extension.
pub fn get_file_preview(path: &str, p: Platform) -> (kind: PreviewKind)
    ensures
        kind == kind_of_path(path@, p),
{
    let ext = match get_extension(path, p) {
        Some(e) => e,
        None => String::new(),
    };
    if text_extension(ext.as_str()) {
        PreviewKind::Text
    } else if image_extension(ext.as_str()) {
        PreviewKind::Image
    } else {
        PreviewKind::Unsupported
    }
}

/// Generates a text preview with truncation: the first 10,000 characters,
/// marked as truncated when the text is longer than 10,000 bytes.
pub fn generate_text_preview(text: &str) -> (preview: FilePreview)
    ensures
        preview matches FilePreview::Text { content, truncated } && {
            &&& truncated == (utf8(text@).len() > MAX_PREVIEW_CHARS)
            &&& content@ == text@.take(
                if MAX_PREVIEW_CHARS <= text@.len() {
                    MAX_PREVIEW_CHARS as int
                } else {
                    text@.len() as int
                },
            )
        },
{
    let truncated = text.as_bytes().len() > MAX_PREVIEW_CHARS;
    FilePreview::Text { content: take_chars(text, MAX_PREVIEW_CHARS), truncated }
}

/// The media type of an image with this lowercase extension.
pub open spec fn image_mime(e: Seq<char>) -> Seq<char> {
    if e == "jpg"@ || e == "jpeg"@ {
        "image/jpeg"@
    } else if e == "png"@ {
        "image/png"@
    } else if e == "gif"@ {
        "image/gif"@
    } else if e == "bmp"@ {
        "image/bmp"@
    } else if e == "webp"@ {
        "image/webp"@
    } else if e == "ico"@ {
        "image/x-icon"@
    } else {
        "image/png"@
    }
}

fn mime_of_image(e: &str) -> (m: String)
    ensures
        m@ == image_mime(e@),
{
    if same_text(e, "jpg") || same_text(e, "jpeg") {
        String::from_str("image/jpeg")
    } else if same_text(e, "png") {
        String::from_str("image/png")
    } else if same_text(e, "gif") {
        String::from_str("image/gif")
    } else if same_text(e, "bmp") {
        String::from_str("image/bmp")
    } else if same_text(e, "webp") {
        String::from_str("image/webp")
    } else if same_text(e, "ico") {
        String::from_str("image/x-icon")
    } else {
        String::from_str("image/png")
    }
}

/// What the standard base64 engine of the `base64` crate gives for these
/// bytes: their encoding in the standard alphabet, with padding.
pub uninterp spec fn base64_standard(bytes: Seq<u8>) -> Seq<char>;

/// Encodes bytes with `base64::engine::general_purpose::STANDARD.encode`.
/// The engine fails only where the length of the output would not fit its
/// integer type, which the bound on the input rules out.
#[verifier::external_body]
fn encode_base64(bytes: &[u8]) -> (text: String)
    requires
        bytes@.len() <= MAX_PREVIEW_FILE_SIZE,
    ensures
        text@ == base64_standard(bytes@),
{
    base64::Engine::encode(&base64::engine::general_purpose::STANDARD, bytes)
}

/// The media type reported for an image that is too large to preview.
pub open spec fn too_large_mime(e: Seq<char>) -> Seq<char> {
    "image/"@ + e + " (too large)"@
}

/// Generates an image preview as base64. An image of more than 5,000,000
/// bytes is not encoded and reported as unsupported.
pub fn generate_image_preview(bytes: &[u8], ext: &str) -> (preview: FilePreview)
    ensures
        bytes@.len() > MAX_PREVIEW_FILE_SIZE ==> (preview matches FilePreview::Unsupported { mime }
            && mime@ == too_large_mime(ext@)),
        bytes@.len() <= MAX_PREVIEW_FILE_SIZE ==> (preview matches FilePreview::Image {
            base64,
            mime,
        } && base64@ == base64_standard(bytes@) && mime@ == image_mime(ext@)),
{
    if bytes.len() > MAX_PREVIEW_FILE_SIZE {
        let mime = String::from_str("image/").concat(ext).concat(" (too large)");
        return FilePreview::Unsupported { mime };
    }
    FilePreview::Image { base64: encode_base64(bytes), mime: mime_of_image(ext) }
}

/// What `mime_guess::from_ext` guesses first for an extension, as text:
/// the first media type that the crate's table lists for it, case aside, and
/// `application/octet-stream` for an extension that it does not list.
pub uninterp spec fn guessed_mime(ext: Seq<char>) -> Seq<char>;

/// Looks an extension up with `mime_guess::from_ext`, takes the first
/// guess or `application/octet-stream` with `first_or_octet_stream`, and
/// writes the media type out as text.
#[verifier::external_body]
fn guess_mime(ext: &str) -> (mime: String)
    ensures
        mime@ == guessed_mime(ext@),
{
    mime_guess::from_ext(ext).first_or_octet_stream().to_string()
}

/// The extension of the path as written, or the empty extension.
pub open spec fn raw_extension(path: Seq<char>, p: Platform) -> Seq<char> {
    match extension(path, p) {
        Some(e) => e,
        None => Seq::empty(),
    }
}

/// The preview of a file that is neither text nor image: its media type,
/// guessed from the extension.
pub fn unsupported_preview(path: &str, p: Platform) -> (preview: FilePreview)
    ensures
        preview matches FilePreview::Unsupported { mime } && mime@ == guessed_mime(
            raw_extension(path@, p),
        ),
{
    let ext = match path_extension(path, p) {
        Some(e) => e,
        None => String::new(),
    };
    FilePreview::Unsupported { mime: guess_mime(ext.as_str()) }
}

} // verus!
