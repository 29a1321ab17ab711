//! Attachment preview models for the composer and sent messages.
//!
//! The shell reads what only the filesystem knows (a text file's snippet, a
//! file's size) and formats the size label; this module picks the preview
//! variant for each attachment kind and the snippet fallbacks.

use crate::artifacts_panel::{content_snippet, snippet_of};
use crate::text::owned;
use vstd::prelude::*;

verus! {

/// Maximum characters in a content snippet preview.
pub const FILE_SNIPPET_CHARS: usize = 120;

/// What an attachment holds.
#[derive(Debug, Clone, Copy, PartialEq, Eq, Structural)]
pub enum AttachmentKind {
    /// An image file.
    Image,
    /// A captured screenshot.
    Screenshot,
    /// A file.
    File,
    /// A folder attached as selected files.
    Folder,
    /// Clipboard text.
    Clipboard,
    /// A memory.
    Memory,
    /// An artifact.
    Artifact,
}

/// Preview shown for an attachment in the composer or a sent message.
#[derive(Debug, PartialEq, Eq)]
pub enum AttachmentPreview {
    /// Image or screenshot with a path for thumbnail rendering.
    Image {
        /// Display name.
        name: String,
        /// `Image` or `Screenshot`.
        kind: AttachmentKind,
        /// MIME type.
        mime_type: String,
        /// Path to the image.
        path: String,
        /// Size in bytes when known.
        size_bytes: Option<u64>,
    },
    /// Non-image file with size, type indicator, and optional text snippet.
    File {
        /// Display name.
        name: String,
        /// MIME type / type indicator.
        mime_type: String,
        /// Human-readable size label.
        size_label: String,
        /// Short content snippet.
        snippet: Option<String>,
        /// Source path when known.
        path: Option<String>,
    },
    /// Clipboard / memory / artifact text attachments.
    Text {
        /// Display name.
        name: String,
        /// Attachment kind.
        kind: AttachmentKind,
        /// Optional short snippet of content.
        snippet: Option<String>,
    },
}

/// Mathematical view of an [`AttachmentPreview`].
pub enum PreviewView {
    /// Image preview: name, kind, MIME type, path, size.
    Image(Seq<char>, AttachmentKind, Seq<char>, Seq<char>, Option<u64>),
    /// File preview: name, MIME type, size label, snippet, path.
    File(Seq<char>, Seq<char>, Seq<char>, Option<Seq<char>>, Option<Seq<char>>),
    /// Text preview: name, kind, snippet.
    Text(Seq<char>, AttachmentKind, Option<Seq<char>>),
}

/// Optional string as optional chars.
pub open spec fn opt_chars(o: Option<String>) -> Option<Seq<char>> {
    match o {
        Some(s) => Some(s@),
        None => None,
    }
}

/// Optional string slice as optional chars.
pub open spec fn opt_str_chars(o: Option<&str>) -> Option<Seq<char>> {
    match o {
        Some(s) => Some(s@),
        None => None,
    }
}

impl View for AttachmentPreview {
    type V = PreviewView;

    open spec fn view(&self) -> PreviewView {
        match self {
            AttachmentPreview::Image { name, kind, mime_type, path, size_bytes } => PreviewView::Image(
                name@,
                *kind,
                mime_type@,
                path@,
                *size_bytes,
            ),
            AttachmentPreview::File { name, mime_type, size_label, snippet, path } => PreviewView::File(
                name@,
                mime_type@,
                size_label@,
                opt_chars(*snippet),
                opt_chars(*path),
            ),
            AttachmentPreview::Text { name, kind, snippet } => PreviewView::Text(
                name@,
                *kind,
                opt_chars(*snippet),
            ),
        }
    }
}

/// The snippet of optional text.
pub open spec fn opt_snippet(o: Option<Seq<char>>) -> Option<Seq<char>> {
    match o {
        Some(c) => Some(snippet_of(c, FILE_SNIPPET_CHARS as nat)),
        None => None,
    }
}

/// Preview of a pending attachment draft. `file_snippet` is the text file's
/// snippet when the shell could read one.
pub open spec fn draft_preview(
    kind: AttachmentKind,
    name: Seq<char>,
    mime_type: Seq<char>,
    path: Option<Seq<char>>,
    size_bytes: Option<u64>,
    size_label: Seq<char>,
    file_snippet: Option<Seq<char>>,
    content: Option<Seq<char>>,
    context_block: Seq<char>,
) -> PreviewView {
    match kind {
        AttachmentKind::Image | AttachmentKind::Screenshot => PreviewView::Image(
            name,
            kind,
            mime_type,
            match path {
                Some(p) => p,
                None => name,
            },
            size_bytes,
        ),
        AttachmentKind::File | AttachmentKind::Folder => PreviewView::File(
            name,
            mime_type,
            size_label,
            match file_snippet {
                Some(s) => Some(s),
                None => Some(snippet_of(context_block, FILE_SNIPPET_CHARS as nat)),
            },
            path,
        ),
        _ => PreviewView::Text(name, kind, opt_snippet(content)),
    }
}

/// Preview of a sent message's attachment. `file_snippet` is the text file's
/// snippet when the shell could read one.
pub open spec fn attachment_preview(
    kind: AttachmentKind,
    name: Seq<char>,
    mime_type: Seq<char>,
    path: Option<Seq<char>>,
    size_label: Seq<char>,
    file_snippet: Option<Seq<char>>,
    content: Option<Seq<char>>,
) -> PreviewView {
    match kind {
        AttachmentKind::Image | AttachmentKind::Screenshot => PreviewView::Image(
            name,
            kind,
            mime_type,
            match path {
                Some(p) => p,
                None => name,
            },
            None,
        ),
        AttachmentKind::File | AttachmentKind::Folder => PreviewView::File(
            name,
            mime_type,
            size_label,
            match file_snippet {
                Some(s) => Some(s),
                None => opt_snippet(content),
            },
            path,
        ),
        _ => PreviewView::Text(name, kind, opt_snippet(content)),
    }
}

fn owned_opt(o: Option<&str>) -> (r: Option<String>)
    ensures
        opt_chars(r) == opt_str_chars(o),
{
    match o {
        Some(s) => Some(owned(s)),
        None => None,
    }
}

fn snippet_opt(o: Option<&str>) -> (r: Option<String>)
    ensures
        opt_chars(r) == opt_snippet(opt_str_chars(o)),
{
    match o {
        Some(c) => Some(content_snippet(c, FILE_SNIPPET_CHARS)),
        None => None,
    }
}

/// Builds a composer preview from a pending attachment draft.
pub fn preview_from_draft(
    kind: AttachmentKind,
    name: &str,
    mime_type: &str,
    path: Option<&str>,
    size_bytes: Option<u64>,
    size_label: &str,
    file_snippet: Option<&str>,
    content: Option<&str>,
    context_block: &str,
) -> (r: AttachmentPreview)
    ensures
        r@ == draft_preview(
            kind,
            name@,
            mime_type@,
            opt_str_chars(path),
            size_bytes,
            size_label@,
            opt_str_chars(file_snippet),
            opt_str_chars(content),
            context_block@,
        ),
{
    match kind {
        AttachmentKind::Image | AttachmentKind::Screenshot => AttachmentPreview::Image {
            name: owned(name),
            kind,
            mime_type: owned(mime_type),
            path: match path {
                Some(p) => owned(p),
                None => owned(name),
            },
            size_bytes,
        },
        AttachmentKind::File | AttachmentKind::Folder => AttachmentPreview::File {
            name: owned(name),
            mime_type: owned(mime_type),
            size_label: owned(size_label),
            snippet: match file_snippet {
                Some(s) => Some(owned(s)),
                None => Some(content_snippet(context_block, FILE_SNIPPET_CHARS)),
            },
            path: owned_opt(path),
        },
        _ => AttachmentPreview::Text { name: owned(name), kind, snippet: snippet_opt(content) },
    }
}

/// Builds a preview from a sent message's attachment.
pub fn preview_from_attachment(
    kind: AttachmentKind,
    name: &str,
    mime_type: &str,
    path: Option<&str>,
    size_label: &str,
    file_snippet: Option<&str>,
    content: Option<&str>,
) -> (r: AttachmentPreview)
    ensures
        r@ == attachment_preview(
            kind,
            name@,
            mime_type@,
            opt_str_chars(path),
            size_label@,
            opt_str_chars(file_snippet),
            opt_str_chars(content),
        ),
{
    match kind {
        AttachmentKind::Image | AttachmentKind::Screenshot => AttachmentPreview::Image {
            name: owned(name),
            kind,
            mime_type: owned(mime_type),
            path: match path {
                Some(p) => owned(p),
                None => owned(name),
            },
            size_bytes: None,
        },
        AttachmentKind::File | AttachmentKind::Folder => AttachmentPreview::File {
            name: owned(name),
            mime_type: owned(mime_type),
            size_label: owned(size_label),
            snippet: match file_snippet {
                Some(s) => Some(owned(s)),
                None => snippet_opt(content),
            },
            path: owned_opt(path),
        },
        _ => AttachmentPreview::Text { name: owned(name), kind, snippet: snippet_opt(content) },
    }
}

} // verus!
