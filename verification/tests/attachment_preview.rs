use ronin::attachment_preview::{
    preview_from_attachment, preview_from_draft, AttachmentKind, AttachmentPreview,
};
use ronin::composer_ingest::{drop_error_message, format_drop_error, DropErrorKind};

#[test]
fn images_use_their_path_or_name() {
    assert_eq!(
        preview_from_draft(AttachmentKind::Screenshot, "shot.png", "image/png", None, Some(10), "10 B", None, None, ""),
        AttachmentPreview::Image {
            name: "shot.png".into(),
            kind: AttachmentKind::Screenshot,
            mime_type: "image/png".into(),
            path: "shot.png".into(),
            size_bytes: Some(10),
        }
    );
    assert_eq!(
        preview_from_attachment(AttachmentKind::Image, "a.png", "image/png", Some("/t/a.png"), "", None, None),
        AttachmentPreview::Image {
            name: "a.png".into(),
            kind: AttachmentKind::Image,
            mime_type: "image/png".into(),
            path: "/t/a.png".into(),
            size_bytes: None,
        }
    );
}

#[test]
fn file_snippets_fall_back_to_the_context_block_or_content() {
    let long = "x".repeat(130);
    match preview_from_draft(AttachmentKind::File, "f.bin", "application/octet-stream", Some("/f.bin"), Some(2048), "2.0 KB", None, None, &long) {
        AttachmentPreview::File { snippet, size_label, path, .. } => {
            assert_eq!(snippet, Some(format!("{}…", "x".repeat(120))));
            assert_eq!(size_label, "2.0 KB");
            assert_eq!(path.as_deref(), Some("/f.bin"));
        }
        other => panic!("unexpected {other:?}"),
    }
    match preview_from_attachment(AttachmentKind::Folder, "d", "inode/directory", None, "0 B", None, None) {
        AttachmentPreview::File { snippet, .. } => assert_eq!(snippet, None),
        other => panic!("unexpected {other:?}"),
    }
    match preview_from_attachment(AttachmentKind::File, "n.txt", "text/plain", None, "3 B", Some("abc"), Some("zzz")) {
        AttachmentPreview::File { snippet, .. } => assert_eq!(snippet.as_deref(), Some("abc")),
        other => panic!("unexpected {other:?}"),
    }
}

#[test]
fn text_kinds_show_a_content_snippet() {
    assert_eq!(
        preview_from_draft(AttachmentKind::Memory, "m", "text/plain", None, None, "", None, Some("hello"), "block"),
        AttachmentPreview::Text { name: "m".into(), kind: AttachmentKind::Memory, snippet: Some("hello".into()) }
    );
}

#[test]
fn drop_errors_name_the_file() {
    assert_eq!(
        format_drop_error("/home/u/pic.bin", DropErrorKind::BinaryFile, ""),
        "Unsupported file type: pic.bin appears to be binary and cannot be attached as text. Use an image (png/jpg/gif/webp/svg) or a text file."
    );
    assert_eq!(
        format_drop_error("/data/big.log", DropErrorKind::FileTooLarge, ""),
        "File too large: big.log exceeds the attachment size limit."
    );
    assert_eq!(
        drop_error_message("src", DropErrorKind::IsDirectory, ""),
        "Cannot attach directory: src. Drop individual files instead."
    );
    assert_eq!(
        format_drop_error("/", DropErrorKind::Other, "permission denied"),
        "Could not attach /: permission denied"
    );
}
