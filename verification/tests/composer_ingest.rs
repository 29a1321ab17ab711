use ronin::composer_ingest::{
    check_pasted_image, drop_overlay_should_show, encode_pasted_rgba, extension_for_mime,
    image_context_block, paste_file_name,
};

#[test]
fn mime_types_map_to_extensions() {
    assert_eq!(extension_for_mime("image/png"), Some("png"));
    assert_eq!(extension_for_mime("image/jpg"), Some("jpg"));
    assert_eq!(extension_for_mime("image/jpeg"), Some("jpg"));
    assert_eq!(extension_for_mime("image/webp"), Some("webp"));
    assert_eq!(extension_for_mime("text/plain"), None);
    assert!(drop_overlay_should_show(true));
    assert!(!drop_overlay_should_show(false));
}

#[test]
fn pasted_image_checks() {
    assert_eq!(check_pasted_image(0, "image/png", 10), Err("Pasted image is empty.".to_string()));
    assert_eq!(
        check_pasted_image(3_000_000, "image/png", 2 * 1_048_576),
        Err("Pasted image exceeds the 2 MB attachment size limit.".to_string())
    );
    assert_eq!(
        check_pasted_image(5, "image/bmp", 10),
        Err("Unsupported pasted image type: image/bmp".to_string())
    );
    assert_eq!(check_pasted_image(5, "image/gif", 10), Ok("gif"));
    assert_eq!(paste_file_name(12, "png"), "paste-12.png");
    assert_eq!(image_context_block("paste-12.png"), "[Attached image: paste-12.png]");
}

#[test]
fn rgba_paste_is_encoded_as_png() {
    let pixels = vec![255u8, 0, 0, 255, 0, 255, 0, 255];
    let png = encode_pasted_rgba(2, 1, &pixels, 1_000_000).expect("png");
    assert_eq!(&png[..8], &[0x89, b'P', b'N', b'G', 0x0d, 0x0a, 0x1a, 0x0a]);
    assert_eq!(
        encode_pasted_rgba(2, 2, &pixels, 1_000_000),
        Err("Pasted image pixel data length mismatch (expected 16 bytes, got 8).".to_string())
    );
    assert_eq!(
        encode_pasted_rgba(usize::MAX, 2, &pixels, 1_000_000),
        Err("Invalid pasted image dimensions.".to_string())
    );
    assert_eq!(
        encode_pasted_rgba(2, 1, &pixels, 4),
        Err("Pasted image exceeds the 0 MB attachment size limit.".to_string())
    );
}
