//! MIME guessing and data-URL construction.

use baker::media::{avif_data_url_from_bytes, data_url_from_bytes, mime_from_filename};

#[test]
fn mime_matches_known_extensions_case_insensitively() {
    assert_eq!(mime_from_filename("photo.png"), "image/png");
    assert_eq!(mime_from_filename("photo.PNG"), "image/png");
    assert_eq!(mime_from_filename("photo.jpg"), "image/jpeg");
    assert_eq!(mime_from_filename("photo.JpEg"), "image/jpeg");
    assert_eq!(mime_from_filename("anim.gif"), "image/gif");
    assert_eq!(mime_from_filename("pic.webp"), "image/webp");
    assert_eq!(mime_from_filename("archive.tar.png"), "image/png");
    assert_eq!(mime_from_filename("notes.txt"), "application/octet-stream");
    assert_eq!(mime_from_filename("noextension"), "application/octet-stream");
    assert_eq!(mime_from_filename("trailingdot."), "application/octet-stream");
    assert_eq!(mime_from_filename(""), "application/octet-stream");
}

#[test]
fn data_url_carries_the_base64_payload() {
    let url = data_url_from_bytes("text/plain", b"abc".to_vec());
    assert_eq!(url, "data:text/plain;base64,YWJj");
    let url = data_url_from_bytes("image/png", b"a".to_vec());
    assert_eq!(url, "data:image/png;base64,YQ==");
    let url = data_url_from_bytes("application/octet-stream", Vec::new());
    assert_eq!(url, "data:application/octet-stream;base64,");
}

const ONE_PIXEL_PNG_BASE64: &str =
    "iVBORw0KGgoAAAANSUhEUgAAAAEAAAABCAYAAAAfFcSJAAAADUlEQVR42mNkYPhfDwAChwGA60e6kgAAAABJRU5ErkJggg==";

#[test]
fn avif_data_url_re_encodes_a_png() {
    let png = base64::engine::Engine::decode(
        &base64::engine::general_purpose::STANDARD,
        ONE_PIXEL_PNG_BASE64,
    )
    .unwrap();
    let url = avif_data_url_from_bytes(png.clone()).unwrap();
    let prefix = "data:image/avif;base64,";
    assert!(url.starts_with(prefix));
    let payload = base64::engine::Engine::decode(
        &base64::engine::general_purpose::STANDARD,
        &url[prefix.len()..],
    )
    .unwrap();
    // A real AVIF container, not the input handed back.
    assert_eq!(&payload[4..12], b"ftypavif");
    assert_ne!(payload, png);
}

#[test]
fn avif_data_url_rejects_non_images() {
    assert_eq!(avif_data_url_from_bytes(b"definitely not an image".to_vec()), None);
    assert_eq!(avif_data_url_from_bytes(Vec::new()), None);
}
