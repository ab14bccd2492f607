use c2pa_api::sniff::{detect_image_format, tag_from_guess, PROBE_LEN};

fn png_head() -> Vec<u8> {
    vec![0x89, b'P', b'N', b'G', b'\r', b'\n', 0x1a, b'\n']
}

#[test]
fn text_has_the_empty_tag() {
    assert_eq!(detect_image_format(b"abc"), "");
}

#[test]
fn empty_payload_has_the_empty_tag() {
    assert_eq!(detect_image_format(b""), "");
}

#[test]
fn png_is_recognised() {
    assert_eq!(detect_image_format(&png_head()), "Png");
}

#[test]
fn jpeg_is_recognised() {
    assert_eq!(detect_image_format(&[0xff, 0xd8, 0xff, 0xe0, 0x00, 0x10]), "Jpeg");
}

#[test]
fn gif_is_recognised() {
    assert_eq!(detect_image_format(b"GIF89a\x01\x00\x01\x00"), "Gif");
    assert_eq!(detect_image_format(b"GIF87a\x01\x00\x01\x00"), "Gif");
}

#[test]
fn webp_is_recognised() {
    assert_eq!(detect_image_format(b"RIFF\x24\x00\x00\x00WEBPVP8 "), "WebP");
}

#[test]
fn tiff_is_recognised() {
    assert_eq!(detect_image_format(b"II*\x00\x08\x00\x00\x00"), "Tiff");
    assert_eq!(detect_image_format(b"MM\x00*\x00\x00\x00\x08"), "Tiff");
}

#[test]
fn truncated_header_has_the_empty_tag() {
    let head = png_head();
    assert_eq!(detect_image_format(&head[..4]), "");
    assert_eq!(detect_image_format(&[0xff, 0xd8]), "");
    assert_eq!(detect_image_format(b"GIF8"), "");
}

#[test]
fn magic_must_open_the_payload() {
    let mut payload = vec![0u8];
    payload.extend_from_slice(&png_head());
    assert_eq!(detect_image_format(&payload), "");
}

#[test]
fn only_the_leading_bytes_count() {
    let mut one = png_head();
    one.extend_from_slice(&[1u8; 8]);
    assert_eq!(one.len(), PROBE_LEN);
    let mut two = one.clone();
    one.extend_from_slice(b"one tail");
    two.extend_from_slice(&[0xff; 300]);
    assert_eq!(detect_image_format(&one), detect_image_format(&two));
    assert_eq!(detect_image_format(&one), "Png");

    let mut text = b"0123456789abcdef".to_vec();
    text.extend_from_slice(&png_head());
    assert_eq!(detect_image_format(&text), "");
}

#[test]
fn tag_is_stable() {
    let payload = [0xff, 0xd8, 0xff, 0xdb];
    assert_eq!(detect_image_format(&payload), detect_image_format(&payload));
}

#[test]
fn guess_becomes_tag() {
    assert_eq!(tag_from_guess(Some(String::from("Png"))), "Png");
    assert_eq!(tag_from_guess(Some(String::from("WebP"))), "WebP");
    assert_eq!(tag_from_guess(None), "");
}
