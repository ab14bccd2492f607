use c2pa_api::container::{
    box_sizes_are_in_range, boxes_are_walkable, ifd_chain_is_finite, is_walkable, next_ifd_of,
    tag_may_name_bmff, tag_may_name_tiff, tiff_layout_of, uuid_boxes_are_roomy, TiffLayout,
};

/// A TIFF whose only directory names itself as its successor.
fn ring_of_one() -> Vec<u8> {
    vec![0x49, 0x49, 0x2a, 0x00, 0x08, 0x00, 0x00, 0x00, 0x00, 0x00, 0x08, 0x00, 0x00, 0x00]
}

/// A little-endian TIFF of empty directories at the given offsets, each
/// naming the next as its successor and the last naming `last_link`.
fn chain_of(offsets: &[u32], last_link: u32, len: usize) -> Vec<u8> {
    let mut tiff = vec![0u8; len];
    tiff[0] = 0x49;
    tiff[1] = 0x49;
    tiff[2] = 0x2a;
    tiff[4..8].copy_from_slice(&offsets[0].to_le_bytes());
    for (i, offset) in offsets.iter().enumerate() {
        let at = *offset as usize;
        let link = if i + 1 < offsets.len() { offsets[i + 1] } else { last_link };
        tiff[at] = 0;
        tiff[at + 1] = 0;
        tiff[at + 2..at + 6].copy_from_slice(&link.to_le_bytes());
    }
    tiff
}

fn big_tiff(first: u64, link: u64) -> Vec<u8> {
    let mut tiff = vec![0x4d, 0x4d, 0x00, 0x2b, 0x00, 0x08, 0x00, 0x00];
    tiff.extend_from_slice(&first.to_be_bytes());
    tiff.extend_from_slice(&0u64.to_be_bytes());
    tiff.extend_from_slice(&link.to_be_bytes());
    tiff
}

fn large_box(size: u64) -> Vec<u8> {
    let mut bytes = vec![0x00, 0x00, 0x00, 0x01];
    bytes.extend_from_slice(b"mdat");
    bytes.extend_from_slice(&size.to_be_bytes());
    bytes
}

#[test]
fn directory_that_names_itself_never_ends() {
    assert!(!ifd_chain_is_finite(&ring_of_one()));
}

#[test]
fn ring_of_two_directories_never_ends() {
    assert!(!ifd_chain_is_finite(&chain_of(&[8, 20], 8, 32)));
}

#[test]
fn ring_behind_a_tail_never_ends() {
    assert!(!ifd_chain_is_finite(&chain_of(&[8, 20, 40], 20, 64)));
}

#[test]
fn chain_with_a_last_directory_ends() {
    assert!(ifd_chain_is_finite(&chain_of(&[8], 0, 14)));
    assert!(ifd_chain_is_finite(&chain_of(&[8, 20, 40], 0, 64)));
    assert!(ifd_chain_is_finite(&chain_of(&[40, 20, 8], 0, 64)));
}

#[test]
fn chain_that_leaves_the_payload_ends() {
    assert!(ifd_chain_is_finite(&chain_of(&[8, 20], 4000, 32)));
    assert!(ifd_chain_is_finite(&chain_of(&[8], 9, 14)));
}

#[test]
fn payload_without_tiff_header_has_no_chain() {
    assert!(ifd_chain_is_finite(b""));
    assert!(ifd_chain_is_finite(b"abc"));
    assert!(ifd_chain_is_finite(&[0xff, 0xd8, 0xff, 0xe0, 0, 16, 0, 0, 0, 0, 8, 0, 0, 0]));
    assert!(ifd_chain_is_finite(&[0x49, 0x49, 0x2b, 0x00, 0x08, 0x00, 0x00, 0x00, 0, 0, 8, 0, 0, 0]));
    assert!(ifd_chain_is_finite(&[0x49, 0x49, 0x2a, 0x00, 0x08, 0x00]));
}

#[test]
fn big_tiff_chains_are_followed() {
    assert!(!ifd_chain_is_finite(&big_tiff(16, 16)));
    assert!(ifd_chain_is_finite(&big_tiff(16, 0)));
    assert!(ifd_chain_is_finite(&big_tiff(16, u64::MAX)));
    assert!(ifd_chain_is_finite(&big_tiff(u64::MAX, 16)));
}

#[test]
fn header_fixes_the_layout() {
    assert_eq!(
        tiff_layout_of(&ring_of_one()),
        Some(TiffLayout { big_endian: false, big_tiff: false, first_ifd: 8 })
    );
    assert_eq!(
        tiff_layout_of(&[0x4d, 0x4d, 0x00, 0x2a, 0x00, 0x00, 0x01, 0x02]),
        Some(TiffLayout { big_endian: true, big_tiff: false, first_ifd: 258 })
    );
    assert_eq!(
        tiff_layout_of(&big_tiff(0x0102_0304_0506_0708, 0)),
        Some(TiffLayout { big_endian: true, big_tiff: true, first_ifd: 0x0102_0304_0506_0708 })
    );
    assert_eq!(tiff_layout_of(b"IM*\0\x08\0\0\0"), None);
    assert_eq!(tiff_layout_of(b"II+\0\x04\0\0\0\0\0\0\0\0\0\0\0"), None);
    assert_eq!(tiff_layout_of(b"II"), None);
}

#[test]
fn successor_is_read_behind_the_entries() {
    let layout = TiffLayout { big_endian: false, big_tiff: false, first_ifd: 8 };
    let mut tiff = vec![0x49, 0x49, 0x2a, 0x00, 0x08, 0x00, 0x00, 0x00, 0x01, 0x00];
    tiff.extend_from_slice(&[0xaa; 12]);
    tiff.extend_from_slice(&[0x78, 0x56, 0x34, 0x12]);
    assert_eq!(next_ifd_of(&tiff, layout, 8), Some(0x1234_5678));
    assert_eq!(next_ifd_of(&tiff[..25], layout, 8), None);
    assert_eq!(next_ifd_of(&tiff, layout, 1000), None);
    assert_eq!(next_ifd_of(&tiff, layout, u64::MAX), None);
}

#[test]
fn oversized_box_is_found_anywhere() {
    assert!(!box_sizes_are_in_range(&large_box(u64::MAX)));
    let mut behind = b"\0\0\0\x1cftypavif\0\0\0\0avifmif1miaf".to_vec();
    behind.extend_from_slice(&large_box(u64::MAX));
    assert!(!box_sizes_are_in_range(&behind));
    let mut unaligned = vec![0x07];
    unaligned.extend_from_slice(&large_box(u64::MAX - 16));
    assert!(!box_sizes_are_in_range(&unaligned));
}

#[test]
fn box_sizes_within_range_pass() {
    assert!(box_sizes_are_in_range(b""));
    assert!(box_sizes_are_in_range(&large_box(16)));
    assert!(box_sizes_are_in_range(&large_box(1 << 40)));
    assert!(box_sizes_are_in_range(&large_box(u64::MAX - 16)));
    assert!(box_sizes_are_in_range(&large_box(u64::MAX)[..15]));
    assert!(box_sizes_are_in_range(b"\0\0\0\x1cftypavif\0\0\0\0avifmif1miaf"));
}

#[test]
fn tiff_tags_are_known_in_any_case() {
    for tag in ["Tiff", "tiff", "TIFF", "tif", "image/tiff", "Image/TIFF", "dng", "image/dng",
        "image/x-adobe-dng", "arw", "image/x-sony-arw", "nef", "image/x-nikon-nef"]
    {
        assert!(tag_may_name_tiff(tag), "{}", tag);
    }
    for tag in ["", "Jpeg", "Png", "Gif", "WebP", "Avif", "c2pa", "tiffs", "tif ", "image/tif"] {
        assert!(!tag_may_name_tiff(tag), "{}", tag);
    }
}

#[test]
fn bmff_tags_are_known_in_any_case() {
    for tag in ["Avif", "avif", "AVIF", "heif", "heic", "mp4", "m4a", "mov", "m4v",
        "application/mp4", "audio/mp4", "image/avif", "image/heic", "image/heif", "video/mp4",
        "video/quicktime", "video/x-m4v"]
    {
        assert!(tag_may_name_bmff(tag), "{}", tag);
    }
    for tag in ["", "Jpeg", "Png", "Tiff", "Gif", "WebP", "c2pa", "mp3", "avi"] {
        assert!(!tag_may_name_bmff(tag), "{}", tag);
    }
}

#[test]
fn tag_beyond_ascii_may_name_anything() {
    assert!(tag_may_name_tiff("image/x-ni\u{212a}on-nef"));
    assert!(tag_may_name_tiff("t\u{131}ff"));
    assert!(tag_may_name_bmff("\u{e9}"));
}

#[test]
fn walk_is_judged_by_the_tag() {
    assert!(!is_walkable("Tiff", &ring_of_one()));
    assert!(!is_walkable("image/TIFF", &ring_of_one()));
    assert!(!is_walkable("t\u{131}ff", &ring_of_one()));
    assert!(is_walkable("Jpeg", &ring_of_one()));
    assert!(is_walkable("Avif", &ring_of_one()));
    assert!(is_walkable("", &ring_of_one()));
    assert!(!is_walkable("Avif", &large_box(u64::MAX)));
    assert!(!is_walkable("video/mp4", &large_box(u64::MAX)));
    assert!(is_walkable("Tiff", &large_box(u64::MAX)));
    assert!(is_walkable("Png", &large_box(u64::MAX)));
    assert!(is_walkable("Tiff", &chain_of(&[8], 0, 14)));
}

const MANIFEST_UUID: [u8; 16] = [
    0xd8, 0xfe, 0xc3, 0xd6, 0x1b, 0x0e, 0x48, 0x3c, 0x92, 0x97, 0x58, 0x28, 0x87, 0x7e, 0xc4, 0x81,
];

const XMP_UUID: [u8; 16] = [
    0xbe, 0x7a, 0xcf, 0xcb, 0x97, 0xa9, 0x42, 0xe8, 0x9c, 0x71, 0x99, 0x94, 0x91, 0xe3, 0xaf, 0xac,
];

/// A `uuid` box that declares `size` and holds `body` behind its UUID.
fn uuid_box(size: u32, uuid: &[u8; 16], body: &[u8]) -> Vec<u8> {
    let mut bytes = size.to_be_bytes().to_vec();
    bytes.extend_from_slice(b"uuid");
    bytes.extend_from_slice(uuid);
    bytes.extend_from_slice(body);
    bytes
}

fn manifest_body(purpose: &[u8], data: &[u8]) -> Vec<u8> {
    let mut body = vec![0u8; 4];
    body.extend_from_slice(purpose);
    body.push(0);
    body.extend_from_slice(&[0u8; 8]);
    body.extend_from_slice(data);
    body
}

#[test]
fn manifest_box_with_room_passes() {
    let body = manifest_body(b"manifest", b"jumbf data");
    let size = u32::try_from(24 + body.len()).unwrap();
    assert!(uuid_boxes_are_roomy(&uuid_box(size, &MANIFEST_UUID, &body)));
    assert!(boxes_are_walkable(&uuid_box(size, &MANIFEST_UUID, &body)));
    let least = manifest_body(b"", b"");
    assert!(uuid_boxes_are_roomy(&uuid_box(37, &MANIFEST_UUID, &least)));
}

#[test]
fn manifest_box_that_is_too_small_is_cramped() {
    let body = manifest_body(b"manifest", b"jumbf data");
    assert!(!uuid_boxes_are_roomy(&uuid_box(8, &MANIFEST_UUID, &body)));
    assert!(!uuid_boxes_are_roomy(&uuid_box(27, &MANIFEST_UUID, &body)));
    assert!(!uuid_boxes_are_roomy(&uuid_box(44, &MANIFEST_UUID, &body)));
    assert!(uuid_boxes_are_roomy(&uuid_box(45, &MANIFEST_UUID, &body)));
    assert!(!boxes_are_walkable(&uuid_box(8, &MANIFEST_UUID, &body)));
}

#[test]
fn manifest_box_without_end_of_purpose_is_cramped() {
    let body = vec![0x41u8; 200];
    assert!(!uuid_boxes_are_roomy(&uuid_box(224, &MANIFEST_UUID, &body)));
    let mut late = vec![0x41u8; 4 + 64];
    late.extend_from_slice(&[0u8; 40]);
    assert!(!uuid_boxes_are_roomy(&uuid_box(132, &MANIFEST_UUID, &late)));
}

#[test]
fn xmp_box_that_is_too_small_is_cramped() {
    assert!(!uuid_boxes_are_roomy(&uuid_box(8, &XMP_UUID, b"")));
    assert!(!uuid_boxes_are_roomy(&uuid_box(23, &XMP_UUID, b"<x/>")));
    assert!(uuid_boxes_are_roomy(&uuid_box(24, &XMP_UUID, b"")));
    assert!(uuid_boxes_are_roomy(&uuid_box(28, &XMP_UUID, b"<x/>")));
}

#[test]
fn other_boxes_are_never_cramped() {
    assert!(uuid_boxes_are_roomy(b""));
    assert!(uuid_boxes_are_roomy(b"\0\0\0\x08free"));
    assert!(uuid_boxes_are_roomy(&uuid_box(8, &[0x11; 16], b"")));
    assert!(uuid_boxes_are_roomy(b"\0\0\0\x1cftypavif\0\0\0\0avifmif1miaf"));
}

#[test]
fn cramped_box_matters_under_a_bmff_tag_only() {
    let cramped = uuid_box(8, &XMP_UUID, b"");
    assert!(!is_walkable("Avif", &cramped));
    assert!(is_walkable("Tiff", &cramped));
    assert!(is_walkable("Jpeg", &cramped));
}

/// A little-endian TIFF with one directory of one entry.
fn tiff_with_entry(tag: u16, values: u32, link: u32) -> Vec<u8> {
    let mut tiff = vec![0x49, 0x49, 0x2a, 0x00, 0x08, 0x00, 0x00, 0x00, 0x01, 0x00];
    tiff.extend_from_slice(&tag.to_le_bytes());
    tiff.extend_from_slice(&[0x04, 0x00]);
    tiff.extend_from_slice(&values.to_le_bytes());
    tiff.extend_from_slice(&[0x00, 0x00, 0x00, 0x00]);
    tiff.extend_from_slice(&link.to_le_bytes());
    tiff
}

#[test]
fn entry_with_too_many_sub_directories_is_refused() {
    assert!(!ifd_chain_is_finite(&tiff_with_entry(0x014a, u32::MAX, 0)));
    assert!(!ifd_chain_is_finite(&tiff_with_entry(0x014a, 7, 0)));
    assert!(!is_walkable("Tiff", &tiff_with_entry(0x014a, 1 << 20, 0)));
}

#[test]
fn entry_with_few_sub_directories_passes() {
    assert!(ifd_chain_is_finite(&tiff_with_entry(0x014a, 1, 0)));
    assert!(ifd_chain_is_finite(&tiff_with_entry(0x014a, 6, 0)));
    assert!(ifd_chain_is_finite(&tiff_with_entry(0x0100, u32::MAX, 0)));
}

/// A TIFF of `k` directories of `c` entries each that lie four bytes apart
/// and share the bytes of their entries; the last names no successor.
fn shared_directories(k: usize, c: u16) -> Vec<u8> {
    let span = 2 + 12 * usize::from(c);
    assert!(4 * k <= span);
    let mut tiff = vec![0u8; 8 + span + 4 * k];
    tiff[0] = 0x49;
    tiff[1] = 0x49;
    tiff[2] = 0x2a;
    tiff[4] = 8;
    for j in 0..k {
        let at = 8 + 4 * j;
        tiff[at..at + 2].copy_from_slice(&c.to_le_bytes());
        let link = if j + 1 < k { u32::try_from(at + 4).unwrap() } else { 0 };
        tiff[at + span..at + span + 4].copy_from_slice(&link.to_le_bytes());
    }
    tiff
}

#[test]
fn directories_that_share_their_bytes_run_out_of_fuel() {
    assert!(ifd_chain_is_finite(&shared_directories(12, 4)));
    assert!(!ifd_chain_is_finite(&shared_directories(30, 10)));
}
