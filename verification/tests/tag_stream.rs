//! Tag codes, tag headers and tag walks.

use ruffle_core::tag_decoder::{decode_tags, read_tag_code_and_length, stop_at_tag, TagCode, TagHeader};

#[test]
fn tag_codes_round_trip() {
    assert_eq!(TagCode::from_u16(1), Some(TagCode::ShowFrame));
    assert_eq!(TagCode::from_u16(26), Some(TagCode::PlaceObject2));
    assert_eq!(TagCode::from_u16(3), None);
    assert_eq!(TagCode::from_u16(1000), None);
    assert_eq!(TagCode::PlaceObject4.code(), 94);
    assert_eq!(TagCode::from_u16(TagCode::DefineBitsLossless2.code()), Some(TagCode::DefineBitsLossless2));
}

#[test]
fn short_and_long_headers() {
    let data = [0x40, 0x00, 0x3F, 0x03, 0x05, 0x00, 0x00, 0x00];
    assert_eq!(
        read_tag_code_and_length(&data, 0),
        Some(TagHeader { code: 1, tag: Some(TagCode::ShowFrame), body_start: 2, length: 0 })
    );
    assert_eq!(
        read_tag_code_and_length(&data, 2),
        Some(TagHeader { code: 12, tag: Some(TagCode::DoAction), body_start: 8, length: 5 })
    );
    assert_eq!(read_tag_code_and_length(&data, 7), None);
    assert_eq!(read_tag_code_and_length(&data[..5], 2), None);
}

#[test]
fn walk_stops_at_stop_tag() {
    // DoAction with a 2-byte body, ShowFrame, End, then a tag after the end.
    let data = [0x02, 0x03, 0xAA, 0xBB, 0x40, 0x00, 0x00, 0x00, 0x40, 0x00];
    let walk = decode_tags(&data, 0, TagCode::End);
    assert!(walk.stopped);
    let codes: Vec<u16> = walk.tags.iter().map(|t| t.code).collect();
    assert_eq!(codes, vec![12, 1, 0]);
    assert_eq!(walk.tags[0].body_start, 2);
    assert_eq!(walk.tags[0].length, 2);
    let frame = decode_tags(&data, 0, TagCode::ShowFrame);
    assert!(frame.stopped);
    assert_eq!(frame.tags.len(), 2);
}

#[test]
fn walk_ends_with_the_stream() {
    let data = [0x40, 0x00, 0x7F];
    let walk = decode_tags(&data, 0, TagCode::End);
    assert!(!walk.stopped);
    assert_eq!(walk.tags.len(), 1);
    let unknown = [0xC0, 0x00];
    let walk = decode_tags(&unknown, 0, TagCode::End);
    assert_eq!(walk.tags[0].tag, None);
    assert_eq!(walk.tags[0].code, 3);
}

#[test]
fn default_stop_tag_is_end() {
    assert!(stop_at_tag(TagCode::End));
    assert!(!stop_at_tag(TagCode::ShowFrame));
}
