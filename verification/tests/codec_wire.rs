//! The resource wire format, held against the round trip and against the
//! reference wire encoder.

use headless_display::codec::{decode_resource, encode_resource};
use headless_display::scene::Resource;

#[test]
fn encode_then_decode_round_trips() {
    let res = Resource::new(vec![vec![1, 2, 3], vec![], vec![9; 200]], 500);
    let bytes = encode_resource(&res);
    let back = decode_resource(&bytes).expect("own encoding must decode");
    assert_eq!(back.frames, res.frames);
    assert_eq!(back.frame_time_ms, 500);
}

#[test]
fn hold_duration_bounds_round_trip() {
    for t in [0u16, 1, 127, 128, 300, 65535] {
        let res = Resource::new(vec![vec![7]], t);
        let back = decode_resource(&encode_resource(&res)).expect("must decode");
        assert_eq!(back.frame_time_ms, t);
    }
}

#[test]
fn encoding_matches_the_reference_wire_format() {
    // The wire form must be byte-for-byte what the wire library writes
    // for the same payload (a struct serializes as its fields in order).
    let frames: Vec<Vec<u8>> = vec![vec![1, 2, 3], vec![0; 130]];
    let frame_time_ms: u16 = 500;
    let res = Resource::new(frames.clone(), frame_time_ms);
    let ours = encode_resource(&res);
    let reference = postcard::to_allocvec(&(frames, frame_time_ms)).expect("reference encoder");
    assert_eq!(ours, reference);
}

#[test]
fn reference_encoding_decodes() {
    let frames: Vec<Vec<u8>> = vec![vec![42; 7]];
    let frame_time_ms: u16 = 700;
    let bytes = postcard::to_allocvec(&(frames.clone(), frame_time_ms)).expect("reference encoder");
    let back = decode_resource(&bytes).expect("reference bytes must decode");
    assert_eq!(back.frames, frames);
    assert_eq!(back.frame_time_ms, frame_time_ms);
}

#[test]
fn malformed_bytes_are_rejected() {
    assert!(decode_resource(&vec![]).is_none(), "no bytes at all");
    assert!(decode_resource(&vec![1]).is_none(), "frame list cut short");
    assert!(decode_resource(&vec![1, 5, 1, 2]).is_none(), "frame shorter than its length");
    assert!(decode_resource(&vec![1, 1, 7]).is_none(), "hold duration missing");
    // A hold duration that does not fit in sixteen bits is rejected.
    assert!(decode_resource(&vec![0, 0xFF, 0xFF, 0xFF, 0x7F]).is_none());
}

#[test]
fn trailing_bytes_are_tolerated() {
    let res = Resource::new(vec![vec![5, 6]], 100);
    let mut bytes = encode_resource(&res);
    bytes.push(0xAA);
    bytes.push(0xBB);
    let back = decode_resource(&bytes).expect("trailing bytes are ignored");
    assert_eq!(back.frames, res.frames);
    assert_eq!(back.frame_time_ms, 100);
}

#[test]
fn empty_resource_round_trips() {
    let res = Resource::new(vec![], 0);
    let bytes = encode_resource(&res);
    assert_eq!(bytes, vec![0, 0]);
    let back = decode_resource(&bytes).expect("must decode");
    assert!(back.frames.is_empty());
    assert_eq!(back.frame_time_ms, 0);
}
