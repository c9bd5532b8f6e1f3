use cairnlink::frame::encode_frame_for_seed;
use cairnlink::model::FrameKind;
use cairnlink::{parse_frame, parse_frames, ErrorKind};

#[test]
fn encoded_frame_layout() {
    let out = encode_frame_for_seed(3, b"abc");
    assert_eq!(out, vec![3, 0x40, 0, 0, 3, 0, 0xf0, 0x9e, b'a', b'b', b'c']);
}

#[test]
fn encoded_frame_parses_back() {
    let out = encode_frame_for_seed(0x17, b"payload");
    let f = parse_frame(&out).unwrap();
    assert_eq!(f.kind, FrameKind::Journal);
    assert_eq!(f.raw_kind, 0x17);
    assert_eq!(f.flags, 0x40);
    assert_eq!(f.channel, 0);
    assert_eq!(f.checksum, cairnlink::checksum::crc16(b"payload"));
    assert_eq!(f.payload, b"payload".to_vec());
}

#[test]
fn frame_kinds_by_low_nibble() {
    assert_eq!(FrameKind::from_byte(0), FrameKind::Dictionary);
    assert_eq!(FrameKind::from_byte(1), FrameKind::Dictionary);
    assert_eq!(FrameKind::from_byte(0x12), FrameKind::Manifest);
    assert_eq!(FrameKind::from_byte(9), FrameKind::Codec);
    assert_eq!(FrameKind::from_byte(0x2b), FrameKind::Bundle);
    assert_eq!(FrameKind::from_byte(0x0c), FrameKind::Unknown(12));
    assert_eq!(FrameKind::from_byte(0xff), FrameKind::Unknown(15));
}

#[test]
fn several_frames_are_read_in_order() {
    let mut data = encode_frame_for_seed(4, b"xy");
    data.extend(encode_frame_for_seed(5, b""));
    data.extend([7u8, 0, 9, 0, 1, 0, 0, 0, b'z']);
    let frames = parse_frames(&data).unwrap();
    assert_eq!(frames.len(), 3);
    assert_eq!(frames[0].kind, FrameKind::Inventory);
    assert_eq!(frames[1].kind, FrameKind::Fragment);
    assert!(frames[1].payload.is_empty());
    assert_eq!(frames[2].kind, FrameKind::Journal);
    assert_eq!(frames[2].channel, 9);
    assert_eq!(frames[2].payload, vec![b'z']);
}

#[test]
fn checksum_mismatch_is_rejected() {
    let mut data = encode_frame_for_seed(3, b"abc");
    data[8] = b'x';
    let e = parse_frames(&data).unwrap_err();
    assert_eq!(e.kind, ErrorKind::BadChecksum);
    assert_eq!(e.offset, 0);
    assert_eq!(e.detail, "frame checksum mismatch");
}

#[test]
fn checksum_is_ignored_without_flag() {
    let data = [3u8, 0, 0, 0, 1, 0, 0xaa, 0xbb, b'q'];
    let f = parse_frame(&data).unwrap();
    assert_eq!(f.checksum, 0xbbaa);
    assert_eq!(f.payload, vec![b'q']);
}

#[test]
fn truncated_first_frame_is_an_error() {
    let data = [3u8, 0, 0, 0, 9, 0, 0, 0, 0x00, 0xff];
    let e = parse_frames(&data).unwrap_err();
    assert_eq!(e.kind, ErrorKind::UnexpectedEof);
    assert_eq!(e.offset, 0);
    assert_eq!(e.detail, "frame body truncated");
}

#[test]
fn truncated_later_frame_ends_the_stream() {
    let mut data = encode_frame_for_seed(3, b"abc");
    data.extend([3u8, 0, 0, 0, 9, 0, 0, 0, 0x00]);
    let frames = parse_frames(&data).unwrap();
    assert_eq!(frames.len(), 1);
}

#[test]
fn short_text_becomes_a_manifest_frame() {
    let frames = parse_frames(b"site=a").unwrap();
    assert_eq!(frames.len(), 1);
    assert_eq!(frames[0].kind, FrameKind::Manifest);
    assert_eq!(frames[0].raw_kind, 2);
    assert_eq!(frames[0].checksum, cairnlink::checksum::crc16(b"site=a"));
    assert_eq!(frames[0].payload, b"site=a".to_vec());
}

#[test]
fn long_text_becomes_a_manifest_frame() {
    let text = b"site=harbor-east\nmode=monitor\n";
    let frames = parse_frames(text).unwrap();
    assert_eq!(frames.len(), 1);
    assert_eq!(frames[0].kind, FrameKind::Manifest);
    assert_eq!(frames[0].payload, text.to_vec());
}

#[test]
fn binary_noise_without_frames_yields_nothing() {
    let frames = parse_frames(&[0xffu8, 0xfe, 0x00]).unwrap();
    assert!(frames.is_empty());
    let e = parse_frame(&[0xffu8, 0xfe, 0x00]).unwrap_err();
    assert_eq!(e.kind, ErrorKind::InvalidFrame);
    assert_eq!(e.detail, "no frame found");
}

#[test]
fn too_many_frames_are_rejected() {
    let mut data = Vec::new();
    for _ in 0..513 {
        data.extend([3u8, 0, 0, 0, 0, 0, 0, 0]);
    }
    let e = parse_frames(&data).unwrap_err();
    assert_eq!(e.kind, ErrorKind::LimitExceeded);
    assert_eq!(e.offset, 512 * 8);
    assert_eq!(e.detail, "too many frames");
    let ok = parse_frames(&data[..512 * 8]).unwrap();
    assert_eq!(ok.len(), 512);
}
