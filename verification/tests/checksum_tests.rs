use cairnlink::checksum::{crc16, folded_sum, looks_like_text};

#[test]
fn crc16_of_empty_input_is_the_seed() {
    assert_eq!(crc16(b""), 0x6d2b);
}

#[test]
fn crc16_known_values() {
    assert_eq!(crc16(b"abc"), 0x9ef0);
    assert_eq!(crc16(b"123456789"), 0x3a12);
}

#[test]
fn folded_sum_known_values() {
    assert_eq!(folded_sum(b""), 0x9e37_79b9);
    assert_eq!(folded_sum(b"abc"), 0x74cc_8448);
    assert_eq!(folded_sum(b"ops"), 0xb621_504b);
}

#[test]
fn looks_like_text_counts_printable_bytes() {
    assert!(looks_like_text(b""));
    assert!(looks_like_text(b"plain words\n"));
    // three printable bytes out of four is enough
    assert!(looks_like_text(&[b'a', b'b', b'c', 0x00]));
    // two out of four is not
    assert!(!looks_like_text(&[b'a', b'b', 0x00, 0xff]));
}
