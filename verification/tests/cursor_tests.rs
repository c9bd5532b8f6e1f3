use cairnlink::cursor::Cursor;
use cairnlink::ErrorKind;

#[test]
fn cursor_reads_little_endian_values() {
    let data = [0x01u8, 0x02, 0x03, 0x04, 0x05, 0x06, 0x07, 0xff, 0xfe, 0xff];
    let mut c = Cursor::new(&data);
    assert_eq!(c.u8().unwrap(), 1);
    assert_eq!(c.u16().unwrap(), 0x0302);
    assert_eq!(c.u32().unwrap(), 0x0706_0504);
    assert_eq!(c.position(), 7);
    assert_eq!(c.i8().unwrap(), -1);
    assert_eq!(c.remaining(), 2);
    assert_eq!(c.peek(), Some(0xfe));
    assert_eq!(c.i8().unwrap(), -2);
    assert_eq!(c.i8().unwrap(), -1);
    assert!(c.is_empty());
    assert_eq!(c.peek(), None);
}

#[test]
fn cursor_i16_is_signed() {
    let data = [0xfeu8, 0xff, 0x00, 0x80];
    let mut c = Cursor::new(&data);
    assert_eq!(c.i16().unwrap(), -2);
    assert_eq!(c.i16().unwrap(), i16::MIN);
}

#[test]
fn cursor_eof_reports_position_and_does_not_move() {
    let data = [0x01u8, 0x02, 0x03];
    let mut c = Cursor::new(&data);
    c.u8().unwrap();
    let e = c.u32().unwrap_err();
    assert_eq!(e.kind, ErrorKind::UnexpectedEof);
    assert_eq!(e.offset, 1);
    assert_eq!(e.detail, "unexpected end of input");
    assert_eq!(c.position(), 1);
    assert_eq!(c.take(2).unwrap(), &[0x02, 0x03]);
}

#[test]
fn cursor_length_prefixed_takes() {
    let data = [0x02u8, b'h', b'i', 0x03, 0x00, b'a', b'b', b'c', 0x05, b'x'];
    let mut c = Cursor::new(&data);
    assert_eq!(c.take_len8().unwrap(), b"hi");
    assert_eq!(c.take_len16().unwrap(), b"abc");
    let e = c.take_len8().unwrap_err();
    assert_eq!(e.kind, ErrorKind::UnexpectedEof);
    assert_eq!(e.offset, 9);
    assert_eq!(c.split_remaining(), b"x");
}

#[test]
fn cursor_varint() {
    let data = [0x96u8, 0x01, 0x7f];
    let mut c = Cursor::new(&data);
    assert_eq!(c.varint().unwrap(), 150);
    assert_eq!(c.varint().unwrap(), 127);
    let long = [0x80u8, 0x80, 0x80, 0x80, 0x80, 0x01];
    let mut c = Cursor::new(&long);
    let e = c.varint().unwrap_err();
    assert_eq!(e.kind, ErrorKind::InvalidFrame);
    assert_eq!(e.offset, 5);
    assert_eq!(e.detail, "varint too long");
    let short = [0x80u8];
    let mut c = Cursor::new(&short);
    assert_eq!(c.varint().unwrap_err().kind, ErrorKind::UnexpectedEof);
}
