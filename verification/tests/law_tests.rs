use cairnlink::codec::BitBackrefDecoder;
use cairnlink::dictionary::Dictionary;
use cairnlink::fragment::FragmentReassembler;
use cairnlink::inventory::replay_inventory;
use cairnlink::route::decode_route;

#[test]
fn route_book_keeps_at_most_4096_lanes() {
    let mut payload = Vec::new();
    for i in 0..4100u16 {
        payload.push(0x11);
        payload.extend(i.to_le_bytes());
        payload.extend([0, 0, 1, 0, 0, 0]);
    }
    let book = decode_route(&payload, &Dictionary::new()).unwrap();
    assert_eq!(book.lanes.len(), 4096);
    assert_eq!(book.score_cached_lane(), 4096);
}

#[test]
fn route_book_keeps_at_most_2048_nodes() {
    let mut payload = Vec::new();
    for _ in 0..2050 {
        payload.extend([0x10, 1, 0, 2, 0, 3, 0, 4, 0, 0]);
    }
    let book = decode_route(&payload, &Dictionary::new()).unwrap();
    assert_eq!(book.nodes.len(), 2048);
}

#[test]
fn ledger_keeps_at_most_2048_items() {
    let mut payload = Vec::new();
    for _ in 0..2050 {
        payload.extend([0x20, 1, 0, 1, 0, 1, 0, 0, 0]);
    }
    let ledger = replay_inventory(&payload).unwrap();
    assert_eq!(ledger.items.len(), 2048);
}

#[test]
fn rotating_twice_keeps_what_rotating_once_keeps() {
    let payload = [
        0x20, 1, 0, 0, 0, 9, 0, 0, 0, //
        0x20, 2, 0, 5, 0, 2, 0, 0, 0, //
        0x20, 3, 0, 0xff, 0xff, 4, 0, 0, 0,
    ];
    for selector in [0u8, 3, 0x80] {
        let mut ledger = replay_inventory(&payload).unwrap();
        ledger.rotate(selector);
        let once: Vec<u16> = ledger.items.iter().map(|i| i.sku).collect();
        ledger.rotate(selector);
        let twice: Vec<u16> = ledger.items.iter().map(|i| i.sku).collect();
        assert_eq!(once, twice);
    }
}

#[test]
fn compacting_twice_keeps_what_compacting_once_keeps() {
    let payload = [
        0x11, 1, 0, 2, 0, 10, 0, 0x80, 5, //
        0x11, 2, 0, 3, 0, 20, 0, 0, 30, //
        0x11, 3, 0, 4, 0, 30, 0, 0, 2,
    ];
    for selector in [0u8, 1, 0x41] {
        let mut book = decode_route(&payload, &Dictionary::new()).unwrap();
        book.compact(selector);
        let once: Vec<u16> = book.lanes.iter().map(|l| l.from).collect();
        book.compact(selector);
        let twice: Vec<u16> = book.lanes.iter().map(|l| l.from).collect();
        assert_eq!(once, twice);
    }
}

#[test]
fn materializing_twice_changes_nothing() {
    let mut f = FragmentReassembler::new();
    f.parse_ops(&[0x30, 0, 2, b'a', b'b', 0x31, 0, 0x34, 1, b'c']).unwrap();
    f.materialize_pending();
    let once = f.stitched();
    f.materialize_pending();
    assert_eq!(f.stitched(), once);
    assert_eq!(once, vec![b"ab".to_vec(), b"c:radio".to_vec()]);
}

#[test]
fn stitched_messages_are_never_taken_back() {
    let mut f = FragmentReassembler::new();
    let first = f.parse_ops(&[0x30, 0, 1, b'x', 0x31, 0, 0x33]).unwrap();
    let second = f.parse_ops(&[0x32, 0, 0x30, 0, 1, b'y', 0x31, 0, 0x33]).unwrap();
    assert_eq!(first, vec![b"x".to_vec()]);
    assert_eq!(second, vec![b"x".to_vec(), b"y".to_vec()]);
}

#[test]
fn produced_bytes_are_never_taken_back() {
    let mut c = BitBackrefDecoder::new();
    let first = c.decode_tile(&[0x40, 2, b'a', b'b']).unwrap();
    let second = c.decode_tile(&[0x42, 0x40, 1, b'c']).unwrap();
    assert_eq!(first, b"ab".to_vec());
    assert_eq!(second, b"abc".to_vec());
}
