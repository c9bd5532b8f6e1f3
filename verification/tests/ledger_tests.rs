use cairnlink::dictionary::{decode_dictionary, Dictionary};
use cairnlink::inventory::{replay_inventory, InventoryLedger};
use cairnlink::journal::JournalReplayer;
use cairnlink::model::RouteLane;
use cairnlink::replay_journal;
use cairnlink::route::{decode_route, RouteBook};
use cairnlink::ErrorKind;

fn item(sku: u16, qty: i16, expires: u16, name: &[u8]) -> Vec<u8> {
    let mut v = vec![0x20];
    v.extend(sku.to_le_bytes());
    v.extend(qty.to_le_bytes());
    v.extend(expires.to_le_bytes());
    v.push(1);
    v.push(name.len() as u8);
    v.extend(name);
    v
}

fn lane(from: u16, to: u16, minutes: u16, flags: u8, confidence: u8) -> Vec<u8> {
    let mut v = vec![0x11];
    v.extend(from.to_le_bytes());
    v.extend(to.to_le_bytes());
    v.extend(minutes.to_le_bytes());
    v.push(flags);
    v.push(confidence);
    v
}

#[test]
fn inventory_movements_and_reconcile() {
    let mut payload = item(1, 10, 5, b"abc");
    payload.extend([0x21, 1, 0, 0xfd, 0xff, 0x25]);
    let ledger = replay_inventory(&payload).unwrap();
    assert_eq!(ledger.items.len(), 1);
    assert_eq!(ledger.items[0].quantity, 7);
    assert_eq!(ledger.items[0].name, b"abc".to_vec());
    assert_eq!(ledger.movements, -3 + 7);
    assert_eq!(ledger.reconcile(), 7);
}

#[test]
fn inventory_deltas_accumulate() {
    let mut ledger = InventoryLedger::new();
    let mut payload = item(4, 32767, 1, b"w");
    for _ in 0..3 {
        payload.extend([0x21, 4, 0, 0xff, 0x7f]);
    }
    ledger.parse_ops(&payload).unwrap();
    assert_eq!(ledger.items[0].quantity, 32767 * 4);
    assert_eq!(ledger.movements, 32767 * 3);
}

#[test]
fn long_name_snapshots_mix_into_reconcile() {
    let mut payload = item(1, 7, 5, b"longername");
    payload.extend([0x22, 0, 0]);
    let ledger = replay_inventory(&payload).unwrap();
    assert_eq!(ledger.reconcile(), 219509364);
}

#[test]
fn quantity_view_read_past_its_end_adds_nothing() {
    let mut payload = item(1, 7, 5, b"abc");
    payload.extend([0x24, 5, 0]);
    let ledger = replay_inventory(&payload).unwrap();
    assert_eq!(ledger.reconcile(), 7);
}

#[test]
fn rotation_keeps_stock_or_fresh_items() {
    let mut payload = item(1, 0, 9, b"a");
    payload.extend(item(2, 5, 2, b"b"));
    payload.extend(item(3, -1, 4, b"c"));
    let mut ledger = replay_inventory(&payload).unwrap();
    let mut by_stock = ledger.clone();
    by_stock.rotate(0);
    assert_eq!(by_stock.items.len(), 1);
    assert_eq!(by_stock.items[0].sku, 2);
    ledger.rotate(3);
    let skus: Vec<u16> = ledger.items.iter().map(|i| i.sku).collect();
    assert_eq!(skus, vec![1, 3]);
}

#[test]
fn inventory_truncated_op_is_an_error() {
    let e = replay_inventory(&[0x20, 1, 0, 2]).unwrap_err();
    assert_eq!(e.kind, ErrorKind::UnexpectedEof);
    assert_eq!(e.offset, 3);
}

#[test]
fn lane_scores() {
    let blocked = RouteLane { from: 1, to: 2, minutes: 10, flags: 0x80, confidence: 5 };
    assert_eq!(blocked.score(), 705);
    let open = RouteLane { from: 2, to: 3, minutes: 20, flags: 0, confidence: 30 };
    assert_eq!(open.score(), -10);
}

#[test]
fn route_book_lanes_nodes_and_score() {
    let dict = Dictionary::new();
    let mut payload = lane(1, 2, 10, 0x80, 5);
    payload.extend(lane(2, 3, 20, 0, 30));
    payload.extend([0x10, 1, 0, 2, 0, 100, 0, 120, 0, 2, b'n', b'1']);
    let book = decode_route(&payload, &dict).unwrap();
    assert_eq!(book.lanes.len(), 2);
    assert_eq!(book.nodes.len(), 1);
    assert_eq!(book.nodes[0].pressure(), 20);
    assert_eq!(book.nodes[0].label, b"n1".to_vec());
    assert_eq!(book.score_cached_lane(), 695);
    assert_eq!(book.audit_labels(), 0);
}

#[test]
fn route_compaction() {
    let dict = Dictionary::new();
    let mut payload = lane(1, 2, 10, 0x80, 5);
    payload.extend(lane(2, 3, 20, 0, 30));
    payload.extend(lane(3, 4, 30, 0, 2));
    let book = decode_route(&payload, &dict).unwrap();
    let mut open = book.clone();
    open.compact(0);
    assert_eq!(open.lanes.len(), 2);
    assert_eq!(open.lanes[0].from, 2);
    let mut confident = book.clone();
    confident.compact(0x41);
    assert_eq!(confident.lanes.len(), 1);
    assert_eq!(confident.lanes[0].from, 2);
}

#[test]
fn cached_lane_score_falls_back_to_the_sum() {
    let dict = Dictionary::new();
    let mut payload = lane(1, 2, 10, 0, 0);
    payload.extend([0x12, 4, 0, 0x15]);
    let book = decode_route(&payload, &dict).unwrap();
    assert_eq!(book.score_cached_lane(), 10);
    assert_eq!(book.audit_labels(), 10);
}

#[test]
fn route_labels_from_aliases() {
    let dict = decode_dictionary(&[0x01, 3, b'a', b'b', b'c', 0x02, 7, 0, 0, 0]).unwrap();
    let mut book = RouteBook::new();
    book.parse_ops(&[0x14, 7, 0, 0x14, 8, 0], &dict).unwrap();
    assert_eq!(book.audit_labels(), 140148531922979);
}

#[test]
fn journal_events_and_checkpoints() {
    let s = replay_journal(&[0x60, 1, 0, 5, 0, 2, b'h', b'i', 0x61, 0, 0]).unwrap();
    assert_eq!(s.events, 1);
    assert_eq!(s.checkpoints, 1);
    assert_eq!(s.score, 0);
    let s = replay_journal(&[0x60, 1, 0, 5, 0, 2, b'h', b'i', 0x61, 0, 0, 0x63]).unwrap();
    assert_eq!(s.events, 1);
    assert_eq!(s.checkpoints, 0);
    assert_eq!(s.score, 4379641622889 + 5);
}

#[test]
fn journal_filter_and_local_checkpoints() {
    let mut r = JournalReplayer::new();
    let s = r
        .replay(&[
            0x60, 1, 0, 5, 0, 0, //
            0x60, 2, 0, 0xfe, 0xff, 0, //
            0x62, 0, //
            0x64, 1, b'q', //
            0x63,
        ])
        .unwrap();
    assert_eq!(s.events, 1);
    assert_eq!(s.checkpoints, 0);
    assert_eq!(s.score, span_q() - 2);
}

fn span_q() -> i64 {
    // the score of the one-byte span "q"
    ((0xfeed_beefu64.rotate_left(5)) ^ (b'q' as u64)) as i64
}

#[test]
fn journal_truncated_event_is_an_error() {
    let e = replay_journal(&[0x60, 1, 0, 5]).unwrap_err();
    assert_eq!(e.kind, ErrorKind::UnexpectedEof);
    assert_eq!(e.offset, 3);
}

#[test]
fn reconcile_overflow_is_reported() {
    let mut payload = item(1, 1, 9, b"a");
    payload.extend(item(1, 1, 9, b"b"));
    for _ in 0..65538 {
        payload.extend([0x21, 1, 0, 0xff, 0x7f]);
    }
    let ledger = cairnlink::inventory::replay_inventory_checked(&payload).unwrap();
    assert_eq!(ledger.items()[1].quantity, i32::MAX);
    assert_eq!(ledger.movements(), 2 * 65538 * 32767);
    assert!(ledger.reconcile_would_overflow());
    payload.push(0x25);
    let e = cairnlink::inventory::replay_inventory_checked(&payload).unwrap_err();
    assert_eq!(e.kind, ErrorKind::LimitExceeded);
    assert_eq!(e.detail, "arithmetic overflow");
}

#[test]
fn checked_route_and_script_entry_points() {
    let dict = Dictionary::new();
    let mut payload = lane(1, 2, 10, 0x80, 5);
    payload.push(0x15);
    let book = cairnlink::route::decode_route_checked(&payload, &dict).unwrap();
    assert!(!book.score_would_overflow());
    assert_eq!(book.lanes().len(), 1);
    assert_eq!(book.nodes().len(), 0);
    assert_eq!(book.audit_labels(), 705);
    let r = cairnlink::script::run_script_checked(&[0x50, 5, 0, 0x50, 7, 0]).unwrap();
    assert_eq!(r.accumulator, 12);
}
