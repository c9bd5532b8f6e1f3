use cairnlink::dictionary::{decode_dictionary, Dictionary};
use cairnlink::ErrorKind;

fn two_entries_and_alias(weight: u8) -> Vec<u8> {
    vec![
        0x01, 3, b'a', b'b', b'c', //
        0x01, 5, b'h', b'e', b'l', b'l', b'o', //
        0x02, 7, 0, 1, weight,
    ]
}

#[test]
fn entries_and_aliases_resolve() {
    let mut d = decode_dictionary(&two_entries_and_alias(1)).unwrap();
    assert_eq!(d.len(), 2);
    assert_eq!(d.sample(0), Some(&b"abc"[..]));
    assert_eq!(d.sample(3), Some(&b"hello"[..]));
    assert_eq!(d.resolve_alias_text(7), Some("hello".to_string()));
    assert_eq!(d.resolve_alias_text(8), None);
    assert_eq!(d.audit_aliases(), 7 + 1);
}

#[test]
fn empty_dictionary_has_no_sample() {
    let mut d = Dictionary::new();
    assert_eq!(d.len(), 0);
    assert_eq!(d.sample(0), None);
    assert_eq!(d.audit_aliases(), 0);
}

#[test]
fn alias_on_empty_dictionary_is_ignored() {
    let mut d = Dictionary::new();
    d.add_alias(3, 0, 0);
    assert_eq!(d.resolve_alias_text(3), None);
}

#[test]
fn compaction_keeps_even_or_short_entries() {
    let mut payload = two_entries_and_alias(1);
    payload.extend([0x01, 2, b'o', b'k', 0x03, 0x00]);
    let d = decode_dictionary(&payload).unwrap();
    // "abc" (index 0) and "ok" (index 2) stay, "hello" (index 1) goes
    assert_eq!(d.len(), 2);
    assert_eq!(d.sample(0), Some(&b"abc"[..]));
    assert_eq!(d.sample(1), Some(&b"ok"[..]));
}

#[test]
fn stale_odd_alias_reads_its_snapshot() {
    let mut payload = two_entries_and_alias(1);
    payload.extend([0x03, 0x00]);
    let d = decode_dictionary(&payload).unwrap();
    assert_eq!(d.resolve_alias_text(7), Some("hello".to_string()));
}

#[test]
fn stale_even_alias_reads_the_current_entry() {
    let mut payload = two_entries_and_alias(2);
    payload.extend([0x03, 0x00]);
    let mut d = decode_dictionary(&payload).unwrap();
    // target 1 modulo the one remaining entry
    assert_eq!(d.resolve_alias_text(7), Some("abc".to_string()));
    assert_eq!(d.audit_aliases(), 7 + 2);
}

#[test]
fn audit_scores_stale_snapshots() {
    let mut payload = two_entries_and_alias(5);
    payload.extend([0x03, 0x00]);
    let mut d = decode_dictionary(&payload).unwrap();
    assert_eq!(d.audit_aliases(), 143512096698744303);
}

#[test]
fn compaction_with_uppercase_flag() {
    let payload = [0x01, 4, b'a', b'b', b'c', b'd', 0x01, 4, b'e', b'f', b'g', b'h', 0x03, 0x21];
    let d = decode_dictionary(&payload).unwrap();
    assert_eq!(d.len(), 1);
    assert_eq!(d.sample(0), Some(&b"EFGH"[..]));
}

#[test]
fn compaction_that_keeps_nothing_leaves_a_fallback() {
    let payload = [0x01, 4, b'a', b'b', b'c', b'd', 0x03, 0xff];
    let d = decode_dictionary(&payload).unwrap();
    assert_eq!(d.len(), 1);
    assert_eq!(d.sample(0), Some(&b"fallback-255"[..]));
    let d = decode_dictionary(&[0x03, 0x00]).unwrap();
    assert_eq!(d.sample(0), Some(&b"fallback-0"[..]));
    let d = decode_dictionary(&[0x03, 0x31]).unwrap();
    assert_eq!(d.sample(0), Some(&b"fallback-49"[..]));
}

#[test]
fn clear_and_catalog_entries() {
    let payload = [0x01, 1, b'x', 0x05, 0x06, 2, 0, 0x07, 9, 0, 11, 0];
    let d = decode_dictionary(&payload).unwrap();
    assert_eq!(d.len(), 2);
    assert_eq!(d.sample(0), Some(cairnlink::catalog::phrase(2).as_bytes()));
    assert_eq!(d.sample(1), Some(cairnlink::catalog::phrase(11).as_bytes()));
    assert_eq!(d.resolve_alias_text(9), Some(cairnlink::catalog::phrase(11).to_string()));
}

#[test]
fn catalog_phrases_cycle() {
    assert_eq!(cairnlink::catalog::phrase(0), "shelter open");
    assert_eq!(cairnlink::catalog::phrase(8), "shelter open");
    assert_eq!(cairnlink::catalog::phrase(15), "field report");
    let p = cairnlink::catalog::shelter_profile(9);
    assert_eq!(p.id, 2);
    assert_eq!(p.capacity, 80);
}

#[test]
fn truncated_dictionary_op_is_an_error() {
    let e = decode_dictionary(&[0x01, 5, b'a']).unwrap_err();
    assert_eq!(e.kind, ErrorKind::UnexpectedEof);
    assert_eq!(e.offset, 2);
}

#[test]
fn unknown_dictionary_ops_are_skipped() {
    // 0x09 with three bytes left skips 9 % 3 = 0 bytes, then 0x01 reads an entry
    let d = decode_dictionary(&[0x09, 0x01, 1, b'z']).unwrap();
    assert_eq!(d.len(), 1);
    assert_eq!(d.sample(0), Some(&b"z"[..]));
}

#[test]
fn dictionary_holds_at_most_4096_entries() {
    let mut d = Dictionary::new();
    for _ in 0..4100 {
        d.add_entry(b"e");
    }
    assert_eq!(d.len(), 4096);
}
