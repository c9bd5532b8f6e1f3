use cairnlink::frame::encode_frame_for_seed;
use cairnlink::session::SessionState;
use cairnlink::bundle::decode_bundle_checked;
use cairnlink::session::decode_stream_checked;
use cairnlink::{analyze_session, decode_bundle, decode_stream, parse, parse_one, BundleDecoder, ErrorKind};

fn telemetry(shelter: u16, occupancy: u16, medical: u16) -> Vec<u8> {
    let mut v = Vec::new();
    v.extend(shelter.to_le_bytes());
    v.extend(0u32.to_le_bytes());
    v.extend(occupancy.to_le_bytes());
    v.extend(0u16.to_le_bytes());
    v.extend(medical.to_le_bytes());
    v.push(0);
    v
}

fn section(kind: u8, flags: u8, payload: &[u8]) -> Vec<u8> {
    let mut v = vec![kind, flags];
    v.extend((payload.len() as u16).to_le_bytes());
    v.extend(payload);
    v
}

fn bundle(declared: u8, sections: &[Vec<u8>]) -> Vec<u8> {
    let mut v = b"CIRN".to_vec();
    v.extend([1, declared, 0, 0]);
    for s in sections {
        v.extend(s);
    }
    v
}

#[test]
fn manifest_text_stream_scores_contact_and_sections() {
    let s = decode_stream(b"site=harbor-east\nincident=flood-plain\nmode=monitor\ncontact=ops\n").unwrap();
    assert_eq!(s.manifest.incident, "flood-plain");
    // contact length 3, xor one section
    assert_eq!(s.risk_score, 3 ^ 1);
}

#[test]
fn overcrowded_telemetry_raises_risk() {
    let data = encode_frame_for_seed(10, &telemetry(0, 150, 4));
    let s = decode_stream(&data).unwrap();
    assert_eq!(s.telemetry.len(), 1);
    assert_eq!(s.telemetry[0].occupancy, 150);
    assert_eq!(s.risk_score, (150 - 120) * 3);
}

#[test]
fn telemetry_needs_thirteen_bytes_per_point() {
    let mut payload = telemetry(1, 10, 0);
    payload.extend([1, 2, 3]);
    let mut s = SessionState::new();
    s.parse_telemetry(&payload).unwrap();
    assert_eq!(s.telemetry.len(), 1);
}

#[test]
fn scripts_see_the_session_telemetry() {
    let mut data = encode_frame_for_seed(10, &telemetry(3, 5, 6));
    data.extend(encode_frame_for_seed(6, &[0x53, 0, 0x55, 0x56, 2]));
    let s = decode_stream(&data).unwrap();
    assert_eq!(s.script_results.len(), 1);
    assert_eq!(s.script_results[0].accumulator, 11);
    assert_eq!(s.script_results[0].last_window, 2);
    assert_eq!(s.risk_score, 11 + 2 * 11);
}

#[test]
fn journal_frames_add_their_summaries() {
    let data = encode_frame_for_seed(7, &[0x60, 1, 0, 5, 0, 0, 0x63]);
    let s = decode_stream(&data).unwrap();
    assert_eq!(s.journal_summaries.len(), 1);
    assert_eq!(s.risk_score, 5 + 1);
}

#[test]
fn codec_frames_collect_output() {
    let mut data = encode_frame_for_seed(9, &[0x40, 2, b'h', b'i']);
    data.extend(encode_frame_for_seed(9, &[0x40, 1, b'!']));
    let s = decode_stream(&data).unwrap();
    assert_eq!(s.codec_output, b"hi!".to_vec());
}

#[test]
fn unknown_frames_feed_the_dictionary_when_flagged() {
    let mut data = vec![0x0c, 0x01, 0, 0, 3, 0, 0, 0, 0x01, 1, b'a'];
    data.extend([0x0d, 0x00, 0, 0, 3, 0, 0, 0, 0x01, 1, b'b']);
    let s = decode_stream(&data).unwrap();
    assert_eq!(s.dictionary.len(), 1);
    assert_eq!(s.dictionary.sample(0), Some(&b"a"[..]));
}

#[test]
fn fragments_replay_stitched_frames() {
    let inner = encode_frame_for_seed(9, &[0x40, 2, b'o', b'k']);
    let mut ops = vec![0x30, 0, inner.len() as u8];
    ops.extend(&inner);
    ops.extend([0x31, 0, 0x33]);
    let data = encode_frame_for_seed(5, &ops);
    let s = decode_stream(&data).unwrap();
    assert_eq!(s.codec_output, b"ok".to_vec());
    assert_eq!(s.fragments.completed(), 1);
}

#[test]
fn fragment_frames_inside_fragments_are_refused() {
    let inner = encode_frame_for_seed(5, &[]);
    let mut ops = vec![0x30, 0, inner.len() as u8];
    ops.extend(&inner);
    ops.extend([0x31, 0, 0x33]);
    let data = encode_frame_for_seed(5, &ops);
    let e = decode_stream(&data).unwrap_err();
    assert_eq!(e.kind, ErrorKind::LimitExceeded);
    assert_eq!(e.detail, "fragment frames nest without end");
}

#[test]
fn failing_frame_stops_the_stream() {
    let data = encode_frame_for_seed(6, &[0x50, 1]);
    let e = decode_stream(&data).unwrap_err();
    assert_eq!(e.kind, ErrorKind::UnexpectedEof);
    assert_eq!(e.offset, 1);
}

#[test]
fn bundle_sections_build_a_session() {
    let data = bundle(2, &[section(10, 0, &telemetry(0, 150, 0)), section(6, 0, &[0x50, 5, 0])]);
    let s = decode_bundle(&data).unwrap();
    assert_eq!(s.telemetry.len(), 1);
    assert_eq!(s.script_results[0].accumulator, 5);
    assert_eq!(s.risk_score, 90 + 5);
    let same = decode_stream(&data).unwrap();
    assert_eq!(same.risk_score, s.risk_score);
}

#[test]
fn bundle_reads_only_declared_sections() {
    let data = bundle(1, &[section(6, 0, &[0x50, 5, 0]), section(6, 0, &[0x50, 7, 0])]);
    let s = decode_bundle(&data).unwrap();
    assert_eq!(s.script_results.len(), 1);
    let data = bundle(0, &[section(6, 0, &[0x50, 5, 0]), section(6, 0, &[0x50, 7, 0])]);
    let s = decode_bundle(&data).unwrap();
    assert_eq!(s.script_results.len(), 1);
}

#[test]
fn bundle_stops_at_a_truncated_section() {
    let mut data = bundle(3, &[section(6, 0, &[0x50, 5, 0])]);
    data.extend([6, 0, 9, 0, 0x50]);
    let s = decode_bundle(&data).unwrap();
    assert_eq!(s.script_results.len(), 1);
}

#[test]
fn bundle_decoder_numbers_sections_across_bundles() {
    let data = bundle(2, &[section(6, 0, &[]), section(6, 0, &[])]);
    let mut d = BundleDecoder::new();
    d.decode(&data).unwrap();
    assert_eq!(d.sections, 2);
    d.decode(&data).unwrap();
    assert_eq!(d.sections, 4);
}

#[test]
fn bundle_with_wrong_magic_is_refused() {
    let e = decode_bundle(b"CIRX\x01\x01\x00\x00").unwrap_err();
    assert_eq!(e.kind, ErrorKind::BadMagic);
    assert_eq!(e.offset, 0);
    assert_eq!(e.detail, "bundle magic mismatch");
}

#[test]
fn short_bundle_header_is_tolerated() {
    let s = decode_bundle(b"CIR").unwrap();
    assert_eq!(s.risk_score, 0);
}

#[test]
fn outer_analysis_sets_the_risk_of_a_nesting_bundle() {
    let inner = bundle(1, &[section(6, 0, &[0x50, 9, 0])]);
    assert_eq!(decode_bundle(&inner).unwrap().risk_score, 9);
    let outer = bundle(2, &[section(11, 0, &inner), section(6, 0, &[0x50, 4, 0])]);
    let s = decode_bundle(&outer).unwrap();
    assert_eq!(s.risk_score, 4);
}

#[test]
fn nested_bundle_errors_propagate() {
    let inner = bundle(1, &[section(6, 0, &[0x50, 9])]);
    let outer = bundle(1, &[section(11, 0, &inner)]);
    let e = decode_bundle(&outer).unwrap_err();
    assert_eq!(e.kind, ErrorKind::UnexpectedEof);
    assert_eq!(e.offset, 1);
}

fn nested(levels: usize) -> Vec<u8> {
    let mut data = bundle(1, &[section(6, 0, &[0x50, 1, 0])]);
    for _ in 1..levels {
        data = bundle(1, &[section(11, 0, &data)]);
    }
    data
}

#[test]
fn bundles_nest_deeply() {
    let s = decode_bundle(&nested(100)).unwrap();
    assert_eq!(s.risk_score, 0);
    assert_eq!(decode_bundle(&nested(1)).unwrap().risk_score, 1);
}

#[test]
fn checked_decoding_matches_unchecked_decoding() {
    let data = bundle(2, &[section(10, 0, &telemetry(0, 150, 0)), section(6, 0, &[0x50, 5, 0])]);
    assert_eq!(decode_stream_checked(&data).unwrap().risk_score, 95);
    assert_eq!(decode_bundle_checked(&data).unwrap().risk_score, 95);
    let e = decode_stream_checked(&encode_frame_for_seed(6, &[0x50, 1])).unwrap_err();
    assert_eq!(e.kind, ErrorKind::UnexpectedEof);
}

#[test]
fn section_count_overflow_is_reported() {
    let data = bundle(1, &[section(6, 0, &[])]);
    let mut d = BundleDecoder::new();
    d.sections = usize::MAX;
    let e = d.decode_checked(&data).unwrap_err();
    assert_eq!(e.kind, ErrorKind::LimitExceeded);
    assert_eq!(e.detail, "arithmetic overflow");
    let mut d = BundleDecoder::new();
    d.sections = usize::MAX - 1;
    assert!(d.decode_checked(&data).is_ok());
    assert_eq!(d.sections, usize::MAX);
}

fn saturating_ledger_frames() -> Vec<u8> {
    // two items of one SKU, raised to i32::MAX by repeated deltas of 32767
    let mut first = vec![0x20, 1, 0, 1, 0, 9, 0, 0, 0, 0x20, 1, 0, 1, 0, 9, 0, 0, 0];
    let mut data = Vec::new();
    let mut left = 65538;
    while left > 0 {
        let n = if left > 13000 { 13000 } else { left };
        for _ in 0..n {
            first.extend([0x21, 1, 0, 0xff, 0x7f]);
        }
        data.extend(encode_frame_for_seed(4, &first));
        first = Vec::new();
        left -= n;
    }
    data
}

#[test]
fn analysis_overflow_is_reported() {
    let data = saturating_ledger_frames();
    let e = decode_stream_checked(&data).unwrap_err();
    assert_eq!(e.kind, ErrorKind::LimitExceeded);
    assert_eq!(e.detail, "arithmetic overflow");
    let frames = cairnlink::parse_frames(&data).unwrap();
    let mut s = SessionState::new();
    for f in frames {
        s.apply_frame_checked(f).unwrap();
    }
    assert_eq!(s.inventory.items[0].quantity, i32::MAX);
    assert!(s.inventory.reconcile_would_overflow());
    assert!(cairnlink::analyzer::analysis_would_overflow(&s));
    assert_eq!(s.finalize_checked().unwrap_err().detail, "arithmetic overflow");
    assert_eq!(s.risk_score, 0);
}

#[test]
fn parse_and_parse_one_forward() {
    let data = encode_frame_for_seed(9, &[0x40, 1, b'z']);
    assert_eq!(parse(&data).unwrap().codec_output, b"z".to_vec());
    assert_eq!(parse_one(&data).unwrap().raw_kind, 9);
}

#[test]
fn analysis_reports_contacts_and_renders() {
    let mut s = decode_stream(b"contact=ops-desk\n").unwrap();
    s.reports.parse_ops(&[0x70, 1, b'x'], &s.dictionary.clone()).unwrap();
    let r = analyze_session(&mut s);
    assert_eq!(r.messages, vec!["field contact ops-desk".to_string(), "rendered 1 reports".to_string()]);
    assert_eq!(r.score, (8 ^ 1) as i64);
    assert_eq!(s.reports.rendered_count(), 1);
}
