use cairnlink::arena::{
    capture_bytes, capture_slice, read_at, slice_prefix_sum_i16, span_score, span_to_string,
    span_to_vec, RawSlice, RawSpan,
};
use cairnlink::codec::BitBackrefDecoder;
use cairnlink::dictionary::decode_dictionary;
use cairnlink::fragment::FragmentReassembler;
use cairnlink::model::TelemetryPoint;
use cairnlink::report::TemplateBook;
use cairnlink::script::ScriptVm;
use cairnlink::{run_script, ErrorKind};

#[test]
fn spans_copy_and_score() {
    let span = capture_bytes(b"abc");
    assert_eq!(span.len(), 3);
    assert!(!span.is_empty());
    assert_eq!(span_to_vec(&span), b"abc".to_vec());
    assert_eq!(span_to_string(&span), "abc");
    assert_eq!(span_score(&span), 140148531922979);
    assert_eq!(span_score(&RawSpan::empty()), 0);
    assert!(RawSpan::empty().is_empty());
}

#[test]
fn span_text_replaces_invalid_utf8() {
    let span = capture_bytes(&[b'a', 0xff, b'b']);
    assert_eq!(span_to_string(&span), "a\u{fffd}b");
}

#[test]
fn slices_read_in_bounds_only() {
    let raw = capture_slice(&[4i16, -1, 7]);
    assert_eq!(raw.len(), 3);
    assert_eq!(read_at(&raw, 2), Some(7));
    assert_eq!(read_at(&raw, 3), None);
    assert_eq!(slice_prefix_sum_i16(&raw, 5), 10);
    assert_eq!(slice_prefix_sum_i16(&RawSlice::<i16>::empty(), 5), 0);
    assert!(RawSlice::<i16>::empty().is_empty());
}

#[test]
fn fragments_stitch_lanes_and_radio_scratch() {
    let mut f = FragmentReassembler::new();
    let out = f
        .parse_ops(&[
            0x30, 0, 3, b'a', b'b', b'c', //
            0x31, 0, //
            0x31, 4, //
            0x34, 2, b'x', b'y', //
            0x33,
        ])
        .unwrap();
    assert_eq!(out, vec![b"abc".to_vec(), b"xy:radio".to_vec()]);
    assert_eq!(f.completed(), 2);
    assert_eq!(f.stitched(), out);
}

#[test]
fn cleared_lanes_stitch_nothing() {
    let mut f = FragmentReassembler::new();
    let out = f.parse_ops(&[0x30, 2, 1, b'z', 0x32, 2, 0x31, 2, 0x31, 0, 0x33]).unwrap();
    assert!(out.is_empty());
    assert_eq!(f.completed(), 0);
}

#[test]
fn pending_fragments_wait_for_materialize() {
    let mut f = FragmentReassembler::new();
    let out = f.parse_ops(&[0x30, 1, 2, b'o', b'k', 0x31, 1]).unwrap();
    assert!(out.is_empty());
    f.materialize_pending();
    assert_eq!(f.stitched(), vec![b"ok".to_vec()]);
}

#[test]
fn codec_literals_and_backrefs() {
    let mut c = BitBackrefDecoder::new();
    let out = c.decode_tile(&[0x40, 3, b'a', b'b', b'c', 0x41, 0, 2, 0x43, 0, 2]).unwrap();
    assert_eq!(out, b"abcabab".to_vec());
    assert_eq!(c.produced, out);
}

#[test]
fn codec_reversed_marks_and_repeat_cap() {
    let mut c = BitBackrefDecoder::new();
    let out = c.decode_tile(&[0x44, 2, b'x', b'y', 0x43, 5, 20]).unwrap();
    assert_eq!(out, b"yx".repeat(8));
}

#[test]
fn codec_marks_past_history_are_ignored() {
    let mut c = BitBackrefDecoder::new();
    let out = c.decode_tile(&[0x40, 1, b'q', 0x41, 1, 4, 0x43, 0, 1, 0x41, 0, 9, 0x42, 0x43, 0, 1]).unwrap();
    assert_eq!(out, b"qq".to_vec());
}

#[test]
fn codec_truncated_literal_is_an_error() {
    let mut c = BitBackrefDecoder::new();
    let e = c.decode_tile(&[0x40, 4, b'a']).unwrap_err();
    assert_eq!(e.kind, ErrorKind::UnexpectedEof);
    assert_eq!(e.offset, 2);
}

#[test]
fn templates_render_tokens_and_retained_text() {
    let dict = decode_dictionary(&[0x01, 3, b'a', b'b', b'c', 0x02, 7, 0, 0, 0]).unwrap();
    let mut t = TemplateBook::new();
    t.parse_ops(&[0x70, 2, b'h', b'i', 0x70, 1, b'x', 0x71, 7, 0, 0x72, 1, b'r', 0x73], &dict)
        .unwrap();
    assert_eq!(t.rendered_count(), 1);
    t.render();
    // tokens remain, so a second render adds another line
    assert_eq!(t.rendered_count(), 2);
}

#[test]
fn empty_template_renders_nothing() {
    let mut t = TemplateBook::new();
    t.render();
    assert_eq!(t.rendered_count(), 0);
}

#[test]
fn script_stack_and_alerts() {
    let r = run_script(&[0x50, 5, 0, 0x50, 7, 0, 0x51, 0x50, 0xff, 0xff, 0x56, 3, 0x56, 4]).unwrap();
    assert_eq!(r.accumulator, 11);
    assert_eq!(r.alerts, 7);
    assert_eq!(r.last_window, 0);
}

#[test]
fn script_add_on_empty_stack_pushes_zero() {
    let r = run_script(&[0x51, 0x51]).unwrap();
    assert_eq!(r.accumulator, 0);
}

#[test]
fn script_window_sums_telemetry() {
    let r = run_script(&[0x52, 10, 0, 0x52, 20, 0, 0x53, 3, 0x55]).unwrap();
    assert_eq!(r.accumulator, 30);
    assert_eq!(r.last_window, 2);
}

#[test]
fn script_window_over_seeded_points() {
    let mut vm = ScriptVm::new();
    let p = TelemetryPoint { shelter_id: 1, minute: 0, occupancy: 3, water_liters: 0, medical_wait: 4, flags: 0 };
    vm.seed_from_points(&[p]);
    let r = vm.run(&[0x54, 1, 0x53, 0, 0x55]).unwrap();
    assert_eq!(r.accumulator, 4);
    assert_eq!(r.last_window, 1);
}

#[test]
fn script_unknown_ops_skip_bytes() {
    let r = run_script(&[0x07, 1, 2, 3]).unwrap();
    assert_eq!(r.accumulator, 0);
}

#[test]
fn script_truncated_operand_is_an_error() {
    let e = run_script(&[0x50, 1]).unwrap_err();
    assert_eq!(e.kind, ErrorKind::UnexpectedEof);
    assert_eq!(e.offset, 1);
}
