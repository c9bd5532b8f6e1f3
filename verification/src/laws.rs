use vstd::prelude::*;

use crate::codec::{codec_op, codec_step, CodecModel};
use crate::catalog::shelter_row;
use crate::cursor::{le_u16, word_as_i16};
use crate::journal::{journal_op, EventModel, JournalModel};
use crate::script::{vm_op, VmModel};
use crate::analyzer::{analyze_spec, base_score, overload, overload_fits};
use crate::model::TelemetryPoint;
use crate::ops::sat_i32;
use crate::inventory::count_sku;
use crate::dictionary::{ascii_upper, fallback_entry, kept_by};
use crate::dictionary::{
    dict_add_alias, dict_add_entry, dict_compact, dict_op, dict_step, kept_entries, resolve_bytes,
    resolve_text, DictModel, MAX_ENTRIES,
};
use crate::fragment::{frag_materialize, frag_op, frag_step, nonempty_runs, FragModel};
use crate::frame::{parse_frames_spec, text_frame};
use crate::checksum::looks_like_text_spec;
use crate::inventory::{item_kept, ledger_op, ledger_step, rotated, LedgerModel, MAX_ITEMS};
use crate::text::utf8_lossy;
use crate::error::DecodeError;
use crate::model::{lane_score, FrameModel, ItemModel, RouteLane};
use crate::ops::{run_ops, run_panics};
use crate::route::{
    compacted, lane_kept, lane_score_overflows, lane_sum, lane_sum_fits, route_op, route_op_panics, route_panics,
    route_step, RouteModel, MAX_LANES, MAX_NODES,
};
use crate::manifest::manifest_spec;
use crate::analyzer::analyze_overflows;
use crate::error::overflow_error;
use crate::session::{
    apply_frame_spec, apply_frames_spec, bundle_spec, checked_bundle_spec, checked_stream_spec,
    decode_stream_spec, empty_session, finalized, leaf_frame_spec, starts_with_magic, SessionModel,
};

verus! {

proof fn lemma_kept_len(entries: Seq<Seq<u8>>, selector: u8, n: int)
    requires
        0 <= n,
    ensures
        kept_entries(entries, selector, n).len() <= n,
    decreases n,
{
    if n > 0 {
        lemma_kept_len(entries, selector, n - 1);
    }
}

/// A dictionary operation keeps a dictionary within `MAX_ENTRIES` entries.
pub proof fn lemma_dict_op_bounded(m: DictModel, d: Seq<u8>, p: int)
    requires
        0 <= p < d.len(),
        m.entries.len() <= MAX_ENTRIES,
    ensures
        dict_op(m, d, p).0.entries.len() <= MAX_ENTRIES,
{
    lemma_kept_len(m.entries, d[p + 1], m.entries.len() as int);
}

/// Dictionary operations never make a dictionary hold more than `MAX_ENTRIES` entries.
pub proof fn lemma_dict_run_bounded(m: DictModel, d: Seq<u8>, p: int)
    requires
        m.entries.len() <= MAX_ENTRIES,
    ensures
        run_ops(dict_step(), m, d, p).0.entries.len() <= MAX_ENTRIES,
    decreases d.len() - p,
{
    if 0 <= p < d.len() {
        assert(dict_step()(m, d, p) == dict_op(m, d, p));
        lemma_dict_op_bounded(m, d, p);
        let (m2, r) = dict_op(m, d, p);
        match r {
            Ok(p2) => if p < p2 <= d.len() {
                lemma_dict_run_bounded(m2, d, p2);
            },
            Err(_) => {},
        }
    }
}

proof fn lemma_lane_sum_bounds(lanes: Seq<RouteLane>, n: int)
    requires
        0 <= n <= lanes.len(),
    ensures
        -255 * n <= lane_sum(lanes, n) <= 66235 * n,
    decreases n,
{
    if n > 0 {
        lemma_lane_sum_bounds(lanes, n - 1);
    }
}

proof fn lemma_lane_sum_fits_small(lanes: Seq<RouteLane>, n: int)
    requires
        0 <= n <= lanes.len(),
        n <= MAX_LANES,
    ensures
        lane_sum_fits(lanes, n),
    decreases n,
{
    if n > 0 {
        lemma_lane_sum_fits_small(lanes, n - 1);
        lemma_lane_sum_bounds(lanes, n);
    }
}

/// Scoring at most `MAX_LANES` lanes never overflows.
pub proof fn lemma_few_lanes_never_overflow(m: RouteModel)
    requires
        m.lanes.len() <= MAX_LANES,
    ensures
        !lane_score_overflows(m),
{
    lemma_lane_sum_fits_small(m.lanes, m.lanes.len() as int);
}

proof fn lemma_compacted_len(lanes: Seq<RouteLane>, selector: u8, n: int)
    requires
        0 <= n,
    ensures
        compacted(lanes, selector, n).len() <= n,
    decreases n,
{
    if n > 0 {
        lemma_compacted_len(lanes, selector, n - 1);
    }
}

/// Route operations on a book of at most `MAX_LANES` lanes and `MAX_NODES` nodes never
/// overflow, and leave it with at most `MAX_LANES` lanes and `MAX_NODES` nodes.
pub proof fn lemma_route_run_safe(m: RouteModel, dict: DictModel, d: Seq<u8>, p: int)
    requires
        m.lanes.len() <= MAX_LANES,
        m.nodes.len() <= MAX_NODES,
    ensures
        !run_panics(route_step(dict), route_panics(), m, d, p),
        run_ops(route_step(dict), m, d, p).0.lanes.len() <= MAX_LANES,
        run_ops(route_step(dict), m, d, p).0.nodes.len() <= MAX_NODES,
    decreases d.len() - p,
{
    if 0 <= p < d.len() {
        assert(route_step(dict)(m, d, p) == route_op(m, dict, d, p));
        assert(route_panics()(m, d, p) == route_op_panics(m, d, p));
        lemma_few_lanes_never_overflow(m);
        lemma_compacted_len(m.lanes, d[p + 1], m.lanes.len() as int);
        let (m2, r) = route_op(m, dict, d, p);
        assert(m2.lanes.len() <= MAX_LANES);
        assert(m2.nodes.len() <= MAX_NODES);
        match r {
            Ok(p2) => if p < p2 <= d.len() {
                lemma_route_run_safe(m2, dict, d, p2);
            },
            Err(_) => {},
        }
    }
}

proof fn lemma_rotated_members(items: Seq<ItemModel>, selector: u8, n: int)
    requires
        0 <= n <= items.len(),
    ensures
        forall|k: int|
            0 <= k < rotated(items, selector, n).len() ==> item_kept(
                #[trigger] rotated(items, selector, n)[k],
                selector,
            ),
    decreases n,
{
    if n > 0 {
        lemma_rotated_members(items, selector, n - 1);
        let prev = rotated(items, selector, n - 1);
        if item_kept(items[n - 1], selector) {
            assert forall|k: int| 0 <= k < prev.len() + 1 implies item_kept(
                #[trigger] prev.push(items[n - 1])[k],
                selector,
            ) by {
                if k < prev.len() {
                    assert(prev.push(items[n - 1])[k] == prev[k]);
                }
            }
        }
    }
}

proof fn lemma_rotated_keeps_all(items: Seq<ItemModel>, selector: u8, n: int)
    requires
        0 <= n <= items.len(),
        forall|k: int| 0 <= k < items.len() ==> item_kept(#[trigger] items[k], selector),
    ensures
        rotated(items, selector, n) == items.take(n),
    decreases n,
{
    if n > 0 {
        lemma_rotated_keeps_all(items, selector, n - 1);
        assert(items.take(n) == items.take(n - 1).push(items[n - 1]));
    }
}

/// Rotating a ledger twice with the same selector keeps what rotating it once keeps.
pub proof fn lemma_rotate_idempotent(items: Seq<ItemModel>, selector: u8)
    ensures
        ({
            let once = rotated(items, selector, items.len() as int);
            rotated(once, selector, once.len() as int) == once
        }),
{
    let once = rotated(items, selector, items.len() as int);
    lemma_rotated_members(items, selector, items.len() as int);
    lemma_rotated_keeps_all(once, selector, once.len() as int);
    assert(once.take(once.len() as int) == once);
}

proof fn lemma_compacted_members(lanes: Seq<RouteLane>, selector: u8, n: int)
    requires
        0 <= n <= lanes.len(),
    ensures
        forall|k: int|
            0 <= k < compacted(lanes, selector, n).len() ==> lane_kept(
                #[trigger] compacted(lanes, selector, n)[k],
                selector,
            ),
    decreases n,
{
    if n > 0 {
        lemma_compacted_members(lanes, selector, n - 1);
        let prev = compacted(lanes, selector, n - 1);
        if lane_kept(lanes[n - 1], selector) {
            assert forall|k: int| 0 <= k < prev.len() + 1 implies lane_kept(
                #[trigger] prev.push(lanes[n - 1])[k],
                selector,
            ) by {
                if k < prev.len() {
                    assert(prev.push(lanes[n - 1])[k] == prev[k]);
                }
            }
        }
    }
}

proof fn lemma_compacted_keeps_all(lanes: Seq<RouteLane>, selector: u8, n: int)
    requires
        0 <= n <= lanes.len(),
        forall|k: int| 0 <= k < lanes.len() ==> lane_kept(#[trigger] lanes[k], selector),
    ensures
        compacted(lanes, selector, n) == lanes.take(n),
    decreases n,
{
    if n > 0 {
        lemma_compacted_keeps_all(lanes, selector, n - 1);
        assert(lanes.take(n) == lanes.take(n - 1).push(lanes[n - 1]));
    }
}

/// Compacting a route book twice with the same selector keeps what compacting it once
/// keeps.
pub proof fn lemma_compact_idempotent(lanes: Seq<RouteLane>, selector: u8)
    ensures
        ({
            let once = compacted(lanes, selector, lanes.len() as int);
            compacted(once, selector, once.len() as int) == once
        }),
{
    let once = compacted(lanes, selector, lanes.len() as int);
    lemma_compacted_members(lanes, selector, lanes.len() as int);
    lemma_compacted_keeps_all(once, selector, once.len() as int);
    assert(once.take(once.len() as int) == once);
}

/// Materializing pending fragments a second time changes nothing.
pub proof fn lemma_materialize_idempotent(m: FragModel)
    ensures
        frag_materialize(frag_materialize(m)) == frag_materialize(m),
{
    let once = frag_materialize(m);
    assert(nonempty_runs(once.pending, 0) == Seq::<Seq<u8>>::empty());
    assert(once.stitched + Seq::<Seq<u8>>::empty() == once.stitched);
}

/// A stream that opens with `CIRN` decodes as a bundle, with overflow checks or without.
pub proof fn lemma_stream_of_bundle(d: Seq<u8>)
    requires
        starts_with_magic(d),
    ensures
        decode_stream_spec(d).0 == bundle_spec(d, 0, 0).0,
        decode_stream_spec(d).1 == bundle_spec(d, 0, 0).2,
        checked_stream_spec(d) == checked_bundle_spec(d, 0),
{
}

/// Any other stream decodes as its frames applied in order to an empty session, then
/// finalized; with overflow checks, a frame or an analysis that would overflow gives
/// `overflow_error()`.
pub proof fn lemma_stream_of_frames(d: Seq<u8>)
    requires
        !starts_with_magic(d),
    ensures
        checked_stream_spec(d) == match parse_frames_spec(d) {
            Err(e) => Err::<SessionModel, DecodeError>(e),
            Ok(fs) => {
                let (s, r, aborts) = apply_frames_spec(empty_session(), fs, 0, 0, false);
                if aborts {
                    Err(overflow_error())
                } else {
                    match r {
                        Err(e) => Err(e),
                        Ok(_) => if analyze_overflows(s) {
                            Err(overflow_error())
                        } else {
                            Ok(finalized(s))
                        },
                    }
                }
            },
        },
{
}

proof fn lemma_rotated_len(items: Seq<ItemModel>, selector: u8, n: int)
    requires
        0 <= n,
    ensures
        rotated(items, selector, n).len() <= n,
    decreases n,
{
    if n > 0 {
        lemma_rotated_len(items, selector, n - 1);
    }
}

/// Ledger operations never make a ledger hold more than `MAX_ITEMS` items.
pub proof fn lemma_ledger_run_bounded(m: LedgerModel, d: Seq<u8>, p: int)
    requires
        m.items.len() <= MAX_ITEMS,
    ensures
        run_ops(ledger_step(), m, d, p).0.items.len() <= MAX_ITEMS,
    decreases d.len() - p,
{
    if 0 <= p < d.len() {
        assert(ledger_step()(m, d, p) == ledger_op(m, d, p));
        lemma_rotated_len(m.items, d[p + 1], m.items.len() as int);
        let (m2, r) = ledger_op(m, d, p);
        assert(m2.items.len() <= MAX_ITEMS);
        match r {
            Ok(p2) => if p < p2 <= d.len() {
                lemma_ledger_run_bounded(m2, d, p2);
            },
            Err(_) => {},
        }
    }
}

/// An alias made for an entry just added reads back that entry, as bytes and as text.
pub proof fn lemma_alias_reads_back_entry(m: DictModel, v: Seq<u8>, id: u16, weight: u8)
    requires
        m.entries.len() < MAX_ENTRIES,
    ensures
        ({
            let m2 = dict_add_alias(dict_add_entry(m, v), id, m.entries.len() as int, weight);
            &&& resolve_bytes(m2, id) == Some(v)
            &&& resolve_text(m2, id) == Some(utf8_lossy(v))
        }),
{
    let m1 = dict_add_entry(m, v);
    let m2 = dict_add_alias(m1, id, m.entries.len() as int, weight);
    assert(m1.entries.len() == m.entries.len() + 1);
    vstd::arithmetic::div_mod::lemma_small_mod(m.entries.len(), m1.entries.len());
    assert(m2.aliases.last().id == id);
}

/// An alias with an odd weight made for an entry just added still reads back that entry
/// after a compaction, whatever the compaction keeps.
pub proof fn lemma_odd_alias_outlives_compaction(
    m: DictModel,
    v: Seq<u8>,
    id: u16,
    weight: u8,
    selector: u8,
)
    requires
        m.entries.len() < MAX_ENTRIES,
        weight & 1 == 1,
    ensures
        resolve_bytes(
            dict_compact(dict_add_alias(dict_add_entry(m, v), id, m.entries.len() as int, weight), selector),
            id,
        ) == Some(v),
{
    let m1 = dict_add_entry(m, v);
    let m2 = dict_add_alias(m1, id, m.entries.len() as int, weight);
    vstd::arithmetic::div_mod::lemma_small_mod(m.entries.len(), m1.entries.len());
    assert(m2.aliases.last().id == id);
    assert(m2.generation.wrapping_add(1) != m2.generation);
}

/// Reassembly never takes back a stitched message: the messages stitched before a run of
/// operations begin the messages stitched after it.
pub proof fn lemma_stitched_only_grow(m: FragModel, d: Seq<u8>, p: int)
    ensures
        m.stitched.len() <= run_ops(frag_step(), m, d, p).0.stitched.len(),
        run_ops(frag_step(), m, d, p).0.stitched.take(m.stitched.len() as int) == m.stitched,
    decreases d.len() - p,
{
    if 0 <= p < d.len() {
        assert(frag_step()(m, d, p) == frag_op(m, d, p));
        let (m2, r) = frag_op(m, d, p);
        assert(m.stitched.len() <= m2.stitched.len());
        assert(m2.stitched.take(m.stitched.len() as int) == m.stitched);
        match r {
            Ok(p2) => if p < p2 <= d.len() {
                lemma_stitched_only_grow(m2, d, p2);
                let after = run_ops(frag_step(), m2, d, p2).0.stitched;
                assert(after.take(m.stitched.len() as int) == after.take(m2.stitched.len() as int).take(
                    m.stitched.len() as int,
                ));
            },
            Err(_) => {},
        }
    } else {
        assert(m.stitched.take(m.stitched.len() as int) == m.stitched);
    }
}

/// Decoding never takes back output: the bytes produced before a run of operations begin the
/// bytes produced after it.
pub proof fn lemma_produced_only_grows(m: CodecModel, d: Seq<u8>, p: int)
    ensures
        m.produced.len() <= run_ops(codec_step(), m, d, p).0.produced.len(),
        run_ops(codec_step(), m, d, p).0.produced.take(m.produced.len() as int) == m.produced,
    decreases d.len() - p,
{
    if 0 <= p < d.len() {
        assert(codec_step()(m, d, p) == codec_op(m, d, p));
        let (m2, r) = codec_op(m, d, p);
        assert(m.produced.len() <= m2.produced.len());
        assert(m2.produced.take(m.produced.len() as int) == m.produced);
        match r {
            Ok(p2) => if p < p2 <= d.len() {
                lemma_produced_only_grows(m2, d, p2);
                let after = run_ops(codec_step(), m2, d, p2).0.produced;
                assert(after.take(m.produced.len() as int) == after.take(m2.produced.len() as int).take(
                    m.produced.len() as int,
                ));
            },
            Err(_) => {},
        }
    } else {
        assert(m.produced.take(m.produced.len() as int) == m.produced);
    }
}

/// Input that looks like text, and is too short for a frame header or whose first header
/// announces a body longer than the input, reads as one manifest frame holding the whole
/// input.
pub proof fn lemma_text_reads_as_manifest(d: Seq<u8>)
    requires
        looks_like_text_spec(d),
        d.len() < 8 || le_u16(d, 4) > d.len() - 8,
    ensures
        parse_frames_spec(d) == Ok::<Seq<FrameModel>, DecodeError>(seq![text_frame(d)]),
{
}

/// A stream of text that reads as one manifest frame (see `lemma_text_reads_as_manifest`)
/// and does not open with `CIRN` decodes to an empty session holding the parsed manifest,
/// finalized; a manifest that does not parse fails the stream with its error.
pub proof fn lemma_text_stream_is_manifest(d: Seq<u8>)
    requires
        !starts_with_magic(d),
        looks_like_text_spec(d),
        d.len() < 8 || le_u16(d, 4) > d.len() - 8,
    ensures
        decode_stream_spec(d).0 == match manifest_spec(d) {
            Ok(m) => Ok::<SessionModel, DecodeError>(
                finalized(SessionModel { manifest: m, ..empty_session() }),
            ),
            Err(e) => Err::<SessionModel, DecodeError>(e),
        },
{
    reveal(leaf_frame_spec);
    lemma_text_reads_as_manifest(d);
    let fs = seq![text_frame(d)];
    let s0 = empty_session();
    let (s1, r1, a1) = apply_frame_spec(s0, fs[0], 0, false);
    assert(!a1);
    match r1 {
        Ok(_) => {
            assert(apply_frames_spec(s1, fs, 1, 0, false) == (s1, Ok::<(), DecodeError>(()), false));
        },
        Err(_) => {},
    }
}

proof fn lemma_overload_of_longer(score: int, points: Seq<TelemetryPoint>, pt: TelemetryPoint, k: int)
    requires
        0 <= k <= points.len(),
    ensures
        overload(score, points.push(pt), k) == overload(score, points, k),
        overload_fits(score, points.push(pt), k) == overload_fits(score, points, k),
    decreases k,
{
    if k > 0 {
        lemma_overload_of_longer(score, points, pt, k - 1);
        assert(points.push(pt)[k - 1] == points[k - 1]);
    }
}

/// One more telemetry point adds to the risk score three per person over the capacity of the
/// shelter its id names (the shelter table read cyclically), and nothing when it is within
/// capacity; its other fields, flags included, play no part. Stated for sessions with no
/// journal summaries or script results, whose analysis does not overflow.
pub proof fn lemma_point_adds_overload_of_its_shelter(s: SessionModel, pt: TelemetryPoint)
    requires
        s.journal_summaries.len() == 0,
        s.script_results.len() == 0,
        !analyze_overflows(SessionModel { telemetry: s.telemetry.push(pt), ..s }),
    ensures
        ({
            let cap = shelter_row((pt.shelter_id as int) % 8).capacity;
            analyze_spec(SessionModel { telemetry: s.telemetry.push(pt), ..s }).score == analyze_spec(
                s,
            ).score + if pt.occupancy > cap {
                (pt.occupancy - cap) * 3
            } else {
                0
            }
        }),
{
    let s2 = SessionModel { telemetry: s.telemetry.push(pt), ..s };
    let b = base_score(s) as int;
    let n = s.telemetry.len() as int;
    assert(base_score(s2) == base_score(s));
    lemma_overload_of_longer(b, s.telemetry, pt, n);
    assert(s2.telemetry[n] == pt);
    assert(overload_fits(b, s2.telemetry, n + 1));
}

/// Recording an event (`0x60`) appends it after the events recorded before, with its code,
/// signed amount and note read from the operation's bytes.
pub proof fn lemma_record_appends_event(m: JournalModel, d: Seq<u8>, p: int)
    requires
        0 <= p,
        p + 6 <= d.len(),
        p + 6 + d[p + 5] <= d.len(),
        d[p] == 0x60,
    ensures
        journal_op(m, d, p).0.events == m.events.push(
            EventModel {
                code: (d[p + 1] as int + 256 * d[p + 2] as int) as u16,
                amount: word_as_i16((d[p + 3] as int + 256 * d[p + 4] as int) as u16) as i32,
                note: d.subrange(p + 6, p + 6 + d[p + 5]),
            },
        ),
        journal_op(m, d, p).0.checkpoints == m.checkpoints,
{
}

/// A checkpoint by index (`0x61`) on a journal of `n > 0` events checkpoints the note of the
/// event recorded `(index mod n)`-th, counting from the first recorded, and keeps the events.
pub proof fn lemma_checkpoint_picks_recorded_event(m: JournalModel, d: Seq<u8>, p: int)
    requires
        0 <= p,
        p + 3 <= d.len(),
        d[p] == 0x61,
        m.events.len() > 0,
    ensures
        journal_op(m, d, p).0.checkpoints == m.checkpoints.push(
            m.events[(d[p + 1] as int + 256 * d[p + 2] as int) % (m.events.len() as int)].note,
        ),
        journal_op(m, d, p).0.events == m.events,
{
}

/// The alert count: an operation other than `0x56` leaves it as it is; `0x56` with its operand
/// byte adds that byte, modulo 65536.
pub proof fn lemma_alerts_add_operands(m: VmModel, d: Seq<u8>, p: int)
    requires
        0 <= p < d.len(),
    ensures
        vm_op(m, d, p).0.alerts == if d[p] == 0x56 && p + 1 < d.len() {
            ((m.alerts as int + d[p + 1] as int) % 0x1_0000) as u16
        } else {
            m.alerts
        },
{
    if d[p] == 0x56 && p + 1 < d.len() {
        let a = m.alerts;
        let b = d[p + 1] as u16;
        assert(a.wrapping_add(b) as int == (a as int + b as int) % 0x1_0000);
    }
}

/// Whether an entry is shorter than four bytes.
pub open spec fn short_entry() -> spec_fn(Seq<u8>) -> bool {
    |e: Seq<u8>| e.len() < 4
}

/// The form an entry takes after compaction with `selector`: upper-cased when the selector
/// has bit `0x20`.
pub open spec fn compacted_form(selector: u8) -> spec_fn(Seq<u8>) -> Seq<u8> {
    |e: Seq<u8>| if selector & 0x20 != 0 {
        e.map_values(|b: u8| if 0x61 <= b <= 0x7a { (b - 0x20) as u8 } else { b })
    } else {
        e
    }
}

proof fn lemma_kept_short_entries(entries: Seq<Seq<u8>>, selector: u8, n: int)
    requires
        0 <= n <= entries.len(),
    ensures
        kept_entries(entries, selector, n).filter(short_entry()) == entries.take(n).filter(
            short_entry(),
        ).map_values(compacted_form(selector)),
    decreases n,
{
    reveal(Seq::filter);
    if n > 0 {
        lemma_kept_short_entries(entries, selector, n - 1);
        let prev = kept_entries(entries, selector, n - 1);
        let e = entries[n - 1];
        let f = compacted_form(selector);
        let fp = entries.take(n - 1).filter(short_entry());
        assert(entries.take(n).drop_last() == entries.take(n - 1));
        assert(entries.take(n).last() == e);
        assert(ascii_upper(e) == f(e) || selector & 0x20 == 0);
        assert(f(e).len() == e.len());
        if kept_by(selector, n - 1, e) {
            let x = if selector & 0x20 != 0 {
                ascii_upper(e)
            } else {
                e
            };
            assert(x == f(e));
            assert(prev.push(x).drop_last() == prev);
            if e.len() < 4 {
                assert(fp.push(e).map_values(f) == fp.map_values(f).push(f(e)));
            }
        }
    }
}

/// Compaction keeps every entry shorter than four bytes, whatever its index and the selector:
/// the short entries after compaction are exactly the short entries before it, in order,
/// upper-cased when the selector has bit `0x20`.
pub proof fn lemma_compaction_keeps_short_entries(m: DictModel, selector: u8)
    ensures
        dict_compact(m, selector).entries.filter(short_entry()) == m.entries.filter(
            short_entry(),
        ).map_values(compacted_form(selector)),
{
    reveal(Seq::filter);
    let n = m.entries.len() as int;
    lemma_kept_short_entries(m.entries, selector, n);
    assert(m.entries.take(n) == m.entries);
    let fresh = kept_entries(m.entries, selector, n);
    if fresh.len() == 0 {
        let fb = fallback_entry(selector);
        assert(fb.len() >= 10);
        let empty = Seq::<Seq<u8>>::empty();
        assert(seq![fb].drop_last() == empty);
        assert(seq![fb].last() == fb);
        assert(empty.filter(short_entry()) == empty);
        assert(seq![fb].filter(short_entry()) == empty);
        assert(fresh == empty);
        assert(m.entries.filter(short_entry()).map_values(compacted_form(selector)).len() == 0);
        assert(m.entries.filter(short_entry()).map_values(compacted_form(selector)) == empty);
    }
}

/// Whether an item has the SKU.
pub open spec fn sku_is(sku: u16) -> spec_fn(ItemModel) -> bool {
    |it: ItemModel| it.sku == sku
}

proof fn lemma_count_is_filter(items: Seq<ItemModel>, sku: u16, n: int)
    requires
        0 <= n <= items.len(),
    ensures
        count_sku(items, sku, n) == items.take(n).filter(sku_is(sku)).len(),
    decreases n,
{
    reveal(Seq::filter);
    if n > 0 {
        lemma_count_is_filter(items, sku, n - 1);
        assert(items.take(n).drop_last() == items.take(n - 1));
        assert(items.take(n).last() == items[n - 1]);
    }
}

/// Moving stock (`0x21` with a SKU and a signed delta) changes the quantity of each item with
/// that SKU by the delta (clamped to the `i32` range), leaves every other item as it was, and
/// changes the movement total by the delta times the number of items with the SKU.
pub proof fn lemma_moving_stock(m: LedgerModel, d: Seq<u8>, p: int)
    requires
        0 <= p,
        p + 5 <= d.len(),
        d[p] == 0x21,
        !crate::inventory::ledger_op_panics(m, d, p),
    ensures
        ({
            let sku = (d[p + 1] as int + 256 * d[p + 2] as int) as u16;
            let delta = word_as_i16((d[p + 3] as int + 256 * d[p + 4] as int) as u16) as int;
            let after = ledger_op(m, d, p).0;
            &&& after.items.len() == m.items.len()
            &&& forall|k: int|
                0 <= k < m.items.len() && m.items[k].sku != sku ==> #[trigger] after.items[k]
                    == m.items[k]
            &&& forall|k: int|
                0 <= k < m.items.len() && m.items[k].sku == sku ==> #[trigger] after.items[k]
                    == (ItemModel { quantity: sat_i32(m.items[k].quantity as int, delta), ..m.items[k] })
            &&& after.movements == m.movements + m.items.filter(sku_is(sku)).len() * delta
        }),
{
    let sku = le_u16(d, p + 1);
    lemma_count_is_filter(m.items, sku, m.items.len() as int);
    assert(m.items.take(m.items.len() as int) == m.items);
}

} // verus!