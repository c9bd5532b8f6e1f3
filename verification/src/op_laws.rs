use vstd::prelude::*;

use crate::arena::sum_i16;
use crate::codec::{codec_op, CodecModel};
use crate::cursor::word_as_i16;
use crate::dictionary::{dict_op, DictModel};
use crate::inventory::rotated;
use crate::journal::{journal_op, kept_events, EventModel, JournalModel};
use crate::model::{lane_score, ItemModel, RouteLane};
use crate::route::compacted;
use crate::script::{vm_op, VmModel};
use crate::analyzer::{add_journals, add_scripts, analyze_overflows, analyze_spec};
use crate::fragment::{frag_materialize, nonempty_runs, FragModel};
use crate::inventory::{ledger_op, LedgerModel};
use crate::model::{NodeModel, ScriptResult, TelemetryPoint};
use crate::report::{join_tokens, render_spec, TemplateModel};
use crate::route::{route_op, RouteModel};
use crate::session::{telemetry_from, SessionModel};

verus! {

/// Whether rotation with `selector` keeps an item, stated on its own: an even selector keeps
/// the items in stock, an odd one those expiring after day `selector`.
pub open spec fn stock_kept(selector: u8) -> spec_fn(ItemModel) -> bool {
    |it: ItemModel| if selector % 2 == 0 {
        it.quantity > 0
    } else {
        it.expires_day > selector
    }
}

proof fn lemma_rotated_is_filter(items: Seq<ItemModel>, selector: u8, n: int)
    requires
        0 <= n <= items.len(),
    ensures
        rotated(items, selector, n) == items.take(n).filter(stock_kept(selector)),
    decreases n,
{
    reveal(Seq::filter);
    if n > 0 {
        lemma_rotated_is_filter(items, selector, n - 1);
        assert(items.take(n).drop_last() == items.take(n - 1));
        assert(items.take(n).last() == items[n - 1]);
        assert((selector & 1 == 0) == (selector % 2 == 0)) by (bit_vector);
    }
}

/// Rotation keeps, in order, exactly the items that `stock_kept` keeps.
pub proof fn lemma_rotation_keeps_in_order(items: Seq<ItemModel>, selector: u8)
    ensures
        rotated(items, selector, items.len() as int) == items.filter(stock_kept(selector)),
{
    lemma_rotated_is_filter(items, selector, items.len() as int);
    assert(items.take(items.len() as int) == items);
}

/// Whether compaction with `selector` keeps a lane, stated on its own: an even selector keeps
/// the lanes whose flags are below `0x80` (not blocked), an odd one those of confidence above 8.
pub open spec fn lane_open(selector: u8) -> spec_fn(RouteLane) -> bool {
    |l: RouteLane| if selector % 2 == 0 {
        l.flags < 0x80
    } else {
        l.confidence > 8
    }
}

proof fn lemma_compacted_is_filter(lanes: Seq<RouteLane>, selector: u8, n: int)
    requires
        0 <= n <= lanes.len(),
    ensures
        compacted(lanes, selector, n) == lanes.take(n).filter(lane_open(selector)),
    decreases n,
{
    reveal(Seq::filter);
    if n > 0 {
        lemma_compacted_is_filter(lanes, selector, n - 1);
        assert(lanes.take(n).drop_last() == lanes.take(n - 1));
        assert(lanes.take(n).last() == lanes[n - 1]);
        let f = lanes[n - 1].flags;
        assert((selector & 1 == 0) == (selector % 2 == 0)) by (bit_vector);
        assert((f & 0x80 == 0) == (f < 0x80)) by (bit_vector);
    }
}

/// Compaction keeps, in order, exactly the lanes that `lane_open` keeps.
pub proof fn lemma_compaction_keeps_in_order(lanes: Seq<RouteLane>, selector: u8)
    ensures
        compacted(lanes, selector, lanes.len() as int) == lanes.filter(lane_open(selector)),
{
    lemma_compacted_is_filter(lanes, selector, lanes.len() as int);
    assert(lanes.take(lanes.len() as int) == lanes);
}

/// A lane scores its minutes less its confidence, plus 700 when its flags reach `0x80`.
pub proof fn lemma_lane_score(l: RouteLane)
    ensures
        lane_score(l) == l.minutes as int - l.confidence as int + if l.flags >= 0x80 {
            700int
        } else {
            0int
        },
{
    let f = l.flags;
    assert((f & 0x80 != 0) == (f >= 0x80)) by (bit_vector);
}

/// Whether an event's code has the parity of `selector`.
pub open spec fn same_parity(selector: u8) -> spec_fn(EventModel) -> bool {
    |e: EventModel| e.code % 2 == selector % 2
}

proof fn lemma_kept_events_is_filter(evs: Seq<EventModel>, selector: u8, n: int)
    requires
        0 <= n <= evs.len(),
    ensures
        kept_events(evs, selector, n) == evs.take(n).filter(same_parity(selector)),
    decreases n,
{
    reveal(Seq::filter);
    if n > 0 {
        lemma_kept_events_is_filter(evs, selector, n - 1);
        assert(evs.take(n).drop_last() == evs.take(n - 1));
        assert(evs.take(n).last() == evs[n - 1]);
        let c = evs[n - 1].code;
        assert((((c as u8) ^ selector) & 1 == 0) == (c % 2 == selector % 2)) by (bit_vector);
    }
}

/// Filtering events (`0x62` with a selector byte) keeps, in order, exactly the events whose
/// code has the selector's parity, and leaves the checkpoints and score alone.
pub proof fn lemma_event_filter_keeps_parity(m: JournalModel, d: Seq<u8>, p: int)
    requires
        0 <= p,
        p + 2 <= d.len(),
        d[p] == 0x62,
    ensures
        journal_op(m, d, p).0.events == m.events.filter(same_parity(d[p + 1])),
        journal_op(m, d, p).0.checkpoints == m.checkpoints,
        journal_op(m, d, p).0.score == m.score,
{
    lemma_kept_events_is_filter(m.events, d[p + 1], m.events.len() as int);
    assert(m.events.take(m.events.len() as int) == m.events);
}

/// Closing (`0x63`) drops every checkpoint and keeps the events.
pub proof fn lemma_close_drops_checkpoints(m: JournalModel, d: Seq<u8>, p: int)
    requires
        0 <= p < d.len(),
        d[p] == 0x63,
    ensures
        journal_op(m, d, p).0.checkpoints.len() == 0,
        journal_op(m, d, p).0.events == m.events,
{
}

/// The stack operations: `0x50` pushes its signed 16-bit little-endian operand on top of the
/// stack; `0x51` replaces the top two values (zero where missing) by their sum clamped to the
/// `i64` range; `0x55` pushes the sum of the window, when there is one.
pub proof fn lemma_stack_operations(m: VmModel, d: Seq<u8>, p: int)
    requires
        0 <= p < d.len(),
    ensures
        d[p] == 0x50 && p + 3 <= d.len() ==> vm_op(m, d, p).0.stack == m.stack.push(
            word_as_i16((d[p + 1] as int + 256 * d[p + 2] as int) as u16) as i64,
        ),
        d[p] == 0x51 ==> ({
            let n = m.stack.len() as int;
            let a: int = if n >= 1 { m.stack[n - 1] as int } else { 0 };
            let b: int = if n >= 2 { m.stack[n - 2] as int } else { 0 };
            let sum: int = if a + b > i64::MAX {
                i64::MAX as int
            } else if a + b < i64::MIN {
                i64::MIN as int
            } else {
                a + b
            };
            let rest = if n >= 2 { m.stack.take(n - 2) } else { Seq::<i64>::empty() };
            vm_op(m, d, p).0.stack == rest.push(sum as i64)
        }),
        d[p] == 0x55 ==> vm_op(m, d, p).0.stack == match m.window {
            Some(w) => m.stack.push(sum_i16(w, w.len() as int) as i64),
            None => m.stack,
        },
{
    if d[p] == 0x51 {
        let n = m.stack.len() as int;
        if n >= 2 {
            assert(m.stack.drop_last().drop_last() == m.stack.take(n - 2));
        }
    }
}

/// Dropping telemetry (`0x54` with a count byte) removes as many leading values as the count
/// says, or all of them when fewer are held, and keeps the rest in order.
pub proof fn lemma_drop_leading_telemetry(m: VmModel, d: Seq<u8>, p: int)
    requires
        0 <= p,
        p + 2 <= d.len(),
        d[p] == 0x54,
    ensures
        ({
            let k = if (d[p + 1] as int) < m.telemetry.len() {
                d[p + 1] as int
            } else {
                m.telemetry.len() as int
            };
            &&& vm_op(m, d, p).0.telemetry.len() == m.telemetry.len() - k
            &&& forall|i: int|
                0 <= i < m.telemetry.len() - k ==> #[trigger] vm_op(m, d, p).0.telemetry[i]
                    == m.telemetry[i + k]
        }),
{
}

/// A literal (`0x40` with a length byte) appends its bytes to the output; a back-reference
/// (`0x43` with a mark index and a repeat byte) appends a mark's bytes at most eight times, as
/// many times as the repeat byte says, and nothing when there is no mark.
pub proof fn lemma_codec_output(m: CodecModel, d: Seq<u8>, p: int)
    requires
        0 <= p < d.len(),
    ensures
        d[p] == 0x40 && p + 2 + d[p + 1] <= d.len() ==> codec_op(m, d, p).0.produced == m.produced
            + d.subrange(p + 2, p + 2 + d[p + 1]),
        d[p] == 0x43 && p + 3 <= d.len() ==> codec_op(m, d, p).0.produced.len() == m.produced.len()
            + if m.marks.len() == 0 {
            0
        } else {
            (if d[p + 2] < 8 {
                d[p + 2] as int
            } else {
                8
            }) * m.marks[(d[p + 1] as int) % (m.marks.len() as int)].len()
        },
{
    if d[p] == 0x43 && p + 3 <= d.len() && m.marks.len() > 0 {
        let src = m.marks[(d[p + 1] as int) % (m.marks.len() as int)];
        let t: nat = if d[p + 2] < 8 { d[p + 2] as nat } else { 8nat };
        lemma_repeat_len(src, t);
    }
}

proof fn lemma_repeat_len(s: Seq<u8>, k: nat)
    ensures
        crate::codec::repeat_seq(s, k).len() == k * s.len(),
    decreases k,
{
    if k > 0 {
        let j = (k - 1) as nat;
        lemma_repeat_len(s, j);
        let prev = crate::codec::repeat_seq(s, j).len();
        let n = s.len();
        assert(crate::codec::repeat_seq(s, k).len() == prev + n);
        assert(prev + n == k * n) by (nonlinear_arith)
            requires
                k == j + 1,
                prev == j * n,
        ;
    }
}

/// Adding an entry (`0x01` with a length byte and bytes) appends the bytes as the last entry
/// while fewer than 4096 are held; clearing (`0x05`) leaves no entry and starts a new
/// generation.
pub proof fn lemma_entries_added_and_cleared(m: DictModel, d: Seq<u8>, p: int)
    requires
        0 <= p < d.len(),
    ensures
        d[p] == 0x01 && p + 2 + d[p + 1] <= d.len() && m.entries.len() < 4096 ==> dict_op(
            m,
            d,
            p,
        ).0.entries == m.entries.push(d.subrange(p + 2, p + 2 + d[p + 1])),
        d[p] == 0x05 ==> dict_op(m, d, p).0.entries.len() == 0 && dict_op(m, d, p).0.generation
            != m.generation,
{
}

proof fn lemma_add_scripts_longer(score: i64, rs: Seq<ScriptResult>, r: ScriptResult, k: int)
    requires
        0 <= k <= rs.len(),
    ensures
        add_scripts(score, rs.push(r), k) == add_scripts(score, rs, k),
    decreases k,
{
    if k > 0 {
        lemma_add_scripts_longer(score, rs, r, k - 1);
        assert(rs.push(r)[k - 1] == rs[k - 1]);
    }
}

/// `v` clamped to the range of `i64`.
pub open spec fn clamp64(v: int) -> int {
    if v > i64::MAX {
        i64::MAX as int
    } else if v < i64::MIN {
        i64::MIN as int
    } else {
        v
    }
}

/// One more script result adds its accumulator and then eleven per alert to the risk score,
/// each addition clamped to the `i64` range.
pub proof fn lemma_script_result_adds_to_risk(s: SessionModel, r: ScriptResult)
    requires
        !analyze_overflows(s),
    ensures
        analyze_spec(SessionModel { script_results: s.script_results.push(r), ..s }).score as int
            == clamp64(clamp64(analyze_spec(s).score as int + r.accumulator as int) + 11 * r.alerts as int),
{
    let s2 = SessionModel { script_results: s.script_results.push(r), ..s };
    lemma_add_scripts_longer(
        add_journals(
            crate::analyzer::overload(crate::analyzer::base_score(s) as int, s.telemetry, s.telemetry.len() as int) as i64,
            s.journal_summaries,
            s.journal_summaries.len() as int,
        ),
        s.script_results,
        r,
        s.script_results.len() as int,
    );
    assert(s2.script_results[s.script_results.len() as int] == r);
}

/// Materializing moves every non-empty queued view, in order, after the stitched messages, and
/// empties the queue; empty views are dropped.
pub proof fn lemma_materialize_moves_nonempty_views(m: FragModel)
    ensures
        frag_materialize(m).stitched == m.stitched + m.pending.filter(|v: Seq<u8>| v.len() > 0),
        frag_materialize(m).pending.len() == 0,
        frag_materialize(m).lanes == m.lanes,
{
    lemma_runs_are_filter(m.pending, m.pending.len() as int);
    assert(m.pending.take(m.pending.len() as int) == m.pending);
}

proof fn lemma_runs_are_filter(s: Seq<Seq<u8>>, n: int)
    requires
        0 <= n <= s.len(),
    ensures
        nonempty_runs(s, n) == s.take(n).filter(|v: Seq<u8>| v.len() > 0),
    decreases n,
{
    reveal(Seq::filter);
    if n > 0 {
        lemma_runs_are_filter(s, n - 1);
        assert(s.take(n).drop_last() == s.take(n - 1));
        assert(s.take(n).last() == s[n - 1]);
    }
}

/// Reading telemetry takes a point from each 13 bytes: a 16-bit shelter id, a 32-bit minute,
/// 16-bit occupancy, water and medical wait, and a flags byte, all little-endian.
pub proof fn lemma_telemetry_point_layout(tel: Seq<TelemetryPoint>, d: Seq<u8>, p: int)
    requires
        0 <= p,
        p + 13 <= d.len(),
    ensures
        telemetry_from(tel, d, p).len() > tel.len(),
        telemetry_from(tel, d, p)[tel.len() as int] == (TelemetryPoint {
            shelter_id: (d[p] as int + 256 * d[p + 1] as int) as u16,
            minute: (d[p + 2] as int + 256 * d[p + 3] as int + 0x1_0000 * d[p + 4] as int
                + 0x100_0000 * d[p + 5] as int) as u32,
            occupancy: (d[p + 6] as int + 256 * d[p + 7] as int) as u16,
            water_liters: (d[p + 8] as int + 256 * d[p + 9] as int) as u16,
            medical_wait: (d[p + 10] as int + 256 * d[p + 11] as int) as u16,
            flags: d[p + 12],
        }),
{
    let t2 = tel.push(crate::session::point_at(d, p));
    if t2.len() <= 2048 {
        lemma_telemetry_keeps_prefix(t2, d, p + 13);
    }
}

proof fn lemma_telemetry_keeps_prefix(tel: Seq<TelemetryPoint>, d: Seq<u8>, p: int)
    ensures
        telemetry_from(tel, d, p).len() >= tel.len(),
        forall|i: int| 0 <= i < tel.len() ==> #[trigger] telemetry_from(tel, d, p)[i] == tel[i],
    decreases d.len() - p,
{
    if !(p < 0 || d.len() - p < 13) {
        let t2 = tel.push(crate::session::point_at(d, p));
        if t2.len() <= 2048 {
            lemma_telemetry_keeps_prefix(t2, d, p + 13);
            assert forall|i: int| 0 <= i < tel.len() implies #[trigger] telemetry_from(tel, d, p)[i]
                == tel[i] by {
                assert(t2[i] == tel[i]);
            }
        }
    }
}

proof fn lemma_join_longer(toks: Seq<Seq<char>>, t: Seq<char>, k: int)
    requires
        0 <= k <= toks.len(),
    ensures
        join_tokens(toks.push(t), k) == join_tokens(toks, k),
    decreases k,
{
    if k > 0 {
        lemma_join_longer(toks, t, k - 1);
        assert(toks.push(t)[k - 1] == toks[k - 1]);
        assert(toks.push(t)[0] == toks[0]);
    }
}

/// Rendering joins the tokens with single spaces: with no retained text, a book with one
/// more (non-empty) token renders the line of the shorter book, a space and the token; a lone
/// non-empty token renders as itself.
pub proof fn lemma_render_joins_with_spaces(m: TemplateModel, t: Seq<char>)
    requires
        m.retained.len() == 0,
        t.len() > 0,
    ensures
        ({
            let longer = TemplateModel { tokens: m.tokens.push(t), ..m };
            let before = render_spec(m).rendered;
            &&& m.tokens.len() == 0 ==> render_spec(longer).rendered == m.rendered.push(t)
            &&& m.tokens.len() > 0 && before.len() > m.rendered.len() ==> render_spec(
                longer,
            ).rendered == m.rendered.push(before.last() + seq![' '] + t)
        }),
{
    let n = m.tokens.len() as int;
    lemma_join_longer(m.tokens, t, n);
    assert(m.tokens.push(t)[n] == t);
    if n == 0 {
        assert(m.tokens.push(t)[0] == t);
    }
}

/// Adding a lane (`0x11`) appends a lane read from its bytes, while fewer than 4096 are held:
/// 16-bit from, to and minutes, little-endian, then flags and confidence bytes.
pub proof fn lemma_lane_layout(m: RouteModel, dict: DictModel, d: Seq<u8>, p: int)
    requires
        0 <= p,
        p + 9 <= d.len(),
        d[p] == 0x11,
        m.lanes.len() < 4096,
    ensures
        route_op(m, dict, d, p).0.lanes == m.lanes.push(
            RouteLane {
                from: (d[p + 1] as int + 256 * d[p + 2] as int) as u16,
                to: (d[p + 3] as int + 256 * d[p + 4] as int) as u16,
                minutes: (d[p + 5] as int + 256 * d[p + 6] as int) as u16,
                flags: d[p + 7],
                confidence: d[p + 8],
            },
        ),
        route_op(m, dict, d, p).0.nodes == m.nodes,
{
}

/// Adding a shelter node (`0x10`) appends a node read from its bytes, while fewer than 2048
/// are held: 16-bit id, region, capacity and occupancy, little-endian, then a length byte and
/// the label.
pub proof fn lemma_node_layout(m: RouteModel, dict: DictModel, d: Seq<u8>, p: int)
    requires
        0 <= p,
        p + 10 <= d.len(),
        p + 10 + d[p + 9] <= d.len(),
        d[p] == 0x10,
        m.nodes.len() < 2048,
    ensures
        route_op(m, dict, d, p).0.nodes == m.nodes.push(
            NodeModel {
                id: (d[p + 1] as int + 256 * d[p + 2] as int) as u16,
                region: (d[p + 3] as int + 256 * d[p + 4] as int) as u16,
                capacity: (d[p + 5] as int + 256 * d[p + 6] as int) as u16,
                occupancy: (d[p + 7] as int + 256 * d[p + 8] as int) as u16,
                label: d.subrange(p + 10, p + 10 + d[p + 9]),
            },
        ),
        route_op(m, dict, d, p).0.lanes == m.lanes,
{
}

/// Stocking an item (`0x20`) appends an item read from its bytes, while fewer than 2048 are
/// held: 16-bit SKU, signed quantity and expiry day, little-endian, a bin byte, a length
/// byte and the name.
pub proof fn lemma_item_layout(m: LedgerModel, d: Seq<u8>, p: int)
    requires
        0 <= p,
        p + 9 <= d.len(),
        p + 9 + d[p + 8] <= d.len(),
        d[p] == 0x20,
        m.items.len() < 2048,
    ensures
        ledger_op(m, d, p).0.items == m.items.push(
            ItemModel {
                sku: (d[p + 1] as int + 256 * d[p + 2] as int) as u16,
                quantity: word_as_i16((d[p + 3] as int + 256 * d[p + 4] as int) as u16) as i32,
                expires_day: (d[p + 5] as int + 256 * d[p + 6] as int) as u16,
                bin: d[p + 7],
                name: d.subrange(p + 9, p + 9 + d[p + 8]),
            },
        ),
        ledger_op(m, d, p).0.movements == m.movements,
{
}

/// A name snapshot (`0x22` with a 16-bit index) on a ledger of `n > 0` items keeps the name
/// of the item at the index modulo `n`, counting from the first item.
pub proof fn lemma_snapshot_picks_item(m: LedgerModel, d: Seq<u8>, p: int)
    requires
        0 <= p,
        p + 3 <= d.len(),
        d[p] == 0x22,
        m.items.len() > 0,
    ensures
        ledger_op(m, d, p).0.snapshots == m.snapshots.push(
            m.items[(d[p + 1] as int + 256 * d[p + 2] as int) % (m.items.len() as int)].name,
        ),
        ledger_op(m, d, p).0.items == m.items,
{
}

} // verus!