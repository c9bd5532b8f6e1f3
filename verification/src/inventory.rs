use vstd::prelude::*;

use crate::arena::{capture_bytes, capture_slice, read_at, span_score, span_score_spec, spans_seq, RawSlice, RawSpan};
use crate::cursor::{le_u16, word_as_i16, Cursor};
use crate::error::{eof_error, overflow_error, DecodeError, Result};
use crate::model::{ItemModel, StockItem};
use crate::ops::{run_ops, run_panics, sat_i32, saturating_add_i32, skip_op, skip_unknown, step_result, OpStep};

verus! {

/// The most items a ledger takes in from its operations.
pub const MAX_ITEMS: usize = 2048;

/// A stock ledger.
#[derive(Clone, Debug)]
pub struct InventoryLedger {
    pub items: Vec<StockItem>,
    name_snapshots: Vec<RawSpan>,
    quantity_view: Option<RawSlice<i32>>,
    quantity_index: usize,
    pub movements: i64,
}

/// What a ledger holds.
pub struct LedgerModel {
    pub items: Seq<ItemModel>,
    pub snapshots: Seq<Seq<u8>>,
    pub quantity_view: Option<Seq<i32>>,
    pub quantity_index: usize,
    pub movements: i64,
}

/// The models of a sequence of stock items.
pub open spec fn items_seq(v: Seq<StockItem>) -> Seq<ItemModel> {
    v.map_values(|i: StockItem| i@)
}

impl View for InventoryLedger {
    type V = LedgerModel;

    closed spec fn view(&self) -> LedgerModel {
        LedgerModel {
            items: items_seq(self.items@),
            snapshots: spans_seq(self.name_snapshots@),
            quantity_view: match self.quantity_view {
                Some(r) => Some(r@),
                None => None,
            },
            quantity_index: self.quantity_index,
            movements: self.movements,
        }
    }
}

/// The empty ledger.
pub open spec fn empty_ledger() -> LedgerModel {
    LedgerModel {
        items: Seq::empty(),
        snapshots: Seq::empty(),
        quantity_view: None,
        quantity_index: 0,
        movements: 0,
    }
}

/// The sum of the quantities of the first `n` items.
pub open spec fn quantity_sum(items: Seq<ItemModel>, n: int) -> int
    decreases n,
{
    if n <= 0 {
        0
    } else {
        quantity_sum(items, n - 1) + items[n - 1].quantity
    }
}

/// Every running sum of the first `n` quantities fits in an `i32`.
pub open spec fn quantity_sum_fits(items: Seq<ItemModel>, n: int) -> bool
    decreases n,
{
    if n <= 0 {
        true
    } else {
        quantity_sum_fits(items, n - 1) && i32::MIN <= quantity_sum(items, n) <= i32::MAX
    }
}

/// The sum of the quantities mixed with the scores of the first `n` name snapshots longer
/// than eight bytes, by exclusive or.
pub open spec fn mix_snapshots(score: i32, snaps: Seq<Seq<u8>>, n: int) -> i32
    decreases n,
{
    if n <= 0 {
        score
    } else if snaps[n - 1].len() > 8 {
        mix_snapshots(score, snaps, n - 1) ^ (span_score_spec(snaps[n - 1]) as i32)
    } else {
        mix_snapshots(score, snaps, n - 1)
    }
}

/// The reconciliation score of a ledger: the sum of its quantities mixed with its snapshot
/// scores. The quantity view is only read past its end, where nothing is found.
pub open spec fn reconcile_spec(m: LedgerModel) -> i32 {
    mix_snapshots(quantity_sum(m.items, m.items.len() as int) as i32, m.snapshots, m.snapshots.len() as int)
}

/// Reconciliation overflows when a running sum of the quantities leaves the `i32` range.
pub open spec fn reconcile_overflows(m: LedgerModel) -> bool {
    !quantity_sum_fits(m.items, m.items.len() as int)
}

/// Whether rotation with `selector` keeps an item: with an even selector, when it is in stock;
/// with an odd one, when it expires after day `selector`.
pub open spec fn item_kept(it: ItemModel, selector: u8) -> bool {
    if selector & 1 == 0 {
        it.quantity > 0
    } else {
        it.expires_day > selector as u16
    }
}

/// The first `n` items, without those that a rotation with the selector drops.
pub open spec fn rotated(items: Seq<ItemModel>, selector: u8, n: int) -> Seq<ItemModel>
    decreases n,
{
    if n <= 0 {
        Seq::empty()
    } else {
        let it = items[n - 1];
        if item_kept(it, selector) {
            rotated(items, selector, n - 1).push(it)
        } else {
            rotated(items, selector, n - 1)
        }
    }
}

/// The items with the delta applied, saturating, to the quantity of those with the SKU.
pub open spec fn bump_items(items: Seq<ItemModel>, sku: u16, delta: i32) -> Seq<ItemModel> {
    items.map_values(
        |it: ItemModel|
            if it.sku == sku {
                ItemModel { quantity: sat_i32(it.quantity as int, delta as int), ..it }
            } else {
                it
            },
    )
}

/// How many of the first `n` items have the SKU.
pub open spec fn count_sku(items: Seq<ItemModel>, sku: u16, n: int) -> int
    decreases n,
{
    if n <= 0 {
        0
    } else {
        count_sku(items, sku, n - 1) + if items[n - 1].sku == sku {
            1int
        } else {
            0int
        }
    }
}

/// The movement total after a delta booked once per item with the SKU.
pub open spec fn moved(m: LedgerModel, sku: u16, delta: i32) -> int {
    m.movements + count_sku(m.items, sku, m.items.len() as int) * delta
}

/// The quantities of the items, in order.
pub open spec fn quantities(items: Seq<ItemModel>) -> Seq<i32> {
    items.map_values(|it: ItemModel| it.quantity)
}

/// One ledger operation at `p`: `0x20` stocks an item (SKU, signed quantity, expiry day, bin,
/// length byte and name) while fewer than `MAX_ITEMS` are held; `0x21` applies a signed
/// delta to every item with a SKU and books it as a movement per item; `0x22` snapshots the
/// name of the item at a 16-bit index (modulo the number of items); `0x23` rotates with a
/// selector byte; `0x24` takes a view of the quantities, then reads a 16-bit index into it;
/// `0x25` books the reconciliation score as a movement; any other opcode skips up to 11
/// bytes.
pub open spec fn ledger_op(m: LedgerModel, d: Seq<u8>, p: int) -> (LedgerModel, Result<int>) {
    let op = d[p];
    let q = p + 1;
    if op == 0x20 {
        if q + 2 > d.len() {
            (m, Err(eof_error(q)))
        } else if q + 4 > d.len() {
            (m, Err(eof_error(q + 2)))
        } else if q + 6 > d.len() {
            (m, Err(eof_error(q + 4)))
        } else if q + 7 > d.len() {
            (m, Err(eof_error(q + 6)))
        } else if q + 8 > d.len() {
            (m, Err(eof_error(q + 7)))
        } else if q + 8 + d[q + 7] > d.len() {
            (m, Err(eof_error(q + 8)))
        } else {
            let it = ItemModel {
                sku: le_u16(d, q),
                quantity: word_as_i16(le_u16(d, q + 2)) as i32,
                expires_day: le_u16(d, q + 4),
                bin: d[q + 6],
                name: d.subrange(q + 8, q + 8 + d[q + 7]),
            };
            let next = q + 8 + d[q + 7];
            if m.items.len() < MAX_ITEMS {
                (LedgerModel { items: m.items.push(it), ..m }, Ok(next))
            } else {
                (m, Ok(next))
            }
        }
    } else if op == 0x21 {
        if q + 2 > d.len() {
            (m, Err(eof_error(q)))
        } else if q + 4 > d.len() {
            (m, Err(eof_error(q + 2)))
        } else {
            let sku = le_u16(d, q);
            let delta = word_as_i16(le_u16(d, q + 2)) as i32;
            (
                LedgerModel {
                    items: bump_items(m.items, sku, delta),
                    movements: moved(m, sku, delta) as i64,
                    ..m
                },
                Ok(q + 4),
            )
        }
    } else if op == 0x22 {
        if q + 2 > d.len() {
            (m, Err(eof_error(q)))
        } else if m.items.len() > 0 {
            let it = m.items[(le_u16(d, q) as int) % (m.items.len() as int)];
            (LedgerModel { snapshots: m.snapshots.push(it.name), ..m }, Ok(q + 2))
        } else {
            (m, Ok(q + 2))
        }
    } else if op == 0x23 {
        if q + 1 > d.len() {
            (m, Err(eof_error(q)))
        } else {
            (LedgerModel { items: rotated(m.items, d[q], m.items.len() as int), ..m }, Ok(q + 1))
        }
    } else if op == 0x24 {
        let viewed = LedgerModel { quantity_view: Some(quantities(m.items)), ..m };
        if q + 2 > d.len() {
            (viewed, Err(eof_error(q)))
        } else {
            (LedgerModel { quantity_index: le_u16(d, q) as usize, ..viewed }, Ok(q + 2))
        }
    } else if op == 0x25 {
        (LedgerModel { movements: (m.movements + reconcile_spec(m)) as i64, ..m }, Ok(q))
    } else {
        (m, Ok(skip_unknown(d, p, 12)))
    }
}

/// Whether the ledger operation at `p` overflows: a movement total out of the `i64` range, or
/// a reconciliation that overflows.
pub open spec fn ledger_op_panics(m: LedgerModel, d: Seq<u8>, p: int) -> bool {
    let op = d[p];
    let q = p + 1;
    if op == 0x21 && q + 4 <= d.len() {
        let t = moved(m, le_u16(d, q), word_as_i16(le_u16(d, q + 2)) as i32);
        t < i64::MIN || t > i64::MAX
    } else if op == 0x25 {
        reconcile_overflows(m) || m.movements + reconcile_spec(m) < i64::MIN || m.movements
            + reconcile_spec(m) > i64::MAX
    } else {
        false
    }
}

/// The ledger operation step.
pub open spec fn ledger_step() -> OpStep<LedgerModel> {
    |m: LedgerModel, d: Seq<u8>, p: int| ledger_op(m, d, p)
}

/// The ledger overflow predicate.
pub open spec fn ledger_panics() -> spec_fn(LedgerModel, Seq<u8>, int) -> bool {
    |m: LedgerModel, d: Seq<u8>, p: int| ledger_op_panics(m, d, p)
}

proof fn lemma_partial_moves(m0: int, k: int, total: int, delta: int)
    requires
        0 <= k <= total,
        i64::MIN <= m0 <= i64::MAX,
        i64::MIN <= m0 + total * delta <= i64::MAX,
    ensures
        i64::MIN <= m0 + k * delta <= i64::MAX,
{
    assert(m0 + k * delta <= m0 + total * delta || m0 + k * delta <= m0) by (nonlinear_arith)
        requires
            0 <= k <= total,
    ;
    assert(m0 + k * delta >= m0 + total * delta || m0 + k * delta >= m0) by (nonlinear_arith)
        requires
            0 <= k <= total,
    ;
}

fn copy_item(it: &StockItem) -> (c: StockItem)
    ensures
        c@ == it@,
{
    StockItem {
        sku: it.sku,
        quantity: it.quantity,
        expires_day: it.expires_day,
        bin: it.bin,
        name: capture_bytes(it.name.as_slice()).bytes,
    }
}

impl InventoryLedger {
    /// The stock items, as the view holds them.
    pub fn items(&self) -> (v: &[StockItem])
        ensures
            items_seq(v@) == self@.items,
    {
        self.items.as_slice()
    }

    /// The movement total, as the view holds it.
    pub fn movements(&self) -> (m: i64)
        ensures
            m == self@.movements,
    {
        self.movements
    }

    pub fn new() -> (l: Self)
        ensures
            l@ == empty_ledger(),
    {
        let l = InventoryLedger {
            items: Vec::new(),
            name_snapshots: Vec::new(),
            quantity_view: None,
            quantity_index: 0,
            movements: 0,
        };
        assert(l@.items == Seq::<ItemModel>::empty());
        assert(l@.snapshots == Seq::<Seq<u8>>::empty());
        l
    }

    fn bump(&mut self, sku: u16, delta: i32)
        requires
            i64::MIN <= moved(old(self)@, sku, delta) <= i64::MAX,
        ensures
            final(self)@ == (LedgerModel {
                items: bump_items(old(self)@.items, sku, delta),
                movements: moved(old(self)@, sku, delta) as i64,
                ..old(self)@
            }),
    {
        let ghost m0 = old(self)@;
        let mut items: Vec<StockItem> = Vec::new();
        std::mem::swap(&mut items, &mut self.items);
        let mut out: Vec<StockItem> = Vec::new();
        let mut i: usize = 0;
        proof {
            lemma_count_bounds(m0.items, sku, m0.items.len() as int);
        }
        while i < items.len()
            invariant
                0 <= i <= items@.len(),
                m0.items == items_seq(items@),
                items_seq(out@) == bump_items(m0.items, sku, delta).take(i as int),
                self.movements == m0.movements + count_sku(m0.items, sku, i as int) * delta,
                self.name_snapshots == old(self).name_snapshots,
                self.quantity_view == old(self).quantity_view,
                self.quantity_index == old(self).quantity_index,
                i64::MIN <= moved(m0, sku, delta) <= i64::MAX,
                0 <= count_sku(m0.items, sku, m0.items.len() as int) <= m0.items.len(),
            decreases items@.len() - i,
        {
            let it = &items[i];
            assert(m0.items[i as int] == it@);
            let mut next = copy_item(it);
            if it.sku == sku {
                next.quantity = saturating_add_i32(it.quantity, delta);
                proof {
                    let c = count_sku(m0.items, sku, i as int);
                    assert(count_sku(m0.items, sku, (i + 1) as int) == c + 1);
                    assert((c + 1) * delta == c * delta + delta) by (nonlinear_arith);
                    lemma_count_mono(m0.items, sku, (i + 1) as int, m0.items.len() as int);
                    lemma_partial_moves(
                        m0.movements as int,
                        count_sku(m0.items, sku, (i + 1) as int),
                        count_sku(m0.items, sku, m0.items.len() as int),
                        delta as int,
                    );
                }
                self.movements = self.movements + delta as i64;
            }
            assert(it.sku != sku ==> count_sku(m0.items, sku, (i + 1) as int) == count_sku(m0.items, sku, i as int));
            let ghost before = out@;
            out.push(next);
            i = i + 1;
            assert(items_seq(out@) == items_seq(before).push(next@));
            assert(bump_items(m0.items, sku, delta).take(i as int) == bump_items(m0.items, sku, delta).take((i - 1) as int).push(next@));
        }
        assert(bump_items(m0.items, sku, delta).take(items@.len() as int) == bump_items(m0.items, sku, delta));
        self.items = out;
    }

    fn apply_op(&mut self, c: &mut Cursor) -> (r: Result<()>)
        requires
            old(c).wf(),
            old(c).pos() < old(c).bytes().len(),
            !ledger_op_panics(old(self)@, old(c).bytes(), old(c).pos()),
        ensures
            final(c).bytes() == old(c).bytes(),
            final(c).wf(),
            step_result(final(self)@, r, final(c).pos(), ledger_op(old(self)@, old(c).bytes(), old(c).pos())),
    {
        let op = c.u8()?;
        if op == 0x20 {
            let sku = c.u16()?;
            let quantity = c.i16()? as i32;
            let expires_day = c.u16()?;
            let bin = c.u8()?;
            let name = capture_bytes(c.take_len8()?).bytes;
            if self.items.len() < MAX_ITEMS {
                let it = StockItem { sku, quantity, expires_day, bin, name };
                let ghost before = self.items@;
                self.items.push(it);
                assert(items_seq(self.items@) == items_seq(before).push(it@));
            }
        } else if op == 0x21 {
            let sku = c.u16()?;
            let delta = c.i16()? as i32;
            self.bump(sku, delta);
        } else if op == 0x22 {
            let idx = c.u16()? as usize;
            if self.items.len() > 0 {
                let k = idx % self.items.len();
                assert(self@.items[k as int] == self.items@[k as int]@);
                let span = capture_bytes(self.items[k].name.as_slice());
                let ghost before = self.name_snapshots@;
                self.name_snapshots.push(span);
                assert(spans_seq(self.name_snapshots@) == spans_seq(before).push(span@));
            }
        } else if op == 0x23 {
            let selector = c.u8()?;
            self.rotate(selector);
        } else if op == 0x24 {
            let mut qs: Vec<i32> = Vec::new();
            let mut i: usize = 0;
            while i < self.items.len()
                invariant
                    0 <= i <= self.items@.len(),
                    qs@ == quantities(self@.items).take(i as int),
                decreases self.items@.len() - i,
            {
                assert(self@.items[i as int] == self.items@[i as int]@);
                qs.push(self.items[i].quantity);
                i = i + 1;
                assert(quantities(self@.items).take(i as int) == quantities(self@.items).take((i - 1) as int).push(self.items@[i - 1].quantity));
            }
            assert(quantities(self@.items).take(self.items@.len() as int) == quantities(self@.items));
            self.quantity_view = Some(capture_slice(qs.as_slice()));
            self.quantity_index = c.u16()? as usize;
        } else if op == 0x25 {
            let r = self.reconcile();
            self.movements = self.movements + r as i64;
        } else {
            skip_op(c, op, 12);
        }
        Ok(())
    }

    /// Runs the operations of `payload`.
    pub fn parse_ops(&mut self, payload: &[u8]) -> (r: Result<()>)
        requires
            !run_panics(ledger_step(), ledger_panics(), old(self)@, payload@, 0),
        ensures
            (final(self)@, r) == run_ops(ledger_step(), old(self)@, payload@, 0),
    {
        self.parse_ops_checked(payload)
    }

    /// Runs the operations of `payload` as `parse_ops` does, but returns `overflow_error()`
    /// (leaving the ledger in an unspecified state) where an operation would overflow.
    pub fn parse_ops_checked(&mut self, payload: &[u8]) -> (r: Result<()>)
        ensures
            run_panics(ledger_step(), ledger_panics(), old(self)@, payload@, 0) ==> r == Err::<
                (),
                DecodeError,
            >(overflow_error()),
            !run_panics(ledger_step(), ledger_panics(), old(self)@, payload@, 0) ==> (
            final(self)@,
            r,
            ) == run_ops(ledger_step(), old(self)@, payload@, 0),
    {
        let mut c = Cursor::new(payload);
        let ghost aborts = run_panics(ledger_step(), ledger_panics(), old(self)@, payload@, 0);
        while !c.is_empty()
            invariant
                c.bytes() == payload@,
                c.wf(),
                run_ops(ledger_step(), self@, payload@, c.pos()) == run_ops(
                    ledger_step(),
                    old(self)@,
                    payload@,
                    0,
                ),
                run_panics(ledger_step(), ledger_panics(), self@, payload@, c.pos()) == aborts,
                aborts == run_panics(ledger_step(), ledger_panics(), old(self)@, payload@, 0),
            decreases payload@.len() - c.pos(),
        {
            let ghost p = c.pos();
            let ghost m = self@;
            assert(ledger_panics()(m, payload@, p) == ledger_op_panics(m, payload@, p));
            if self.op_would_overflow(c) {
                return Err(DecodeError::overflow());
            }
            let r = self.apply_op(&mut c);
            assert(ledger_step()(m, payload@, p) == ledger_op(m, payload@, p));
            if r.is_err() {
                return r;
            }
        }
        Ok(())
    }

    /// Whether the operation at the cursor would overflow (see `ledger_op_panics`).
    fn op_would_overflow(&self, c: Cursor) -> (b: bool)
        requires
            c.wf(),
            c.pos() < c.bytes().len(),
        ensures
            b == ledger_op_panics(self@, c.bytes(), c.pos()),
    {
        let mut k = c;
        let op = match k.u8() {
            Ok(v) => v,
            Err(_) => {
                return false;
            },
        };
        if op == 0x21 {
            if k.remaining() < 4 {
                return false;
            }
            let sku = match k.u16() {
                Ok(v) => v,
                Err(_) => {
                    return false;
                },
            };
            let delta = match k.i16() {
                Ok(v) => v as i32,
                Err(_) => {
                    return false;
                },
            };
            !self.moved_fits(sku, delta)
        } else if op == 0x25 {
            if self.reconcile_would_overflow() {
                return true;
            }
            let r = self.reconcile();
            let t = self.movements as i128 + r as i128;
            t < i64::MIN as i128 || t > i64::MAX as i128
        } else {
            false
        }
    }

    /// Whether booking `delta` once per item with the SKU keeps the movement total in range.
    fn moved_fits(&self, sku: u16, delta: i32) -> (b: bool)
        ensures
            b == (i64::MIN <= moved(self@, sku, delta) <= i64::MAX),
    {
        let mut count: usize = 0;
        let mut i: usize = 0;
        while i < self.items.len()
            invariant
                0 <= i <= self.items@.len(),
                count == count_sku(self@.items, sku, i as int),
                count <= i,
            decreases self.items@.len() - i,
        {
            assert(self@.items[i as int] == self.items@[i as int]@);
            if self.items[i].sku == sku {
                count = count + 1;
            }
            i = i + 1;
        }
        let cnt = count as i128;
        let dl = delta as i128;
        assert(-0x1_0000_0000_0000_0000_0000_0000 <= cnt * dl <= 0x1_0000_0000_0000_0000_0000_0000)
            by (nonlinear_arith)
            requires
                0 <= cnt <= 0x1_0000_0000_0000_0000,
                -0x8000_0000 <= dl <= 0x7fff_ffff,
        ;
        let t = self.movements as i128 + cnt * dl;
        i64::MIN as i128 <= t && t <= i64::MAX as i128
    }

    /// Whether reconciliation would overflow (see `reconcile_overflows`).
    pub fn reconcile_would_overflow(&self) -> (b: bool)
        ensures
            b == reconcile_overflows(self@),
    {
        let mut sum: i64 = 0;
        let mut i: usize = 0;
        while i < self.items.len()
            invariant
                0 <= i <= self.items@.len(),
                sum == quantity_sum(self@.items, i as int),
                quantity_sum_fits(self@.items, i as int),
            decreases self.items@.len() - i,
        {
            assert(self@.items[i as int] == self.items@[i as int]@);
            sum = sum + self.items[i].quantity as i64;
            i = i + 1;
            if sum < i32::MIN as i64 || sum > i32::MAX as i64 {
                proof {
                    lemma_unfit_stays(self@.items, i as int, self@.items.len() as int);
                }
                return true;
            }
        }
        false
    }

    /// Keeps the items that the selector keeps (see `rotated`).
    pub fn rotate(&mut self, selector: u8)
        ensures
            final(self)@ == (LedgerModel {
                items: rotated(old(self)@.items, selector, old(self)@.items.len() as int),
                ..old(self)@
            }),
    {
        let mut items: Vec<StockItem> = Vec::new();
        std::mem::swap(&mut items, &mut self.items);
        let ghost its = old(self)@.items;
        let mut kept: Vec<StockItem> = Vec::new();
        let mut i: usize = 0;
        while i < items.len()
            invariant
                0 <= i <= items@.len(),
                its == items_seq(items@),
                items_seq(kept@) == rotated(its, selector, i as int),
            decreases items@.len() - i,
        {
            let it = &items[i];
            assert(its[i as int] == it@);
            let keep = if selector & 1 == 0 {
                it.quantity > 0
            } else {
                it.expires_day > selector as u16
            };
            if keep {
                let copy = copy_item(it);
                let ghost before = kept@;
                kept.push(copy);
                assert(items_seq(kept@) == items_seq(before).push(copy@));
            }
            i = i + 1;
        }
        self.items = kept;
    }

    /// The reconciliation score (see `reconcile_spec`).
    pub fn reconcile(&self) -> (score: i32)
        requires
            !reconcile_overflows(self@),
        ensures
            score == reconcile_spec(self@),
    {
        let mut sum: i32 = 0;
        let mut i: usize = 0;
        proof {
            lemma_fits_prefix(self@.items, self@.items.len() as int);
        }
        while i < self.items.len()
            invariant
                0 <= i <= self.items@.len(),
                sum == quantity_sum(self@.items, i as int),
                forall|k: int| 0 <= k <= self@.items.len() ==> #[trigger] quantity_sum_fits(self@.items, k),
            decreases self.items@.len() - i,
        {
            assert(self@.items[i as int] == self.items@[i as int]@);
            assert(quantity_sum_fits(self@.items, i + 1));
            sum = sum + self.items[i].quantity;
            i = i + 1;
        }
        let mut score = sum;
        let mut j: usize = 0;
        while j < self.name_snapshots.len()
            invariant
                0 <= j <= self.name_snapshots@.len(),
                score == mix_snapshots(sum, self@.snapshots, j as int),
            decreases self.name_snapshots@.len() - j,
        {
            let span = &self.name_snapshots[j];
            assert(self@.snapshots[j as int] == span@);
            if span.len() > 8 {
                score = score ^ (span_score(span) as i32);
            }
            j = j + 1;
        }
        match &self.quantity_view {
            Some(raw) => {
                if !raw.is_empty() && self.quantity_index >= raw.len() {
                    match read_at(raw, self.quantity_index) {
                        Some(value) => {
                            score = saturating_add_i32(score, value);
                        },
                        None => {},
                    }
                }
            },
            None => {},
        }
        score
    }
}

proof fn lemma_unfit_stays(items: Seq<ItemModel>, k: int, n: int)
    requires
        0 <= k <= n,
        !quantity_sum_fits(items, k),
    ensures
        !quantity_sum_fits(items, n),
    decreases n - k,
{
    if k < n {
        lemma_unfit_stays(items, k, n - 1);
    }
}

proof fn lemma_fits_prefix(items: Seq<ItemModel>, n: int)
    requires
        quantity_sum_fits(items, n),
    ensures
        forall|k: int| 0 <= k <= n ==> #[trigger] quantity_sum_fits(items, k),
    decreases n,
{
    if n > 0 {
        lemma_fits_prefix(items, n - 1);
    }
}

proof fn lemma_count_bounds(items: Seq<ItemModel>, sku: u16, n: int)
    requires
        0 <= n,
    ensures
        0 <= count_sku(items, sku, n) <= n,
    decreases n,
{
    if n > 0 {
        lemma_count_bounds(items, sku, n - 1);
    }
}

proof fn lemma_count_mono(items: Seq<ItemModel>, sku: u16, i: int, n: int)
    requires
        0 <= i <= n,
    ensures
        0 <= count_sku(items, sku, i) <= count_sku(items, sku, n),
    decreases n,
{
    if n > i {
        lemma_count_mono(items, sku, i, n - 1);
    } else {
        lemma_count_bounds(items, sku, i);
    }
}

/// The ledger that a payload of operations builds from an empty one.
pub fn replay_inventory(payload: &[u8]) -> (r: Result<InventoryLedger>)
    requires
        !run_panics(ledger_step(), ledger_panics(), empty_ledger(), payload@, 0),
    ensures
        match r {
            Ok(l) => run_ops(ledger_step(), empty_ledger(), payload@, 0) == (l@, Ok::<(), DecodeError>(())),
            Err(e) => run_ops(ledger_step(), empty_ledger(), payload@, 0).1 == Err::<(), DecodeError>(e),
        },
{
    let mut ledger = InventoryLedger::new();
    ledger.parse_ops(payload)?;
    Ok(ledger)
}

/// The ledger that a payload of operations builds from an empty one, or `overflow_error()`
/// where an operation would overflow.
pub fn replay_inventory_checked(payload: &[u8]) -> (r: Result<InventoryLedger>)
    ensures
        run_panics(ledger_step(), ledger_panics(), empty_ledger(), payload@, 0) ==> r == Err::<
            InventoryLedger,
            DecodeError,
        >(overflow_error()),
        !run_panics(ledger_step(), ledger_panics(), empty_ledger(), payload@, 0) ==> match r {
            Ok(l) => run_ops(ledger_step(), empty_ledger(), payload@, 0) == (l@, Ok::<(), DecodeError>(())),
            Err(e) => run_ops(ledger_step(), empty_ledger(), payload@, 0).1 == Err::<(), DecodeError>(e),
        },
{
    let mut ledger = InventoryLedger::new();
    ledger.parse_ops_checked(payload)?;
    Ok(ledger)
}

impl Default for InventoryLedger {
    /// An empty ledger, as `new` makes it.
    fn default() -> (d: Self)
        ensures
            d@ == empty_ledger(),
    {
        Self::new()
    }
}

} // verus!
