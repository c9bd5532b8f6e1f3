use vstd::prelude::*;

use crate::arena::{capture_bytes, span_score, span_score_spec, spans_seq, RawSpan};
use crate::cursor::{le_u16, word_as_i16, Cursor};
use crate::error::{eof_error, DecodeError, Result};
use crate::model::JournalSummary;
use crate::ops::{run_ops, sat_i64, saturating_add_i64, skip_op, skip_unknown, step_result, OpStep};

verus! {

#[derive(Clone, Debug)]
struct JournalEvent {
    code: u16,
    amount: i32,
    note: Vec<u8>,
}

/// What a journal event holds.
pub struct EventModel {
    pub code: u16,
    pub amount: i32,
    pub note: Seq<u8>,
}

impl View for JournalEvent {
    type V = EventModel;

    closed spec fn view(&self) -> EventModel {
        EventModel { code: self.code, amount: self.amount, note: self.note@ }
    }
}

/// Replays a stock and checkpoint journal.
#[derive(Clone, Debug)]
pub struct JournalReplayer {
    events: Vec<JournalEvent>,
    checkpoints: Vec<RawSpan>,
    score: i64,
}

/// What a journal replayer holds.
pub struct JournalModel {
    pub events: Seq<EventModel>,
    pub checkpoints: Seq<Seq<u8>>,
    pub score: i64,
}

impl View for JournalReplayer {
    type V = JournalModel;

    closed spec fn view(&self) -> JournalModel {
        JournalModel {
            events: self.events@.map_values(|e: JournalEvent| e@),
            checkpoints: spans_seq(self.checkpoints@),
            score: self.score,
        }
    }
}

/// The empty replayer.
pub open spec fn empty_journal() -> JournalModel {
    JournalModel { events: Seq::empty(), checkpoints: Seq::empty(), score: 0 }
}

/// The events among the first `n` that a selector keeps: those whose code's low byte has the
/// same low bit as the selector.
pub open spec fn kept_events(evs: Seq<EventModel>, selector: u8, n: int) -> Seq<EventModel>
    decreases n,
{
    if n <= 0 {
        Seq::empty()
    } else if ((evs[n - 1].code as u8) ^ selector) & 1 == 0 {
        kept_events(evs, selector, n - 1).push(evs[n - 1])
    } else {
        kept_events(evs, selector, n - 1)
    }
}

/// `score` with the scores of the first `n` checkpoints mixed in by exclusive or.
pub open spec fn xor_checkpoints(score: i64, cps: Seq<Seq<u8>>, n: int) -> i64
    decreases n,
{
    if n <= 0 {
        score
    } else {
        xor_checkpoints(score, cps, n - 1) ^ (span_score_spec(cps[n - 1]) as i64)
    }
}

/// `score` with the amounts of the first `n` events added, saturating.
pub open spec fn add_amounts(score: i64, evs: Seq<EventModel>, n: int) -> i64
    decreases n,
{
    if n <= 0 {
        score
    } else {
        sat_i64(add_amounts(score, evs, n - 1) as int, evs[n - 1].amount as int)
    }
}

/// Closing the checkpoints: their scores mixed into the score and the checkpoints dropped,
/// then every event's amount added, saturating.
pub open spec fn journal_close(m: JournalModel) -> JournalModel {
    let s = xor_checkpoints(m.score, m.checkpoints, m.checkpoints.len() as int);
    JournalModel {
        checkpoints: Seq::empty(),
        score: add_amounts(s, m.events, m.events.len() as int),
        ..m
    }
}

/// One journal operation at `p`: `0x60` records an event (code, signed amount, length byte
/// and note); `0x61` checkpoints the note of the event chosen by a 16-bit index (modulo the
/// number of events), when there is one; `0x62` keeps the events that a selector byte keeps;
/// `0x63` closes the checkpoints; `0x64` checkpoints a note (length byte and bytes); any other
/// opcode skips up to 9 bytes.
pub open spec fn journal_op(m: JournalModel, d: Seq<u8>, p: int) -> (JournalModel, Result<int>) {
    let op = d[p];
    let q = p + 1;
    if op == 0x60 {
        if q + 2 > d.len() {
            (m, Err(eof_error(q)))
        } else if q + 4 > d.len() {
            (m, Err(eof_error(q + 2)))
        } else if q + 5 > d.len() {
            (m, Err(eof_error(q + 4)))
        } else if q + 5 + d[q + 4] > d.len() {
            (m, Err(eof_error(q + 5)))
        } else {
            let ev = EventModel {
                code: le_u16(d, q),
                amount: word_as_i16(le_u16(d, q + 2)) as i32,
                note: d.subrange(q + 5, q + 5 + d[q + 4]),
            };
            (JournalModel { events: m.events.push(ev), ..m }, Ok(q + 5 + d[q + 4]))
        }
    } else if op == 0x61 {
        if q + 2 > d.len() {
            (m, Err(eof_error(q)))
        } else if m.events.len() > 0 {
            let ev = m.events[(le_u16(d, q) as int) % (m.events.len() as int)];
            (JournalModel { checkpoints: m.checkpoints.push(ev.note), ..m }, Ok(q + 2))
        } else {
            (m, Ok(q + 2))
        }
    } else if op == 0x62 {
        if q + 1 > d.len() {
            (m, Err(eof_error(q)))
        } else {
            (
                JournalModel { events: kept_events(m.events, d[q], m.events.len() as int), ..m },
                Ok(q + 1),
            )
        }
    } else if op == 0x63 {
        (journal_close(m), Ok(q))
    } else if op == 0x64 {
        if q + 1 > d.len() {
            (m, Err(eof_error(q)))
        } else if q + 1 + d[q] > d.len() {
            (m, Err(eof_error(q + 1)))
        } else {
            (
                JournalModel { checkpoints: m.checkpoints.push(d.subrange(q + 1, q + 1 + d[q])), ..m },
                Ok(q + 1 + d[q]),
            )
        }
    } else {
        (m, Ok(skip_unknown(d, p, 10)))
    }
}

/// The journal operation step.
pub open spec fn journal_step() -> OpStep<JournalModel> {
    |m: JournalModel, d: Seq<u8>, p: int| journal_op(m, d, p)
}

/// The summary of a replayer: its event count, checkpoint count and score.
pub open spec fn summary_of(m: JournalModel) -> JournalSummary {
    JournalSummary {
        events: m.events.len() as usize,
        checkpoints: m.checkpoints.len() as usize,
        score: m.score,
    }
}

/// The summary of replaying `d` from the empty replayer.
pub open spec fn replay_journal_spec(d: Seq<u8>) -> Result<JournalSummary> {
    let (m, r) = run_ops(journal_step(), empty_journal(), d, 0);
    match r {
        Ok(_) => Ok(summary_of(m)),
        Err(e) => Err(e),
    }
}

impl JournalReplayer {
    pub fn new() -> (j: Self)
        ensures
            j@ == empty_journal(),
    {
        let j = JournalReplayer { events: Vec::new(), checkpoints: Vec::new(), score: 0 };
        assert(j@.events == Seq::<EventModel>::empty());
        assert(j@.checkpoints == Seq::<Seq<u8>>::empty());
        j
    }

    fn apply_op(&mut self, c: &mut Cursor) -> (r: Result<()>)
        requires
            old(c).wf(),
            old(c).pos() < old(c).bytes().len(),
        ensures
            final(c).bytes() == old(c).bytes(),
            final(c).wf(),
            step_result(final(self)@, r, final(c).pos(), journal_op(old(self)@, old(c).bytes(), old(c).pos())),
    {
        let op = c.u8()?;
        if op == 0x60 {
            let code = c.u16()?;
            let amount = c.i16()? as i32;
            let note = capture_bytes(c.take_len8()?).bytes;
            let ev = JournalEvent { code, amount, note };
            let ghost before = self.events@;
            self.events.push(ev);
            assert(self.events@.map_values(|e: JournalEvent| e@) == before.map_values(
                |e: JournalEvent| e@,
            ).push(ev@));
        } else if op == 0x61 {
            let idx = c.u16()? as usize;
            if self.events.len() > 0 {
                let k = idx % self.events.len();
                let span = capture_bytes(self.events[k].note.as_slice());
                assert(self@.events[k as int] == self.events@[k as int]@);
                let ghost before = self.checkpoints@;
                self.checkpoints.push(span);
                assert(spans_seq(self.checkpoints@) == spans_seq(before).push(span@));
            }
        } else if op == 0x62 {
            let selector = c.u8()?;
            self.retain_events(selector);
        } else if op == 0x63 {
            self.close_checkpoints();
        } else if op == 0x64 {
            let span = capture_bytes(c.take_len8()?);
            let ghost before = self.checkpoints@;
            self.checkpoints.push(span);
            assert(spans_seq(self.checkpoints@) == spans_seq(before).push(span@));
        } else {
            skip_op(c, op, 10);
        }
        Ok(())
    }

    fn retain_events(&mut self, selector: u8)
        ensures
            final(self)@ == (JournalModel {
                events: kept_events(old(self)@.events, selector, old(self)@.events.len() as int),
                ..old(self)@
            }),
    {
        let mut events: Vec<JournalEvent> = Vec::new();
        std::mem::swap(&mut events, &mut self.events);
        let ghost evs = old(self)@.events;
        let mut kept: Vec<JournalEvent> = Vec::new();
        let mut i: usize = 0;
        while i < events.len()
            invariant
                0 <= i <= events@.len(),
                evs == events@.map_values(|e: JournalEvent| e@),
                kept@.map_values(|e: JournalEvent| e@) == kept_events(evs, selector, i as int),
            decreases events@.len() - i,
        {
            let ev = &events[i];
            assert(evs[i as int] == ev@);
            if ((ev.code as u8) ^ selector) & 1 == 0 {
                let copy = JournalEvent { code: ev.code, amount: ev.amount, note: capture_bytes(ev.note.as_slice()).bytes };
                let ghost before = kept@;
                kept.push(copy);
                assert(kept@.map_values(|e: JournalEvent| e@) == before.map_values(
                    |e: JournalEvent| e@,
                ).push(copy@));
            }
            i = i + 1;
        }
        self.events = kept;
    }

    fn close_checkpoints(&mut self)
        ensures
            final(self)@ == journal_close(old(self)@),
    {
        let mut i: usize = 0;
        while i < self.checkpoints.len()
            invariant
                0 <= i <= self.checkpoints@.len(),
                self@.checkpoints == old(self)@.checkpoints,
                self@.events == old(self)@.events,
                self.score == xor_checkpoints(old(self)@.score, old(self)@.checkpoints, i as int),
            decreases self.checkpoints@.len() - i,
        {
            assert(self@.checkpoints[i as int] == self.checkpoints@[i as int]@);
            self.score = self.score ^ (span_score(&self.checkpoints[i]) as i64);
            i = i + 1;
        }
        self.checkpoints = Vec::new();
        assert(self@.checkpoints == Seq::<Seq<u8>>::empty());
        let ghost s0 = self.score;
        let mut j: usize = 0;
        while j < self.events.len()
            invariant
                0 <= j <= self.events@.len(),
                self@.events == old(self)@.events,
                self@.checkpoints == Seq::<Seq<u8>>::empty(),
                self.score == add_amounts(s0, old(self)@.events, j as int),
            decreases self.events@.len() - j,
        {
            assert(self@.events[j as int] == self.events@[j as int]@);
            self.score = saturating_add_i64(self.score, self.events[j].amount as i64);
            j = j + 1;
        }
    }

    pub fn replay(&mut self, payload: &[u8]) -> (r: Result<JournalSummary>)
        ensures
            final(self)@ == run_ops(journal_step(), old(self)@, payload@, 0).0,
            match r {
                Ok(s) => run_ops(journal_step(), old(self)@, payload@, 0).1 == Ok::<(), DecodeError>(())
                    && s == summary_of(final(self)@),
                Err(e) => run_ops(journal_step(), old(self)@, payload@, 0).1 == Err::<(), DecodeError>(e),
            },
    {
        let mut c = Cursor::new(payload);
        while !c.is_empty()
            invariant
                c.bytes() == payload@,
                c.wf(),
                run_ops(journal_step(), self@, payload@, c.pos()) == run_ops(
                    journal_step(),
                    old(self)@,
                    payload@,
                    0,
                ),
            decreases payload@.len() - c.pos(),
        {
            let ghost p = c.pos();
            let ghost m = self@;
            let r = self.apply_op(&mut c);
            assert(journal_step()(m, payload@, p) == journal_op(m, payload@, p));
            match r {
                Ok(_) => {},
                Err(e) => {
                    return Err(e);
                },
            }
        }
        Ok(JournalSummary { events: self.events.len(), checkpoints: self.checkpoints.len(), score: self.score })
    }
}

/// The summary of replaying a journal payload from scratch.
pub fn replay_journal(payload: &[u8]) -> (r: Result<JournalSummary>)
    ensures
        r == replay_journal_spec(payload@),
{
    let mut replayer = JournalReplayer::new();
    replayer.replay(payload)
}

impl Default for JournalReplayer {
    /// An empty journal, as `new` makes it.
    fn default() -> (d: Self)
        ensures
            d@ == empty_journal(),
    {
        Self::new()
    }
}

} // verus!
