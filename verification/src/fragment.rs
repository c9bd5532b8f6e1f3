use vstd::prelude::*;

use crate::arena::{bytes_seq, capture_bytes, spans_seq, RawSpan};
use crate::cursor::Cursor;
use crate::error::{eof_error, DecodeError, Result};
use crate::ops::{run_ops, skip_op, skip_unknown, step_result, OpStep};

verus! {

/// Reassembles fragmented radio packets: bytes gathered per lane, views of lanes or packets
/// queued, and the queued views stitched into whole messages.
#[derive(Clone, Debug)]
pub struct FragmentReassembler {
    lanes: Vec<Vec<u8>>,
    pending_views: Vec<RawSpan>,
    stitched: Vec<Vec<u8>>,
}

/// What a reassembler holds.
pub struct FragModel {
    pub lanes: Seq<Seq<u8>>,
    pub pending: Seq<Seq<u8>>,
    pub stitched: Seq<Seq<u8>>,
}

impl View for FragmentReassembler {
    type V = FragModel;

    closed spec fn view(&self) -> FragModel {
        FragModel {
            lanes: bytes_seq(self.lanes@),
            pending: spans_seq(self.pending_views@),
            stitched: bytes_seq(self.stitched@),
        }
    }
}

/// The empty reassembler.
pub open spec fn empty_frag() -> FragModel {
    FragModel { lanes: Seq::empty(), pending: Seq::empty(), stitched: Seq::empty() }
}

/// The bytes `:radio`, appended to a queued packet.
pub open spec fn radio_suffix() -> Seq<u8> {
    seq![0x3au8, 0x72, 0x61, 0x64, 0x69, 0x6f]
}

/// The non-empty runs among the first `n` of `s`, in order.
pub open spec fn nonempty_runs(s: Seq<Seq<u8>>, n: int) -> Seq<Seq<u8>>
    decreases n,
{
    if n <= 0 {
        Seq::empty()
    } else if s[n - 1].len() > 0 {
        nonempty_runs(s, n - 1).push(s[n - 1])
    } else {
        nonempty_runs(s, n - 1)
    }
}

/// Materializing: the non-empty queued views become stitched messages; the queue empties.
pub open spec fn frag_materialize(m: FragModel) -> FragModel {
    FragModel {
        stitched: m.stitched + nonempty_runs(m.pending, m.pending.len() as int),
        pending: Seq::empty(),
        ..m
    }
}

/// The lanes grown with empty lanes to hold at least `n`.
pub open spec fn grow_lanes(lanes: Seq<Seq<u8>>, n: int) -> Seq<Seq<u8>> {
    if lanes.len() >= n {
        lanes
    } else {
        lanes + Seq::new((n - lanes.len()) as nat, |i: int| Seq::<u8>::empty())
    }
}

/// One reassembler operation at `p`: `0x30` appends bytes (lane byte, length byte, bytes) to a
/// lane, made if missing; `0x31` queues a view of a lane; `0x32` empties a lane; `0x33`
/// materializes the queue; `0x34` queues a packet (length byte and bytes) followed by
/// `:radio`; any other opcode skips up to 15 bytes.
pub open spec fn frag_op(m: FragModel, d: Seq<u8>, p: int) -> (FragModel, Result<int>) {
    let op = d[p];
    let q = p + 1;
    if op == 0x30 {
        if q + 1 > d.len() {
            (m, Err(eof_error(q)))
        } else if q + 2 > d.len() {
            (m, Err(eof_error(q + 1)))
        } else if q + 2 + d[q + 1] > d.len() {
            (m, Err(eof_error(q + 2)))
        } else {
            let lane = d[q] as int;
            let bytes = d.subrange(q + 2, q + 2 + d[q + 1]);
            let lanes = grow_lanes(m.lanes, lane + 1);
            (FragModel { lanes: lanes.update(lane, lanes[lane] + bytes), ..m }, Ok(q + 2 + d[q + 1]))
        }
    } else if op == 0x31 {
        if q + 1 > d.len() {
            (m, Err(eof_error(q)))
        } else if (d[q] as int) < m.lanes.len() {
            (FragModel { pending: m.pending.push(m.lanes[d[q] as int]), ..m }, Ok(q + 1))
        } else {
            (m, Ok(q + 1))
        }
    } else if op == 0x32 {
        if q + 1 > d.len() {
            (m, Err(eof_error(q)))
        } else if (d[q] as int) < m.lanes.len() {
            (FragModel { lanes: m.lanes.update(d[q] as int, Seq::empty()), ..m }, Ok(q + 1))
        } else {
            (m, Ok(q + 1))
        }
    } else if op == 0x33 {
        (frag_materialize(m), Ok(q))
    } else if op == 0x34 {
        if q + 1 > d.len() {
            (m, Err(eof_error(q)))
        } else if q + 1 + d[q] > d.len() {
            (m, Err(eof_error(q + 1)))
        } else {
            (
                FragModel {
                    pending: m.pending.push(d.subrange(q + 1, q + 1 + d[q]) + radio_suffix()),
                    ..m
                },
                Ok(q + 1 + d[q]),
            )
        }
    } else {
        (m, Ok(skip_unknown(d, p, 16)))
    }
}

/// The reassembler operation step.
pub open spec fn frag_step() -> OpStep<FragModel> {
    |m: FragModel, d: Seq<u8>, p: int| frag_op(m, d, p)
}

impl FragmentReassembler {
    pub fn new() -> (f: Self)
        ensures
            f@ == empty_frag(),
    {
        let f = FragmentReassembler {
            lanes: Vec::new(),
            pending_views: Vec::new(),
            stitched: Vec::new(),
        };
        assert(f@.lanes == Seq::<Seq<u8>>::empty());
        assert(f@.pending == Seq::<Seq<u8>>::empty());
        assert(f@.stitched == Seq::<Seq<u8>>::empty());
        f
    }

    /// The number of messages completed (stitched) so far.
    pub fn completed(&self) -> (n: usize)
        ensures
            n == self@.stitched.len(),
    {
        self.stitched.len()
    }

    /// The messages stitched so far.
    pub fn stitched(&self) -> (v: Vec<Vec<u8>>)
        ensures
            bytes_seq(v@) == self@.stitched,
    {
        copy_runs(&self.stitched)
    }

    fn apply_op(&mut self, c: &mut Cursor) -> (r: Result<()>)
        requires
            old(c).wf(),
            old(c).pos() < old(c).bytes().len(),
        ensures
            final(c).bytes() == old(c).bytes(),
            final(c).wf(),
            step_result(final(self)@, r, final(c).pos(), frag_op(old(self)@, old(c).bytes(), old(c).pos())),
    {
        let op = c.u8()?;
        if op == 0x30 {
            let lane = c.u8()? as usize;
            let bytes = c.take_len8()?;
            let ghost lanes0 = self@.lanes;
            let mut lanes: Vec<Vec<u8>> = Vec::new();
            std::mem::swap(&mut lanes, &mut self.lanes);
            assert(bytes_seq(lanes@) =~= grow_lanes(lanes0, lanes@.len() as int));
            while lanes.len() <= lane
                invariant
                    lanes@.len() >= lanes0.len(),
                    lanes@.len() <= lane + 1 || lanes@.len() == lanes0.len(),
                    bytes_seq(lanes@) == grow_lanes(lanes0, lanes@.len() as int),
                decreases lane + 1 - lanes@.len(),
            {
                let ghost before = lanes@;
                lanes.push(Vec::new());
                assert(bytes_seq(lanes@) =~= bytes_seq(before).push(Seq::<u8>::empty()));
                assert(bytes_seq(lanes@) =~= grow_lanes(lanes0, lanes@.len() as int));
            }
            assert(bytes_seq(lanes@) =~= grow_lanes(lanes0, lane + 1));
            let mut buf = capture_bytes(lanes[lane].as_slice()).bytes;
            let mut i: usize = 0;
            let ghost start = buf@;
            while i < bytes.len()
                invariant
                    0 <= i <= bytes@.len(),
                    buf@ == start + bytes@.take(i as int),
                decreases bytes@.len() - i,
            {
                buf.push(bytes[i]);
                i = i + 1;
                assert(start + bytes@.take(i as int) == (start + bytes@.take((i - 1) as int)).push(bytes@[i - 1]));
            }
            assert(bytes@.take(bytes@.len() as int) == bytes@);
            let ghost grown = lanes@;
            lanes.set(lane, buf);
            assert(bytes_seq(lanes@) == bytes_seq(grown).update(lane as int, start + bytes@));
            self.lanes = lanes;
        } else if op == 0x31 {
            let lane = c.u8()? as usize;
            if lane < self.lanes.len() {
                let span = capture_bytes(self.lanes[lane].as_slice());
                let ghost before = self.pending_views@;
                self.pending_views.push(span);
                assert(spans_seq(self.pending_views@) == spans_seq(before).push(span@));
            }
        } else if op == 0x32 {
            let lane = c.u8()? as usize;
            if lane < self.lanes.len() {
                let ghost before = self.lanes@;
                self.lanes.set(lane, Vec::new());
                assert(bytes_seq(self.lanes@) == bytes_seq(before).update(lane as int, Seq::empty()));
            }
        } else if op == 0x33 {
            self.materialize_pending();
        } else if op == 0x34 {
            let bytes = c.take_len8()?;
            let mut scratch = capture_bytes(bytes).bytes;
            scratch.push(0x3a);
            scratch.push(0x72);
            scratch.push(0x61);
            scratch.push(0x64);
            scratch.push(0x69);
            scratch.push(0x6f);
            assert(scratch@ == bytes@ + radio_suffix());
            let span = RawSpan { bytes: scratch };
            let ghost before = self.pending_views@;
            self.pending_views.push(span);
            assert(spans_seq(self.pending_views@) == spans_seq(before).push(span@));
        } else {
            skip_op(c, op, 16);
        }
        Ok(())
    }

    /// Runs the operations of `payload`; on success, the messages stitched so far.
    pub fn parse_ops(&mut self, payload: &[u8]) -> (r: Result<Vec<Vec<u8>>>)
        ensures
            final(self)@ == run_ops(frag_step(), old(self)@, payload@, 0).0,
            match r {
                Ok(v) => run_ops(frag_step(), old(self)@, payload@, 0).1 == Ok::<(), DecodeError>(())
                    && bytes_seq(v@) == final(self)@.stitched,
                Err(e) => run_ops(frag_step(), old(self)@, payload@, 0).1 == Err::<(), DecodeError>(e),
            },
    {
        let mut c = Cursor::new(payload);
        while !c.is_empty()
            invariant
                c.bytes() == payload@,
                c.wf(),
                run_ops(frag_step(), self@, payload@, c.pos()) == run_ops(
                    frag_step(),
                    old(self)@,
                    payload@,
                    0,
                ),
            decreases payload@.len() - c.pos(),
        {
            let ghost p = c.pos();
            let ghost m = self@;
            let r = self.apply_op(&mut c);
            assert(frag_step()(m, payload@, p) == frag_op(m, payload@, p));
            match r {
                Ok(_) => {},
                Err(e) => {
                    return Err(e);
                },
            }
        }
        Ok(self.stitched())
    }

    pub fn materialize_pending(&mut self)
        ensures
            final(self)@ == frag_materialize(old(self)@),
    {
        let mut pending: Vec<RawSpan> = Vec::new();
        std::mem::swap(&mut pending, &mut self.pending_views);
        let mut stitched: Vec<Vec<u8>> = Vec::new();
        std::mem::swap(&mut stitched, &mut self.stitched);
        let ghost base = bytes_seq(stitched@);
        let ghost ps = spans_seq(pending@);
        let mut i: usize = 0;
        while i < pending.len()
            invariant
                0 <= i <= pending@.len(),
                ps == spans_seq(pending@),
                bytes_seq(stitched@) == base + nonempty_runs(ps, i as int),
            decreases pending@.len() - i,
        {
            let span = &pending[i];
            assert(ps[i as int] == span@);
            if span.len() > 0 {
                let bytes = crate::arena::span_to_vec(span);
                let ghost before = stitched@;
                stitched.push(bytes);
                assert(bytes_seq(stitched@) == bytes_seq(before).push(bytes@));
            }
            i = i + 1;
        }
        self.stitched = stitched;
        assert(self@.pending == Seq::<Seq<u8>>::empty());
    }
}

/// A copy of a sequence of byte runs.
fn copy_runs(v: &Vec<Vec<u8>>) -> (out: Vec<Vec<u8>>)
    ensures
        bytes_seq(out@) == bytes_seq(v@),
{
    let mut out: Vec<Vec<u8>> = Vec::new();
    let mut i: usize = 0;
    while i < v.len()
        invariant
            0 <= i <= v@.len(),
            bytes_seq(out@) == bytes_seq(v@).take(i as int),
        decreases v@.len() - i,
    {
        let run = capture_bytes(v[i].as_slice()).bytes;
        let ghost before = out@;
        out.push(run);
        i = i + 1;
        assert(bytes_seq(out@) == bytes_seq(before).push(run@));
        assert(bytes_seq(v@).take(i as int) == bytes_seq(v@).take((i - 1) as int).push(v@[i - 1]@));
    }
    assert(bytes_seq(v@).take(v@.len() as int) == bytes_seq(v@));
    out
}

impl Default for FragmentReassembler {
    /// An empty reassembler, as `new` makes it.
    fn default() -> (d: Self)
        ensures
            d@ == empty_frag(),
    {
        Self::new()
    }
}

} // verus!
