use vstd::prelude::*;

use crate::arena::{capture_bytes, spans_seq, RawSpan};
use crate::cursor::Cursor;
use crate::error::{eof_error, DecodeError, Result};
use crate::ops::{run_ops, skip_op, skip_unknown, step_result, OpStep};

verus! {

/// A decoder of tiles coded as literals and back-references to marked history.
#[derive(Clone, Debug)]
pub struct BitBackrefDecoder {
    history: Vec<u8>,
    marks: Vec<RawSpan>,
    pub produced: Vec<u8>,
}

/// What a tile decoder holds.
pub struct CodecModel {
    pub history: Seq<u8>,
    pub marks: Seq<Seq<u8>>,
    pub produced: Seq<u8>,
}

impl View for BitBackrefDecoder {
    type V = CodecModel;

    closed spec fn view(&self) -> CodecModel {
        CodecModel { history: self.history@, marks: spans_seq(self.marks@), produced: self.produced@ }
    }
}

/// The empty decoder.
pub open spec fn empty_codec() -> CodecModel {
    CodecModel { history: Seq::empty(), marks: Seq::empty(), produced: Seq::empty() }
}

/// `s` repeated `k` times.
pub open spec fn repeat_seq(s: Seq<u8>, k: nat) -> Seq<u8>
    decreases k,
{
    if k == 0 {
        Seq::empty()
    } else {
        repeat_seq(s, (k - 1) as nat) + s
    }
}

/// `s` in reverse order.
pub open spec fn reversed(s: Seq<u8>) -> Seq<u8> {
    Seq::new(s.len(), |i: int| s[s.len() - 1 - i])
}

/// One decoder operation at `p`: `0x40` emits a literal (length byte and bytes) and adds it to
/// the history; `0x41` marks the history from a start byte for a length byte (cut at the end
/// of the history), when the start lies within it; `0x42` clears the history; `0x43` emits a
/// mark (chosen by a byte, modulo the number of marks) as many times as a count byte says, at
/// most eight; `0x44` marks a literal reversed; any other opcode skips up to 7 bytes.
pub open spec fn codec_op(m: CodecModel, d: Seq<u8>, p: int) -> (CodecModel, Result<int>) {
    let op = d[p];
    let q = p + 1;
    if op == 0x40 {
        if q + 1 > d.len() {
            (m, Err(eof_error(q)))
        } else if q + 1 + d[q] > d.len() {
            (m, Err(eof_error(q + 1)))
        } else {
            let b = d.subrange(q + 1, q + 1 + d[q]);
            (CodecModel { history: m.history + b, produced: m.produced + b, ..m }, Ok(q + 1 + d[q]))
        }
    } else if op == 0x41 {
        if q + 1 > d.len() {
            (m, Err(eof_error(q)))
        } else if q + 2 > d.len() {
            (m, Err(eof_error(q + 1)))
        } else {
            let start = d[q] as int;
            let len = d[q + 1] as int;
            if start < m.history.len() {
                let end = if start + len < m.history.len() {
                    start + len
                } else {
                    m.history.len() as int
                };
                (CodecModel { marks: m.marks.push(m.history.subrange(start, end)), ..m }, Ok(q + 2))
            } else {
                (m, Ok(q + 2))
            }
        }
    } else if op == 0x42 {
        (CodecModel { history: Seq::empty(), ..m }, Ok(q))
    } else if op == 0x43 {
        if q + 1 > d.len() {
            (m, Err(eof_error(q)))
        } else if q + 2 > d.len() {
            (m, Err(eof_error(q + 1)))
        } else if m.marks.len() > 0 {
            let src = m.marks[(d[q] as int) % (m.marks.len() as int)];
            let times = if d[q + 1] < 8 {
                d[q + 1] as nat
            } else {
                8nat
            };
            (CodecModel { produced: m.produced + repeat_seq(src, times), ..m }, Ok(q + 2))
        } else {
            (m, Ok(q + 2))
        }
    } else if op == 0x44 {
        if q + 1 > d.len() {
            (m, Err(eof_error(q)))
        } else if q + 1 + d[q] > d.len() {
            (m, Err(eof_error(q + 1)))
        } else {
            let b = d.subrange(q + 1, q + 1 + d[q]);
            (CodecModel { marks: m.marks.push(reversed(b)), ..m }, Ok(q + 1 + d[q]))
        }
    } else {
        (m, Ok(skip_unknown(d, p, 8)))
    }
}

/// The decoder operation step.
pub open spec fn codec_step() -> OpStep<CodecModel> {
    |m: CodecModel, d: Seq<u8>, p: int| codec_op(m, d, p)
}

/// `out` with `s` appended.
fn append_bytes(out: &mut Vec<u8>, s: &[u8])
    ensures
        final(out)@ == old(out)@ + s@,
{
    let mut i: usize = 0;
    while i < s.len()
        invariant
            0 <= i <= s@.len(),
            out@ == old(out)@ + s@.take(i as int),
        decreases s@.len() - i,
    {
        out.push(s[i]);
        i = i + 1;
        assert(old(out)@ + s@.take(i as int) == (old(out)@ + s@.take((i - 1) as int)).push(s@[i - 1]));
    }
    assert(s@.take(s@.len() as int) == s@);
}

impl BitBackrefDecoder {
    /// The bytes produced so far, as the view holds them.
    pub fn produced(&self) -> (v: &[u8])
        ensures
            v@ == self@.produced,
    {
        self.produced.as_slice()
    }

    pub fn new() -> (c: Self)
        ensures
            c@ == empty_codec(),
    {
        let c = BitBackrefDecoder { history: Vec::new(), marks: Vec::new(), produced: Vec::new() };
        assert(c@.marks == Seq::<Seq<u8>>::empty());
        c
    }

    fn apply_op(&mut self, c: &mut Cursor) -> (r: Result<()>)
        requires
            old(c).wf(),
            old(c).pos() < old(c).bytes().len(),
        ensures
            final(c).bytes() == old(c).bytes(),
            final(c).wf(),
            step_result(final(self)@, r, final(c).pos(), codec_op(old(self)@, old(c).bytes(), old(c).pos())),
    {
        let op = c.u8()?;
        if op == 0x40 {
            let bytes = c.take_len8()?;
            append_bytes(&mut self.history, bytes);
            append_bytes(&mut self.produced, bytes);
        } else if op == 0x41 {
            let start = c.u8()? as usize;
            let len = c.u8()? as usize;
            if start < self.history.len() {
                let end = if start + len < self.history.len() {
                    start + len
                } else {
                    self.history.len()
                };
                let span = capture_bytes(&self.history.as_slice()[start..end]);
                let ghost before = self.marks@;
                self.marks.push(span);
                assert(spans_seq(self.marks@) == spans_seq(before).push(span@));
            }
        } else if op == 0x42 {
            self.history = Vec::new();
        } else if op == 0x43 {
            let idx = c.u8()? as usize;
            let repeat = c.u8()? as usize;
            if self.marks.len() > 0 {
                let k = idx % self.marks.len();
                assert(spans_seq(self.marks@)[k as int] == self.marks@[k as int]@);
                let times = if repeat < 8 {
                    repeat
                } else {
                    8
                };
                let ghost src = self.marks@[k as int]@;
                let ghost start = self.produced@;
                let ghost marks0 = self.marks@;
                let ghost history0 = self.history@;
                let mut t: usize = 0;
                while t < times
                    invariant
                        0 <= t <= times,
                        self.marks@ == marks0,
                        self.history@ == history0,
                        self.marks@[k as int]@ == src,
                        k < self.marks@.len(),
                        self.produced@ == start + repeat_seq(src, t as nat),
                    decreases times - t,
                {
                    append_bytes(&mut self.produced, self.marks[k].bytes.as_slice());
                    t = t + 1;
                    assert(start + repeat_seq(src, t as nat) == start + repeat_seq(src, (t - 1) as nat) + src);
                }
            }
        } else if op == 0x44 {
            let bytes = c.take_len8()?;
            let mut local: Vec<u8> = Vec::new();
            let mut i = bytes.len();
            while i > 0
                invariant
                    0 <= i <= bytes@.len(),
                    local@ == reversed(bytes@).take(bytes@.len() - i),
                decreases i,
            {
                local.push(bytes[i - 1]);
                i = i - 1;
                assert(local@ =~= reversed(bytes@).take(bytes@.len() - i));
            }
            assert(reversed(bytes@).take(bytes@.len() as int) == reversed(bytes@));
            let span = RawSpan { bytes: local };
            let ghost before = self.marks@;
            self.marks.push(span);
            assert(spans_seq(self.marks@) == spans_seq(before).push(span@));
        } else {
            skip_op(c, op, 8);
        }
        Ok(())
    }

    /// Decodes one tile; on success, everything the decoder has produced so far.
    pub fn decode_tile(&mut self, payload: &[u8]) -> (r: Result<Vec<u8>>)
        ensures
            final(self)@ == run_ops(codec_step(), old(self)@, payload@, 0).0,
            match r {
                Ok(v) => run_ops(codec_step(), old(self)@, payload@, 0).1 == Ok::<(), DecodeError>(())
                    && v@ == final(self)@.produced,
                Err(e) => run_ops(codec_step(), old(self)@, payload@, 0).1 == Err::<(), DecodeError>(e),
            },
    {
        let mut c = Cursor::new(payload);
        while !c.is_empty()
            invariant
                c.bytes() == payload@,
                c.wf(),
                run_ops(codec_step(), self@, payload@, c.pos()) == run_ops(
                    codec_step(),
                    old(self)@,
                    payload@,
                    0,
                ),
            decreases payload@.len() - c.pos(),
        {
            let ghost p = c.pos();
            let ghost m = self@;
            let r = self.apply_op(&mut c);
            assert(codec_step()(m, payload@, p) == codec_op(m, payload@, p));
            match r {
                Ok(_) => {},
                Err(e) => {
                    return Err(e);
                },
            }
        }
        Ok(capture_bytes(self.produced.as_slice()).bytes)
    }
}

impl Default for BitBackrefDecoder {
    /// A fresh decoder, as `new` makes it.
    fn default() -> (d: Self)
        ensures
            d@ == empty_codec(),
    {
        Self::new()
    }
}

} // verus!
