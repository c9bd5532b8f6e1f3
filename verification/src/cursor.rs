use vstd::prelude::*;

use crate::error::{eof_error, DecodeError, ErrorKind, Result};

verus! {

/// The little-endian `u16` stored at `d[p]`, `d[p + 1]`.
pub open spec fn le_u16(d: Seq<u8>, p: int) -> u16 {
    (d[p] as int + d[p + 1] as int * 256) as u16
}

/// The little-endian `u32` stored at `d[p] .. d[p + 4]`.
pub open spec fn le_u32(d: Seq<u8>, p: int) -> u32 {
    (d[p] as int + d[p + 1] as int * 0x100 + d[p + 2] as int * 0x1_0000 + d[p + 3] as int
        * 0x100_0000) as u32
}

/// Two's complement reading of a byte.
pub open spec fn byte_as_i8(v: u8) -> i8 {
    if v < 0x80 {
        v as i8
    } else {
        (v - 0x100) as i8
    }
}

/// Two's complement reading of a 16-bit word.
pub open spec fn word_as_i16(v: u16) -> i16 {
    if v < 0x8000 {
        v as i16
    } else {
        (v - 0x1_0000) as i16
    }
}

/// The error that a varint of more than five bytes gives, detected at `offset`.
pub open spec fn varint_error(offset: int) -> DecodeError {
    DecodeError { kind: ErrorKind::InvalidFrame, offset: offset as usize, detail: "varint too long" }
}

/// Reading a LEB128-style varint from `d` at `p`, byte `i` of at most five, with `out`
/// accumulated so far: the result and the position after the bytes read.
pub open spec fn varint_from(d: Seq<u8>, p: int, i: int, out: u32) -> (Result<u32>, int)
    decreases 5 - i,
{
    if i >= 5 {
        (Err(varint_error(p)), p)
    } else if p >= d.len() {
        (Err(eof_error(p)), p)
    } else {
        let b = d[p];
        let next = out | (((b & 0x7f) as u32) << ((7 * i) as u32));
        if b & 0x80 == 0 {
            (Ok(next), p + 1)
        } else {
            varint_from(d, p + 1, i + 1, next)
        }
    }
}

/// A read position in a byte slice.
#[derive(Clone, Copy, Debug)]
pub struct Cursor<'a> {
    data: &'a [u8],
    pos: usize,
}

impl<'a> Cursor<'a> {
    #[verifier::type_invariant]
    spec fn inv(&self) -> bool {
        self.pos <= self.data@.len()
    }

    /// The bytes the cursor reads.
    pub closed spec fn bytes(&self) -> Seq<u8> {
        self.data@
    }

    /// The offset of the next byte to read.
    pub closed spec fn pos(&self) -> int {
        self.pos as int
    }

    /// The position is within the bytes.
    pub open spec fn wf(&self) -> bool {
        0 <= self.pos() <= self.bytes().len()
    }

    /// The bytes not yet read.
    pub open spec fn rest(&self) -> Seq<u8> {
        self.bytes().subrange(self.pos(), self.bytes().len() as int)
    }

    pub fn new(data: &'a [u8]) -> (c: Self)
        ensures
            c.bytes() == data@,
            c.pos() == 0,
            c.wf(),
    {
        Cursor { data, pos: 0 }
    }

    pub fn position(&self) -> (p: usize)
        ensures
            p == self.pos(),
            self.wf(),
    {
        proof {
            use_type_invariant(self);
        }
        self.pos
    }

    pub fn remaining(&self) -> (n: usize)
        ensures
            n == self.bytes().len() - self.pos(),
            self.wf(),
    {
        proof {
            use_type_invariant(self);
        }
        self.data.len() - self.pos
    }

    pub fn is_empty(&self) -> (b: bool)
        ensures
            b == (self.pos() == self.bytes().len()),
            self.wf(),
    {
        self.remaining() == 0
    }

    pub fn peek(&self) -> (b: Option<u8>)
        ensures
            self.wf(),
            b == (if self.pos() < self.bytes().len() {
                Some(self.bytes()[self.pos()])
            } else {
                None::<u8>
            }),
    {
        proof {
            use_type_invariant(self);
        }
        if self.pos < self.data.len() {
            Some(self.data[self.pos])
        } else {
            None
        }
    }

    pub fn u8(&mut self) -> (r: Result<u8>)
        ensures
            final(self).bytes() == old(self).bytes(),
            final(self).wf(),
            old(self).pos() < old(self).bytes().len() ==> r == Ok::<u8, DecodeError>(
                old(self).bytes()[old(self).pos()],
            ) && final(self).pos() == old(self).pos() + 1,
            old(self).pos() >= old(self).bytes().len() ==> r == Err::<u8, DecodeError>(
                eof_error(old(self).pos()),
            ) && final(self).pos() == old(self).pos(),
    {
        proof {
            use_type_invariant(&*self);
        }
        if self.remaining() < 1 {
            return Err(DecodeError::eof(self.pos));
        }
        let v = self.data[self.pos];
        self.pos = self.pos + 1;
        Ok(v)
    }

    pub fn i8(&mut self) -> (r: Result<i8>)
        ensures
            final(self).bytes() == old(self).bytes(),
            final(self).wf(),
            old(self).pos() < old(self).bytes().len() ==> r == Ok::<i8, DecodeError>(
                byte_as_i8(old(self).bytes()[old(self).pos()]),
            ) && final(self).pos() == old(self).pos() + 1,
            old(self).pos() >= old(self).bytes().len() ==> r == Err::<i8, DecodeError>(
                eof_error(old(self).pos()),
            ) && final(self).pos() == old(self).pos(),
    {
        let v = self.u8()?;
        if v < 0x80 {
            Ok(v as i8)
        } else {
            Ok((v as i16 - 0x100) as i8)
        }
    }

    pub fn u16(&mut self) -> (r: Result<u16>)
        ensures
            final(self).bytes() == old(self).bytes(),
            final(self).wf(),
            old(self).pos() + 2 <= old(self).bytes().len() ==> r == Ok::<u16, DecodeError>(
                le_u16(old(self).bytes(), old(self).pos()),
            ) && final(self).pos() == old(self).pos() + 2,
            old(self).pos() + 2 > old(self).bytes().len() ==> r == Err::<u16, DecodeError>(
                eof_error(old(self).pos()),
            ) && final(self).pos() == old(self).pos(),
    {
        let b = self.take(2)?;
        Ok((b[0] as u16) + (b[1] as u16) * 256)
    }

    pub fn i16(&mut self) -> (r: Result<i16>)
        ensures
            final(self).bytes() == old(self).bytes(),
            final(self).wf(),
            old(self).pos() + 2 <= old(self).bytes().len() ==> r == Ok::<i16, DecodeError>(
                word_as_i16(le_u16(old(self).bytes(), old(self).pos())),
            ) && final(self).pos() == old(self).pos() + 2,
            old(self).pos() + 2 > old(self).bytes().len() ==> r == Err::<i16, DecodeError>(
                eof_error(old(self).pos()),
            ) && final(self).pos() == old(self).pos(),
    {
        let v = self.u16()?;
        if v < 0x8000 {
            Ok(v as i16)
        } else {
            Ok((v as i32 - 0x1_0000) as i16)
        }
    }

    pub fn u32(&mut self) -> (r: Result<u32>)
        ensures
            final(self).bytes() == old(self).bytes(),
            final(self).wf(),
            old(self).pos() + 4 <= old(self).bytes().len() ==> r == Ok::<u32, DecodeError>(
                le_u32(old(self).bytes(), old(self).pos()),
            ) && final(self).pos() == old(self).pos() + 4,
            old(self).pos() + 4 > old(self).bytes().len() ==> r == Err::<u32, DecodeError>(
                eof_error(old(self).pos()),
            ) && final(self).pos() == old(self).pos(),
    {
        let b = self.take(4)?;
        Ok((b[0] as u32) + (b[1] as u32) * 0x100 + (b[2] as u32) * 0x1_0000 + (b[3] as u32)
            * 0x100_0000)
    }

    pub fn take(&mut self, n: usize) -> (r: Result<&'a [u8]>)
        ensures
            final(self).bytes() == old(self).bytes(),
            final(self).wf(),
            old(self).pos() + n <= old(self).bytes().len() ==> r is Ok && r->Ok_0@ == old(
                self,
            ).bytes().subrange(old(self).pos(), old(self).pos() + n) && final(self).pos() == old(
                self,
            ).pos() + n,
            old(self).pos() + n > old(self).bytes().len() ==> r == Err::<&'a [u8], DecodeError>(
                eof_error(old(self).pos()),
            ) && final(self).pos() == old(self).pos(),
    {
        proof {
            use_type_invariant(&*self);
        }
        if self.data.len() - self.pos < n {
            return Err(DecodeError::eof(self.pos));
        }
        let start = self.pos;
        self.pos = self.pos + n;
        Ok(&self.data[start..start + n])
    }

    pub fn take_len8(&mut self) -> (r: Result<&'a [u8]>)
        ensures
            final(self).bytes() == old(self).bytes(),
            final(self).wf(),
            ({
                let d = old(self).bytes();
                let p = old(self).pos();
                if p >= d.len() {
                    r == Err::<&'a [u8], DecodeError>(eof_error(p)) && final(self).pos() == p
                } else if p + 1 + d[p] > d.len() {
                    r == Err::<&'a [u8], DecodeError>(eof_error(p + 1)) && final(self).pos() == p
                        + 1
                } else {
                    r is Ok && r->Ok_0@ == d.subrange(p + 1, p + 1 + d[p]) && final(self).pos()
                        == p + 1 + d[p]
                }
            }),
    {
        let len = self.u8()? as usize;
        self.take(len)
    }

    pub fn take_len16(&mut self) -> (r: Result<&'a [u8]>)
        ensures
            final(self).bytes() == old(self).bytes(),
            final(self).wf(),
            ({
                let d = old(self).bytes();
                let p = old(self).pos();
                if p + 2 > d.len() {
                    r == Err::<&'a [u8], DecodeError>(eof_error(p)) && final(self).pos() == p
                } else if p + 2 + le_u16(d, p) > d.len() {
                    r == Err::<&'a [u8], DecodeError>(eof_error(p + 2)) && final(self).pos() == p
                        + 2
                } else {
                    r is Ok && r->Ok_0@ == d.subrange(p + 2, p + 2 + le_u16(d, p))
                        && final(self).pos() == p + 2 + le_u16(d, p)
                }
            }),
    {
        let len = self.u16()? as usize;
        self.take(len)
    }

    pub fn varint(&mut self) -> (r: Result<u32>)
        ensures
            final(self).bytes() == old(self).bytes(),
            final(self).wf(),
            (r, final(self).pos()) == varint_from(old(self).bytes(), old(self).pos(), 0, 0),
    {
        proof {
            use_type_invariant(&*self);
        }
        let mut shift: u32 = 0;
        let mut out: u32 = 0;
        let mut i: usize = 0;
        while i < 5
            invariant
                0 <= i <= 5,
                shift == 7 * i,
                self.bytes() == old(self).bytes(),
                self.wf(),
                varint_from(self.bytes(), self.pos(), i as int, out) == varint_from(
                    old(self).bytes(),
                    old(self).pos(),
                    0,
                    0,
                ),
            decreases 5 - i,
        {
            let b = self.u8()?;
            out = out | (((b & 0x7f) as u32) << shift);
            if b & 0x80 == 0 {
                return Ok(out);
            }
            shift = shift + 7;
            i = i + 1;
        }
        Err(DecodeError::new(ErrorKind::InvalidFrame, self.position(), "varint too long"))
    }

    pub fn split_remaining(self) -> (s: &'a [u8])
        ensures
            s@ == self.rest(),
    {
        proof {
            use_type_invariant(&self);
        }
        &self.data[self.pos..self.data.len()]
    }
}

} // verus!
