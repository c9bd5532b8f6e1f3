use vstd::prelude::*;

use crate::cursor::Cursor;
use crate::error::{DecodeError, Result};

verus! {

/// One operation of a small byte-coded program: from a state and the position of its
/// opcode, the next state and either the position after the operation or the error that
/// stopped it.
pub type OpStep<M> = spec_fn(M, Seq<u8>, int) -> (M, Result<int>);

/// Running the operations of `d` from `p` until the end of the input or the first error: the
/// final state and whether an operation failed.
pub open spec fn run_ops<M>(step: OpStep<M>, m: M, d: Seq<u8>, p: int) -> (M, Result<()>)
    decreases d.len() - p,
{
    if p < 0 || p >= d.len() {
        (m, Ok(()))
    } else {
        let (m2, r) = step(m, d, p);
        match r {
            Ok(p2) => if p < p2 <= d.len() {
                run_ops(step, m2, d, p2)
            } else {
                (m2, Ok(()))
            },
            Err(e) => (m2, Err(e)),
        }
    }
}

/// Whether running the operations of `d` from `p` reaches an operation that `panics` (an
/// arithmetic overflow the operation cannot represent).
pub open spec fn run_panics<M>(
    step: OpStep<M>,
    panics: spec_fn(M, Seq<u8>, int) -> bool,
    m: M,
    d: Seq<u8>,
    p: int,
) -> bool
    decreases d.len() - p,
{
    if p < 0 || p >= d.len() {
        false
    } else if panics(m, d, p) {
        true
    } else {
        let (m2, r) = step(m, d, p);
        match r {
            Ok(p2) => if p < p2 <= d.len() {
                run_panics(step, panics, m2, d, p2)
            } else {
                false
            },
            Err(e) => false,
        }
    }
}

/// `a + b` clamped to the range of `i64`.
pub open spec fn sat_i64(a: int, b: int) -> i64 {
    if a + b > i64::MAX {
        i64::MAX
    } else if a + b < i64::MIN {
        i64::MIN
    } else {
        (a + b) as i64
    }
}

/// `a + b` clamped to the range of `i32`.
pub open spec fn sat_i32(a: int, b: int) -> i32 {
    if a + b > i32::MAX {
        i32::MAX
    } else if a + b < i32::MIN {
        i32::MIN
    } else {
        (a + b) as i32
    }
}

/// Saturating addition of two `i64`.
pub fn saturating_add_i64(a: i64, b: i64) -> (r: i64)
    ensures
        r == sat_i64(a as int, b as int),
{
    match a.checked_add(b) {
        Some(v) => v,
        None => if b > 0 {
            i64::MAX
        } else {
            i64::MIN
        },
    }
}

/// Saturating addition of two `i32`.
pub fn saturating_add_i32(a: i32, b: i32) -> (r: i32)
    ensures
        r == sat_i32(a as int, b as int),
{
    match a.checked_add(b) {
        Some(v) => v,
        None => if b > 0 {
            i32::MAX
        } else {
            i32::MIN
        },
    }
}

/// The position after an unknown opcode `op` at `p`: it skips `op % min(left, cap)` of the
/// bytes left after it, where any are left.
pub open spec fn skip_unknown(d: Seq<u8>, p: int, cap: int) -> int {
    let q = p + 1;
    let left = d.len() - q;
    if left > 0 {
        q + (d[p] as int) % (if left < cap {
            left
        } else {
            cap
        })
    } else {
        q
    }
}

/// Skips the bytes that an unknown opcode `op` covers, as `skip_unknown` states.
pub fn skip_op(c: &mut Cursor, op: u8, cap: usize)
    requires
        old(c).wf(),
        old(c).pos() >= 1,
        old(c).bytes()[old(c).pos() - 1] == op,
        cap >= 1,
    ensures
        final(c).bytes() == old(c).bytes(),
        final(c).wf(),
        final(c).pos() == skip_unknown(old(c).bytes(), old(c).pos() - 1, cap as int),
{
    let left = c.remaining();
    if left > 0 {
        let m = if left < cap {
            left
        } else {
            cap
        };
        let k = (op as usize) % m;
        let _ = c.take(k);
    }
}

/// The state and result of one operation run by exec code match the step's outcome.
pub open spec fn step_result<M>(m: M, r: Result<()>, pos: int, expected: (M, Result<int>)) -> bool {
    &&& m == expected.0
    &&& match r {
        Ok(_) => expected.1 == Ok::<int, DecodeError>(pos),
        Err(e) => expected.1 == Err::<int, DecodeError>(e),
    }
}

} // verus!
