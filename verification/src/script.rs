use vstd::prelude::*;

use crate::arena::{capture_slice, slice_prefix_sum_i16, sum_i16, RawSlice};
use crate::cursor::{le_u16, word_as_i16, Cursor};
use crate::error::{eof_error, overflow_error, DecodeError, Result};
use crate::model::{ScriptResult, TelemetryPoint};
use crate::ops::{run_ops, sat_i64, saturating_add_i64, skip_op, skip_unknown, step_result, OpStep};

verus! {

/// The most telemetry values a script pushes itself.
pub const MAX_TELEMETRY: usize = 4096;

/// A bound on telemetry windows that no machine reaches (a window of this many values would
/// not fit in memory); below it window sums fit in an `i64`.
pub open spec fn window_bound() -> int {
    0x8000_0000_0000
}

/// A small stack machine over telemetry values.
#[derive(Clone, Debug)]
pub struct ScriptVm {
    stack: Vec<i64>,
    telemetry: Vec<i16>,
    window: Option<RawSlice<i16>>,
    extra_window: usize,
    alerts: u16,
}

/// What a script machine holds.
pub struct VmModel {
    pub stack: Seq<i64>,
    pub telemetry: Seq<i16>,
    pub window: Option<Seq<i16>>,
    pub extra_window: usize,
    pub alerts: u16,
}

impl View for ScriptVm {
    type V = VmModel;

    closed spec fn view(&self) -> VmModel {
        VmModel {
            stack: self.stack@,
            telemetry: self.telemetry@,
            window: match self.window {
                Some(w) => Some(w@),
                None => None,
            },
            extra_window: self.extra_window,
            alerts: self.alerts,
        }
    }
}

/// The machine holds no more telemetry than any machine can.
pub open spec fn vm_bounded(m: VmModel) -> bool {
    &&& m.telemetry.len() < window_bound()
    &&& (m.window matches Some(w) ==> w.len() < window_bound())
}

/// The empty machine.
pub open spec fn empty_vm() -> VmModel {
    VmModel { stack: Seq::empty(), telemetry: Seq::empty(), window: None, extra_window: 0, alerts: 0 }
}

/// The telemetry values of the first `n` points: occupancy and medical wait of each, read as
/// signed.
pub open spec fn point_values(points: Seq<TelemetryPoint>, n: int) -> Seq<i16>
    decreases n,
{
    if n <= 0 {
        Seq::empty()
    } else {
        point_values(points, n - 1).push(word_as_i16(points[n - 1].occupancy)).push(
            word_as_i16(points[n - 1].medical_wait),
        )
    }
}

/// Popping a value: the top of the stack, or zero from an empty stack.
pub open spec fn pop_value(s: Seq<i64>) -> (Seq<i64>, i64) {
    if s.len() == 0 {
        (s, 0)
    } else {
        (s.drop_last(), s.last())
    }
}

/// One script operation at `p`: `0x50` pushes a signed 16-bit value; `0x51` pops two values
/// (zero when missing) and pushes their saturating sum; `0x52` adds a telemetry value while
/// fewer than `MAX_TELEMETRY` are held; `0x53` takes a window on the telemetry, then reads a
/// count byte of extra values; `0x54` drops as many leading telemetry values as a byte says;
/// `0x55` pushes the sum of the window, when there is one; `0x56` adds a byte to the alert
/// count, wrapping; any other opcode skips up to 5 bytes.
pub open spec fn vm_op(m: VmModel, d: Seq<u8>, p: int) -> (VmModel, Result<int>) {
    let op = d[p];
    let q = p + 1;
    if op == 0x50 {
        if q + 2 > d.len() {
            (m, Err(eof_error(q)))
        } else {
            (VmModel { stack: m.stack.push(word_as_i16(le_u16(d, q)) as i64), ..m }, Ok(q + 2))
        }
    } else if op == 0x51 {
        let (s1, a) = pop_value(m.stack);
        let (s2, b) = pop_value(s1);
        (VmModel { stack: s2.push(sat_i64(a as int, b as int)), ..m }, Ok(q))
    } else if op == 0x52 {
        if q + 2 > d.len() {
            (m, Err(eof_error(q)))
        } else if m.telemetry.len() < MAX_TELEMETRY {
            (VmModel { telemetry: m.telemetry.push(word_as_i16(le_u16(d, q))), ..m }, Ok(q + 2))
        } else {
            (m, Ok(q + 2))
        }
    } else if op == 0x53 {
        let windowed = VmModel { window: Some(m.telemetry), ..m };
        if q + 1 > d.len() {
            (windowed, Err(eof_error(q)))
        } else {
            (VmModel { extra_window: d[q] as usize, ..windowed }, Ok(q + 1))
        }
    } else if op == 0x54 {
        if q + 1 > d.len() {
            (m, Err(eof_error(q)))
        } else {
            let drop = if (d[q] as int) < m.telemetry.len() {
                d[q] as int
            } else {
                m.telemetry.len() as int
            };
            (VmModel { telemetry: m.telemetry.skip(drop), ..m }, Ok(q + 1))
        }
    } else if op == 0x55 {
        match m.window {
            Some(w) => (VmModel { stack: m.stack.push(sum_i16(w, w.len() as int) as i64), ..m }, Ok(q)),
            None => (m, Ok(q)),
        }
    } else if op == 0x56 {
        if q + 1 > d.len() {
            (m, Err(eof_error(q)))
        } else {
            (VmModel { alerts: m.alerts.wrapping_add(d[q] as u16), ..m }, Ok(q + 1))
        }
    } else {
        (m, Ok(skip_unknown(d, p, 6)))
    }
}

/// The script operation step.
pub open spec fn vm_step() -> OpStep<VmModel> {
    |m: VmModel, d: Seq<u8>, p: int| vm_op(m, d, p)
}

/// The sum of the first `n` stack values.
pub open spec fn stack_sum(s: Seq<i64>, n: int) -> int
    decreases n,
{
    if n <= 0 {
        0
    } else {
        stack_sum(s, n - 1) + s[n - 1]
    }
}

/// Every running sum of the first `n` stack values fits in an `i64`.
pub open spec fn stack_sum_fits(s: Seq<i64>, n: int) -> bool
    decreases n,
{
    if n <= 0 {
        true
    } else {
        stack_sum_fits(s, n - 1) && i64::MIN <= stack_sum(s, n) <= i64::MAX
    }
}

/// The result of a machine: the sum of its stack, its alert count and the length of its
/// window (zero without one).
pub open spec fn vm_result(m: VmModel) -> ScriptResult {
    ScriptResult {
        accumulator: stack_sum(m.stack, m.stack.len() as int) as i64,
        alerts: m.alerts,
        last_window: match m.window {
            Some(w) => w.len() as usize,
            None => 0,
        },
    }
}

/// Summing the stack of a machine overflows.
pub open spec fn vm_result_overflows(m: VmModel) -> bool {
    !stack_sum_fits(m.stack, m.stack.len() as int)
}

/// Running `d` on `m` fails, or ends with a stack whose sum overflows.
pub open spec fn vm_run_overflows(m: VmModel, d: Seq<u8>) -> bool {
    let (m2, r) = run_ops(vm_step(), m, d, 0);
    r is Ok && vm_result_overflows(m2)
}

/// The result of running `d` on `m`.
pub open spec fn vm_run_result(m: VmModel, d: Seq<u8>) -> Result<ScriptResult> {
    let (m2, r) = run_ops(vm_step(), m, d, 0);
    match r {
        Ok(_) => Ok(vm_result(m2)),
        Err(e) => Err(e),
    }
}

proof fn lemma_op_bounded(m: VmModel, d: Seq<u8>, p: int)
    requires
        vm_bounded(m),
        0 <= p < d.len(),
    ensures
        vm_bounded(vm_op(m, d, p).0),
{
}

proof fn lemma_run_bounded(m: VmModel, d: Seq<u8>, p: int)
    requires
        vm_bounded(m),
    ensures
        vm_bounded(run_ops(vm_step(), m, d, p).0),
    decreases d.len() - p,
{
    if 0 <= p < d.len() {
        assert(vm_step()(m, d, p) == vm_op(m, d, p));
        lemma_op_bounded(m, d, p);
        let (m2, r) = vm_op(m, d, p);
        match r {
            Ok(p2) => if p < p2 <= d.len() {
                lemma_run_bounded(m2, d, p2);
            },
            Err(_) => {},
        }
    }
}

impl ScriptVm {
    pub fn new() -> (v: Self)
        ensures
            v@ == empty_vm(),
    {
        ScriptVm { stack: Vec::new(), telemetry: Vec::new(), window: None, extra_window: 0, alerts: 0 }
    }

    /// Adds the occupancy and medical wait of each point to the telemetry, read as signed.
    pub fn seed_from_points(&mut self, points: &[TelemetryPoint])
        requires
            old(self)@.telemetry.len() + 2 * points@.len() < window_bound(),
        ensures
            final(self)@ == (VmModel {
                telemetry: old(self)@.telemetry + point_values(points@, points@.len() as int),
                ..old(self)@
            }),
    {
        let mut i: usize = 0;
        while i < points.len()
            invariant
                0 <= i <= points@.len(),
                self@ == (VmModel {
                    telemetry: old(self)@.telemetry + point_values(points@, i as int),
                    ..old(self)@
                }),
                old(self)@.telemetry.len() + 2 * points@.len() < window_bound(),
            decreases points@.len() - i,
        {
            proof {
                lemma_point_values_len(points@, i as int);
            }
            let point = points[i];
            self.telemetry.push(signed_word(point.occupancy));
            self.telemetry.push(signed_word(point.medical_wait));
            i = i + 1;
        }
    }

    fn apply_op(&mut self, c: &mut Cursor) -> (r: Result<()>)
        requires
            old(c).wf(),
            old(c).pos() < old(c).bytes().len(),
            vm_bounded(old(self)@),
        ensures
            final(c).bytes() == old(c).bytes(),
            final(c).wf(),
            step_result(final(self)@, r, final(c).pos(), vm_op(old(self)@, old(c).bytes(), old(c).pos())),
    {
        let op = c.u8()?;
        if op == 0x50 {
            let v = c.i16()?;
            self.stack.push(v as i64);
        } else if op == 0x51 {
            let a = match self.stack.pop() {
                Some(v) => v,
                None => 0,
            };
            let b = match self.stack.pop() {
                Some(v) => v,
                None => 0,
            };
            self.stack.push(saturating_add_i64(a, b));
        } else if op == 0x52 {
            let value = c.i16()?;
            if self.telemetry.len() < MAX_TELEMETRY {
                self.telemetry.push(value);
            }
        } else if op == 0x53 {
            self.window = Some(capture_slice(self.telemetry.as_slice()));
            self.extra_window = c.u8()? as usize;
        } else if op == 0x54 {
            let byte = c.u8()? as usize;
            let drop = if byte < self.telemetry.len() {
                byte
            } else {
                self.telemetry.len()
            };
            let rest = capture_slice(&self.telemetry.as_slice()[drop..self.telemetry.len()]);
            self.telemetry = rest.items;
        } else if op == 0x55 {
            match &self.window {
                Some(raw) => {
                    let sum = slice_prefix_sum_i16(raw, self.extra_window);
                    self.stack.push(sum);
                },
                None => {},
            }
        } else if op == 0x56 {
            let add = c.u8()? as u16;
            self.alerts = self.alerts.wrapping_add(add);
        } else {
            skip_op(c, op, 6);
        }
        Ok(())
    }

    /// Runs a script; on success, its result (see `vm_result`).
    pub fn run(&mut self, bytecode: &[u8]) -> (r: Result<ScriptResult>)
        requires
            vm_bounded(old(self)@),
            !vm_run_overflows(old(self)@, bytecode@),
        ensures
            final(self)@ == run_ops(vm_step(), old(self)@, bytecode@, 0).0,
            r == vm_run_result(old(self)@, bytecode@),
    {
        self.run_checked(bytecode)
    }

    /// Runs a script as `run` does, but returns `overflow_error()` where summing the final
    /// stack would overflow.
    pub fn run_checked(&mut self, bytecode: &[u8]) -> (r: Result<ScriptResult>)
        requires
            vm_bounded(old(self)@),
        ensures
            final(self)@ == run_ops(vm_step(), old(self)@, bytecode@, 0).0,
            vm_run_overflows(old(self)@, bytecode@) ==> r == Err::<ScriptResult, DecodeError>(
                overflow_error(),
            ),
            !vm_run_overflows(old(self)@, bytecode@) ==> r == vm_run_result(old(self)@, bytecode@),
    {
        let mut c = Cursor::new(bytecode);
        while !c.is_empty()
            invariant
                c.bytes() == bytecode@,
                c.wf(),
                vm_bounded(self@),
                run_ops(vm_step(), self@, bytecode@, c.pos()) == run_ops(
                    vm_step(),
                    old(self)@,
                    bytecode@,
                    0,
                ),
            decreases bytecode@.len() - c.pos(),
        {
            let ghost p = c.pos();
            let ghost m = self@;
            let r = self.apply_op(&mut c);
            assert(vm_step()(m, bytecode@, p) == vm_op(m, bytecode@, p));
            proof {
                lemma_op_bounded(m, bytecode@, p);
            }
            match r {
                Ok(_) => {},
                Err(e) => {
                    return Err(e);
                },
            }
        }
        assert(run_ops(vm_step(), old(self)@, bytecode@, 0) == (self@, Ok::<(), DecodeError>(())));
        let mut acc: i128 = 0;
        let mut i: usize = 0;
        while i < self.stack.len()
            invariant
                0 <= i <= self.stack@.len(),
                run_ops(vm_step(), old(self)@, bytecode@, 0) == (self@, Ok::<(), DecodeError>(())),
                acc == stack_sum(self.stack@, i as int),
                stack_sum_fits(self.stack@, i as int),
            decreases self.stack@.len() - i,
        {
            acc = acc + self.stack[i] as i128;
            i = i + 1;
            if acc < i64::MIN as i128 || acc > i64::MAX as i128 {
                proof {
                    lemma_stack_unfit_stays(self.stack@, i as int, self.stack@.len() as int);
                }
                return Err(DecodeError::overflow());
            }
        }
        let last_window = match &self.window {
            Some(w) => w.len(),
            None => 0,
        };
        Ok(ScriptResult { accumulator: acc as i64, alerts: self.alerts, last_window })
    }
}

proof fn lemma_stack_unfit_stays(s: Seq<i64>, k: int, n: int)
    requires
        0 <= k <= n,
        !stack_sum_fits(s, k),
    ensures
        !stack_sum_fits(s, n),
    decreases n - k,
{
    if k < n {
        lemma_stack_unfit_stays(s, k, n - 1);
    }
}

pub proof fn lemma_point_values_len(points: Seq<TelemetryPoint>, n: int)
    requires
        0 <= n,
    ensures
        point_values(points, n).len() == 2 * n,
    decreases n,
{
    if n > 0 {
        lemma_point_values_len(points, n - 1);
    }
}

/// A 16-bit word read as signed.
fn signed_word(v: u16) -> (r: i16)
    ensures
        r == word_as_i16(v),
{
    if v < 0x8000 {
        v as i16
    } else {
        (v as i32 - 0x1_0000) as i16
    }
}

/// The result of running a script on a fresh machine, or `overflow_error()` where summing
/// its final stack would overflow.
pub fn run_script_checked(bytecode: &[u8]) -> (r: Result<ScriptResult>)
    ensures
        vm_run_overflows(empty_vm(), bytecode@) ==> r == Err::<ScriptResult, DecodeError>(
            overflow_error(),
        ),
        !vm_run_overflows(empty_vm(), bytecode@) ==> r == vm_run_result(empty_vm(), bytecode@),
{
    let mut vm = ScriptVm::new();
    vm.run_checked(bytecode)
}

/// The result of running a script on a fresh machine.
pub fn run_script(bytecode: &[u8]) -> (r: Result<ScriptResult>)
    requires
        !vm_run_overflows(empty_vm(), bytecode@),
    ensures
        r == vm_run_result(empty_vm(), bytecode@),
{
    let mut vm = ScriptVm::new();
    vm.run(bytecode)
}

impl Default for ScriptVm {
    /// A fresh machine, as `new` makes it.
    fn default() -> (d: Self)
        ensures
            d@ == empty_vm(),
    {
        Self::new()
    }
}

} // verus!
