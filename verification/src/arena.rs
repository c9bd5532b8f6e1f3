use vstd::prelude::*;

use crate::text::{lossy_text, utf8_lossy};

verus! {

/// A copy of a run of bytes taken at some earlier point.
#[derive(Clone, Debug)]
pub struct RawSpan {
    pub bytes: Vec<u8>,
}

/// A copy of a run of values taken at some earlier point.
#[derive(Clone, Debug)]
pub struct RawSlice<T> {
    pub items: Vec<T>,
}

impl View for RawSpan {
    type V = Seq<u8>;

    open spec fn view(&self) -> Seq<u8> {
        self.bytes@
    }
}

impl<T> View for RawSlice<T> {
    type V = Seq<T>;

    open spec fn view(&self) -> Seq<T> {
        self.items@
    }
}

impl RawSpan {
    pub fn empty() -> (s: Self)
        ensures
            s@ == Seq::<u8>::empty(),
    {
        RawSpan { bytes: Vec::new() }
    }

    pub fn is_empty(&self) -> (b: bool)
        ensures
            b == (self@.len() == 0),
    {
        self.bytes.len() == 0
    }

    pub fn len(&self) -> (n: usize)
        ensures
            n == self@.len(),
    {
        self.bytes.len()
    }
}

impl<T> RawSlice<T> {
    pub fn empty() -> (s: Self)
        ensures
            s@ == Seq::<T>::empty(),
    {
        RawSlice { items: Vec::new() }
    }

    pub fn is_empty(&self) -> (b: bool)
        ensures
            b == (self@.len() == 0),
    {
        self.items.len() == 0
    }

    pub fn len(&self) -> (n: usize)
        ensures
            n == self@.len(),
    {
        self.items.len()
    }
}

/// The contents of a sequence of byte vectors.
pub open spec fn bytes_seq(v: Seq<Vec<u8>>) -> Seq<Seq<u8>> {
    v.map_values(|e: Vec<u8>| e@)
}

/// The contents of a sequence of spans.
pub open spec fn spans_seq(v: Seq<RawSpan>) -> Seq<Seq<u8>> {
    v.map_values(|s: RawSpan| s@)
}

/// A copy of `slice`.
pub fn capture_bytes(slice: &[u8]) -> (s: RawSpan)
    ensures
        s@ == slice@,
{
    RawSpan { bytes: capture_slice(slice).items }
}

/// A copy of `slice`.
pub fn capture_slice<T: Copy>(slice: &[T]) -> (s: RawSlice<T>)
    ensures
        s@ == slice@,
{
    let mut items: Vec<T> = Vec::new();
    let mut i: usize = 0;
    while i < slice.len()
        invariant
            0 <= i <= slice@.len(),
            items@ == slice@.take(i as int),
        decreases slice@.len() - i,
    {
        items.push(slice[i]);
        i = i + 1;
        assert(slice@.take(i as int) == slice@.take((i - 1) as int).push(slice@[i - 1]));
    }
    assert(slice@.take(slice@.len() as int) == slice@);
    RawSlice { items }
}

/// The bytes of a span.
pub fn span_to_vec(span: &RawSpan) -> (v: Vec<u8>)
    ensures
        v@ == span@,
{
    capture_slice(span.bytes.as_slice()).items
}

/// The bytes of a span read as text, invalid UTF-8 replaced.
pub fn span_to_string(span: &RawSpan) -> (s: String)
    ensures
        s@ == utf8_lossy(span@),
{
    lossy_text(span.bytes.as_slice())
}

/// `x` rotated left by `n` bits, `0 < n < 64`.
pub open spec fn rotl64(x: u64, n: u64) -> u64 {
    (x << n) | (x >> ((64 - n) as u64))
}

/// The score of a byte run: starting from `0xfeed_beef`, each byte is mixed in by a rotation
/// by five bits and an exclusive or.
pub open spec fn score_bytes(s: Seq<u8>) -> u64
    decreases s.len(),
{
    if s.len() == 0 {
        0xfeed_beefu64
    } else {
        rotl64(score_bytes(s.drop_last()), 5) ^ (s.last() as u64)
    }
}

/// The score of a span; an empty span scores zero.
pub open spec fn span_score_spec(s: Seq<u8>) -> u64 {
    if s.len() == 0 {
        0
    } else {
        score_bytes(s)
    }
}

pub fn span_score(span: &RawSpan) -> (r: u64)
    ensures
        r == span_score_spec(span@),
{
    if span.is_empty() {
        return 0;
    }
    let mut acc: u64 = 0xfeed_beef;
    let mut i: usize = 0;
    while i < span.bytes.len()
        invariant
            0 <= i <= span@.len(),
            acc == score_bytes(span@.take(i as int)),
        decreases span@.len() - i,
    {
        let b = span.bytes[i];
        acc = ((acc << 5u64) | (acc >> 59u64)) ^ (b as u64);
        i = i + 1;
        assert(span@.take(i as int).drop_last() == span@.take((i - 1) as int));
    }
    assert(span@.take(span@.len() as int) == span@);
    acc
}

/// The value at `index` in the copy, if the copy reaches that far.
pub fn read_at<T: Copy>(raw: &RawSlice<T>, index: usize) -> (r: Option<T>)
    ensures
        r == (if index < raw@.len() {
            Some(raw@[index as int])
        } else {
            None::<T>
        }),
{
    if index < raw.items.len() {
        Some(raw.items[index])
    } else {
        None
    }
}

/// The sum of the first `n` values of `s`.
pub open spec fn sum_i16(s: Seq<i16>, n: int) -> int
    decreases n,
{
    if n <= 0 {
        0
    } else {
        sum_i16(s, n - 1) + s[n - 1] as int
    }
}

proof fn lemma_sum_i16_bounds(s: Seq<i16>, n: int)
    requires
        0 <= n <= s.len(),
    ensures
        -0x8000 * n <= sum_i16(s, n) <= 0x7fff * n,
    decreases n,
{
    if n > 0 {
        lemma_sum_i16_bounds(s, n - 1);
    }
}

/// The sum of the first `raw.len() + extra` values of the copy that exist: the values past
/// its end are absent, so this is the sum of the whole copy (zero for an empty one).
pub fn slice_prefix_sum_i16(raw: &RawSlice<i16>, extra: usize) -> (r: i64)
    requires
        raw@.len() < 0x8000_0000_0000,
    ensures
        r == sum_i16(raw@, raw@.len() as int),
{
    if raw.is_empty() {
        return 0;
    }
    let count = raw.items.len().saturating_add(extra);
    let mut acc: i64 = 0;
    let mut i: usize = 0;
    while i < count && i < raw.items.len()
        invariant
            0 <= i <= raw@.len(),
            raw@.len() < 0x8000_0000_0000,
            count >= raw@.len(),
            acc == sum_i16(raw@, i as int),
        decreases raw@.len() - i,
    {
        proof {
            lemma_sum_i16_bounds(raw@, i as int);
        }
        acc = acc + raw.items[i] as i64;
        i = i + 1;
    }
    acc
}

} // verus!
