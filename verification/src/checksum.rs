use vstd::prelude::*;

verus! {

/// One bit step of the CRC-16 (polynomial `0x1021`).
pub open spec fn crc_bit(crc: u16) -> u16 {
    if crc & 0x8000 != 0 {
        (crc << 1u16) ^ 0x1021
    } else {
        crc << 1u16
    }
}

/// `k` bit steps.
pub open spec fn crc_bits(crc: u16, k: nat) -> u16
    decreases k,
{
    if k == 0 {
        crc
    } else {
        crc_bit(crc_bits(crc, (k - 1) as nat))
    }
}

/// Mixing one byte into the CRC.
pub open spec fn crc_byte(crc: u16, b: u8) -> u16 {
    crc_bits(crc ^ ((b as u16) << 8u16), 8)
}

/// The CRC-16 of `data`, from the initial value `0x6d2b`.
pub open spec fn crc16_spec(data: Seq<u8>) -> u16
    decreases data.len(),
{
    if data.len() == 0 {
        0x6d2b
    } else {
        crc_byte(crc16_spec(data.drop_last()), data.last())
    }
}

pub fn crc16(data: &[u8]) -> (crc: u16)
    ensures
        crc == crc16_spec(data@),
{
    let mut crc: u16 = 0x6d2b;
    let mut i: usize = 0;
    while i < data.len()
        invariant
            0 <= i <= data@.len(),
            crc == crc16_spec(data@.take(i as int)),
        decreases data@.len() - i,
    {
        let b = data[i];
        let start = crc ^ ((b as u16) << 8u16);
        crc = start;
        let mut k: usize = 0;
        while k < 8
            invariant
                0 <= k <= 8,
                crc == crc_bits(start, k as nat),
            decreases 8 - k,
        {
            if crc & 0x8000 != 0 {
                crc = (crc << 1u16) ^ 0x1021;
            } else {
                crc = crc << 1u16;
            }
            k = k + 1;
        }
        i = i + 1;
        assert(data@.take(i as int).drop_last() == data@.take((i - 1) as int));
    }
    assert(data@.take(data@.len() as int) == data@);
    crc
}

/// `x` rotated left by `n` bits, `0 < n < 32`.
pub open spec fn rotl32(x: u32, n: u32) -> u32 {
    (x << n) | (x >> ((32 - n) as u32))
}

/// The folded sum over the first `n` bytes: from `0x9e37_79b9`, byte `i` is shifted into
/// byte lane `i % 4` with an exclusive or, then the accumulator is rotated left by five bits
/// and multiplied by `0x45d9_f3b`, wrapping.
pub open spec fn folded_prefix(data: Seq<u8>, n: int) -> u32
    decreases n,
{
    if n <= 0 {
        0x9e37_79b9
    } else {
        let i = n - 1;
        let acc = folded_prefix(data, i) ^ ((data[i] as u32) << (((i % 4) * 8) as u32));
        rotl32(acc, 5).wrapping_mul(0x45d9_f3b)
    }
}

pub fn folded_sum(data: &[u8]) -> (r: u32)
    ensures
        r == folded_prefix(data@, data@.len() as int),
{
    let mut acc: u32 = 0x9e37_79b9;
    let mut i: usize = 0;
    while i < data.len()
        invariant
            0 <= i <= data@.len(),
            acc == folded_prefix(data@, i as int),
        decreases data@.len() - i,
    {
        let b = data[i];
        let shift = ((i % 4) * 8) as u32;
        acc = acc ^ ((b as u32) << shift);
        acc = ((acc << 5u32) | (acc >> 27u32)).wrapping_mul(0x45d9_f3b);
        i = i + 1;
    }
    acc
}

/// A byte counted as printable text: newline, carriage return, tab or `0x20 ..= 0x7e`.
pub open spec fn is_text_byte(b: u8) -> bool {
    b == 0x0a || b == 0x0d || b == 0x09 || (0x20 <= b <= 0x7e)
}

/// How many of the first `n` bytes are printable.
pub open spec fn printable_count(data: Seq<u8>, n: int) -> nat
    decreases n,
{
    if n <= 0 {
        0
    } else {
        printable_count(data, n - 1) + if is_text_byte(data[n - 1]) {
            1nat
        } else {
            0nat
        }
    }
}

/// Three times `n`, saturating at `usize::MAX`.
pub open spec fn saturating_triple(n: int) -> int {
    if n * 3 > usize::MAX {
        usize::MAX as int
    } else {
        n * 3
    }
}

/// Data looks like text when at least three quarters of its bytes are printable.
pub open spec fn looks_like_text_spec(data: Seq<u8>) -> bool {
    printable_count(data, data.len() as int) * 4 >= saturating_triple(data.len() as int)
}

pub fn looks_like_text(data: &[u8]) -> (b: bool)
    ensures
        b == looks_like_text_spec(data@),
{
    let mut printable: usize = 0;
    let mut i: usize = 0;
    while i < data.len()
        invariant
            0 <= i <= data@.len(),
            printable == printable_count(data@, i as int),
            printable <= i,
        decreases data@.len() - i,
    {
        let b = data[i];
        if b == 0x0a || b == 0x0d || b == 0x09 || (0x20 <= b && b <= 0x7e) {
            printable = printable + 1;
        }
        i = i + 1;
    }
    let lhs = (printable as u128) * 4;
    let rhs: u128 = if data.len() > usize::MAX / 3 {
        usize::MAX as u128
    } else {
        (data.len() * 3) as u128
    };
    lhs >= rhs
}

} // verus!
