//! Little-endian fixed-width fields, the building blocks of every persisted
//! record.

use vstd::prelude::*;

verus! {

/// 256 to the power `width`: the count of values that `width` bytes can hold.
pub open spec fn radix(width: nat) -> nat
    decreases width,
{
    if width == 0 {
        1
    } else {
        256 * radix((width - 1) as nat)
    }
}

/// The number that a run of little-endian bytes stands for.
pub open spec fn le_value(bytes: Seq<u8>) -> nat
    decreases bytes.len(),
{
    if bytes.len() == 0 {
        0
    } else {
        bytes[0] as nat + 256 * le_value(bytes.drop_first())
    }
}

/// The `width` little-endian bytes of `value`, lowest byte first.
pub open spec fn le_bytes(value: nat, width: nat) -> Seq<u8>
    decreases width,
{
    if width == 0 {
        Seq::empty()
    } else {
        seq![(value % 256) as u8] + le_bytes(value / 256, (width - 1) as nat)
    }
}

/// The unsigned 64-bit pattern of a signed number in two's complement.
pub open spec fn twos_complement(value: int) -> nat
    recommends
        i64::MIN <= value <= i64::MAX,
{
    if value >= 0 {
        value as nat
    } else {
        (value + 0x1_0000_0000_0000_0000) as nat
    }
}

/// The signed number that an unsigned 64-bit pattern stands for.
pub open spec fn from_twos_complement(pattern: nat) -> int
    recommends
        pattern <= u64::MAX,
{
    if pattern < 0x8000_0000_0000_0000 {
        pattern as int
    } else {
        pattern - 0x1_0000_0000_0000_0000
    }
}

/// The eight little-endian bytes of a signed 64-bit number.
pub open spec fn le_i64_bytes(value: int) -> Seq<u8> {
    le_bytes(twos_complement(value), 8)
}

/// The signed number that eight little-endian bytes stand for.
pub open spec fn le_i64_value(bytes: Seq<u8>) -> int {
    from_twos_complement(le_value(bytes))
}

/// The first powers of 256, up to the range of a 64-bit number.
pub proof fn lemma_radix_values()
    ensures
        radix(0) == 1,
        radix(1) == 0x100,
        radix(2) == 0x1_0000,
        radix(3) == 0x100_0000,
        radix(4) == 0x1_0000_0000,
        radix(5) == 0x100_0000_0000,
        radix(6) == 0x1_0000_0000_0000,
        radix(7) == 0x100_0000_0000_0000,
        radix(8) == 0x1_0000_0000_0000_0000,
{
    reveal_with_fuel(radix, 9);
}

/// `le_bytes` gives as many bytes as it was asked for.
pub proof fn lemma_le_bytes_len(value: nat, width: nat)
    ensures
        le_bytes(value, width).len() == width,
    decreases width,
{
    if width > 0 {
        lemma_le_bytes_len(value / 256, (width - 1) as nat);
    }
}

/// A run of bytes stands for a number below 256 to the power of its length.
pub proof fn lemma_le_value_bound(bytes: Seq<u8>)
    ensures
        le_value(bytes) < radix(bytes.len()),
    decreases bytes.len(),
{
    if bytes.len() > 0 {
        lemma_le_value_bound(bytes.drop_first());
    }
}

/// Writing a number that fits the width and reading it back gives the number.
pub proof fn lemma_le_value_of_bytes(value: nat, width: nat)
    requires
        value < radix(width),
    ensures
        le_value(le_bytes(value, width)) == value,
    decreases width,
{
    if width > 0 {
        let rest = le_bytes(value / 256, (width - 1) as nat);
        lemma_le_value_of_bytes(value / 256, (width - 1) as nat);
        assert(le_bytes(value, width).drop_first() =~= rest);
    }
}

/// Reading a run of bytes and writing the number back gives the bytes.
pub proof fn lemma_le_bytes_of_value(bytes: Seq<u8>)
    ensures
        le_bytes(le_value(bytes), bytes.len()) == bytes,
    decreases bytes.len(),
{
    if bytes.len() > 0 {
        let rest = bytes.drop_first();
        lemma_le_bytes_of_value(rest);
        assert(le_value(bytes) / 256 == le_value(rest));
        assert(le_value(bytes) % 256 == bytes[0] as nat);
        assert(le_bytes(le_value(bytes), bytes.len()) =~= bytes);
    } else {
        assert(le_bytes(le_value(bytes), bytes.len()) =~= bytes);
    }
}

/// A signed number survives being written as eight bytes and read back.
pub proof fn lemma_le_i64_value_of_bytes(value: int)
    requires
        i64::MIN <= value <= i64::MAX,
    ensures
        le_i64_bytes(value).len() == 8,
        le_i64_value(le_i64_bytes(value)) == value,
{
    lemma_radix_values();
    lemma_le_bytes_len(twos_complement(value), 8);
    lemma_le_value_of_bytes(twos_complement(value), 8);
}

/// Eight bytes survive being read as a signed number and written back.
pub proof fn lemma_le_i64_bytes_of_value(bytes: Seq<u8>)
    requires
        bytes.len() == 8,
    ensures
        i64::MIN <= le_i64_value(bytes) <= i64::MAX,
        le_i64_bytes(le_i64_value(bytes)) == bytes,
{
    lemma_radix_values();
    lemma_le_value_bound(bytes);
    lemma_le_bytes_of_value(bytes);
}

/// More bytes hold at least as many values.
pub proof fn lemma_radix_monotone(narrow: nat, wide: nat)
    requires
        narrow <= wide,
    ensures
        radix(narrow) <= radix(wide),
        radix(narrow) >= 1,
    decreases wide,
{
    if narrow < wide {
        lemma_radix_monotone(narrow, (wide - 1) as nat);
    } else if narrow > 0 {
        lemma_radix_monotone((narrow - 1) as nat, (narrow - 1) as nat);
    }
}

/// Reads the `width` bytes at `at` as one little-endian number.
pub fn read_le(data: &[u8], at: usize, width: usize) -> (value: u64)
    requires
        width <= 8,
        at + width <= data.len(),
    ensures
        value == le_value(data@.subrange(at as int, at + width)),
{
    let mut value: u64 = 0;
    let mut left: usize = width;
    while left > 0
        invariant
            left <= width <= 8,
            at + width <= data.len(),
            value == le_value(data@.subrange(at + left, at + width)),
        decreases left,
    {
        left -= 1;
        proof {
            let tail = data@.subrange(at + left + 1, at + width);
            let run = data@.subrange(at + left, at + width);
            lemma_le_value_bound(tail);
            lemma_radix_monotone(tail.len(), 7);
            lemma_radix_values();
            assert(run.drop_first() =~= tail);
        }
        value = value * 256 + data[at + left] as u64;
    }
    value
}

/// Appends the `width` little-endian bytes of `value`.
pub fn write_le(out: &mut Vec<u8>, value: u64, width: usize)
    requires
        width <= 8,
    ensures
        final(out)@ == old(out)@ + le_bytes(value as nat, width as nat),
{
    let ghost start = out@;
    let mut rest: u64 = value;
    let mut done: usize = 0;
    while done < width
        invariant
            done <= width,
            out@ + le_bytes(rest as nat, (width - done) as nat) == start + le_bytes(
                value as nat,
                width as nat,
            ),
        decreases width - done,
    {
        let byte: u8 = (rest % 256) as u8;
        proof {
            let later = le_bytes((rest / 256) as nat, (width - done - 1) as nat);
            assert(out@.push(byte) + later =~= out@ + (seq![byte] + later));
        }
        out.push(byte);
        rest = rest / 256;
        done += 1;
    }
    assert(out@ + le_bytes(rest as nat, 0) =~= out@);
}

/// Reads the eight bytes at `at` as a signed number.
pub fn read_i64(data: &[u8], at: usize) -> (value: i64)
    requires
        at + 8 <= data.len(),
    ensures
        value == le_i64_value(data@.subrange(at as int, at + 8)),
{
    let pattern: u64 = read_le(data, at, 8);
    if pattern < 0x8000_0000_0000_0000 {
        pattern as i64
    } else {
        let low: u64 = pattern - 0x8000_0000_0000_0000;
        (low as i64) + i64::MIN
    }
}

/// Appends the eight little-endian bytes of a signed number.
pub fn write_i64(out: &mut Vec<u8>, value: i64)
    ensures
        final(out)@ == old(out)@ + le_i64_bytes(value as int),
{
    let pattern: u64 = if value >= 0 {
        value as u64
    } else {
        let low: i64 = value - i64::MIN;
        (low as u64) + 0x8000_0000_0000_0000
    };
    write_le(out, pattern, 8);
}

/// Appends a copy of `bytes`.
pub fn write_bytes(out: &mut Vec<u8>, bytes: &[u8])
    ensures
        final(out)@ == old(out)@ + bytes@,
{
    let ghost start = out@;
    let mut done: usize = 0;
    while done < bytes.len()
        invariant
            done <= bytes.len(),
            out@ == start + bytes@.take(done as int),
        decreases bytes.len() - done,
    {
        proof {
            assert(bytes@.take(done + 1) =~= bytes@.take(done as int).push(bytes@[done as int]));
            assert((start + bytes@.take(done as int)).push(bytes@[done as int]) =~= start
                + bytes@.take(done + 1));
        }
        out.push(bytes[done]);
        done += 1;
    }
    assert(bytes@.take(done as int) =~= bytes@);
}

/// Copies the 32 bytes at `at` out of `data`.
pub fn read_block(data: &[u8], at: usize) -> (block: [u8; 32])
    requires
        at + 32 <= data.len(),
    ensures
        block@ == data@.subrange(at as int, at + 32),
{
    let mut block: [u8; 32] = [0u8; 32];
    let mut done: usize = 0;
    while done < 32
        invariant
            done <= 32,
            at + 32 <= data.len(),
            forall|i: int| 0 <= i < done ==> block@[i] == data@[at + i],
        decreases 32 - done,
    {
        block[done] = data[at + done];
        done += 1;
    }
    assert(block@ =~= data@.subrange(at as int, at + 32));
    block
}

} // verus!
