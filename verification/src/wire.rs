//! Fixed-width little-endian integers, the building block of the ledger's
//! byte layout.
//!
//! Every number in the layout is stored least significant byte first.
//! [`le_bytes`] and [`le_value`] say so once, for any width; the functions
//! below read and write the three widths that the layout uses.

use vstd::prelude::*;

verus! {

/// The `width` low-order base-256 digits of `x`, least significant first.
pub open spec fn le_bytes(x: nat, width: nat) -> Seq<u8>
    decreases width,
{
    if width == 0 {
        Seq::empty()
    } else {
        seq![(x % 256) as u8] + le_bytes(x / 256, (width - 1) as nat)
    }
}

/// The number whose base-256 digits, least significant first, are `bytes`.
pub open spec fn le_value(bytes: Seq<u8>) -> nat
    decreases bytes.len(),
{
    if bytes.len() == 0 {
        0
    } else {
        bytes[0] as nat + 256 * le_value(bytes.drop_first())
    }
}

/// 256 to the power `width`: the number of values that `width` bytes can hold.
pub open spec fn radix_pow(width: nat) -> nat
    decreases width,
{
    if width == 0 {
        1
    } else {
        256 * radix_pow((width - 1) as nat)
    }
}

/// The unsigned 64-bit number that stands for `x` in two's complement.
pub open spec fn i64_bits(x: i64) -> u64 {
    if x >= 0 {
        x as u64
    } else {
        (x + 0x1_0000_0000_0000_0000) as u64
    }
}

/// The signed number that the 64 bits of `u` stand for in two's complement.
pub open spec fn i64_of_bits(u: u64) -> i64 {
    if u < 0x8000_0000_0000_0000 {
        u as i64
    } else {
        (u - 0x1_0000_0000_0000_0000) as i64
    }
}

/// The four bytes that store `x`.
pub open spec fn u32_bytes(x: u32) -> Seq<u8> {
    le_bytes(x as nat, 4)
}

/// The eight bytes that store `x`.
pub open spec fn u64_bytes(x: u64) -> Seq<u8> {
    le_bytes(x as nat, 8)
}

/// The eight bytes that store `x`, in two's complement.
pub open spec fn i64_bytes(x: i64) -> Seq<u8> {
    le_bytes(i64_bits(x) as nat, 8)
}

/// The `u32` stored in the four bytes of `bytes` that start at `at`.
pub open spec fn u32_at(bytes: Seq<u8>, at: int) -> u32 {
    le_value(bytes.subrange(at, at + 4)) as u32
}

/// The `u64` stored in the eight bytes of `bytes` that start at `at`.
pub open spec fn u64_at(bytes: Seq<u8>, at: int) -> u64 {
    le_value(bytes.subrange(at, at + 8)) as u64
}

/// The `i64` stored in the eight bytes of `bytes` that start at `at`.
pub open spec fn i64_at(bytes: Seq<u8>, at: int) -> i64 {
    i64_of_bits(u64_at(bytes, at))
}

/// `le_bytes` yields exactly `width` bytes.
pub proof fn lemma_le_bytes_len(x: nat, width: nat)
    ensures
        le_bytes(x, width).len() == width,
    decreases width,
{
    if width > 0 {
        lemma_le_bytes_len(x / 256, (width - 1) as nat);
    }
}

/// The value of a byte string is below 256 to the power of its length.
pub proof fn lemma_le_value_bound(bytes: Seq<u8>)
    ensures
        le_value(bytes) < radix_pow(bytes.len()),
    decreases bytes.len(),
{
    if bytes.len() > 0 {
        lemma_le_value_bound(bytes.drop_first());
    }
}

/// Reading back what was written gives the number written, as long as the
/// number fits the width.
pub proof fn lemma_le_value_of_bytes(x: nat, width: nat)
    requires
        x < radix_pow(width),
    ensures
        le_value(le_bytes(x, width)) == x,
    decreases width,
{
    if width > 0 {
        let rest = le_bytes(x / 256, (width - 1) as nat);
        lemma_le_bytes_len(x / 256, (width - 1) as nat);
        lemma_le_value_of_bytes(x / 256, (width - 1) as nat);
        assert(le_bytes(x, width).drop_first() =~= rest);
    }
}

/// Writing back what was read gives the bytes read.
pub proof fn lemma_le_bytes_of_value(bytes: Seq<u8>)
    ensures
        le_bytes(le_value(bytes), bytes.len()) == bytes,
    decreases bytes.len(),
{
    if bytes.len() > 0 {
        lemma_le_bytes_of_value(bytes.drop_first());
    }
}

/// The capacities of the widths in use.
pub proof fn lemma_radix_pow_values()
    ensures
        radix_pow(4) == 0x1_0000_0000,
        radix_pow(8) == 0x1_0000_0000_0000_0000,
{
    reveal_with_fuel(radix_pow, 9);
}

/// Two's complement loses nothing, in either direction.
pub proof fn lemma_i64_bits_round_trip(x: i64, u: u64)
    ensures
        i64_of_bits(i64_bits(x)) == x,
        i64_bits(i64_of_bits(u)) == u,
{
}

/// What was written at the front of a byte string is read back from there,
/// whatever follows.
pub proof fn lemma_read_written(x: nat, width: nat, rest: Seq<u8>)
    requires
        x < radix_pow(width),
    ensures
        le_value((le_bytes(x, width) + rest).subrange(0, width as int)) == x,
        (le_bytes(x, width) + rest).skip(width as int) == rest,
{
    lemma_le_bytes_len(x, width);
    lemma_le_value_of_bytes(x, width);
    assert((le_bytes(x, width) + rest).subrange(0, width as int) =~= le_bytes(x, width));
}

/// Appends the `width` low-order bytes of `x` to `out`.
fn put_le(out: &mut Vec<u8>, x: u64, width: usize)
    ensures
        final(out)@ == old(out)@ + le_bytes(x as nat, width as nat),
{
    let mut rem: u64 = x;
    let mut i: usize = 0;
    while i < width
        invariant
            i <= width,
            out@ + le_bytes(rem as nat, (width - i) as nat) == old(out)@ + le_bytes(
                x as nat,
                width as nat,
            ),
        decreases width - i,
    {
        out.push((rem % 256) as u8);
        rem = rem / 256;
        i += 1;
    }
}

/// Reads the number stored in the `width` bytes of `bytes` that start at `at`.
fn get_le(bytes: &[u8], at: usize, width: usize) -> (x: u64)
    requires
        width <= 8,
        at + width <= bytes.len(),
    ensures
        x as nat == le_value(bytes@.subrange(at as int, at + width)),
{
    let ghost field = bytes@.subrange(at as int, at + width);
    let mut acc: u64 = 0;
    let mut i: usize = width;
    while i > 0
        invariant
            i <= width <= 8,
            at + width <= bytes.len(),
            field == bytes@.subrange(at as int, at + width),
            acc as nat == le_value(field.skip(i as int)),
        decreases i,
    {
        i -= 1;
        let b: u8 = bytes[at + i];
        proof {
            let shorter = field.skip(i + 1);
            let longer = field.skip(i as int);
            assert(longer.drop_first() =~= shorter);
            lemma_le_value_bound(shorter);
            lemma_le_value_bound(longer);
            reveal_with_fuel(radix_pow, 9);
        }
        acc = acc * 256 + b as u64;
    }
    assert(field.skip(0) =~= field);
    acc
}

/// Appends the four bytes of `x` to `out`.
pub fn put_u32(out: &mut Vec<u8>, x: u32)
    ensures
        final(out)@ == old(out)@ + u32_bytes(x),
{
    put_le(out, x as u64, 4);
}

/// Appends the eight bytes of `x` to `out`.
pub fn put_u64(out: &mut Vec<u8>, x: u64)
    ensures
        final(out)@ == old(out)@ + u64_bytes(x),
{
    put_le(out, x, 8);
}

/// Appends the eight bytes of `x` to `out`.
pub fn put_i64(out: &mut Vec<u8>, x: i64)
    ensures
        final(out)@ == old(out)@ + i64_bytes(x),
{
    let bits: u64 = if x >= 0 {
        x as u64
    } else {
        (x + i64::MAX + 1) as u64 + 0x8000_0000_0000_0000u64
    };
    put_le(out, bits, 8);
}

/// Reads the `u32` stored at `at`.
pub fn get_u32(bytes: &[u8], at: usize) -> (x: u32)
    requires
        at + 4 <= bytes.len(),
    ensures
        x == u32_at(bytes@, at as int),
{
    proof {
        lemma_le_value_bound(bytes@.subrange(at as int, at + 4));
        lemma_radix_pow_values();
    }
    get_le(bytes, at, 4) as u32
}

/// Reads the `u64` stored at `at`.
pub fn get_u64(bytes: &[u8], at: usize) -> (x: u64)
    requires
        at + 8 <= bytes.len(),
    ensures
        x == u64_at(bytes@, at as int),
{
    proof {
        lemma_le_value_bound(bytes@.subrange(at as int, at + 8));
        lemma_radix_pow_values();
    }
    get_le(bytes, at, 8)
}

/// Reads the `i64` stored at `at`.
pub fn get_i64(bytes: &[u8], at: usize) -> (x: i64)
    requires
        at + 8 <= bytes.len(),
    ensures
        x == i64_at(bytes@, at as int),
{
    let bits: u64 = get_u64(bytes, at);
    if bits < 0x8000_0000_0000_0000u64 {
        bits as i64
    } else {
        (bits - 0x8000_0000_0000_0000u64) as i64 + i64::MIN
    }
}

} // verus!
