//! Little-endian integers, as the wire format writes them.
//!
//! The value of a byte string is defined arithmetically, least significant
//! byte first, so that it means the same on every host.

use vstd::prelude::*;

verus! {

/// The unsigned number that `bytes` spell, least significant byte first.
pub open spec fn le_nat(bytes: Seq<u8>) -> nat
    decreases bytes.len(),
{
    if bytes.len() == 0 {
        0
    } else {
        bytes[0] as nat + 256 * le_nat(bytes.skip(1))
    }
}

/// The `width` bytes that spell `value`, least significant byte first
/// (`value` is taken modulo `256^width`).
pub open spec fn le_bytes(value: nat, width: nat) -> Seq<u8>
    decreases width,
{
    if width == 0 {
        Seq::<u8>::empty()
    } else {
        seq![(value % 256) as u8] + le_bytes(value / 256, (width - 1) as nat)
    }
}

/// `256^width`: one more than the largest value that `width` bytes spell.
pub open spec fn le_limit(width: nat) -> nat
    decreases width,
{
    if width == 0 {
        1
    } else {
        256 * le_limit((width - 1) as nat)
    }
}

/// The signed number that `bytes` spell in two's complement, least
/// significant byte first.
pub open spec fn le_int(bytes: Seq<u8>) -> int {
    let v = le_nat(bytes);
    if 2 * v >= le_limit(bytes.len()) {
        v - le_limit(bytes.len())
    } else {
        v as int
    }
}

/// An IEEE 754 single-precision number, held as its 32 bits.
#[derive(Clone, Copy, Debug, PartialEq, Eq, Structural)]
pub struct Float32 {
    pub bits: u32,
}

/// An IEEE 754 double-precision number, held as its 64 bits.
#[derive(Clone, Copy, Debug, PartialEq, Eq, Structural)]
pub struct Float64 {
    pub bits: u64,
}

/// A byte string spells a number below `256^len`.
pub proof fn lemma_le_nat_bound(bytes: Seq<u8>)
    ensures
        le_nat(bytes) < le_limit(bytes.len()),
    decreases bytes.len(),
{
    if bytes.len() > 0 {
        lemma_le_nat_bound(bytes.skip(1));
    }
}

/// Reading a byte string and writing the number out again gives the bytes.
pub proof fn lemma_le_nat_then_bytes(bytes: Seq<u8>)
    ensures
        le_bytes(le_nat(bytes), bytes.len()) == bytes,
    decreases bytes.len(),
{
    if bytes.len() > 0 {
        lemma_le_nat_then_bytes(bytes.skip(1));
    }
}

/// The limits of the four widths that the format uses.
pub proof fn lemma_le_limits()
    ensures
        le_limit(1) == 0x100,
        le_limit(2) == 0x1_0000,
        le_limit(4) == 0x1_0000_0000,
        le_limit(8) == 0x1_0000_0000_0000_0000,
{
    reveal_with_fuel(le_limit, 9);
}

/// The little-endian value of two bytes, written out.
pub proof fn lemma_le_nat_2(b: Seq<u8>)
    requires
        b.len() == 2,
    ensures
        le_nat(b) == b[0] + 256 * b[1],
        le_nat(b) < 0x1_0000,
{
    reveal_with_fuel(le_nat, 3);
}

/// The little-endian value of four bytes, written out.
pub proof fn lemma_le_nat_4(b: Seq<u8>)
    requires
        b.len() == 4,
    ensures
        le_nat(b) == b[0] + 256 * b[1] + 0x1_0000 * b[2] + 0x100_0000 * b[3],
        le_nat(b) < 0x1_0000_0000,
{
    lemma_le_nat_2(b.skip(2));
    lemma_le_nat_split(b, 2);
    lemma_le_nat_2(b.take(2));
    assert(le_limit(2) == 0x1_0000) by {
        reveal_with_fuel(le_limit, 3);
    }
}

/// The little-endian value of eight bytes, written out.
pub proof fn lemma_le_nat_8(b: Seq<u8>)
    requires
        b.len() == 8,
    ensures
        le_nat(b) == b[0] + 256 * b[1] + 0x1_0000 * b[2] + 0x100_0000 * b[3]
            + 0x1_0000_0000 * (b[4] + 256 * b[5] + 0x1_0000 * b[6] + 0x100_0000 * b[7]),
        le_nat(b) < 0x1_0000_0000_0000_0000,
{
    lemma_le_nat_4(b.skip(4));
    lemma_le_nat_split(b, 4);
    lemma_le_nat_4(b.take(4));
    assert(le_limit(4) == 0x1_0000_0000) by {
        reveal_with_fuel(le_limit, 5);
    }
}

/// The value of a byte string is the value of its first `k` bytes plus
/// `256^k` times the value of the rest.
pub proof fn lemma_le_nat_split(b: Seq<u8>, k: nat)
    requires
        k <= b.len(),
    ensures
        le_nat(b) == le_nat(b.take(k as int)) + le_limit(k) * le_nat(b.skip(k as int)),
    decreases k,
{
    if k == 0 {
        assert(b.skip(0) =~= b);
        assert(b.take(0).len() == 0);
        assert(le_limit(0) == 1);
    } else {
        let rest = b.skip(1);
        lemma_le_nat_split(rest, (k - 1) as nat);
        assert(rest.take(k - 1) =~= b.take(k as int).skip(1));
        assert(rest.skip(k - 1) =~= b.skip(k as int));
        let lo = le_nat(rest.take(k - 1));
        let hi = le_nat(b.skip(k as int));
        let lim = le_limit((k - 1) as nat);
        assert(256 * (lo + lim * hi) == 256 * lo + (256 * lim) * hi) by (nonlinear_arith);
    }
}

/// Reads the byte at `at`.
pub(crate) fn read_le_u8(data: &[u8], at: usize) -> (v: u8)
    requires
        at + 1 <= data@.len(),
    ensures
        v == le_nat(data@.subrange(at as int, at + 1)),
{
    proof {
        reveal_with_fuel(le_nat, 2);
    }
    data[at]
}

/// Reads the two bytes from `at` on as an unsigned number.
pub(crate) fn read_le_u16(data: &[u8], at: usize) -> (v: u16)
    requires
        at + 2 <= data@.len(),
    ensures
        v == le_nat(data@.subrange(at as int, at + 2)),
{
    proof {
        lemma_le_nat_2(data@.subrange(at as int, at + 2));
    }
    let b0: u16 = data[at] as u16;
    let b1: u16 = data[at + 1] as u16;
    b0 + 256 * b1
}

/// Reads the four bytes from `at` on as an unsigned number.
pub(crate) fn read_le_u32(data: &[u8], at: usize) -> (v: u32)
    requires
        at + 4 <= data@.len(),
    ensures
        v == le_nat(data@.subrange(at as int, at + 4)),
{
    proof {
        lemma_le_nat_4(data@.subrange(at as int, at + 4));
    }
    let b0: u32 = data[at] as u32;
    let b1: u32 = data[at + 1] as u32;
    let b2: u32 = data[at + 2] as u32;
    let b3: u32 = data[at + 3] as u32;
    b0 + 256 * b1 + 0x1_0000 * b2 + 0x100_0000 * b3
}

/// Reads the eight bytes from `at` on as an unsigned number.
pub(crate) fn read_le_u64(data: &[u8], at: usize) -> (v: u64)
    requires
        at + 8 <= data@.len(),
    ensures
        v == le_nat(data@.subrange(at as int, at + 8)),
{
    proof {
        lemma_le_nat_8(data@.subrange(at as int, at + 8));
        lemma_le_nat_4(data@.subrange(at as int, at + 4));
        lemma_le_nat_4(data@.subrange(at + 4, at + 8));
        assert(data@.len() == data.len());
    }
    let lo: u64 = read_le_u32(data, at) as u64;
    let hi: u64 = read_le_u32(data, at + 4) as u64;
    lo + 0x1_0000_0000 * hi
}

/// The signed reading of an unsigned byte: two's complement.
pub fn signed_8(v: u8) -> (r: i8)
    ensures
        r == if v >= 0x80 { v - 0x100 } else { v as int },
{
    if v >= 0x80 {
        ((v - 0x80) as i8) + i8::MIN
    } else {
        v as i8
    }
}

/// The signed reading of an unsigned 16-bit number: two's complement.
pub fn signed_16(v: u16) -> (r: i16)
    ensures
        r == if v >= 0x8000 { v - 0x1_0000 } else { v as int },
{
    if v >= 0x8000 {
        ((v - 0x8000) as i16) + i16::MIN
    } else {
        v as i16
    }
}

/// The signed reading of an unsigned 32-bit number: two's complement.
pub fn signed_32(v: u32) -> (r: i32)
    ensures
        r == if v >= 0x8000_0000 { v - 0x1_0000_0000 } else { v as int },
{
    if v >= 0x8000_0000 {
        ((v - 0x8000_0000) as i32) + i32::MIN
    } else {
        v as i32
    }
}

/// The signed reading of an unsigned 64-bit number: two's complement.
pub fn signed_64(v: u64) -> (r: i64)
    ensures
        r == if v >= 0x8000_0000_0000_0000 { v - 0x1_0000_0000_0000_0000 } else { v as int },
{
    if v >= 0x8000_0000_0000_0000 {
        ((v - 0x8000_0000_0000_0000) as i64) + i64::MIN
    } else {
        v as i64
    }
}

} // verus!
