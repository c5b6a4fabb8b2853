//! A cursor over the payload of one message.
//!
//! The cursor is made from the bytes that the frame declared and never
//! reads beyond them, whatever the rest of the stream holds. Its view is the
//! unconsumed tail of the payload.

use vstd::prelude::*;
use vstd::slice::slice_subrange;
use crate::errors::ULogError;
use crate::wire::{le_nat, le_int, le_limit, Float32, Float64};
use crate::wire::{read_le_u8, read_le_u16, read_le_u32, read_le_u64};
use crate::wire::{signed_8, signed_16, signed_32, signed_64};

verus! {

/// A bounds-checked read position within one payload.
pub struct MessageBuf<'a> {
    data: &'a [u8],
    pos: usize,
}

impl<'a> View for MessageBuf<'a> {
    type V = Seq<u8>;

    /// The bytes that have not been consumed yet.
    closed spec fn view(&self) -> Seq<u8> {
        self.data@.skip(self.pos as int)
    }
}

/// What a read of `width` bytes does to a cursor: with enough bytes left it
/// consumes exactly those, otherwise it fails and leaves the cursor alone.
pub open spec fn consumes(before: Seq<u8>, after: Seq<u8>, width: nat, failed: bool) -> bool {
    if before.len() >= width {
        !failed && after == before.skip(width as int)
    } else {
        failed && after == before
    }
}

/// The outcome of reading a `width`-byte value whose decoding is `value`.
pub open spec fn reads<T>(
    before: Seq<u8>,
    after: Seq<u8>,
    width: nat,
    value: T,
    r: Result<T, ULogError>,
) -> bool {
    &&& consumes(before, after, width, r is Err)
    &&& r is Ok ==> r == Ok::<T, ULogError>(value)
    &&& r is Err ==> r == Err::<T, ULogError>(ULogError::UnexpectedEndOfPayload)
}

impl<'a> MessageBuf<'a> {
    #[verifier::type_invariant]
    spec fn in_bounds(self) -> bool {
        self.pos <= self.data@.len()
    }

    /// A cursor at the start of `data`.
    pub fn new(data: &'a [u8]) -> (buf: Self)
        ensures
            buf@ == data@,
    {
        MessageBuf { data, pos: 0 }
    }

    /// The number of bytes not consumed yet.
    pub fn len(&self) -> (n: usize)
        ensures
            n == self@.len(),
    {
        proof {
            use_type_invariant(self);
        }
        self.data.len() - self.pos
    }

    /// Has every byte been consumed?
    pub fn is_empty(&self) -> (r: bool)
        ensures
            r == (self@.len() == 0),
    {
        self.len() == 0
    }

    /// The unconsumed tail, without copying.
    pub fn remaining_bytes(&self) -> (tail: &'a [u8])
        ensures
            tail@ == self@,
    {
        proof {
            use_type_invariant(self);
        }
        slice_subrange(self.data, self.pos, self.data.len())
    }

    /// Hands out the next `n` bytes without copying and moves past them.
    /// With fewer than `n` bytes left nothing is consumed.
    pub fn advance(&mut self, n: usize) -> (r: Result<&'a [u8], ULogError>)
        ensures
            consumes(old(self)@, final(self)@, n as nat, r is Err),
            r matches Ok(bytes) ==> bytes@ == old(self)@.take(n as int),
            r matches Err(e) ==> e == ULogError::UnexpectedEndOfPayload,
    {
        proof {
            use_type_invariant(&*self);
        }
        if self.data.len() - self.pos < n {
            return Err(ULogError::UnexpectedEndOfPayload);
        }
        let start: usize = self.pos;
        let bytes = slice_subrange(self.data, start, start + n);
        self.pos = start + n;
        proof {
            assert(self@ =~= old(self)@.skip(n as int));
        }
        Ok(bytes)
    }

    /// Reads one byte.
    pub fn take_u8(&mut self) -> (r: Result<u8, ULogError>)
        ensures
            reads(old(self)@, final(self)@, 1, le_nat(old(self)@.take(1)) as u8, r),
    {
        let bytes = self.advance(1)?;
        proof {
            assert(bytes@.subrange(0, 1) =~= bytes@);
        }
        Ok(read_le_u8(bytes, 0))
    }

    /// Reads an unsigned 16-bit number, least significant byte first.
    pub fn take_u16(&mut self) -> (r: Result<u16, ULogError>)
        ensures
            reads(old(self)@, final(self)@, 2, le_nat(old(self)@.take(2)) as u16, r),
    {
        let bytes = self.advance(2)?;
        proof {
            assert(bytes@.subrange(0, 2) =~= bytes@);
        }
        Ok(read_le_u16(bytes, 0))
    }

    /// Reads an unsigned 32-bit number, least significant byte first.
    pub fn take_u32(&mut self) -> (r: Result<u32, ULogError>)
        ensures
            reads(old(self)@, final(self)@, 4, le_nat(old(self)@.take(4)) as u32, r),
    {
        let bytes = self.advance(4)?;
        proof {
            assert(bytes@.subrange(0, 4) =~= bytes@);
        }
        Ok(read_le_u32(bytes, 0))
    }

    /// Reads an unsigned 64-bit number, least significant byte first.
    pub fn take_u64(&mut self) -> (r: Result<u64, ULogError>)
        ensures
            reads(old(self)@, final(self)@, 8, le_nat(old(self)@.take(8)) as u64, r),
    {
        let bytes = self.advance(8)?;
        proof {
            assert(bytes@.subrange(0, 8) =~= bytes@);
        }
        Ok(read_le_u64(bytes, 0))
    }

    /// Reads a signed 8-bit number in two's complement, least significant
    /// byte first.
    pub fn take_i8(&mut self) -> (r: Result<i8, ULogError>)
        ensures
            reads(old(self)@, final(self)@, 1, le_int(old(self)@.take(1)) as i8, r),
    {
        let bytes = self.advance(1)?;
        proof {
            assert(bytes@.subrange(0, 1) =~= bytes@);
            assert(le_limit(1) == 0x1_00) by {
                reveal_with_fuel(le_limit, 2);
            }
        }
        Ok(signed_8(read_le_u8(bytes, 0)))
    }

    /// Reads a signed 16-bit number in two's complement, least significant
    /// byte first.
    pub fn take_i16(&mut self) -> (r: Result<i16, ULogError>)
        ensures
            reads(old(self)@, final(self)@, 2, le_int(old(self)@.take(2)) as i16, r),
    {
        let bytes = self.advance(2)?;
        proof {
            assert(bytes@.subrange(0, 2) =~= bytes@);
            assert(le_limit(2) == 0x1_00_00) by {
                reveal_with_fuel(le_limit, 3);
            }
        }
        Ok(signed_16(read_le_u16(bytes, 0)))
    }

    /// Reads a signed 32-bit number in two's complement, least significant
    /// byte first.
    pub fn take_i32(&mut self) -> (r: Result<i32, ULogError>)
        ensures
            reads(old(self)@, final(self)@, 4, le_int(old(self)@.take(4)) as i32, r),
    {
        let bytes = self.advance(4)?;
        proof {
            assert(bytes@.subrange(0, 4) =~= bytes@);
            assert(le_limit(4) == 0x1_00_00_00_00) by {
                reveal_with_fuel(le_limit, 5);
            }
        }
        Ok(signed_32(read_le_u32(bytes, 0)))
    }

    /// Reads a signed 64-bit number in two's complement, least significant
    /// byte first.
    pub fn take_i64(&mut self) -> (r: Result<i64, ULogError>)
        ensures
            reads(old(self)@, final(self)@, 8, le_int(old(self)@.take(8)) as i64, r),
    {
        let bytes = self.advance(8)?;
        proof {
            assert(bytes@.subrange(0, 8) =~= bytes@);
            assert(le_limit(8) == 0x1_00_00_00_00_00_00_00_00) by {
                reveal_with_fuel(le_limit, 9);
            }
        }
        Ok(signed_64(read_le_u64(bytes, 0)))
    }

    /// Reads the 32 bits of an IEEE 754 single-precision number, least
    /// significant byte first.
    pub fn take_f32(&mut self) -> (r: Result<Float32, ULogError>)
        ensures
            reads(
                old(self)@,
                final(self)@,
                4,
                (Float32 { bits: le_nat(old(self)@.take(4)) as u32 }),
                r,
            ),
    {
        let bytes = self.advance(4)?;
        proof {
            assert(bytes@.subrange(0, 4) =~= bytes@);
        }
        Ok(Float32 { bits: read_le_u32(bytes, 0) })
    }

    /// Reads the 64 bits of an IEEE 754 double-precision number, least
    /// significant byte first.
    pub fn take_f64(&mut self) -> (r: Result<Float64, ULogError>)
        ensures
            reads(
                old(self)@,
                final(self)@,
                8,
                (Float64 { bits: le_nat(old(self)@.take(8)) as u64 }),
                r,
            ),
    {
        let bytes = self.advance(8)?;
        proof {
            assert(bytes@.subrange(0, 8) =~= bytes@);
        }
        Ok(Float64 { bits: read_le_u64(bytes, 0) })
    }
}

} // verus!
