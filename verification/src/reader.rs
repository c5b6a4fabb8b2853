//! The byte source that the engine pulls from.
//!
//! A source offers bounds-checked random access to a fixed run of bytes and
//! says whether the slices it hands out are views into a persistent backing
//! buffer, such as a memory-mapped file, or into a buffer that was filled by
//! copying from a stream. Nothing is ever written through it.

use vstd::prelude::*;
use vstd::slice::slice_subrange;
use crate::errors::ULogError;

verus! {

/// What a bounded read of `length` bytes at `offset` returns: the bytes, if
/// the source holds all of them, and an out-of-range error otherwise.
pub open spec fn bounded_read(
    contents: Seq<u8>,
    offset: usize,
    length: usize,
    r: Result<&[u8], ULogError>,
) -> bool {
    if offset + length <= contents.len() {
        &&& r matches Ok(bytes)
        &&& bytes@ == contents.subrange(offset as int, offset + length)
    } else {
        &&& r matches Err(e)
        &&& e == ULogError::OutOfRange
    }
}

/// Sequential, sliceable access to the bytes of one stream.
pub trait SliceableReader {
    /// Everything the source holds, from the first byte of the preamble on.
    spec fn contents(&self) -> Seq<u8>;

    /// The number of bytes in the source.
    fn total_len(&self) -> (n: usize)
        ensures
            n == self.contents().len(),
    ;

    /// The `length` bytes from `offset` on, or an out-of-range error when
    /// the source does not hold all of them.
    fn read_bounded(&self, offset: usize, length: usize) -> (r: Result<&[u8], ULogError>)
        ensures
            bounded_read(self.contents(), offset, length, r),
    ;

    /// Are the slices views into a persistent backing buffer, with no copy
    /// between the stored bytes and the decoder?
    spec fn zero_copy(&self) -> bool;

    /// Are the slices views into a persistent backing buffer, with no copy
    /// between the stored bytes and the decoder?
    fn is_zero_copy(&self) -> (r: bool)
        ensures
            r == self.zero_copy(),
    ;
}

/// Bounds-checked slicing, shared by the sources below.
fn slice_bounded<'a>(data: &'a [u8], offset: usize, length: usize) -> (r: Result<
    &'a [u8],
    ULogError,
>)
    ensures
        bounded_read(data@, offset, length, r),
{
    let total: usize = data.len();
    if offset > total || length > total - offset {
        Err(ULogError::OutOfRange)
    } else {
        Ok(slice_subrange(data, offset, offset + length))
    }
}

/// A source over bytes that live elsewhere for as long as the source does:
/// a memory map, or any other borrowed buffer. Its slices are zero-copy.
pub struct SliceReader<'a> {
    data: &'a [u8],
}

impl<'a> SliceReader<'a> {
    /// A source over `data`.
    pub fn new(data: &'a [u8]) -> (reader: Self)
        ensures
            reader.contents() == data@,
    {
        SliceReader { data }
    }
}

impl<'a> SliceableReader for SliceReader<'a> {
    closed spec fn contents(&self) -> Seq<u8> {
        self.data@
    }

    fn total_len(&self) -> (n: usize) {
        self.data.len()
    }

    fn read_bounded(&self, offset: usize, length: usize) -> (r: Result<&[u8], ULogError>) {
        slice_bounded(self.data, offset, length)
    }

    open spec fn zero_copy(&self) -> bool {
        true
    }

    fn is_zero_copy(&self) -> (r: bool) {
        true
    }
}

/// A source that owns a copy of the stream, as read from a sequential
/// reader. Its slices are views into that copy, not into the origin.
pub struct BufferReader {
    data: Vec<u8>,
}

impl BufferReader {
    /// A source over the bytes that were read into `data`.
    pub fn new(data: Vec<u8>) -> (reader: Self)
        ensures
            reader.contents() == data@,
    {
        BufferReader { data }
    }
}

impl SliceableReader for BufferReader {
    closed spec fn contents(&self) -> Seq<u8> {
        self.data@
    }

    fn total_len(&self) -> (n: usize) {
        self.data.len()
    }

    fn read_bounded(&self, offset: usize, length: usize) -> (r: Result<&[u8], ULogError>) {
        slice_bounded(self.data.as_slice(), offset, length)
    }

    open spec fn zero_copy(&self) -> bool {
        false
    }

    fn is_zero_copy(&self) -> (r: bool) {
        false
    }
}

} // verus!
