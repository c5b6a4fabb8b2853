//! The stream's framing: a fixed preamble, then frames of
//! `{u16 payload length}{u8 type tag}{payload}` until the bytes end.
//!
//! Framing is lossless: the header and the frames, written out again, are
//! the bytes they were read from ([`lemma_stream_round_trip`]).

use vstd::prelude::*;
use crate::errors::ULogError;
use crate::reader::SliceableReader;
use crate::wire::{le_bytes, le_nat, lemma_le_nat_8, lemma_le_nat_then_bytes, read_le_u16, read_le_u64};

verus! {

/// The length of the preamble: magic, version, creation timestamp.
pub const HEADER_LEN: usize = 16;

/// The length of a frame's own header: payload length and type tag.
pub const FRAME_HEADER_LEN: usize = 3;

/// The seven bytes that every stream starts with.
pub open spec fn magic() -> Seq<u8> {
    seq!['U' as u8, 'L' as u8, 'o' as u8, 'g' as u8, 0x01u8, 0x12u8, 0x35u8]
}

/// What the preamble says of the stream.
#[derive(Clone, Copy, Debug, PartialEq, Eq, Structural)]
pub struct StreamHeader {
    /// The format version that the writer declared.
    pub version: u8,
    /// When logging started, in microseconds.
    pub timestamp: u64,
}

/// The header that `bytes` start with, if they start with one: at least
/// sixteen bytes, the first seven of them the magic.
pub open spec fn header_of(bytes: Seq<u8>) -> Option<StreamHeader> {
    if bytes.len() >= HEADER_LEN && bytes.take(7) == magic() {
        Some(StreamHeader { version: bytes[7], timestamp: le_nat(bytes.subrange(8, 16)) as u64 })
    } else {
        None
    }
}

/// The sixteen bytes that spell `header`.
pub open spec fn header_bytes(header: StreamHeader) -> Seq<u8> {
    magic() + seq![header.version] + le_bytes(header.timestamp as nat, 8)
}

/// Reads and checks the preamble. Anything but a full header that starts
/// with the magic is rejected.
pub fn read_header<R: SliceableReader>(reader: &R) -> (r: Result<StreamHeader, ULogError>)
    ensures
        match header_of(reader.contents()) {
            Some(header) => r == Ok::<StreamHeader, ULogError>(header),
            None => r == Err::<StreamHeader, ULogError>(ULogError::MalformedHeader),
        },
{
    let preamble = match reader.read_bounded(0, HEADER_LEN) {
        Ok(bytes) => bytes,
        Err(_) => {
            return Err(ULogError::MalformedHeader);
        },
    };
    let ghost all = reader.contents();
    let matches_magic = preamble[0] == 'U' as u8 && preamble[1] == 'L' as u8 && preamble[2] == 'o' as u8
        && preamble[3] == 'g' as u8 && preamble[4] == 0x01 && preamble[5] == 0x12 && preamble[6]
        == 0x35;
    proof {
        assert(matches_magic <==> all.take(7) =~= magic());
    }
    if !matches_magic {
        return Err(ULogError::MalformedHeader);
    }
    let version: u8 = preamble[7];
    let timestamp: u64 = read_le_u64(preamble, 8);
    proof {
        assert(preamble@.subrange(8, 16) =~= all.subrange(8, 16));
    }
    Ok(StreamHeader { version, timestamp })
}

/// Writing a header out again gives the preamble it was read from.
pub proof fn lemma_header_round_trip(bytes: Seq<u8>)
    requires
        header_of(bytes) is Some,
    ensures
        header_bytes(header_of(bytes)->Some_0) == bytes.take(HEADER_LEN as int),
{
    let stamp = bytes.subrange(8, 16);
    lemma_le_nat_then_bytes(stamp);
    lemma_le_nat_8(stamp);
}

/// One message of the stream, as framed: its type tag and its payload.
pub struct Frame<'a> {
    pub type_tag: u8,
    pub payload: &'a [u8],
}

/// What stands at an offset of a stream.
pub enum FrameAt {
    /// No byte is left: the stream ends here.
    End,
    /// Bytes are left, but fewer than the frame header or the payload length
    /// that it declares asks for.
    Truncated,
    /// A whole frame, and the offset just behind it.
    Whole { type_tag: u8, payload: Seq<u8>, next: int },
}

/// The frame that starts at `offset` in `bytes`.
pub open spec fn frame_at(bytes: Seq<u8>, offset: int) -> FrameAt {
    if offset < 0 || offset >= bytes.len() {
        FrameAt::End
    } else if offset + FRAME_HEADER_LEN > bytes.len() {
        FrameAt::Truncated
    } else {
        let declared = le_nat(bytes.subrange(offset, offset + 2));
        let start = offset + FRAME_HEADER_LEN;
        if start + declared > bytes.len() {
            FrameAt::Truncated
        } else {
            FrameAt::Whole {
                type_tag: bytes[offset + 2],
                payload: bytes.subrange(start, start + declared),
                next: start + declared,
            }
        }
    }
}

/// The bytes that spell a frame: its payload's length in two bytes, its
/// type tag, its payload.
pub open spec fn frame_bytes(type_tag: u8, payload: Seq<u8>) -> Seq<u8> {
    le_bytes(payload.len(), 2) + seq![type_tag] + payload
}

/// Frames the message at `offset`: `Ok(None)` where the stream ends,
/// the frame and the offset behind it where a whole frame stands, and a
/// truncated-payload error where the bytes stop short of what the frame
/// declares. A truncated frame yields no part of itself.
pub fn read_frame<'a, R: SliceableReader>(reader: &'a R, offset: usize) -> (r: Result<
    Option<(Frame<'a>, usize)>,
    ULogError,
>)
    ensures
        match frame_at(reader.contents(), offset as int) {
            FrameAt::End => r matches Ok(None),
            FrameAt::Truncated => r matches Err(e) && e == ULogError::TruncatedPayload,
            FrameAt::Whole { type_tag, payload, next } => {
                &&& r matches Ok(Some((frame, after)))
                &&& frame.type_tag == type_tag
                &&& frame.payload@ == payload
                &&& after == next
            },
        },
{
    let total: usize = reader.total_len();
    if offset >= total {
        return Ok(None);
    }
    if total - offset < FRAME_HEADER_LEN {
        return Err(ULogError::TruncatedPayload);
    }
    let head = match reader.read_bounded(offset, FRAME_HEADER_LEN) {
        Ok(bytes) => bytes,
        Err(_) => {
            return Err(ULogError::TruncatedPayload);
        },
    };
    let ghost all = reader.contents();
    let declared: usize = read_le_u16(head, 0) as usize;
    let type_tag: u8 = head[2];
    proof {
        assert(head@.subrange(0, 2) =~= all.subrange(offset as int, offset + 2));
    }
    let start: usize = offset + FRAME_HEADER_LEN;
    if total - start < declared {
        return Err(ULogError::TruncatedPayload);
    }
    match reader.read_bounded(start, declared) {
        Ok(payload) => Ok(Some((Frame { type_tag, payload }, start + declared))),
        Err(_) => Err(ULogError::TruncatedPayload),
    }
}

/// Writing a frame out again gives the bytes it was framed from.
pub proof fn lemma_frame_round_trip(bytes: Seq<u8>, offset: int)
    requires
        frame_at(bytes, offset) is Whole,
    ensures
        frame_at(bytes, offset) matches FrameAt::Whole { type_tag, payload, next } && frame_bytes(
            type_tag,
            payload,
        ) == bytes.subrange(offset, next),
{
    lemma_le_nat_then_bytes(bytes.subrange(offset, offset + 2));
}

/// A frame as a pair of its type tag and its payload.
pub type FramePair = (u8, Seq<u8>);

/// The whole frames that follow one another from `offset` on, up to the end
/// of the stream or the first truncated frame.
pub open spec fn frames_from(bytes: Seq<u8>, offset: int) -> Seq<FramePair>
    decreases bytes.len() - offset,
{
    match frame_at(bytes, offset) {
        FrameAt::Whole { type_tag, payload, next } => seq![(type_tag, payload)] + frames_from(
            bytes,
            next,
        ),
        _ => Seq::<FramePair>::empty(),
    }
}

/// The offset just behind the last whole frame of the run that starts at
/// `offset`.
pub open spec fn frames_end(bytes: Seq<u8>, offset: int) -> int
    decreases bytes.len() - offset,
{
    match frame_at(bytes, offset) {
        FrameAt::Whole { type_tag, payload, next } => frames_end(bytes, next),
        _ => offset,
    }
}

/// The bytes that spell a run of frames.
pub open spec fn frames_bytes(frames: Seq<FramePair>) -> Seq<u8>
    decreases frames.len(),
{
    if frames.len() == 0 {
        Seq::<u8>::empty()
    } else {
        frame_bytes(frames[0].0, frames[0].1) + frames_bytes(frames.skip(1))
    }
}

/// Writing a run of frames out again gives the bytes that the run covers:
/// every frame boundary is where it was.
pub proof fn lemma_frames_round_trip(bytes: Seq<u8>, offset: int)
    requires
        0 <= offset <= bytes.len(),
    ensures
        offset <= frames_end(bytes, offset) <= bytes.len(),
        frames_bytes(frames_from(bytes, offset)) == bytes.subrange(
            offset,
            frames_end(bytes, offset),
        ),
    decreases bytes.len() - offset,
{
    match frame_at(bytes, offset) {
        FrameAt::Whole { type_tag, payload, next } => {
            lemma_frame_round_trip(bytes, offset);
            lemma_frames_round_trip(bytes, next);
            assert(frames_from(bytes, offset).skip(1) =~= frames_from(bytes, next));
        },
        _ => {},
    }
}

/// A stream that ends with a whole frame is, byte for byte, its header
/// followed by its frames, written out again.
pub proof fn lemma_stream_round_trip(bytes: Seq<u8>)
    requires
        header_of(bytes) is Some,
        frames_end(bytes, HEADER_LEN as int) == bytes.len(),
    ensures
        header_bytes(header_of(bytes)->Some_0) + frames_bytes(frames_from(bytes, HEADER_LEN as int))
            == bytes,
{
    lemma_header_round_trip(bytes);
    lemma_frames_round_trip(bytes, HEADER_LEN as int);
}

} // verus!
