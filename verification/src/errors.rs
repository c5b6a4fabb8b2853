//! The ways in which decoding can stop.

use vstd::prelude::*;

verus! {

/// Why a stream, a frame or a field could not be decoded.
///
/// Every variant is fatal for the decode attempt that reports it: the engine
/// never resynchronises by scanning for the next plausible frame.
#[derive(Clone, Copy, Debug, PartialEq, Eq, Structural)]
pub enum ULogError {
    /// The preamble is shorter than a stream header or does not start with
    /// the magic bytes.
    MalformedHeader,
    /// A frame declares more payload bytes than the source still holds, or
    /// the source ends inside a frame header.
    TruncatedPayload,
    /// A field asked for more bytes than its message's payload has left.
    UnexpectedEndOfPayload,
    /// A data message names an id for which no subscription was seen.
    UnresolvedSubscription { msg_id: u16 },
    /// A read was asked for a range that leaves the byte source.
    OutOfRange,
}

impl ULogError {
    /// Both kinds of "fewer bytes than declared".
    pub open spec fn spec_is_truncation(&self) -> bool {
        *self == ULogError::TruncatedPayload || *self == ULogError::UnexpectedEndOfPayload
    }

    /// Does this error report that bytes ran out before a declared length
    /// was met?
    #[verifier::when_used_as_spec(spec_is_truncation)]
    pub fn is_truncation(&self) -> (r: bool)
        ensures
            r == self.spec_is_truncation(),
    {
        match self {
            ULogError::TruncatedPayload => true,
            ULogError::UnexpectedEndOfPayload => true,
            _ => false,
        }
    }
}

} // verus!
