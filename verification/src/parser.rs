//! The decoding engine: a pull-based walk over the frames of one stream.
//!
//! A parser stands for the records that are still to come. Each call of
//! [`ULogParser::next`] hands out the first of them; the first frame that
//! cannot be decoded ends the run with its error, and nothing follows it.

use vstd::prelude::*;
use vstd::slice::slice_to_vec;
use ecow::EcoString;
use rustc_hash::FxHashSet;
use crate::allow_list::listed;
use crate::decode::{decode_message, format_views, tables_of};
use crate::errors::ULogError;
use crate::format::FormatDefinition;
use crate::frame::{StreamHeader, HEADER_LEN, header_of, read_frame, read_header};
use crate::message::{RecordView, UlogMessage};
use crate::reader::SliceableReader;
use crate::registry::SubscriptionRegistry;
use crate::stream::{Output, OutputFlags, after, header_shown, no_tables, nothing, output_from};
use crate::stream::{no_flags, shown, stream_output};

verus! {

/// Where the engine stands.
#[derive(Clone, Copy, Debug, PartialEq, Eq, Structural)]
pub enum ParserState {
    /// The preamble was accepted; no frame was read yet.
    AwaitingHeader,
    /// Frames are being read.
    Streaming,
    /// The stream ended where a frame header was expected.
    Done,
    /// A frame could not be framed or decoded.
    Failed,
}

/// What a pull does: it takes the first record off the output, or, where
/// no record is left, reports the error that ended the stream, once.
pub open spec fn pulls(
    before: Output,
    after: Output,
    r: Option<Result<UlogMessage, ULogError>>,
) -> bool {
    if before.records.len() > 0 {
        &&& r matches Some(Ok(record))
        &&& record@ == before.records[0]
        &&& after == Output { records: before.records.skip(1), error: before.error }
    } else {
        &&& after == nothing()
        &&& match before.error {
            Some(e) => r matches Some(Err(f)) && f == e,
            None => r is None,
        }
    }
}

/// The views of a run of records.
pub open spec fn record_views(records: Seq<UlogMessage>) -> Seq<RecordView> {
    Seq::new(records.len(), |i: int| records[i]@)
}

/// A record as the caller sees it under `flags`.
fn present(record: UlogMessage, flags: OutputFlags) -> (r: UlogMessage)
    ensures
        r@ == shown(record@, flags),
{
    match record {
        UlogMessage::LoggedData(mut data) => {
            if !flags.include_timestamp {
                data.timestamp = None;
            }
            UlogMessage::LoggedData(data)
        },
        other => other,
    }
}

/// Where the engine stands, with the record that waits to be handed out
/// where a frame has shown two.
enum Stage {
    AwaitingHeader,
    Streaming,
    Queued(UlogMessage),
    Done,
    Failed,
}

/// The engine over one byte source.
pub struct ULogParser<R: SliceableReader> {
    reader: R,
    offset: usize,
    stage: Stage,
    header: StreamHeader,
    formats: Vec<FormatDefinition>,
    subscriptions: SubscriptionRegistry,
    flags: OutputFlags,
    allowed_subscription_names: Option<FxHashSet<EcoString>>,
}

impl<R: SliceableReader> View for ULogParser<R> {
    type V = Output;

    /// The records that are still to come, and the error that will end
    /// them, if one will.
    closed spec fn view(&self) -> Output {
        match self.stage {
            Stage::AwaitingHeader => after(header_shown(self.header, self.flags), self.frames()),
            Stage::Streaming => self.frames(),
            Stage::Queued(record) => after(seq![record@], self.frames()),
            Stage::Done | Stage::Failed => nothing(),
        }
    }
}

/// The state after a pull, from the state before it and what the pull
/// returned: a record means that frames are being read, an error that the
/// stream failed, and nothing that it is over.
pub open spec fn state_after(before: ParserState, r: Option<Result<UlogMessage, ULogError>>) -> ParserState {
    match r {
        Some(Ok(_)) => ParserState::Streaming,
        Some(Err(_)) => ParserState::Failed,
        None => if before == ParserState::Failed {
            ParserState::Failed
        } else {
            ParserState::Done
        },
    }
}

impl<R: SliceableReader> ULogParser<R> {
    /// Where the engine stands. While a record is queued, frames are being
    /// read.
    pub closed spec fn phase(&self) -> ParserState {
        match self.stage {
            Stage::AwaitingHeader => ParserState::AwaitingHeader,
            Stage::Streaming | Stage::Queued(_) => ParserState::Streaming,
            Stage::Done => ParserState::Done,
            Stage::Failed => ParserState::Failed,
        }
    }

    /// The header that the source started with.
    pub closed spec fn stream_header(&self) -> StreamHeader {
        self.header
    }

    /// What the frames from the current offset on decode to.
    closed spec fn frames(&self) -> Output {
        output_from(
            self.reader.contents(),
            self.offset as int,
            tables_of(self.formats@, self.subscriptions),
            listed(self.allowed_subscription_names),
            self.flags,
        )
    }

    /// The bytes of the stream.
    pub closed spec fn source(&self) -> Seq<u8> {
        self.reader.contents()
    }

    /// The output flags in force.
    pub closed spec fn spec_flags(&self) -> OutputFlags {
        self.flags
    }

    /// The allow-list in force.
    pub closed spec fn allow_list(&self) -> Option<Set<Seq<u8>>> {
        listed(self.allowed_subscription_names)
    }

    /// Has nothing been pulled yet?
    pub closed spec fn untouched(&self) -> bool {
        &&& self.stage is AwaitingHeader
        &&& self.offset == HEADER_LEN
        &&& header_of(self.reader.contents()) == Some(self.header)
        &&& tables_of(self.formats@, self.subscriptions) == no_tables()
    }

    /// Does the source hand out views into a persistent buffer?
    pub closed spec fn zero_copy(&self) -> bool {
        self.reader.zero_copy()
    }

    /// An untouched parser stands for the whole decoded stream.
    pub proof fn lemma_untouched(&self)
        requires
            self.untouched(),
        ensures
            stream_output(self.source(), self.allow_list(), self.spec_flags()) == Ok::<
                Output,
                ULogError,
            >(self@),
    {
    }

    /// Reads the preamble of `reader` and, where it is a stream header,
    /// makes a parser that shows no optional output and allows every
    /// subscription.
    pub fn new(reader: R) -> (r: Result<Self, ULogError>)
        ensures
            match header_of(reader.contents()) {
                Some(header) => {
                    &&& r matches Ok(parser)
                    &&& stream_output(reader.contents(), None, no_flags()) == Ok::<Output, ULogError>(
                        parser@,
                    )
                    &&& parser.untouched()
                    &&& parser.phase() == ParserState::AwaitingHeader
                    &&& parser.zero_copy() == reader.zero_copy()
                    &&& parser.stream_header() == header
                    &&& parser.source() == reader.contents()
                    &&& parser.spec_flags() == no_flags()
                    &&& parser.allow_list() is None
                },
                None => r matches Err(e) && e == ULogError::MalformedHeader,
            },
    {
        let header = read_header(&reader)?;
        let parser = ULogParser {
            reader,
            offset: HEADER_LEN,
            stage: Stage::AwaitingHeader,
            header,
            formats: Vec::new(),
            subscriptions: SubscriptionRegistry::new(),
            flags: OutputFlags::default(),
            allowed_subscription_names: None,
        };
        proof {
            assert(format_views(parser.formats@) =~= Seq::empty());
        }
        Ok(parser)
    }

    /// Sets what of the decoded stream is shown.
    pub(crate) fn set_flags(&mut self, flags: OutputFlags)
        requires
            old(self).untouched(),
        ensures
            final(self).untouched(),
            final(self).source() == old(self).source(),
            final(self).allow_list() == old(self).allow_list(),
            final(self).spec_flags() == flags,
    {
        self.flags = flags;
    }

    /// Sets the names of the subscriptions that are decoded in full. Data
    /// messages of every other subscription are passed through.
    pub(crate) fn set_allowed_subscription_names(&mut self, names: FxHashSet<EcoString>)
        requires
            old(self).untouched(),
        ensures
            final(self).untouched(),
            final(self).source() == old(self).source(),
            final(self).allow_list() == listed(Some(names)),
            final(self).spec_flags() == old(self).spec_flags(),
    {
        self.allowed_subscription_names = Some(names);
    }

    /// Where the engine stands.
    pub fn state(&self) -> (state: ParserState)
        ensures
            state == self.phase(),
    {
        match &self.stage {
            Stage::AwaitingHeader => ParserState::AwaitingHeader,
            Stage::Streaming => ParserState::Streaming,
            Stage::Queued(_) => ParserState::Streaming,
            Stage::Done => ParserState::Done,
            Stage::Failed => ParserState::Failed,
        }
    }

    /// What the preamble says of the stream.
    pub fn header(&self) -> (header: StreamHeader)
        ensures
            header == self.stream_header(),
    {
        self.header
    }

    /// What of the decoded stream is shown.
    pub fn flags(&self) -> (flags: OutputFlags)
        ensures
            flags == self.spec_flags(),
    {
        self.flags
    }

    /// Whether payloads are views into the source's persistent buffer.
    pub fn is_zero_copy(&self) -> (r: bool)
        ensures
            r == self.zero_copy(),
    {
        self.reader.is_zero_copy()
    }

    /// Pulls the next record.
    ///
    /// Hands out the records of the stream one by one, in stream order.
    /// When a frame is truncated or cannot be decoded, its error is
    /// reported once, with no record of that frame; after that, and after
    /// the end of the stream, there is nothing more.
    pub fn next(&mut self) -> (r: Option<Result<UlogMessage, ULogError>>)
        ensures
            pulls(old(self)@, final(self)@, r),
            final(self).phase() == state_after(old(self).phase(), r),
            final(self).source() == old(self).source(),
            final(self).stream_header() == old(self).stream_header(),
    {
        let mut stage = Stage::Streaming;
        core::mem::swap(&mut self.stage, &mut stage);
        match stage {
            Stage::Queued(record) => {
                proof {
                    assert(self@.records =~= old(self)@.records.skip(1));
                }
                return Some(Ok(record));
            },
            Stage::Done => {
                self.stage = Stage::Done;
                return None;
            },
            Stage::Failed => {
                self.stage = Stage::Failed;
                return None;
            },
            Stage::AwaitingHeader => {
                if self.flags.include_header {
                    proof {
                        assert(self@.records =~= old(self)@.records.skip(1));
                    }
                    return Some(Ok(UlogMessage::Header(self.header)));
                }
            },
            Stage::Streaming => {},
        }
        let ghost before = self@;
        let framed = read_frame(&self.reader, self.offset);
        match framed {
            Err(e) => {
                self.stage = Stage::Failed;
                Some(Err(e))
            },
            Ok(None) => {
                self.stage = Stage::Done;
                None
            },
            Ok(Some((frame, next))) => {
                let decoded = decode_message(
                    &mut self.formats,
                    &mut self.subscriptions,
                    &self.allowed_subscription_names,
                    &frame,
                );
                match decoded {
                    Err(e) => {
                        self.stage = Stage::Failed;
                        Some(Err(e))
                    },
                    Ok((record, padding)) => {
                        self.offset = next;
                        if self.flags.include_padding && padding.len() > 0 {
                            self.stage = Stage::Queued(
                                UlogMessage::Padding { bytes: slice_to_vec(padding) },
                            );
                        }
                        let record = present(record, self.flags);
                        proof {
                            assert(self@.records =~= before.records.skip(1));
                        }
                        Some(Ok(record))
                    },
                }
            },
        }
    }

    /// Pulls every record that is left. Hands back the records in stream
    /// order, and the error that ended the stream if one did.
    pub fn drain(&mut self) -> (r: (Vec<UlogMessage>, Option<ULogError>))
        ensures
            record_views(r.0@) == old(self)@.records,
            r.1 == old(self)@.error,
            final(self)@ == nothing(),
            final(self).source() == old(self).source(),
            final(self).stream_header() == old(self).stream_header(),
    {
        let mut records: Vec<UlogMessage> = Vec::new();
        let mut error: Option<ULogError> = None;
        let mut over = false;
        while !over
            invariant
                self.source() == old(self).source(),
                self.stream_header() == old(self).stream_header(),
                !over ==> old(self)@.records == record_views(records@) + self@.records,
                !over ==> old(self)@.error == self@.error,
                !over ==> error is None,
                over ==> old(self)@.records == record_views(records@),
                over ==> old(self)@.error == error,
                over ==> self@ == nothing(),
            decreases self@.records.len(), if over { 0int } else { 1int },
        {
            match self.next() {
                Some(Ok(record)) => {
                    records.push(record);
                },
                Some(Err(e)) => {
                    error = Some(e);
                    over = true;
                },
                None => {
                    over = true;
                },
            }
        }
        (records, error)
    }
}

} // verus!
