//! Configuration of a parser before any byte is decoded.

use vstd::prelude::*;
use ecow::EcoString;
use rustc_hash::FxHashSet;
use crate::allow_list::{collect_names, listed, names_among};
use crate::errors::ULogError;
use crate::parser::ULogParser;
use crate::reader::SliceableReader;
use crate::stream::{OutputFlags, no_flags, stream_output};

verus! {

/// Collects what a parser is to show, then builds it.
///
/// Nothing optional is shown and every subscription is decoded in full
/// unless asked otherwise.
pub struct ULogParserBuilder<R> {
    reader: R,
    include_header: bool,
    include_timestamp: bool,
    include_padding: bool,
    allowed_subscription_names: Option<FxHashSet<EcoString>>,
}

impl<R: SliceableReader> ULogParserBuilder<R> {
    /// The bytes that the parser will decode.
    pub closed spec fn source(&self) -> Seq<u8> {
        self.reader.contents()
    }

    /// The output flags collected so far.
    pub closed spec fn flags(&self) -> OutputFlags {
        OutputFlags {
            include_header: self.include_header,
            include_timestamp: self.include_timestamp,
            include_padding: self.include_padding,
        }
    }

    /// The allow-list collected so far.
    pub closed spec fn allow_list(&self) -> Option<Set<Seq<u8>>> {
        listed(self.allowed_subscription_names)
    }

    /// Starts with the reader, which every parser needs.
    #[must_use]
    pub fn new(reader: R) -> (builder: Self)
        ensures
            builder.source() == reader.contents(),
            builder.flags() == no_flags(),
            builder.allow_list() is None,
    {
        ULogParserBuilder {
            reader,
            include_header: false,
            include_timestamp: false,
            include_padding: false,
            allowed_subscription_names: None,
        }
    }

    /// Whether the stream header is shown as the first record.
    #[must_use]
    pub fn include_header(self, show: bool) -> (builder: Self)
        ensures
            builder.source() == self.source(),
            builder.allow_list() == self.allow_list(),
            builder.flags() == (OutputFlags { include_header: show, ..self.flags() }),
    {
        let mut builder = self;
        builder.include_header = show;
        builder
    }

    /// Whether data records carry their originating timestamp.
    #[must_use]
    pub fn include_timestamp(self, show: bool) -> (builder: Self)
        ensures
            builder.source() == self.source(),
            builder.allow_list() == self.allow_list(),
            builder.flags() == (OutputFlags { include_timestamp: show, ..self.flags() }),
    {
        let mut builder = self;
        builder.include_timestamp = show;
        builder
    }

    /// Whether the padding behind a data message's fields is shown.
    #[must_use]
    pub fn include_padding(self, show: bool) -> (builder: Self)
        ensures
            builder.source() == self.source(),
            builder.allow_list() == self.allow_list(),
            builder.flags() == (OutputFlags { include_padding: show, ..self.flags() }),
    {
        let mut builder = self;
        builder.include_padding = show;
        builder
    }

    /// Sets the names of the subscriptions whose data messages are decoded
    /// in full.
    ///
    /// Without a list every data message is decoded, at the full cost of
    /// decoding. With one, the data messages of every subscription that it
    /// does not name are handed out as raw bytes, so that none is lost.
    #[must_use]
    pub fn set_subscription_allow_list(self, subs: &[&str]) -> (builder: Self)
        ensures
            builder.source() == self.source(),
            builder.flags() == self.flags(),
            builder.allow_list() == Some(names_among(subs@)),
    {
        let mut builder = self;
        builder.allowed_subscription_names = Some(collect_names(subs));
        builder
    }

    /// Checks the stream's preamble and builds the parser.
    ///
    /// A stream without a full, matching header is rejected here, before
    /// any frame is read. Otherwise the parser stands for everything that
    /// the stream decodes to under the collected flags and allow-list.
    pub fn build(self) -> (r: Result<ULogParser<R>, ULogError>)
        ensures
            match stream_output(self.source(), self.allow_list(), self.flags()) {
                Ok(output) => r matches Ok(parser) && parser@ == output,
                Err(e) => r matches Err(f) && f == e,
            },
    {
        let flags = OutputFlags {
            include_header: self.include_header,
            include_timestamp: self.include_timestamp,
            include_padding: self.include_padding,
        };
        let result = ULogParser::new(self.reader);
        match result {
            Ok(mut parser) => {
                parser.set_flags(flags);
                if let Some(allowed) = self.allowed_subscription_names {
                    parser.set_allowed_subscription_names(allowed);
                }
                proof {
                    parser.lemma_untouched();
                }
                Ok(parser)
            },
            Err(err) => Err(err),
        }
    }
}

} // verus!
