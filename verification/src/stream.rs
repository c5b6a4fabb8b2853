//! What a stream decodes to: the model that the engine is held to.
//!
//! Decoding a frame never looks at the output flags. A frame decodes to a
//! record and the padding behind it, and changes the tables of formats and
//! subscriptions; the flags decide afterwards what of that is shown.

use vstd::prelude::*;
use crate::allow_list::allows;
use crate::errors::ULogError;
use crate::format::{FormatView, Primitive, format_of};
use crate::frame::{FrameAt, StreamHeader, frame_at, header_of, HEADER_LEN};
use crate::message::RecordView;
use crate::registry::EntryView;
use crate::value::{DataFieldView, layout_size, values_of};
use crate::wire::le_nat;

verus! {

/// The type tag of a format definition, `F`.
pub const TAG_FORMAT: u8 = 0x46;

/// The type tag of a subscription, `A`.
pub const TAG_SUBSCRIBE: u8 = 0x41;

/// The type tag of a data message, `D`.
pub const TAG_DATA: u8 = 0x44;

/// What the caller wants to see of the decoded stream. Everything is off
/// unless asked for.
#[derive(Clone, Copy, Debug, PartialEq, Eq, Structural)]
pub struct OutputFlags {
    /// Show the stream header as the first record.
    pub include_header: bool,
    /// Attach the originating timestamp to data records.
    pub include_timestamp: bool,
    /// Show the padding behind a data message's fields as a record.
    pub include_padding: bool,
}

/// The flags with which a parser starts: nothing optional is shown.
pub open spec fn no_flags() -> OutputFlags {
    OutputFlags { include_header: false, include_timestamp: false, include_padding: false }
}

impl Default for OutputFlags {
    /// Nothing optional is shown.
    fn default() -> (flags: Self)
        ensures
            flags == no_flags(),
    {
        OutputFlags { include_header: false, include_timestamp: false, include_padding: false }
    }
}

/// What the engine has learnt from the control messages so far.
pub struct Tables {
    /// The format definitions, in stream order.
    pub formats: Seq<FormatView>,
    /// The subscriptions, by message id.
    pub subscriptions: Map<u16, EntryView>,
}

/// The tables at the start of a stream.
pub open spec fn no_tables() -> Tables {
    Tables { formats: Seq::<FormatView>::empty(), subscriptions: Map::<u16, EntryView>::empty() }
}

/// The index of the latest definition of `name` among `formats`.
pub open spec fn format_named(formats: Seq<FormatView>, name: Seq<u8>) -> Option<int>
    decreases formats.len(),
{
    if formats.len() == 0 {
        None
    } else if formats.last().name == name {
        Some(formats.len() - 1)
    } else {
        format_named(formats.drop_last(), name)
    }
}

/// The name of the field that carries a message's originating timestamp.
pub open spec fn timestamp_name() -> Seq<u8> {
    seq![
        't' as u8,
        'i' as u8,
        'm' as u8,
        'e' as u8,
        's' as u8,
        't' as u8,
        'a' as u8,
        'm' as u8,
        'p' as u8,
    ]
}

/// The originating timestamp among decoded fields: the first field, where
/// it is a 64-bit unsigned scalar named `timestamp`.
pub open spec fn timestamp_in(fields: Seq<DataFieldView>) -> Option<u64> {
    if fields.len() > 0 && fields[0].name == timestamp_name() && fields[0].value.kind
        == Primitive::UInt64 && !fields[0].value.is_array {
        Some(fields[0].value.numbers[0] as u64)
    } else {
        None
    }
}

/// What one frame decodes to, before the output flags are applied.
pub struct Decoded {
    pub record: RecordView,
    /// The bytes of a data message behind its last declared field.
    pub padding: Seq<u8>,
}

/// A frame that is passed through as it is.
pub open spec fn unhandled(type_tag: u8, payload: Seq<u8>) -> Decoded {
    Decoded { record: RecordView::Unhandled { type_tag, bytes: payload }, padding: Seq::<u8>::empty() }
}

/// What a format definition frame decodes to, and the formats after it.
/// Text that defines no format is passed through.
pub open spec fn decode_format(formats: Seq<FormatView>, payload: Seq<u8>) -> (Seq<FormatView>, Decoded) {
    match format_of(payload) {
        Some(format) => (
            formats.push(format),
            Decoded { record: RecordView::FormatDefinition(format), padding: Seq::<u8>::empty() },
        ),
        None => (formats, unhandled(TAG_FORMAT, payload)),
    }
}

/// What a subscribe frame decodes to, and the subscriptions after it:
/// `{message id: u16}{multi id: u8}`, then the name to the end of the
/// payload. The entry takes the layout of the latest format of that name; a
/// name without a format is passed through and subscribes nothing.
pub open spec fn decode_subscribe(
    formats: Seq<FormatView>,
    subscriptions: Map<u16, EntryView>,
    payload: Seq<u8>,
) -> Result<(Map<u16, EntryView>, Decoded), ULogError> {
    if payload.len() < 3 {
        Err(ULogError::UnexpectedEndOfPayload)
    } else {
        let msg_id = le_nat(payload.take(2)) as u16;
        let multi_id = payload[2];
        let name = payload.skip(3);
        match format_named(formats, name) {
            Some(i) => Ok(
                (
                    subscriptions.insert(
                        msg_id,
                        EntryView { msg_id, multi_id, name, layout: formats[i].fields },
                    ),
                    Decoded {
                        record: RecordView::AddSubscription { msg_id, multi_id, name },
                        padding: Seq::<u8>::empty(),
                    },
                ),
            ),
            None => Ok((subscriptions, unhandled(TAG_SUBSCRIBE, payload))),
        }
    }
}

/// What a data frame decodes to: `{message id: u16}`, then the fields of
/// the subscription's layout.
///
/// An id that was never subscribed is an error. A subscription that the
/// allow-list leaves out has its whole payload passed through under its
/// name. Otherwise every field is decoded, and what the payload holds
/// behind them is padding.
pub open spec fn decode_data(
    subscriptions: Map<u16, EntryView>,
    allow: Option<Set<Seq<u8>>>,
    payload: Seq<u8>,
) -> Result<Decoded, ULogError> {
    if payload.len() < 2 {
        Err(ULogError::UnexpectedEndOfPayload)
    } else {
        let msg_id = le_nat(payload.take(2)) as u16;
        if !subscriptions.contains_key(msg_id) {
            Err(ULogError::UnresolvedSubscription { msg_id })
        } else {
            let entry = subscriptions[msg_id];
            let body = payload.skip(2);
            if !allows(allow, entry.name) {
                Ok(
                    Decoded {
                        record: RecordView::Ignored { msg_id, name: entry.name, bytes: payload },
                        padding: Seq::<u8>::empty(),
                    },
                )
            } else if body.len() < layout_size(entry.layout) {
                Err(ULogError::UnexpectedEndOfPayload)
            } else {
                let fields = values_of(entry.layout, body);
                Ok(
                    Decoded {
                        record: RecordView::LoggedData {
                            msg_id,
                            multi_id: entry.multi_id,
                            name: entry.name,
                            timestamp: timestamp_in(fields),
                            fields,
                        },
                        padding: body.skip(layout_size(entry.layout) as int),
                    },
                )
            }
        }
    }
}

/// What a frame decodes to, and the tables after it.
pub open spec fn decode_frame(
    tables: Tables,
    allow: Option<Set<Seq<u8>>>,
    type_tag: u8,
    payload: Seq<u8>,
) -> Result<(Tables, Decoded), ULogError> {
    if type_tag == TAG_FORMAT {
        let (formats, decoded) = decode_format(tables.formats, payload);
        Ok((Tables { formats, subscriptions: tables.subscriptions }, decoded))
    } else if type_tag == TAG_SUBSCRIBE {
        match decode_subscribe(tables.formats, tables.subscriptions, payload) {
            Ok((subscriptions, decoded)) => Ok(
                (Tables { formats: tables.formats, subscriptions }, decoded),
            ),
            Err(e) => Err(e),
        }
    } else if type_tag == TAG_DATA {
        match decode_data(tables.subscriptions, allow, payload) {
            Ok(decoded) => Ok((tables, decoded)),
            Err(e) => Err(e),
        }
    } else {
        Ok((tables, unhandled(type_tag, payload)))
    }
}

/// A record as the caller sees it: a data record keeps its timestamp only
/// where timestamps were asked for.
pub open spec fn shown(record: RecordView, flags: OutputFlags) -> RecordView {
    match record {
        RecordView::LoggedData { msg_id, multi_id, name, timestamp, fields } => RecordView::LoggedData {
            msg_id,
            multi_id,
            name,
            timestamp: if flags.include_timestamp {
                timestamp
            } else {
                None
            },
            fields,
        },
        _ => record,
    }
}

/// The records that a decoded frame shows: its record, and its padding
/// where there is any and padding was asked for.
pub open spec fn emitted(decoded: Decoded, flags: OutputFlags) -> Seq<RecordView> {
    if flags.include_padding && decoded.padding.len() > 0 {
        seq![shown(decoded.record, flags), RecordView::Padding { bytes: decoded.padding }]
    } else {
        seq![shown(decoded.record, flags)]
    }
}

/// A finite run of records, and the error that ended it, if one did.
pub struct Output {
    pub records: Seq<RecordView>,
    pub error: Option<ULogError>,
}

/// An output that starts with `first` and goes on as `rest`.
pub open spec fn after(first: Seq<RecordView>, rest: Output) -> Output {
    Output { records: first + rest.records, error: rest.error }
}

/// An output that is over.
pub open spec fn nothing() -> Output {
    Output { records: Seq::<RecordView>::empty(), error: None }
}

/// An output that fails at once.
pub open spec fn failing(e: ULogError) -> Output {
    Output { records: Seq::<RecordView>::empty(), error: Some(e) }
}

/// What the frames from `offset` on decode to: frame after frame until the
/// bytes end, or until the first frame that is truncated or cannot be
/// decoded. Such a frame shows no record.
pub open spec fn output_from(
    bytes: Seq<u8>,
    offset: int,
    tables: Tables,
    allow: Option<Set<Seq<u8>>>,
    flags: OutputFlags,
) -> Output
    decreases bytes.len() - offset,
{
    match frame_at(bytes, offset) {
        FrameAt::End => nothing(),
        FrameAt::Truncated => failing(ULogError::TruncatedPayload),
        FrameAt::Whole { type_tag, payload, next } => match decode_frame(
            tables,
            allow,
            type_tag,
            payload,
        ) {
            Err(e) => failing(e),
            Ok((tables_after, decoded)) => after(
                emitted(decoded, flags),
                output_from(bytes, next, tables_after, allow, flags),
            ),
        },
    }
}

/// The header record, where the header was asked for.
pub open spec fn header_shown(header: StreamHeader, flags: OutputFlags) -> Seq<RecordView> {
    if flags.include_header {
        seq![RecordView::Header(header)]
    } else {
        Seq::<RecordView>::empty()
    }
}

/// What a whole stream decodes to. A stream that does not start with a
/// header is rejected before any record.
pub open spec fn stream_output(bytes: Seq<u8>, allow: Option<Set<Seq<u8>>>, flags: OutputFlags) -> Result<
    Output,
    ULogError,
> {
    match header_of(bytes) {
        Some(header) => Ok(
            after(
                header_shown(header, flags),
                output_from(bytes, HEADER_LEN as int, no_tables(), allow, flags),
            ),
        ),
        None => Err(ULogError::MalformedHeader),
    }
}

/// A preamble that is too short to hold a header is rejected before any
/// frame is read, whatever it starts with.
pub proof fn lemma_short_preamble(bytes: Seq<u8>, allow: Option<Set<Seq<u8>>>, flags: OutputFlags)
    requires
        bytes.len() < HEADER_LEN,
    ensures
        stream_output(bytes, allow, flags) == Err::<Output, ULogError>(ULogError::MalformedHeader),
{
}

/// A frame that declares more payload than the source has left ends the
/// stream with a truncated-payload error at that frame, and shows no
/// record of it.
pub proof fn lemma_truncated_frame(
    bytes: Seq<u8>,
    offset: int,
    tables: Tables,
    allow: Option<Set<Seq<u8>>>,
    flags: OutputFlags,
)
    requires
        0 <= offset,
        offset + 3 <= bytes.len(),
        offset + 3 + le_nat(bytes.subrange(offset, offset + 2)) > bytes.len(),
    ensures
        output_from(bytes, offset, tables, allow, flags) == failing(ULogError::TruncatedPayload),
{
}

/// A data message that names an id which no subscription before it
/// established ends the stream with an unresolved-subscription error: it is
/// neither skipped nor shown.
pub proof fn lemma_data_before_subscription(
    bytes: Seq<u8>,
    offset: int,
    tables: Tables,
    allow: Option<Set<Seq<u8>>>,
    flags: OutputFlags,
)
    requires
        frame_at(bytes, offset) matches FrameAt::Whole { type_tag, payload, next } && type_tag
            == TAG_DATA && payload.len() >= 2 && !tables.subscriptions.contains_key(
            le_nat(payload.take(2)) as u16,
        ),
    ensures
        frame_at(bytes, offset) matches FrameAt::Whole { type_tag, payload, next } && output_from(
            bytes,
            offset,
            tables,
            allow,
            flags,
        ) == failing(ULogError::UnresolvedSubscription { msg_id: le_nat(payload.take(2)) as u16 }),
{
}

/// Message ids are subscribed by subscribe frames and by nothing else: after
/// a frame the registry knows the ids it knew before and, where the frame
/// is a subscription, the id that it names.
pub proof fn lemma_ids_come_from_subscriptions(
    tables: Tables,
    allow: Option<Set<Seq<u8>>>,
    type_tag: u8,
    payload: Seq<u8>,
    msg_id: u16,
)
    requires
        decode_frame(tables, allow, type_tag, payload) matches Ok((after, _))
            && after.subscriptions.contains_key(msg_id),
    ensures
        tables.subscriptions.contains_key(msg_id) || (type_tag == TAG_SUBSCRIBE && payload.len() >= 3
            && msg_id == le_nat(payload.take(2)) as u16),
{
}

/// A stream that was accepted can only fail for want of bytes or for a data
/// message without a subscription.
pub proof fn lemma_stream_errors(
    bytes: Seq<u8>,
    offset: int,
    tables: Tables,
    allow: Option<Set<Seq<u8>>>,
    flags: OutputFlags,
)
    ensures
        match output_from(bytes, offset, tables, allow, flags).error {
            Some(e) => e.spec_is_truncation() || e is UnresolvedSubscription,
            None => true,
        },
    decreases bytes.len() - offset,
{
    match frame_at(bytes, offset) {
        FrameAt::Whole { type_tag, payload, next } => {
            match decode_frame(tables, allow, type_tag, payload) {
                Ok((tables_after, decoded)) => {
                    lemma_stream_errors(bytes, next, tables_after, allow, flags);
                },
                Err(e) => {},
            }
        },
        _ => {},
    }
}

/// A data message of a subscription that the allow-list leaves out is
/// handed out raw: its whole payload, byte for byte, under the name of its
/// subscription. The list drops nothing.
pub proof fn lemma_filtered_data_is_passed_through(
    subscriptions: Map<u16, EntryView>,
    allow: Option<Set<Seq<u8>>>,
    payload: Seq<u8>,
)
    requires
        payload.len() >= 2,
        subscriptions.contains_key(le_nat(payload.take(2)) as u16),
        !allows(allow, subscriptions[le_nat(payload.take(2)) as u16].name),
    ensures
        decode_data(subscriptions, allow, payload) matches Ok(decoded) && decoded.record == (
        RecordView::Ignored {
            msg_id: le_nat(payload.take(2)) as u16,
            name: subscriptions[le_nat(payload.take(2)) as u16].name,
            bytes: payload,
        }),
{
}

/// Every frame that decodes shows a record, whatever the flags: what is
/// not understood or not wanted in full is shown raw, never dropped.
pub proof fn lemma_every_frame_is_shown(
    tables: Tables,
    allow: Option<Set<Seq<u8>>>,
    type_tag: u8,
    payload: Seq<u8>,
    flags: OutputFlags,
)
    ensures
        decode_frame(tables, allow, type_tag, payload) matches Ok((_, decoded)) ==> emitted(
            decoded,
            flags,
        ).len() >= 1,
{
}

/// The records of a run that are not padding.
pub open spec fn without_padding(records: Seq<RecordView>) -> Seq<RecordView> {
    records.filter(|record: RecordView| !(record is Padding))
}

/// The flags with the padding flag set as given.
pub open spec fn with_padding(flags: OutputFlags, show: bool) -> OutputFlags {
    OutputFlags { include_padding: show, ..flags }
}

/// No frame decodes to a padding record: padding is only ever shown beside
/// the record of the data message that holds it.
proof fn lemma_record_is_not_padding(
    tables: Tables,
    allow: Option<Set<Seq<u8>>>,
    type_tag: u8,
    payload: Seq<u8>,
    flags: OutputFlags,
)
    ensures
        decode_frame(tables, allow, type_tag, payload) matches Ok((_, decoded)) ==> !(shown(
            decoded.record,
            flags,
        ) is Padding),
{
}

/// Asking for padding changes the frames' output by padding records only.
proof fn lemma_padding_flag_from(
    bytes: Seq<u8>,
    offset: int,
    tables: Tables,
    allow: Option<Set<Seq<u8>>>,
    flags: OutputFlags,
)
    ensures
        output_from(bytes, offset, tables, allow, with_padding(flags, false)).records
            == without_padding(
            output_from(bytes, offset, tables, allow, with_padding(flags, true)).records,
        ),
        output_from(bytes, offset, tables, allow, with_padding(flags, false)).error == output_from(
            bytes,
            offset,
            tables,
            allow,
            with_padding(flags, true),
        ).error,
    decreases bytes.len() - offset,
{
    let on = with_padding(flags, true);
    let off = with_padding(flags, false);
    let keep = |record: RecordView| !(record is Padding);
    reveal_with_fuel(Seq::filter, 3);
    match frame_at(bytes, offset) {
        FrameAt::Whole { type_tag, payload, next } => {
            match decode_frame(tables, allow, type_tag, payload) {
                Ok((tables_after, decoded)) => {
                    lemma_padding_flag_from(bytes, next, tables_after, allow, flags);
                    lemma_record_is_not_padding(tables, allow, type_tag, payload, on);
                    let shown_on = emitted(decoded, on);
                    let rest_on = output_from(bytes, next, tables_after, allow, on).records;
                    assert(shown_on.filter(keep) =~= emitted(decoded, off));
                    Seq::filter_distributes_over_add(shown_on, rest_on, keep);
                },
                Err(e) => {},
            }
        },
        _ => {},
    }
}

/// Asking for padding changes only whether padding records are shown: the
/// other records, their values, their order and their number stay as they
/// are, and so does the error that ends the stream.
pub proof fn lemma_padding_flag(bytes: Seq<u8>, allow: Option<Set<Seq<u8>>>, flags: OutputFlags)
    ensures
        match stream_output(bytes, allow, with_padding(flags, true)) {
            Ok(with) => {
                &&& stream_output(bytes, allow, with_padding(flags, false)) matches Ok(without)
                &&& without.records == without_padding(with.records)
                &&& without.error == with.error
            },
            Err(e) => stream_output(bytes, allow, with_padding(flags, false)) == Err::<
                Output,
                ULogError,
            >(e),
        },
{
    let on = with_padding(flags, true);
    let keep = |record: RecordView| !(record is Padding);
    match header_of(bytes) {
        Some(header) => {
            lemma_padding_flag_from(bytes, HEADER_LEN as int, no_tables(), allow, flags);
            let first = header_shown(header, on);
            let rest = output_from(bytes, HEADER_LEN as int, no_tables(), allow, on).records;
            assert(first.filter(keep) =~= first) by {
                reveal_with_fuel(Seq::filter, 2);
            }
            Seq::filter_distributes_over_add(first, rest, keep);
        },
        None => {},
    }
}

} // verus!
