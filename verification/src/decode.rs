//! Decoding one framed message against the tables of formats and
//! subscriptions.

use vstd::prelude::*;
use vstd::slice::{slice_subrange, slice_to_vec};
use ecow::EcoString;
use rustc_hash::FxHashSet;
use crate::allow_list::{is_allowed, listed};
use crate::errors::ULogError;
use crate::format::{FormatDefinition, FormatView, bytes_equal, parse_format};
use crate::frame::Frame;
use crate::message::{LoggedData, UlogMessage};
use crate::registry::{SubscriptionEntry, SubscriptionRegistry, copy_layout};
use crate::stream::{Decoded, Tables, TAG_DATA, TAG_FORMAT, TAG_SUBSCRIBE};
use crate::stream::{decode_data, decode_format, decode_frame, decode_subscribe, format_named};
use crate::stream::{timestamp_in, timestamp_name};
use crate::value::{DataField, FieldValue, data_views, decode_fields};
use crate::message_buf::MessageBuf;
use crate::wire::le_nat;

verus! {

/// The views of a run of format definitions.
pub open spec fn format_views(formats: Seq<FormatDefinition>) -> Seq<FormatView> {
    Seq::new(formats.len(), |i: int| formats[i]@)
}

/// The tables that the engine's own state stands for.
pub open spec fn tables_of(formats: Seq<FormatDefinition>, subscriptions: SubscriptionRegistry) -> Tables {
    Tables { formats: format_views(formats), subscriptions: subscriptions@ }
}

/// Finds the latest definition of `name`.
pub fn find_format(formats: &[FormatDefinition], name: &[u8]) -> (r: Option<usize>)
    ensures
        match format_named(format_views(formats@), name@) {
            Some(i) => 0 <= i < formats@.len() && r == Some(i as usize),
            None => r is None,
        },
{
    let ghost all = format_views(formats@);
    let mut i: usize = formats.len();
    proof {
        assert(all.take(i as int) =~= all);
    }
    while i > 0
        invariant
            i <= formats@.len(),
            all == format_views(formats@),
            format_named(all, name@) == format_named(all.take(i as int), name@),
        decreases i,
    {
        proof {
            assert(all.take(i as int).drop_last() =~= all.take(i - 1));
        }
        if bytes_equal(formats[i - 1].name.as_slice(), name) {
            return Some(i - 1);
        }
        i -= 1;
    }
    None
}

/// Decodes a format definition and records it.
pub fn handle_format(formats: &mut Vec<FormatDefinition>, payload: &[u8]) -> (record: UlogMessage)
    ensures
        (format_views(final(formats)@), Decoded { record: record@, padding: Seq::<u8>::empty() })
            == decode_format(format_views(old(formats)@), payload@),
{
    match parse_format(payload) {
        Some(definition) => {
            let copy = FormatDefinition {
                name: slice_to_vec(definition.name.as_slice()),
                fields: copy_layout(definition.fields.as_slice()),
            };
            formats.push(definition);
            UlogMessage::FormatDefinition(copy)
        },
        None => UlogMessage::Unhandled { type_tag: TAG_FORMAT, bytes: slice_to_vec(payload) },
    }
}

/// Decodes a subscription and records it.
pub fn handle_subscribe(
    formats: &[FormatDefinition],
    subscriptions: &mut SubscriptionRegistry,
    payload: &[u8],
) -> (r: Result<UlogMessage, ULogError>)
    ensures
        match decode_subscribe(format_views(formats@), old(subscriptions)@, payload@) {
            Ok((after, decoded)) => {
                &&& r matches Ok(record)
                &&& record@ == decoded.record
                &&& decoded.padding.len() == 0
                &&& final(subscriptions)@ == after
            },
            Err(e) => r == Err::<UlogMessage, ULogError>(e) && final(subscriptions)@ == old(
                subscriptions,
            )@,
        },
{
    let mut buf = MessageBuf::new(payload);
    let msg_id: u16 = buf.take_u16()?;
    let multi_id: u8 = buf.take_u8()?;
    let name = buf.remaining_bytes();
    proof {
        reveal_with_fuel(le_nat, 2);
        assert(name@ =~= payload@.skip(3));
    }
    match find_format(formats, name) {
        Some(i) => {
            let entry = SubscriptionEntry {
                msg_id,
                multi_id,
                name: slice_to_vec(name),
                layout: copy_layout(formats[i].fields.as_slice()),
            };
            subscriptions.subscribe(entry);
            Ok(UlogMessage::AddSubscription { msg_id, multi_id, name: slice_to_vec(name) })
        },
        None => Ok(UlogMessage::Unhandled { type_tag: TAG_SUBSCRIBE, bytes: slice_to_vec(payload) }),
    }
}

/// The originating timestamp among decoded fields.
pub fn find_timestamp(fields: &[DataField]) -> (r: Option<u64>)
    ensures
        r == timestamp_in(data_views(fields@)),
{
    if fields.len() == 0 {
        return None;
    }
    let first = &fields[0];
    let expected: [u8; 9] = [
        't' as u8,
        'i' as u8,
        'm' as u8,
        'e' as u8,
        's' as u8,
        't' as u8,
        'a' as u8,
        'm' as u8,
        'p' as u8,
    ];
    if !bytes_equal(first.name.as_slice(), expected.as_slice()) {
        return None;
    }
    match &first.value {
        FieldValue::UInt64(t) => Some(*t),
        _ => None,
    }
}

/// Decodes a data message: in full, or passed through where the allow-list
/// leaves its subscription out. Hands back the record and the padding
/// behind the message's fields.
pub fn handle_data<'a>(
    subscriptions: &SubscriptionRegistry,
    allow: &Option<FxHashSet<EcoString>>,
    payload: &'a [u8],
) -> (r: Result<(UlogMessage, &'a [u8]), ULogError>)
    ensures
        match decode_data(subscriptions@, listed(*allow), payload@) {
            Ok(decoded) => {
                &&& r matches Ok((record, padding))
                &&& record@ == decoded.record
                &&& padding@ == decoded.padding
            },
            Err(e) => r matches Err(f) && f == e,
        },
{
    let mut buf = MessageBuf::new(payload);
    let msg_id: u16 = buf.take_u16()?;
    let entry = match subscriptions.lookup(msg_id) {
        Some(entry) => entry,
        None => {
            return Err(ULogError::UnresolvedSubscription { msg_id });
        },
    };
    let name = slice_to_vec(entry.name.as_slice());
    if !is_allowed(allow, entry.name.as_slice()) {
        let nothing = slice_subrange(payload, 0, 0);
        return Ok((UlogMessage::Ignored { msg_id, name, bytes: slice_to_vec(payload) }, nothing));
    }
    let body = buf.remaining_bytes();
    let (fields, padding) = decode_fields(entry.layout.as_slice(), body)?;
    let timestamp = find_timestamp(fields.as_slice());
    let data = LoggedData { msg_id, multi_id: entry.multi_id, name, timestamp, fields };
    Ok((UlogMessage::LoggedData(data), padding))
}

/// Decodes one framed message by its type tag. Control messages update the
/// tables; a tag that is not known is passed through.
pub fn decode_message<'a>(
    formats: &mut Vec<FormatDefinition>,
    subscriptions: &mut SubscriptionRegistry,
    allow: &Option<FxHashSet<EcoString>>,
    frame: &Frame<'a>,
) -> (r: Result<(UlogMessage, &'a [u8]), ULogError>)
    ensures
        match decode_frame(
            tables_of(old(formats)@, *old(subscriptions)),
            listed(*allow),
            frame.type_tag,
            frame.payload@,
        ) {
            Ok((tables, decoded)) => {
                &&& r matches Ok((record, padding))
                &&& record@ == decoded.record
                &&& padding@ == decoded.padding
                &&& tables_of(final(formats)@, *final(subscriptions)) == tables
            },
            Err(e) => {
                &&& r matches Err(f)
                &&& f == e
                &&& tables_of(final(formats)@, *final(subscriptions)) == tables_of(
                    old(formats)@,
                    *old(subscriptions),
                )
            },
        },
{
    let payload: &'a [u8] = frame.payload;
    let nothing = slice_subrange(payload, 0, 0);
    if frame.type_tag == TAG_FORMAT {
        Ok((handle_format(formats, payload), nothing))
    } else if frame.type_tag == TAG_SUBSCRIBE {
        let record = handle_subscribe(formats.as_slice(), subscriptions, payload)?;
        Ok((record, nothing))
    } else if frame.type_tag == TAG_DATA {
        handle_data(subscriptions, allow, payload)
    } else {
        Ok((UlogMessage::Unhandled { type_tag: frame.type_tag, bytes: slice_to_vec(payload) }, nothing))
    }
}

} // verus!
