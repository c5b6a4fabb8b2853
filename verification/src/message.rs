//! The records that decoding a stream produces.

use vstd::prelude::*;
use crate::format::{FormatDefinition, FormatView};
use crate::frame::StreamHeader;
use crate::value::{DataField, DataFieldView, data_views};

verus! {

/// A data message, decoded in full by the layout of its subscription.
#[derive(Debug, PartialEq, Eq)]
pub struct LoggedData {
    pub msg_id: u16,
    pub multi_id: u8,
    /// The name of the subscription that the message belongs to.
    pub name: Vec<u8>,
    /// When the message originated, where the layout starts with a
    /// timestamp and the caller asked for it.
    pub timestamp: Option<u64>,
    /// Every declared field, in declared order.
    pub fields: Vec<DataField>,
}

/// One decoded unit of the stream.
#[derive(Debug, PartialEq, Eq)]
pub enum UlogMessage {
    /// What the preamble says of the stream.
    Header(StreamHeader),
    /// A format definition: the layout of a message name.
    FormatDefinition(FormatDefinition),
    /// A subscription: from here on `msg_id` stands for `name`.
    AddSubscription { msg_id: u16, multi_id: u8, name: Vec<u8> },
    /// A data message, decoded.
    LoggedData(LoggedData),
    /// A data message of a subscription that the allow-list leaves out:
    /// its whole payload, untouched.
    Ignored { msg_id: u16, name: Vec<u8>, bytes: Vec<u8> },
    /// A message that was not understood: its type tag and its payload.
    Unhandled { type_tag: u8, bytes: Vec<u8> },
    /// The bytes that a data message holds behind its last declared field.
    Padding { bytes: Vec<u8> },
}

/// A record, as plain values.
pub enum RecordView {
    Header(StreamHeader),
    FormatDefinition(FormatView),
    AddSubscription { msg_id: u16, multi_id: u8, name: Seq<u8> },
    LoggedData {
        msg_id: u16,
        multi_id: u8,
        name: Seq<u8>,
        timestamp: Option<u64>,
        fields: Seq<DataFieldView>,
    },
    Ignored { msg_id: u16, name: Seq<u8>, bytes: Seq<u8> },
    Unhandled { type_tag: u8, bytes: Seq<u8> },
    Padding { bytes: Seq<u8> },
}

impl View for LoggedData {
    type V = RecordView;

    open spec fn view(&self) -> RecordView {
        RecordView::LoggedData {
            msg_id: self.msg_id,
            multi_id: self.multi_id,
            name: self.name@,
            timestamp: self.timestamp,
            fields: data_views(self.fields@),
        }
    }
}

impl View for UlogMessage {
    type V = RecordView;

    open spec fn view(&self) -> RecordView {
        match *self {
            UlogMessage::Header(header) => RecordView::Header(header),
            UlogMessage::FormatDefinition(format) => RecordView::FormatDefinition(format@),
            UlogMessage::AddSubscription { msg_id, multi_id, name } => RecordView::AddSubscription {
                msg_id,
                multi_id,
                name: name@,
            },
            UlogMessage::LoggedData(data) => data@,
            UlogMessage::Ignored { msg_id, name, bytes } => RecordView::Ignored {
                msg_id,
                name: name@,
                bytes: bytes@,
            },
            UlogMessage::Unhandled { type_tag, bytes } => RecordView::Unhandled {
                type_tag,
                bytes: bytes@,
            },
            UlogMessage::Padding { bytes } => RecordView::Padding { bytes: bytes@ },
        }
    }
}

} // verus!
