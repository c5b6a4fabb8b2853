use yule_log::builder::ULogParserBuilder;
use yule_log::errors::ULogError;
use yule_log::format::{FieldDecl, FormatDefinition, Primitive};
use yule_log::frame::StreamHeader;
use yule_log::message::{LoggedData, UlogMessage};
use yule_log::parser::{ParserState, ULogParser};
use yule_log::reader::{BufferReader, SliceReader};
use yule_log::stream::OutputFlags;
use yule_log::value::{DataField, FieldValue};
use yule_log::wire::Float32;

fn header(timestamp: u64) -> Vec<u8> {
    let mut bytes = vec![b'U', b'L', b'o', b'g', 0x01, 0x12, 0x35, 0x01];
    bytes.extend_from_slice(&timestamp.to_le_bytes());
    bytes
}

fn frame(tag: u8, payload: &[u8]) -> Vec<u8> {
    let mut bytes = (payload.len() as u16).to_le_bytes().to_vec();
    bytes.push(tag);
    bytes.extend_from_slice(payload);
    bytes
}

fn subscribe(msg_id: u16, multi_id: u8, name: &str) -> Vec<u8> {
    let mut payload = msg_id.to_le_bytes().to_vec();
    payload.push(multi_id);
    payload.extend_from_slice(name.as_bytes());
    frame(b'A', &payload)
}

fn data(msg_id: u16, body: &[u8]) -> Vec<u8> {
    let mut payload = msg_id.to_le_bytes().to_vec();
    payload.extend_from_slice(body);
    frame(b'D', &payload)
}

fn sensor_body(timestamp: u64, gyro: [f32; 3], temp: i16) -> Vec<u8> {
    let mut body = timestamp.to_le_bytes().to_vec();
    for g in gyro {
        body.extend_from_slice(&g.to_le_bytes());
    }
    body.extend_from_slice(&temp.to_le_bytes());
    body
}

const SENSOR_FORMAT: &str = "sensor_combined:uint64_t timestamp;float[3] gyro;int16_t temp;";
const STATUS_FORMAT: &str = "vehicle_status:uint64_t timestamp;uint8_t armed;bool failsafe;";

fn two_subscription_stream() -> Vec<u8> {
    let mut s = header(112_500_176);
    s.extend(frame(b'F', SENSOR_FORMAT.as_bytes()));
    s.extend(frame(b'F', STATUS_FORMAT.as_bytes()));
    s.extend(subscribe(0, 0, "sensor_combined"));
    s.extend(subscribe(1, 0, "vehicle_status"));
    s.extend(data(0, &sensor_body(1000, [1.0, -2.5, 0.0], -7)));
    let mut status = 2000u64.to_le_bytes().to_vec();
    status.extend_from_slice(&[2, 1]);
    s.extend(data(1, &status));
    s.extend(data(0, &sensor_body(3000, [0.5, 0.25, 8.0], 300)));
    s
}

fn drain<'a>(parser: &mut ULogParser<SliceReader<'a>>) -> (Vec<UlogMessage>, Option<ULogError>) {
    let mut records = Vec::new();
    loop {
        match parser.next() {
            Some(Ok(record)) => records.push(record),
            Some(Err(e)) => return (records, Some(e)),
            None => return (records, None),
        }
    }
}

fn decode(bytes: &[u8]) -> (Vec<UlogMessage>, Option<ULogError>) {
    let mut parser = ULogParserBuilder::new(SliceReader::new(bytes)).build().unwrap();
    drain(&mut parser)
}

fn sensor_fields(timestamp: u64, gyro: [f32; 3], temp: i16) -> Vec<DataField> {
    vec![
        DataField { name: b"timestamp".to_vec(), value: FieldValue::UInt64(timestamp) },
        DataField {
            name: b"gyro".to_vec(),
            value: FieldValue::FloatArray(gyro.iter().map(|g| Float32 { bits: g.to_bits() }).collect()),
        },
        DataField { name: b"temp".to_vec(), value: FieldValue::Int16(temp) },
    ]
}

#[test]
fn decodes_every_record_in_stream_order() {
    let bytes = two_subscription_stream();
    let (records, error) = decode(&bytes);
    assert_eq!(error, None);
    assert_eq!(records.len(), 7);
    assert_eq!(
        records[0],
        UlogMessage::FormatDefinition(FormatDefinition {
            name: b"sensor_combined".to_vec(),
            fields: vec![
                FieldDecl { name: b"timestamp".to_vec(), kind: Primitive::UInt64, array_len: None },
                FieldDecl { name: b"gyro".to_vec(), kind: Primitive::Float, array_len: Some(3) },
                FieldDecl { name: b"temp".to_vec(), kind: Primitive::Int16, array_len: None },
            ],
        })
    );
    assert_eq!(
        records[2],
        UlogMessage::AddSubscription { msg_id: 0, multi_id: 0, name: b"sensor_combined".to_vec() }
    );
    assert_eq!(
        records[4],
        UlogMessage::LoggedData(LoggedData {
            msg_id: 0,
            multi_id: 0,
            name: b"sensor_combined".to_vec(),
            timestamp: None,
            fields: sensor_fields(1000, [1.0, -2.5, 0.0], -7),
        })
    );
    assert_eq!(
        records[5],
        UlogMessage::LoggedData(LoggedData {
            msg_id: 1,
            multi_id: 0,
            name: b"vehicle_status".to_vec(),
            timestamp: None,
            fields: vec![
                DataField { name: b"timestamp".to_vec(), value: FieldValue::UInt64(2000) },
                DataField { name: b"armed".to_vec(), value: FieldValue::UInt8(2) },
                DataField { name: b"failsafe".to_vec(), value: FieldValue::Bool(true) },
            ],
        })
    );
}

#[test]
fn allow_list_passes_other_subscriptions_through_raw() {
    let bytes = two_subscription_stream();
    let mut parser = ULogParserBuilder::new(SliceReader::new(&bytes))
        .set_subscription_allow_list(&["sensor_combined"])
        .build()
        .unwrap();
    let (records, error) = drain(&mut parser);
    assert_eq!(error, None);
    assert_eq!(records.len(), 7);
    assert!(matches!(&records[4], UlogMessage::LoggedData(d) if d.name == b"sensor_combined"));
    assert!(matches!(&records[6], UlogMessage::LoggedData(d) if d.name == b"sensor_combined"));
    let mut status_payload = 1u16.to_le_bytes().to_vec();
    status_payload.extend_from_slice(&2000u64.to_le_bytes());
    status_payload.extend_from_slice(&[2, 1]);
    match &records[5] {
        UlogMessage::Ignored { msg_id, name, bytes } => {
            assert_eq!(*msg_id, 1);
            assert_eq!(name, b"vehicle_status");
            assert_eq!(bytes.len(), status_payload.len());
            assert_eq!(bytes, &status_payload);
        }
        other => panic!("expected a raw record, got {:?}", other),
    }
}

#[test]
fn allow_list_without_a_match_passes_all_data_through() {
    let bytes = two_subscription_stream();
    let mut parser = ULogParserBuilder::new(SliceReader::new(&bytes))
        .set_subscription_allow_list(&["sensor"])
        .build()
        .unwrap();
    let (records, _) = drain(&mut parser);
    let raw = records.iter().filter(|r| matches!(r, UlogMessage::Ignored { .. })).count();
    let typed = records.iter().filter(|r| matches!(r, UlogMessage::LoggedData(_))).count();
    assert_eq!((raw, typed), (3, 0));
}

#[test]
fn data_before_subscription_is_an_error() {
    let mut bytes = header(0);
    bytes.extend(frame(b'F', SENSOR_FORMAT.as_bytes()));
    bytes.extend(data(7, &sensor_body(1, [0.0; 3], 0)));
    bytes.extend(subscribe(7, 0, "sensor_combined"));
    let mut parser = ULogParserBuilder::new(SliceReader::new(&bytes)).build().unwrap();
    assert!(matches!(parser.next(), Some(Ok(UlogMessage::FormatDefinition(_)))));
    assert_eq!(parser.next(), Some(Err(ULogError::UnresolvedSubscription { msg_id: 7 })));
    assert_eq!(parser.state(), ParserState::Failed);
    assert_eq!(parser.next(), None);
}

#[test]
fn truncated_frame_fails_at_that_frame() {
    let mut bytes = header(0);
    bytes.extend(frame(b'F', SENSOR_FORMAT.as_bytes()));
    bytes.extend(subscribe(0, 0, "sensor_combined"));
    let whole = data(0, &sensor_body(5, [1.0; 3], 1));
    bytes.extend_from_slice(&whole[..whole.len() - 1]);
    let (records, error) = decode(&bytes);
    assert_eq!(records.len(), 2);
    assert_eq!(error, Some(ULogError::TruncatedPayload));
}

#[test]
fn truncated_frame_header_fails() {
    let mut bytes = header(0);
    bytes.extend_from_slice(&[4, 0]);
    let (records, error) = decode(&bytes);
    assert!(records.is_empty());
    assert_eq!(error, Some(ULogError::TruncatedPayload));
}

#[test]
fn three_byte_preamble_is_rejected() {
    let bytes = [b'U', b'L', b'o'];
    let built = ULogParserBuilder::new(SliceReader::new(&bytes)).build();
    assert!(matches!(built, Err(ULogError::MalformedHeader)));
}

#[test]
fn wrong_magic_is_rejected() {
    let mut bytes = header(5);
    bytes[4] = 0x02;
    let built = ULogParserBuilder::new(SliceReader::new(&bytes)).build();
    assert!(matches!(built, Err(ULogError::MalformedHeader)));
}

#[test]
fn header_is_shown_only_on_request() {
    let bytes = header(112_500_176);
    let (records, error) = decode(&bytes);
    assert!(records.is_empty());
    assert_eq!(error, None);
    let mut parser =
        ULogParserBuilder::new(SliceReader::new(&bytes)).include_header(true).build().unwrap();
    assert_eq!(parser.state(), ParserState::AwaitingHeader);
    assert_eq!(
        parser.next(),
        Some(Ok(UlogMessage::Header(StreamHeader { version: 1, timestamp: 112_500_176 })))
    );
    assert_eq!(parser.next(), None);
    assert_eq!(parser.state(), ParserState::Done);
    assert_eq!(parser.next(), None);
}

#[test]
fn timestamp_is_attached_only_on_request() {
    let bytes = two_subscription_stream();
    let mut parser =
        ULogParserBuilder::new(SliceReader::new(&bytes)).include_timestamp(true).build().unwrap();
    let (records, _) = drain(&mut parser);
    let stamps: Vec<Option<u64>> = records
        .iter()
        .filter_map(|r| match r {
            UlogMessage::LoggedData(d) => Some(d.timestamp),
            _ => None,
        })
        .collect();
    assert_eq!(stamps, vec![Some(1000), Some(2000), Some(3000)]);
}

#[test]
fn padding_flag_only_adds_padding_records() {
    let mut bytes = header(0);
    bytes.extend(frame(b'F', SENSOR_FORMAT.as_bytes()));
    bytes.extend(subscribe(0, 0, "sensor_combined"));
    let mut padded = sensor_body(9, [1.0, 2.0, 3.0], 4);
    padded.extend_from_slice(&[0xaa, 0xbb]);
    bytes.extend(data(0, &padded));
    bytes.extend(data(0, &sensor_body(10, [1.0, 2.0, 3.0], 4)));
    let (without, e1) = decode(&bytes);
    let mut parser =
        ULogParserBuilder::new(SliceReader::new(&bytes)).include_padding(true).build().unwrap();
    let (with, e2) = drain(&mut parser);
    assert_eq!(e1, e2);
    assert_eq!(without.len(), 4);
    assert_eq!(with.len(), 5);
    assert_eq!(with[3], UlogMessage::Padding { bytes: vec![0xaa, 0xbb] });
    let kept: Vec<&UlogMessage> =
        with.iter().filter(|r| !matches!(r, UlogMessage::Padding { .. })).collect();
    assert_eq!(kept, without.iter().collect::<Vec<_>>());
}

#[test]
fn unknown_tag_is_passed_through() {
    let mut bytes = header(0);
    bytes.extend(frame(b'I', &[1, 2, 3]));
    bytes.extend(frame(b'F', b"no colon here"));
    bytes.extend(subscribe(3, 1, "never_defined"));
    let (records, error) = decode(&bytes);
    assert_eq!(error, None);
    assert_eq!(records[0], UlogMessage::Unhandled { type_tag: b'I', bytes: vec![1, 2, 3] });
    assert_eq!(
        records[1],
        UlogMessage::Unhandled { type_tag: b'F', bytes: b"no colon here".to_vec() }
    );
    let mut sub = vec![3, 0, 1];
    sub.extend_from_slice(b"never_defined");
    assert_eq!(records[2], UlogMessage::Unhandled { type_tag: b'A', bytes: sub });
}

#[test]
fn short_data_payload_is_an_error() {
    let mut bytes = header(0);
    bytes.extend(frame(b'F', SENSOR_FORMAT.as_bytes()));
    bytes.extend(subscribe(0, 0, "sensor_combined"));
    bytes.extend(data(0, &sensor_body(9, [1.0, 2.0, 3.0], 4)[..21]));
    let (records, error) = decode(&bytes);
    assert_eq!(records.len(), 2);
    assert_eq!(error, Some(ULogError::UnexpectedEndOfPayload));
}

#[test]
fn resubscribing_an_id_replaces_its_entry() {
    let mut bytes = header(0);
    bytes.extend(frame(b'F', b"a:uint8_t x;"));
    bytes.extend(frame(b'F', b"b:uint16_t y;"));
    bytes.extend(subscribe(4, 0, "a"));
    bytes.extend(subscribe(4, 2, "b"));
    bytes.extend(data(4, &[0x01, 0x02]));
    let (records, error) = decode(&bytes);
    assert_eq!(error, None);
    assert_eq!(
        records[4],
        UlogMessage::LoggedData(LoggedData {
            msg_id: 4,
            multi_id: 2,
            name: b"b".to_vec(),
            timestamp: None,
            fields: vec![DataField { name: b"y".to_vec(), value: FieldValue::UInt16(0x0201) }],
        })
    );
}

#[test]
fn owned_buffer_decodes_like_a_borrowed_one() {
    let bytes = two_subscription_stream();
    let (borrowed, _) = decode(&bytes);
    let mut parser = ULogParserBuilder::new(BufferReader::new(bytes.clone())).build().unwrap();
    assert!(!parser.is_zero_copy());
    let mut owned = Vec::new();
    while let Some(Ok(record)) = parser.next() {
        owned.push(record);
    }
    assert_eq!(owned, borrowed);
    let zero_copy = ULogParserBuilder::new(SliceReader::new(&bytes)).build().unwrap();
    assert!(zero_copy.is_zero_copy());
}

#[test]
fn drain_hands_back_everything_that_is_left() {
    let mut bytes = two_subscription_stream();
    bytes.extend(data(9, &[1, 2, 3]));
    bytes.extend(frame(b'I', &[1]));
    let mut parser =
        ULogParserBuilder::new(SliceReader::new(&bytes)).include_header(true).build().unwrap();
    assert!(matches!(parser.next(), Some(Ok(UlogMessage::Header(_)))));
    assert!(matches!(parser.next(), Some(Ok(UlogMessage::FormatDefinition(_)))));
    assert_eq!(parser.header(), StreamHeader { version: 1, timestamp: 112_500_176 });
    let (records, error) = parser.drain();
    assert_eq!(records.len(), 6);
    assert_eq!(error, Some(ULogError::UnresolvedSubscription { msg_id: 9 }));
    assert_eq!(parser.state(), ParserState::Failed);
    assert_eq!(parser.drain(), (vec![], None));
    assert_eq!(parser.next(), None);
    assert_eq!(parser.state(), ParserState::Failed);
}

#[test]
fn nothing_optional_is_shown_by_default() {
    let none = OutputFlags { include_header: false, include_timestamp: false, include_padding: false };
    assert_eq!(OutputFlags::default(), none);
    let bytes = header(1);
    let parser = ULogParser::new(SliceReader::new(&bytes)).unwrap();
    assert_eq!(parser.flags(), none);
    assert_eq!(parser.state(), ParserState::AwaitingHeader);
    let built = ULogParserBuilder::new(SliceReader::new(&bytes))
        .include_header(true)
        .include_padding(true)
        .include_timestamp(false)
        .build()
        .unwrap();
    assert_eq!(
        built.flags(),
        OutputFlags { include_header: true, include_timestamp: false, include_padding: true }
    );
    assert!(matches!(ULogParser::new(SliceReader::new(&bytes[..10])), Err(ULogError::MalformedHeader)));
}
