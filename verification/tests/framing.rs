use yule_log::allow_list::{collect_names, is_allowed};
use yule_log::decode::{find_format, find_timestamp};
use yule_log::errors::ULogError;
use yule_log::format::{parse_format, FieldDecl, Primitive};
use yule_log::frame::{read_frame, read_header, StreamHeader, FRAME_HEADER_LEN, HEADER_LEN};
use yule_log::message_buf::MessageBuf;
use yule_log::reader::{BufferReader, SliceReader, SliceableReader};
use yule_log::registry::{copy_layout, SubscriptionEntry, SubscriptionRegistry};
use yule_log::value::{decode_field, decode_fields, DataField, FieldValue};
use yule_log::wire::Float64;

fn sample() -> Vec<u8> {
    let mut bytes = vec![b'U', b'L', b'o', b'g', 0x01, 0x12, 0x35, 0x00];
    bytes.extend_from_slice(&0x0102_0304_0506_0708u64.to_le_bytes());
    bytes.extend_from_slice(&[3, 0, b'I', 7, 8, 9]);
    bytes.extend_from_slice(&[0, 0, b'S']);
    bytes.extend_from_slice(&[2, 0, b'D', 0xff, 0xfe]);
    bytes
}

#[test]
fn bounded_reads_stay_inside_the_source() {
    let bytes = sample();
    let reader = SliceReader::new(&bytes);
    assert_eq!(reader.total_len(), bytes.len());
    assert_eq!(reader.read_bounded(0, 4), Ok(&b"ULog"[..]));
    assert_eq!(reader.read_bounded(bytes.len(), 0), Ok(&[][..]));
    assert_eq!(reader.read_bounded(bytes.len() - 1, 2), Err(ULogError::OutOfRange));
    assert_eq!(reader.read_bounded(bytes.len() + 1, 0), Err(ULogError::OutOfRange));
    assert_eq!(reader.read_bounded(usize::MAX, usize::MAX), Err(ULogError::OutOfRange));
    let owned = BufferReader::new(bytes.clone());
    assert_eq!(owned.read_bounded(16, 3), Ok(&[3u8, 0, b'I'][..]));
    assert_eq!(owned.read_bounded(1, bytes.len()), Err(ULogError::OutOfRange));
    assert!(reader.is_zero_copy());
    assert!(!owned.is_zero_copy());
}

#[test]
fn header_holds_version_and_timestamp() {
    let bytes = sample();
    assert_eq!(HEADER_LEN, 16);
    assert_eq!(
        read_header(&SliceReader::new(&bytes)),
        Ok(StreamHeader { version: 0, timestamp: 0x0102_0304_0506_0708 })
    );
    assert_eq!(read_header(&SliceReader::new(&bytes[..15])), Err(ULogError::MalformedHeader));
    assert_eq!(read_header(&SliceReader::new(&[])), Err(ULogError::MalformedHeader));
    let mut wrong = bytes.clone();
    wrong[6] = 0x36;
    assert_eq!(read_header(&SliceReader::new(&wrong)), Err(ULogError::MalformedHeader));
}

#[test]
fn framing_is_lossless() {
    let bytes = sample();
    let reader = SliceReader::new(&bytes);
    let header = read_header(&reader).unwrap();
    let mut again = vec![b'U', b'L', b'o', b'g', 0x01, 0x12, 0x35, header.version];
    again.extend_from_slice(&header.timestamp.to_le_bytes());
    let mut offset = HEADER_LEN;
    let mut tags = Vec::new();
    while let Some((frame, next)) = read_frame(&reader, offset).unwrap() {
        assert_eq!(next, offset + FRAME_HEADER_LEN + frame.payload.len());
        again.extend_from_slice(&(frame.payload.len() as u16).to_le_bytes());
        again.push(frame.type_tag);
        again.extend_from_slice(frame.payload);
        tags.push(frame.type_tag);
        offset = next;
    }
    assert_eq!(tags, vec![b'I', b'S', b'D']);
    assert_eq!(offset, bytes.len());
    assert_eq!(again, bytes);
}

#[test]
fn frame_that_overruns_the_source_is_truncated() {
    let mut bytes = sample();
    bytes.extend_from_slice(&[5, 0, b'D', 1, 2, 3, 4]);
    let reader = SliceReader::new(&bytes);
    let last = bytes.len() - 7;
    assert!(matches!(read_frame(&reader, last), Err(ULogError::TruncatedPayload)));
    assert!(matches!(read_frame(&reader, bytes.len() - 2), Err(ULogError::TruncatedPayload)));
    assert!(matches!(read_frame(&reader, bytes.len()), Ok(None)));
    assert!(matches!(read_frame(&reader, bytes.len() + 9), Ok(None)));
    assert!(matches!(read_frame(&reader, 16), Ok(Some((f, 22))) if f.type_tag == b'I' && f.payload == [7, 8, 9]));
    assert!(matches!(read_frame(&reader, 22), Ok(Some((f, 25))) if f.type_tag == b'S' && f.payload.is_empty()));
}

#[test]
fn names_match_by_exact_bytes() {
    let names = Some(collect_names(&["sensor_combined", "vehicle_status", "sensor_combined", "caf\u{e9}"]));
    assert!(is_allowed(&names, b"sensor_combined"));
    assert!(is_allowed(&names, b"vehicle_status"));
    assert!(is_allowed(&names, "caf\u{e9}".as_bytes()));
    assert!(!is_allowed(&names, b"sensor_combine"));
    assert!(!is_allowed(&names, b"sensor_combined "));
    assert!(!is_allowed(&names, b"Sensor_combined"));
    assert!(!is_allowed(&names, b""));
    assert!(!is_allowed(&names, &[b'c', b'a', b'f', 0xe9]));
    assert!(!is_allowed(&Some(collect_names(&[])), b"sensor_combined"));
    assert!(is_allowed(&None, b"sensor_combined"));
    assert!(is_allowed(&None, &[0xff, 0xfe]));
}

#[test]
fn registry_keeps_the_last_entry_of_an_id() {
    let layout = parse_format(b"m:uint8_t a;int16_t[2] b;").unwrap().fields;
    let mut registry = SubscriptionRegistry::new();
    assert_eq!(registry.lookup(5), None);
    registry.subscribe(SubscriptionEntry {
        msg_id: 5,
        multi_id: 0,
        name: b"m".to_vec(),
        layout: copy_layout(&layout),
    });
    registry.subscribe(SubscriptionEntry { msg_id: 6, multi_id: 1, name: b"n".to_vec(), layout: vec![] });
    assert_eq!(registry.lookup(5).map(|e| (e.multi_id, e.name.clone())), Some((0, b"m".to_vec())));
    assert_eq!(registry.lookup(5).unwrap().layout, layout);
    registry.subscribe(SubscriptionEntry { msg_id: 5, multi_id: 9, name: b"o".to_vec(), layout: vec![] });
    assert_eq!(registry.lookup(5).map(|e| (e.multi_id, e.name.clone())), Some((9, b"o".to_vec())));
    assert_eq!(registry.lookup(6).map(|e| e.multi_id), Some(1));
    assert_eq!(registry.lookup(7), None);
}

#[test]
fn latest_format_of_a_name_is_found() {
    let formats = vec![
        parse_format(b"a:uint8_t x;").unwrap(),
        parse_format(b"b:uint8_t x;").unwrap(),
        parse_format(b"a:uint16_t y;").unwrap(),
    ];
    assert_eq!(find_format(&formats, b"a"), Some(2));
    assert_eq!(find_format(&formats, b"b"), Some(1));
    assert_eq!(find_format(&formats, b"c"), None);
    assert_eq!(find_format(&[], b"a"), None);
}

#[test]
fn fields_decode_in_declared_order_and_leave_the_rest() {
    let layout = parse_format(b"m:uint8_t a;int16_t[2] b;double c;char[3] d;bool[2] e;").unwrap().fields;
    let mut payload: Vec<u8> = vec![200, 0xff, 0xff, 0x10, 0x00];
    payload.extend_from_slice(&2.5f64.to_le_bytes());
    payload.extend_from_slice(b"abc");
    payload.extend_from_slice(&[0, 7]);
    payload.extend_from_slice(&[0xde, 0xad]);
    let (fields, rest) = decode_fields(&layout, &payload).unwrap();
    assert_eq!(
        fields,
        vec![
            DataField { name: b"a".to_vec(), value: FieldValue::UInt8(200) },
            DataField { name: b"b".to_vec(), value: FieldValue::Int16Array(vec![-1, 16]) },
            DataField { name: b"c".to_vec(), value: FieldValue::Double(Float64 { bits: 2.5f64.to_bits() }) },
            DataField { name: b"d".to_vec(), value: FieldValue::CharArray(vec!['a', 'b', 'c']) },
            DataField { name: b"e".to_vec(), value: FieldValue::BoolArray(vec![false, true]) },
        ]
    );
    assert_eq!(rest, &[0xdeu8, 0xad][..]);
    let short = decode_fields(&layout, &payload[..17]);
    assert_eq!(short, Err(ULogError::UnexpectedEndOfPayload));
    let (none, all) = decode_fields(&[], &payload).unwrap();
    assert!(none.is_empty());
    assert_eq!(all, &payload[..]);
}

#[test]
fn one_field_decodes_at_the_cursor() {
    let field = FieldDecl { name: b"v".to_vec(), kind: Primitive::UInt32, array_len: Some(2) };
    let bytes: Vec<u8> = vec![1, 0, 0, 0, 0, 1, 0, 0, 9, 9, 9];
    let mut buf = MessageBuf::new(&bytes);
    assert_eq!(decode_field(&field, &mut buf), Ok(FieldValue::UInt32Array(vec![1, 256])));
    assert_eq!(buf.len(), 3);
    assert_eq!(decode_field(&field, &mut buf), Err(ULogError::UnexpectedEndOfPayload));
    assert_eq!(buf.len(), 3);
    let scalar = FieldDecl { name: b"s".to_vec(), kind: Primitive::Int8, array_len: None };
    assert_eq!(decode_field(&scalar, &mut buf), Ok(FieldValue::Int8(9)));
}

#[test]
fn timestamp_is_the_first_field_when_it_is_a_u64_named_timestamp() {
    let stamp = |name: &[u8], value: FieldValue| DataField { name: name.to_vec(), value };
    assert_eq!(find_timestamp(&[stamp(b"timestamp", FieldValue::UInt64(77))]), Some(77));
    assert_eq!(find_timestamp(&[stamp(b"timestamp", FieldValue::UInt32(77))]), None);
    assert_eq!(find_timestamp(&[stamp(b"timestamp", FieldValue::UInt64Array(vec![77]))]), None);
    assert_eq!(find_timestamp(&[stamp(b"time", FieldValue::UInt64(77))]), None);
    assert_eq!(
        find_timestamp(&[stamp(b"x", FieldValue::UInt8(1)), stamp(b"timestamp", FieldValue::UInt64(77))]),
        None
    );
    assert_eq!(find_timestamp(&[]), None);
}
