use yule_log::errors::ULogError;
use yule_log::field_helpers::{parse_array, parse_data_field, parse_typed_array, ParseFromBuf};
use yule_log::message_buf::MessageBuf;
use yule_log::wire::{Float32, Float64};

#[test]
fn take_reads_each_width_little_endian() {
    let bytes: Vec<u8> = vec![
        0x01, 0x02, 0x03, 0x04, 0x05, 0x06, 0x07, 0x08, 0x09, 0x0a, 0x0b, 0x0c, 0x0d, 0x0e, 0x0f,
    ];
    let mut buf = MessageBuf::new(&bytes);
    assert_eq!(buf.take_u8(), Ok(0x01));
    assert_eq!(buf.take_u16(), Ok(0x0302));
    assert_eq!(buf.take_u32(), Ok(0x0706_0504));
    assert_eq!(buf.take_u64(), Ok(0x0f0e_0d0c_0b0a_0908));
    assert!(buf.is_empty());
    assert_eq!(buf.take_u8(), Err(ULogError::UnexpectedEndOfPayload));
}

#[test]
fn take_reads_signed_numbers_in_twos_complement() {
    let mut bytes: Vec<u8> = vec![0xff, 0x80, 0x7f];
    bytes.extend_from_slice(&(-2i16).to_le_bytes());
    bytes.extend_from_slice(&i32::MIN.to_le_bytes());
    bytes.extend_from_slice(&(-1_234_567_890_123i64).to_le_bytes());
    bytes.extend_from_slice(&i64::MAX.to_le_bytes());
    let mut buf = MessageBuf::new(&bytes);
    assert_eq!(buf.take_i8(), Ok(-1));
    assert_eq!(buf.take_i8(), Ok(i8::MIN));
    assert_eq!(buf.take_i8(), Ok(i8::MAX));
    assert_eq!(buf.take_i16(), Ok(-2));
    assert_eq!(buf.take_i32(), Ok(i32::MIN));
    assert_eq!(buf.take_i64(), Ok(-1_234_567_890_123));
    assert_eq!(buf.take_i64(), Ok(i64::MAX));
    assert_eq!(buf.len(), 0);
}

#[test]
fn take_reads_float_bits() {
    let mut bytes: Vec<u8> = 1.5f32.to_le_bytes().to_vec();
    bytes.extend_from_slice(&(-0.125f64).to_le_bytes());
    let mut buf = MessageBuf::new(&bytes);
    let single = buf.take_f32().unwrap();
    let double = buf.take_f64().unwrap();
    assert_eq!(single, Float32 { bits: 0x3fc0_0000 });
    assert_eq!(f32::from_bits(single.bits), 1.5);
    assert_eq!(double, Float64 { bits: 0xbfc0_0000_0000_0000 });
    assert_eq!(f64::from_bits(double.bits), -0.125);
}

#[test]
fn failed_take_consumes_nothing() {
    let bytes: Vec<u8> = vec![0xaa, 0xbb, 0xcc];
    let mut buf = MessageBuf::new(&bytes);
    assert_eq!(buf.take_u32(), Err(ULogError::UnexpectedEndOfPayload));
    assert_eq!(buf.take_u64(), Err(ULogError::UnexpectedEndOfPayload));
    assert_eq!(buf.take_f64(), Err(ULogError::UnexpectedEndOfPayload));
    assert_eq!(buf.remaining_bytes(), &bytes[..]);
    assert_eq!(buf.take_u16(), Ok(0xbbaa));
    assert_eq!(buf.take_i16(), Err(ULogError::UnexpectedEndOfPayload));
    assert_eq!(buf.remaining_bytes(), &[0xccu8][..]);
}

#[test]
fn advance_hands_out_exactly_the_bytes_asked_for() {
    let bytes: Vec<u8> = vec![1, 2, 3, 4, 5];
    let mut buf = MessageBuf::new(&bytes);
    assert_eq!(buf.advance(0), Ok(&[][..]));
    assert_eq!(buf.advance(2), Ok(&[1u8, 2][..]));
    assert_eq!(buf.advance(4), Err(ULogError::UnexpectedEndOfPayload));
    assert_eq!(buf.len(), 3);
    assert_eq!(buf.advance(3), Ok(&[3u8, 4, 5][..]));
    assert!(buf.is_empty());
    assert_eq!(buf.advance(usize::MAX), Err(ULogError::UnexpectedEndOfPayload));
}

#[test]
fn scalar_fields_decode_by_type() {
    let bytes: Vec<u8> = vec![0x00, 0x02, 0x41, 0xe9, 0xfe, 0xff];
    let mut buf = MessageBuf::new(&bytes);
    assert_eq!(parse_data_field::<bool>(&mut buf), Ok(false));
    assert_eq!(parse_data_field::<bool>(&mut buf), Ok(true));
    assert_eq!(parse_data_field::<char>(&mut buf), Ok('A'));
    assert_eq!(parse_data_field::<char>(&mut buf), Ok('\u{e9}'));
    assert_eq!(parse_data_field::<i16>(&mut buf), Ok(-2));
    assert_eq!(parse_data_field::<u8>(&mut buf), Err(ULogError::UnexpectedEndOfPayload));
}

#[test]
fn widths_are_those_of_the_wire() {
    assert_eq!(<u8 as ParseFromBuf>::width(), 1);
    assert_eq!(<i16 as ParseFromBuf>::width(), 2);
    assert_eq!(<Float32 as ParseFromBuf>::width(), 4);
    assert_eq!(<u64 as ParseFromBuf>::width(), 8);
    assert_eq!(<bool as ParseFromBuf>::width(), 1);
    assert_eq!(<char as ParseFromBuf>::width(), 1);
    assert_eq!(<u32 as ParseFromBuf>::read_at(&[9, 0x78, 0x56, 0x34, 0x12], 1), 0x1234_5678);
}

#[test]
fn elementwise_and_bulk_agree_for_every_primitive() {
    let bytes: Vec<u8> = (0..=255u8).rev().collect();
    fn both<T: ParseFromBuf + PartialEq + std::fmt::Debug + 'static>(bytes: &[u8], n: usize) {
        let mut a = MessageBuf::new(bytes);
        let mut b = MessageBuf::new(bytes);
        let bulk = parse_typed_array::<T>(n, &mut a);
        let each = parse_array(n, &mut b, parse_data_field::<T>);
        assert_eq!(bulk, each);
        assert_eq!(a.remaining_bytes(), b.remaining_bytes());
    }
    for n in [0usize, 1, 7, 32, 33, 256, 300] {
        both::<u8>(&bytes, n);
        both::<u16>(&bytes, n);
        both::<u32>(&bytes, n);
        both::<u64>(&bytes, n);
        both::<i8>(&bytes, n);
        both::<i16>(&bytes, n);
        both::<i32>(&bytes, n);
        both::<i64>(&bytes, n);
        both::<Float32>(&bytes, n);
        both::<Float64>(&bytes, n);
        both::<bool>(&bytes, n);
        both::<char>(&bytes, n);
    }
}

#[test]
fn huge_array_size_is_an_error_not_a_panic() {
    let bytes: Vec<u8> = vec![1, 2, 3, 4, 5, 6, 7, 8, 9];
    let mut buf = MessageBuf::new(&bytes);
    assert_eq!(parse_typed_array::<u64>(usize::MAX, &mut buf), Err(ULogError::UnexpectedEndOfPayload));
    assert_eq!(buf.remaining_bytes(), &[9u8][..]);
}

#[test]
fn parse_array_stops_at_the_first_failure() {
    let bytes: Vec<u8> = vec![1, 0, 2, 0, 3];
    let mut buf = MessageBuf::new(&bytes);
    let mut calls = 0;
    let got = parse_array(5, &mut buf, |b: &mut MessageBuf| {
        calls += 1;
        b.take_u16()
    });
    assert_eq!(got, Err(ULogError::UnexpectedEndOfPayload));
    assert_eq!(calls, 3);
    assert_eq!(buf.remaining_bytes(), &[3u8][..]);
}

#[test]
fn truncation_errors_are_told_apart_from_the_others() {
    assert!(ULogError::TruncatedPayload.is_truncation());
    assert!(ULogError::UnexpectedEndOfPayload.is_truncation());
    assert!(!ULogError::MalformedHeader.is_truncation());
    assert!(!ULogError::OutOfRange.is_truncation());
    assert!(!ULogError::UnresolvedSubscription { msg_id: 3 }.is_truncation());
}
