use yule_log::errors::ULogError;
use yule_log::field_helpers::{parse_array, parse_data_field, parse_typed_array};
use yule_log::message_buf::MessageBuf;

#[test]
fn typed_array_reads_little_endian_words() {
    let bytes: Vec<u8> = vec![0x34, 0x12, 0xff, 0xff, 0x00, 0x80, 0x07];
    let mut buf = MessageBuf::new(&bytes);
    let got: Vec<u16> = parse_typed_array::<u16>(3, &mut buf).unwrap();
    assert_eq!(got, vec![0x1234u16, 0xffff, 0x8000]);
    assert_eq!(buf.remaining_bytes(), &[0x07u8][..]);
}

#[test]
fn elementwise_and_bulk_agree_on_signed_words() {
    let bytes: Vec<u8> = vec![0xfe, 0xff, 0x01, 0x00, 0x00, 0x80, 0xff, 0x7f];
    let mut a = MessageBuf::new(&bytes);
    let mut b = MessageBuf::new(&bytes);
    let bulk: Vec<i16> = parse_typed_array::<i16>(4, &mut a).unwrap();
    let each: Vec<i16> = parse_array(4, &mut b, parse_data_field::<i16>).unwrap();
    assert_eq!(bulk, vec![-2i16, 1, i16::MIN, i16::MAX]);
    assert_eq!(bulk, each);
    assert_eq!(a.len(), 0);
    assert_eq!(b.len(), 0);
}

#[test]
fn short_array_is_an_error() {
    let bytes: Vec<u8> = vec![1, 0, 2, 0, 3];
    let mut buf = MessageBuf::new(&bytes);
    let got = parse_typed_array::<u16>(3, &mut buf);
    assert_eq!(got, Err(ULogError::UnexpectedEndOfPayload));
    assert_eq!(buf.remaining_bytes(), &[3u8][..]);
}
