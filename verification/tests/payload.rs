use rlp::impls::{
    bool_from_byte, byte_from_payload, bytes_from_payload, text_from_payload, u128_from_payload,
    u16_from_payload, u32_from_payload, u64_from_payload, usize_from_payload,
};
use rlp::{BasicDecoder, DecoderError, Rlp};

#[test]
fn byte_from_payload_takes_none_or_one_byte() {
    assert_eq!(byte_from_payload(&[]), Ok(0));
    assert_eq!(byte_from_payload(&[0x00]), Ok(0));
    assert_eq!(byte_from_payload(&[0x7f]), Ok(0x7f));
    assert_eq!(byte_from_payload(&[0xff]), Ok(0xff));
    assert_eq!(byte_from_payload(&[0x01, 0x02]), Err(DecoderError::RlpIsTooBig));
}

#[test]
fn bool_from_byte_takes_zero_and_one() {
    assert_eq!(bool_from_byte(0), Ok(false));
    assert_eq!(bool_from_byte(1), Ok(true));
    assert_eq!(bool_from_byte(2), Err(DecoderError::Custom("invalid boolean value")));
    assert_eq!(bool_from_byte(0xff), Err(DecoderError::Custom("invalid boolean value")));
}

#[test]
fn u16_from_payload_reads_big_endian() {
    assert_eq!(u16_from_payload(&[]), Ok(0));
    assert_eq!(u16_from_payload(&[0x07]), Ok(7));
    assert_eq!(u16_from_payload(&[0x12, 0x34]), Ok(0x1234));
    assert_eq!(u16_from_payload(&[0x00]), Err(DecoderError::RlpInvalidIndirection));
    assert_eq!(u16_from_payload(&[0x00, 0x34]), Err(DecoderError::RlpInvalidIndirection));
    assert_eq!(u16_from_payload(&[0x12, 0x34, 0x56]), Err(DecoderError::RlpIsTooBig));
}

#[test]
fn u32_from_payload_reads_big_endian() {
    assert_eq!(u32_from_payload(&[0x12, 0x34, 0x56]), Ok(0x12_3456));
    assert_eq!(u32_from_payload(&[0x12, 0x34, 0x56, 0x78]), Ok(0x1234_5678));
    assert_eq!(u32_from_payload(&[0x00, 0x34, 0x56, 0x78]), Err(DecoderError::RlpInvalidIndirection));
    assert_eq!(u32_from_payload(&[1, 2, 3, 4, 5]), Err(DecoderError::RlpIsTooBig));
}

#[test]
fn u64_from_payload_reads_big_endian() {
    assert_eq!(u64_from_payload(&[1, 2, 3, 4, 5, 6, 7]), Ok(0x01_0203_0405_0607));
    assert_eq!(u64_from_payload(&[0xff; 8]), Ok(u64::MAX));
    assert_eq!(u64_from_payload(&[0x00; 8]), Err(DecoderError::RlpInvalidIndirection));
    assert_eq!(u64_from_payload(&[0x01; 9]), Err(DecoderError::RlpIsTooBig));
}

#[test]
fn u128_from_payload_reads_big_endian() {
    assert_eq!(u128_from_payload(&[0x01; 9]), Ok(0x01_0101_0101_0101_0101));
    assert_eq!(u128_from_payload(&[0xff; 16]), Ok(u128::MAX));
    assert_eq!(u128_from_payload(&[0x00, 0x01]), Err(DecoderError::RlpInvalidIndirection));
    assert_eq!(u128_from_payload(&[0x01; 17]), Err(DecoderError::RlpIsTooBig));
    assert_eq!(u128_from_payload(&[0x00; 17]), Err(DecoderError::RlpIsTooBig));
}

#[test]
fn usize_from_payload_reads_big_endian() {
    assert_eq!(usize_from_payload(&[]), Ok(0));
    assert_eq!(usize_from_payload(&[0x01, 0x00, 0x00]), Ok(0x1_0000));
    assert_eq!(usize_from_payload(&[0x00, 0x01]), Err(DecoderError::RlpInvalidIndirection));
    let width: usize = core::mem::size_of::<usize>();
    let mut over: Vec<u8> = Vec::new();
    over.resize(width + 1, 0x01);
    assert_eq!(usize_from_payload(&over), Err(DecoderError::RlpIsTooBig));
}

#[test]
fn bytes_from_payload_copies() {
    assert_eq!(bytes_from_payload(&[]), Ok(Vec::new()));
    assert_eq!(bytes_from_payload(&[0x00, 0x01, 0xff]), Ok(vec![0x00u8, 0x01, 0xff]));
}

#[test]
fn text_from_payload_reads_utf8() {
    assert_eq!(text_from_payload(b"cat"), Ok("cat".to_owned()));
    assert_eq!(text_from_payload(&[]), Ok(String::new()));
    assert_eq!(text_from_payload("\u{3b1}\u{3b2}".as_bytes()), Ok("\u{3b1}\u{3b2}".to_owned()));
}

#[test]
fn text_from_payload_rejects_what_is_not_utf8() {
    assert_eq!(text_from_payload(&[0xff]), Err(DecoderError::RlpExpectedToBeData));
    // an overlong encoding of '/'
    assert_eq!(text_from_payload(&[0xc0, 0xaf]), Err(DecoderError::RlpExpectedToBeData));
    // a surrogate
    assert_eq!(text_from_payload(&[0xed, 0xa0, 0x80]), Err(DecoderError::RlpExpectedToBeData));
    // beyond the last code point
    assert_eq!(text_from_payload(&[0xf4, 0x90, 0x80, 0x80]), Err(DecoderError::RlpExpectedToBeData));
    assert_eq!(text_from_payload(&[0xf8, 0x88, 0x80, 0x80, 0x80]), Err(DecoderError::RlpExpectedToBeData));
    // a lone continuation byte behind valid text
    assert_eq!(text_from_payload(&[b'a', 0x80]), Err(DecoderError::RlpExpectedToBeData));
}

#[test]
fn decode_value_hands_the_payload_on() {
    let decoder: BasicDecoder = BasicDecoder::new(&[0x83, 0x01, 0x02, 0x03]);
    assert_eq!(decoder.decode_value(|payload: &[u8]| Ok(payload.len())), Ok(3));
    assert_eq!(decoder.decode_value(|payload: &[u8]| Ok(payload.to_vec())), Ok(vec![1u8, 2, 3]));
    let single: BasicDecoder = Rlp::new(&[0x05]).decoder();
    assert_eq!(single.decode_value(byte_from_payload), Ok(5));
}

#[test]
fn decode_value_passes_the_failure_of_the_function_on() {
    let decoder: BasicDecoder = BasicDecoder::new(&[0x82, 0x01, 0x02]);
    assert_eq!(decoder.decode_value(byte_from_payload), Err(DecoderError::RlpIsTooBig));
    assert_eq!(
        decoder.decode_value(|_payload: &[u8]| Err::<u8, DecoderError>(DecoderError::Custom("no"))),
        Err(DecoderError::Custom("no"))
    );
}

#[test]
fn decode_value_fails_without_payload() {
    let list: BasicDecoder = BasicDecoder::new(&[0xc1, 0x01]);
    assert_eq!(list.decode_value(byte_from_payload), Err(DecoderError::RlpExpectedToBeData));
    let short: BasicDecoder = BasicDecoder::new(&[0x82, 0x01]);
    assert_eq!(short.decode_value(byte_from_payload), Err(DecoderError::RlpIsTooShort));
    let none: BasicDecoder = BasicDecoder::new(&[]);
    assert_eq!(none.decode_value(|_payload: &[u8]| Ok(0u8)), Err(DecoderError::RlpIsTooShort));
}
