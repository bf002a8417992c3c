use lcm::encode::{F32Bits, F64Bits};
use lcm::error::LcmError;
use lcm::message::{decode_seq, Message};
use lcm::Encode;

fn round_trip<M: Message + PartialEq + std::fmt::Debug>(v: M) {
    let buffer = v.encode_with_hash();
    assert_eq!(buffer.len(), 8 + v.size());
    let decoded = M::decode_with_hash(&buffer).unwrap();
    assert_eq!(decoded, v);
}

#[test]
fn round_trip_bool() {
    round_trip(true);
    round_trip(false);
}

#[test]
fn round_trip_u8() {
    round_trip(0u8);
    round_trip(1u8);
    round_trip(255u8);
}

#[test]
fn round_trip_i8() {
    round_trip(0i8);
    round_trip(-1i8);
    round_trip(i8::MIN);
    round_trip(i8::MAX);
}

#[test]
fn round_trip_i16() {
    round_trip(0i16);
    round_trip(-1i16);
    round_trip(i16::MIN);
    round_trip(i16::MAX);
}

#[test]
fn round_trip_i32() {
    round_trip(0i32);
    round_trip(-1i32);
    round_trip(i32::MIN);
    round_trip(i32::MAX);
}

#[test]
fn round_trip_i64() {
    round_trip(0i64);
    round_trip(-1i64);
    round_trip(i64::MIN);
    round_trip(i64::MAX);
}

#[test]
fn round_trip_u64() {
    round_trip(0u64);
    round_trip(1u64);
    round_trip(u64::MAX);
}

#[test]
fn round_trip_floats_as_bits() {
    round_trip(F32Bits(0.0f32.to_bits()));
    round_trip(F32Bits((-1.5f32).to_bits()));
    round_trip(F32Bits(f32::INFINITY.to_bits()));
    round_trip(F64Bits(0.0f64.to_bits()));
    round_trip(F64Bits((-2.25f64).to_bits()));
    round_trip(F64Bits(f64::MAX.to_bits()));
}

#[test]
fn round_trip_strings() {
    round_trip(String::new());
    round_trip("hi".to_string());
    round_trip("h\u{e9}llo \u{3ba}\u{3cc}\u{3c3}\u{3bc}\u{3b5}".to_string());
}

#[test]
fn round_trip_empty_sequence() {
    let empty: Vec<i32> = Vec::new();
    let mut buffer = Vec::new();
    empty.encode(&mut buffer);
    assert_eq!(buffer.len(), 0);
    assert_eq!(empty.size(), 0);
    let mut pos = 0usize;
    let decoded: Vec<i32> = decode_seq(&buffer, &mut pos, 0).unwrap();
    assert_eq!(decoded, empty);
    assert_eq!(pos, 0);
}

#[test]
fn round_trip_sequence() {
    let values: Vec<i16> = vec![-1, 0, 300];
    let mut buffer = Vec::new();
    values.encode(&mut buffer);
    assert_eq!(buffer.len(), values.size());
    let mut pos = 0usize;
    let decoded: Vec<i16> = decode_seq(&buffer, &mut pos, 3).unwrap();
    assert_eq!(decoded, values);
    assert_eq!(pos, buffer.len());
}

#[test]
fn exact_bytes_of_primitives() {
    let mut buffer = Vec::new();
    0x0102i16.encode(&mut buffer);
    assert_eq!(buffer, vec![0x01, 0x02]);

    let mut buffer = Vec::new();
    (-2i16).encode(&mut buffer);
    assert_eq!(buffer, vec![0xff, 0xfe]);

    let mut buffer = Vec::new();
    0x01020304i32.encode(&mut buffer);
    assert_eq!(buffer, vec![0x01, 0x02, 0x03, 0x04]);

    let mut buffer = Vec::new();
    0x0102030405060708i64.encode(&mut buffer);
    assert_eq!(buffer, vec![0x01, 0x02, 0x03, 0x04, 0x05, 0x06, 0x07, 0x08]);

    let mut buffer = Vec::new();
    true.encode(&mut buffer);
    false.encode(&mut buffer);
    assert_eq!(buffer, vec![1, 0]);
}

#[test]
fn exact_bytes_of_string() {
    // int32 length = content + 1, UTF-8 bytes, one 0x00 terminator.
    let mut buffer = Vec::new();
    "hi".to_string().encode(&mut buffer);
    assert_eq!(buffer, vec![0, 0, 0, 3, b'h', b'i', 0]);
    assert_eq!("hi".to_string().size(), 7);
}

#[test]
fn exact_bytes_of_float_bits() {
    // 1.0f32 is 0x3f800000 in IEEE-754, sent big-endian.
    let mut buffer = Vec::new();
    F32Bits(1.0f32.to_bits()).encode(&mut buffer);
    assert_eq!(buffer, vec![0x3f, 0x80, 0x00, 0x00]);
}

#[test]
fn encoded_with_hash_starts_with_fingerprint() {
    let buffer = 7i32.encode_with_hash();
    // i32's fingerprint constant is 1 << 3, big-endian in eight bytes.
    assert_eq!(&buffer[..8], &[0, 0, 0, 0, 0, 0, 0, 8]);
    assert_eq!(&buffer[8..], &[0, 0, 0, 7]);
}

#[test]
fn hash_mismatch_rejected_without_reading_payload() {
    // A buffer whose prefix is another type's fingerprint and whose
    // payload is garbage that could not decode as anything: the
    // mismatch must be reported without the payload being touched.
    let mut buffer = 5i64.encode_with_hash();
    buffer[7] ^= 0xff;
    buffer.truncate(9);
    assert_eq!(i64::decode_with_hash(&buffer), Err(LcmError::HashMismatch));
}

#[test]
fn truncated_buffers_rejected() {
    assert_eq!(i64::decode_with_hash(&[0, 1, 2]), Err(LcmError::Truncated));

    let mut buffer = 5i32.encode_with_hash();
    buffer.truncate(10);
    assert_eq!(i32::decode_with_hash(&buffer), Err(LcmError::Truncated));

    let mut pos = 0usize;
    assert_eq!(i32::decode(&[0, 1], &mut pos), Err(LcmError::Truncated));
    assert_eq!(pos, 0);

    // A string whose length field promises more bytes than there are.
    let mut pos = 0usize;
    let bytes = [0u8, 0, 0, 10, b'h', b'i', 0];
    assert_eq!(String::decode(&bytes, &mut pos), Err(LcmError::Truncated));
    assert_eq!(pos, 0);
}

#[test]
fn sequence_decode_failure_leaves_cursor() {
    let mut buffer = Vec::new();
    vec![1i32, 2].encode(&mut buffer);
    let mut pos = 0usize;
    // Three elements were promised but only two are there.
    let r: Result<Vec<i32>, LcmError> = decode_seq(&buffer, &mut pos, 3);
    assert_eq!(r, Err(LcmError::Truncated));
    assert_eq!(pos, 0);
}

#[test]
fn bad_boolean_tag_rejected() {
    let mut pos = 0usize;
    assert_eq!(bool::decode(&[2], &mut pos), Err(LcmError::InvalidEncoding));
    assert_eq!(pos, 0);
}

#[test]
fn bad_string_terminator_rejected() {
    let mut pos = 0usize;
    let bytes = [0u8, 0, 0, 3, b'h', b'i', 7];
    assert_eq!(String::decode(&bytes, &mut pos), Err(LcmError::InvalidEncoding));
    assert_eq!(pos, 0);
}

#[test]
fn invalid_utf8_rejected() {
    let mut pos = 0usize;
    let bytes = [0u8, 0, 0, 3, 0xff, 0xfe, 0];
    assert_eq!(String::decode(&bytes, &mut pos), Err(LcmError::InvalidEncoding));
    assert_eq!(pos, 0);
}

#[test]
fn negative_string_length_rejected() {
    // A length field of zero (the field counts the terminator, so it is
    // at least one) and a negative length field are both malformed.
    let mut pos = 0usize;
    assert_eq!(
        String::decode(&[0, 0, 0, 0, 0], &mut pos),
        Err(LcmError::InvalidEncoding)
    );
    let mut pos = 0usize;
    assert_eq!(
        String::decode(&[0xff, 0xff, 0xff, 0xff, 0], &mut pos),
        Err(LcmError::InvalidEncoding)
    );
}

#[test]
fn decode_consumes_exactly_the_encoding() {
    let mut buffer = Vec::new();
    "ab".to_string().encode(&mut buffer);
    42i32.encode(&mut buffer);
    let mut pos = 0usize;
    let s = String::decode(&buffer, &mut pos).unwrap();
    assert_eq!(s, "ab");
    let n = i32::decode(&buffer, &mut pos).unwrap();
    assert_eq!(n, 42);
    assert_eq!(pos, buffer.len());
}
