use varint::{decode, encode, encode_slice, SerdeError};

#[test]
fn one_byte_below_128() {
    assert_eq!(encode(127u8), vec![127]);
    assert_eq!(encode(1u64), vec![1]);
}

#[test]
fn two_bytes_for_a_full_byte() {
    assert_eq!(encode(255u8), vec![255, 1]);
    assert_eq!(encode(128u8), vec![128, 1]);
}

#[test]
fn three_bytes_for_a_full_u16() {
    assert_eq!(encode(65535u16), vec![255, 255, 3]);
}

#[test]
fn decode_three_bytes_as_u16() {
    assert_eq!(decode::<u16>(&[255, 255, 3]).unwrap(), vec![65535u16]);
}

#[test]
fn zero_is_one_zero_byte_at_every_width() {
    assert_eq!(encode(0u8), vec![0]);
    assert_eq!(encode(0u16), vec![0]);
    assert_eq!(encode(0u32), vec![0]);
    assert_eq!(encode(0u64), vec![0]);
    assert_eq!(encode(0u128), vec![0]);
    assert_eq!(encode(0i8), vec![0]);
    assert_eq!(encode(0i16), vec![0]);
    assert_eq!(encode(0i32), vec![0]);
    assert_eq!(encode(0i64), vec![0]);
    assert_eq!(encode(0i128), vec![0]);
}

#[test]
fn zero_decodes_from_one_zero_byte() {
    assert_eq!(decode::<u32>(&[0]).unwrap(), vec![0u32]);
    assert_eq!(decode::<i64>(&[0, 0]).unwrap(), vec![0i64, 0]);
}

#[test]
fn empty_buffer_holds_no_value() {
    assert_eq!(decode::<u32>(&[]).unwrap(), Vec::<u32>::new());
    assert_eq!(encode_slice::<u32>(&[]), Vec::<u8>::new());
}

#[test]
fn three_hundred_is_two_bytes() {
    assert_eq!(encode(300u32), vec![0xAC, 0x02]);
    assert_eq!(decode::<u32>(&[0xAC, 0x02]).unwrap(), vec![300u32]);
}

#[test]
fn length_is_the_least_number_of_seven_bit_groups() {
    assert_eq!(encode(1u32 << 6).len(), 1);
    assert_eq!(encode(1u32 << 7).len(), 2);
    assert_eq!(encode((1u32 << 14) - 1).len(), 2);
    assert_eq!(encode(1u32 << 14).len(), 3);
    assert_eq!(encode(u32::MAX).len(), 5);
    assert_eq!(encode(u64::MAX).len(), 10);
    assert_eq!(encode(u128::MAX).len(), 19);
    assert_eq!(encode(1u128 << 126).len(), 19);
    assert_eq!(encode((1u128 << 126) - 1).len(), 18);
}

#[test]
fn every_byte_but_the_last_has_the_high_bit() {
    for value in [1u64, 127, 128, 300, 1 << 35, u64::MAX] {
        let bytes = encode(value);
        let (last, front) = bytes.split_last().unwrap();
        assert!(front.iter().all(|b| b & 0x80 != 0));
        assert_eq!(last & 0x80, 0);
    }
}

#[test]
fn all_ones_of_128_bits_round_trips() {
    let bytes = encode(u128::MAX);
    let mut expected = vec![0xFFu8; 18];
    expected.push(0x03);
    assert_eq!(bytes, expected);
    assert_eq!(decode::<u128>(&bytes).unwrap(), vec![u128::MAX]);
}

#[test]
fn largest_values_round_trip() {
    assert_eq!(decode::<u8>(&encode(u8::MAX)).unwrap(), vec![u8::MAX]);
    assert_eq!(decode::<u16>(&encode(u16::MAX)).unwrap(), vec![u16::MAX]);
    assert_eq!(decode::<u32>(&encode(u32::MAX)).unwrap(), vec![u32::MAX]);
    assert_eq!(decode::<u64>(&encode(u64::MAX)).unwrap(), vec![u64::MAX]);
    assert_eq!(decode::<i8>(&encode(i8::MAX)).unwrap(), vec![i8::MAX]);
    assert_eq!(decode::<i128>(&encode(i128::MAX)).unwrap(), vec![i128::MAX]);
}

#[test]
fn negative_one_is_the_all_ones_pattern() {
    assert_eq!(encode(-1i8), vec![255, 1]);
    assert_eq!(encode(-1i8), encode(255u8));
    assert_eq!(encode(-1i16), encode(u16::MAX));
    assert_eq!(encode(-1i32), encode(u32::MAX));
    assert_eq!(encode(-1i64), encode(u64::MAX));
    assert_eq!(encode(-1i128), encode(u128::MAX));
}

#[test]
fn negative_values_round_trip() {
    assert_eq!(decode::<i8>(&encode(-1i8)).unwrap(), vec![-1i8]);
    assert_eq!(decode::<i8>(&encode(i8::MIN)).unwrap(), vec![i8::MIN]);
    assert_eq!(decode::<i16>(&encode(-300i16)).unwrap(), vec![-300i16]);
    assert_eq!(decode::<i32>(&encode(i32::MIN)).unwrap(), vec![i32::MIN]);
    assert_eq!(decode::<i64>(&encode(-2i64)).unwrap(), vec![-2i64]);
    assert_eq!(decode::<i128>(&encode(i128::MIN)).unwrap(), vec![i128::MIN]);
}

#[test]
fn smallest_i8_is_bit_seven() {
    assert_eq!(encode(i8::MIN), vec![0x80, 0x01]);
}

#[test]
fn slice_is_the_encodings_in_order() {
    assert_eq!(encode_slice(&[1u16, 300, 0, 65535]), vec![1, 0xAC, 0x02, 0, 255, 255, 3]);
    assert_eq!(
        decode::<u16>(&[1, 0xAC, 0x02, 0, 255, 255, 3]).unwrap(),
        vec![1u16, 300, 0, 65535]
    );
}

#[test]
fn slice_of_signed_values_round_trips() {
    let values = [-1i32, 0, 1, i32::MIN, i32::MAX, -129];
    assert_eq!(decode::<i32>(&encode_slice(&values)).unwrap(), values.to_vec());
}

#[test]
fn last_group_ends_with_the_buffer() {
    assert_eq!(decode::<u16>(&[0x81]).unwrap(), vec![1u16]);
    assert_eq!(decode::<u16>(&[5, 0xFF, 0x81]).unwrap(), vec![5u16, 127 + (1 << 7)]);
}

#[test]
fn bits_beyond_the_width_are_lost() {
    assert_eq!(decode::<u8>(&[255, 255, 3]).unwrap(), vec![255u8]);
    assert_eq!(decode::<u8>(&[0x80, 0x82, 0x01]).unwrap(), vec![0u8]);
    assert_eq!(decode::<u16>(&[0x80, 0x80, 0x84, 0x01]).unwrap(), vec![0u16]);
}

#[test]
fn long_run_of_continuation_bytes_is_one_value() {
    let mut bytes = vec![0x80u8; 40];
    bytes[0] = 0x85;
    bytes.push(0x7F);
    assert_eq!(decode::<u64>(&bytes).unwrap(), vec![5u64]);
    assert_eq!(decode::<u128>(&bytes).unwrap(), vec![5u128]);
}

#[test]
fn integer_buffers_never_fail() {
    let bytes: Vec<u8> = (0..=255u8).collect();
    assert!(decode::<i8>(&bytes).is_ok());
    assert!(decode::<u8>(&bytes).is_ok());
    assert!(decode::<i128>(&bytes).is_ok());
}

#[test]
fn decode_error_shows_fixed_words() {
    let error = SerdeError::Decode(String::from("Failed to convert"));
    assert_eq!(error.to_string(), "Failed to decode num");
    match error {
        SerdeError::Decode(message) => assert_eq!(message, "Failed to convert"),
    }
}
