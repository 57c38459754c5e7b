use varint::{Encodable, UnsignedInt, VarIntDecode, VarIntEncode};

#[test]
fn encoded_size_is_bits_over_seven_plus_one() {
    assert_eq!(<u8 as VarIntEncode>::get_endcoded_byte_size(), 2);
    assert_eq!(<i16 as VarIntEncode>::get_endcoded_byte_size(), 3);
    assert_eq!(<u32 as VarIntEncode>::get_endcoded_byte_size(), 5);
    assert_eq!(<i64 as VarIntEncode>::get_endcoded_byte_size(), 10);
    assert_eq!(<u128 as VarIntEncode>::get_endcoded_byte_size(), 19);
}

#[test]
fn decoded_size_is_bytes_over_the_size_of_a_value() {
    assert_eq!(<&[u8] as VarIntDecode<u8>>::get_decoded_size(10), 10);
    assert_eq!(<&[u8] as VarIntDecode<u32>>::get_decoded_size(10), 2);
    assert_eq!(<&[u8] as VarIntDecode<i64>>::get_decoded_size(7), 0);
    assert_eq!(<&[u8] as VarIntDecode<u128>>::get_decoded_size(33), 2);
}

#[test]
fn encode_and_decode_as_methods() {
    assert_eq!(300u32.encode(), vec![0xAC, 0x02]);
    let bytes: &[u8] = &[0xAC, 0x02, 0x01];
    let values: Vec<u32> = bytes.decode().unwrap();
    assert_eq!(values, vec![300, 1]);
}

#[test]
fn zero_has_no_bit_set() {
    assert_eq!(<u8 as Encodable>::zero(), 0u8);
    assert_eq!(<i64 as Encodable>::zero(), 0i64);
    assert!(Encodable::is_zero(0i128));
    assert!(!Encodable::is_zero(i128::MIN));
    assert!(!Encodable::is_zero(1u16));
}

#[test]
fn shift_left_loses_what_leaves_the_width() {
    assert_eq!(Encodable::shift_left(1u8, 7), 128u8);
    assert_eq!(Encodable::shift_left(3u8, 7), 128u8);
    assert_eq!(Encodable::shift_left(0xFFu8, 4), 0xF0u8);
    assert_eq!(Encodable::shift_left(1u8, 8), 0u8);
    assert_eq!(Encodable::shift_left(1u8, usize::MAX), 0u8);
    assert_eq!(Encodable::shift_left(1u16, 15), 0x8000u16);
    assert_eq!(Encodable::shift_left(0x7Fu32, 28), 0xF000_0000u32);
    assert_eq!(Encodable::shift_left(1u64, 64), 0u64);
    assert_eq!(Encodable::shift_left(0x7Fu128, 126), 3u128 << 126);
    assert_eq!(Encodable::shift_left(1u128, 128), 0u128);
}

#[test]
fn shift_left_of_signed_works_on_the_pattern() {
    assert_eq!(Encodable::shift_left(1i8, 7), i8::MIN);
    assert_eq!(Encodable::shift_left(-1i8, 4), -16i8);
    assert_eq!(Encodable::shift_left(1i32, 31), i32::MIN);
    assert_eq!(Encodable::shift_left(-1i64, 64), 0i64);
    assert_eq!(Encodable::shift_left(1i128, 127), i128::MIN);
}

#[test]
fn shift_right_brings_in_zeros() {
    assert_eq!(Encodable::shift_right(0xFFu8, 7), 1u8);
    assert_eq!(Encodable::shift_right(0xFFu8, 8), 0u8);
    assert_eq!(Encodable::shift_right(-1i8, 7), 1i8);
    assert_eq!(Encodable::shift_right(i16::MIN, 15), 1i16);
    assert_eq!(Encodable::shift_right(-1i32, 7), 0x01FF_FFFFi32);
    assert_eq!(Encodable::shift_right(u64::MAX, 63), 1u64);
    assert_eq!(Encodable::shift_right(-1i128, 127), 1i128);
    assert_eq!(Encodable::shift_right(u128::MAX, 200), 0u128);
}

#[test]
fn and_and_or_work_bit_by_bit() {
    assert_eq!(Encodable::and(0b1100u8, 0b1010u8), 0b1000u8);
    assert_eq!(Encodable::or(0b1100u8, 0b1010u8), 0b1110u8);
    assert_eq!(Encodable::and(-1i16, 0x00FFi16), 0x00FFi16);
    assert_eq!(Encodable::or(i32::MIN, 1i32), i32::MIN + 1);
    assert_eq!(Encodable::or(0x7Fi8, i8::MIN), -1i8);
    assert_eq!(Encodable::and(u128::MAX, 1u128 << 100), 1u128 << 100);
    assert_eq!(Encodable::or(1u64 << 63, 1u64), 0x8000_0000_0000_0001u64);
}

#[test]
fn low_byte_is_the_low_eight_bits() {
    assert_eq!(Encodable::low_byte(0xABu8), 0xAB);
    assert_eq!(Encodable::low_byte(0x1234u16), 0x34);
    assert_eq!(Encodable::low_byte(-1i32), 0xFF);
    assert_eq!(Encodable::low_byte(-2i8), 0xFE);
    assert_eq!(Encodable::low_byte(i64::MIN), 0);
    assert_eq!(Encodable::low_byte(u128::MAX - 1), 0xFE);
}

#[test]
fn from_byte_refuses_what_i8_cannot_hold() {
    assert_eq!(<i8 as Encodable>::from_byte(127), Some(127i8));
    assert_eq!(<i8 as Encodable>::from_byte(128), None);
    assert_eq!(<i8 as Encodable>::from_byte(255), None);
    assert_eq!(<u8 as Encodable>::from_byte(255), Some(255u8));
    assert_eq!(<i16 as Encodable>::from_byte(255), Some(255i16));
    assert_eq!(<u128 as Encodable>::from_byte(200), Some(200u128));
    assert_eq!(<i128 as Encodable>::from_byte(200), Some(200i128));
}

#[test]
fn every_byte_widens_into_an_unsigned_type() {
    assert_eq!(<u8 as UnsignedInt>::widen(255), 255u8);
    assert_eq!(<u16 as UnsignedInt>::widen(255), 255u16);
    assert_eq!(<u32 as UnsignedInt>::widen(128), 128u32);
    assert_eq!(<u64 as UnsignedInt>::widen(0), 0u64);
    assert_eq!(<u128 as UnsignedInt>::widen(1), 1u128);
}
