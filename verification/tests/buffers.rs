use codes_parser::{ParameterType, TypesEnum, TypesEnumError};

#[test]
fn write_u8_to_buffer() {
    let value = TypesEnum::U8(9u8);
    let converted = value.write_to_buffer();

    assert_eq!(converted, &[9u8]);
}

#[test]
fn write_i8_to_buffer() {
    let value = TypesEnum::I8(-9);
    let converted = value.write_to_buffer();
    let sliced = converted.as_slice();

    assert_eq!(&[-9i8 as u8], sliced);
}

#[test]
fn write_u16_to_buffer() {
    let value = TypesEnum::U16(259);
    let converted = value.write_to_buffer();

    assert_eq!(converted, &[3u8, 1]);
}

#[test]
fn write_i16_to_buffer() {
    let value = TypesEnum::I16(-9);
    let converted = value.write_to_buffer();
    let sliced = converted.as_slice();

    assert_eq!(&[-9i8 as u8, 0xff], sliced);
}

#[test]
fn write_u32_to_buffer() {
    let value = TypesEnum::U32(259);
    let converted = value.write_to_buffer();

    assert_eq!(converted, &[3u8, 1, 0, 0]);
}

#[test]
fn write_i32_to_buffer() {
    let value = TypesEnum::I32(-9);
    let converted = value.write_to_buffer();
    let sliced = converted.as_slice();

    assert_eq!(&[-9i8 as u8, 0xff, 0xff, 0xff], sliced);
}

#[test]
fn write_u64_to_buffer() {
    let value = TypesEnum::U64(259);
    let converted = value.write_to_buffer();

    assert_eq!(converted, &[3u8, 1, 0, 0, 0, 0, 0, 0]);
}

#[test]
fn write_i64_to_buffer() {
    let value = TypesEnum::I64(-9);
    let converted = value.write_to_buffer();
    let sliced = converted.as_slice();

    assert_eq!(
        &[-9i8 as u8, 0xff, 0xff, 0xff, 0xff, 0xff, 0xff, 0xff],
        sliced
    );
}

#[test]
fn write_bool_to_buffer() {
    let value = TypesEnum::Bool(true);
    let converted = value.write_to_buffer();
    let sliced = converted.as_slice();

    assert_eq!(&[1u8], sliced);
}

#[test]
fn write_string_to_buffer() {
    let test_string = String::from("Test String");
    let value = TypesEnum::Str(test_string.clone());
    let converted = value.write_to_buffer();
    let sliced = converted.as_slice();
    let mut expected = test_string.as_bytes().to_vec();
    expected.push(0x00);

    assert_eq!(expected.as_slice(), sliced);
}

#[test]
fn parse_u8_from_buffer() {
    let test_value = [99u8];
    let (result, rest) = TypesEnum::u8_from_buffer(&test_value).expect("Should success parsing");

    assert_eq!(0, rest.len());
    assert_eq!(99u8, result);
}

#[test]
fn parse_i8_from_buffer() {
    let test_value = [-99i8 as u8, 9];
    let (result, rest) = TypesEnum::i8_from_buffer(&test_value).expect("Should success parsing");

    assert_eq!(1, rest.len());
    assert_eq!(-99i8, result);
}

#[test]
fn parse_u16_from_buffer() {
    let test_value = [99u8, 1];
    let (result, rest) = TypesEnum::u16_from_buffer(&test_value).expect("Should success parsing");

    assert_eq!(0, rest.len());
    assert_eq!(99u16 + 256u16, result);
}

#[test]
fn parse_i16_from_buffer() {
    let test_value = [-99i8 as u8, 0xff, 0];
    let (result, rest) = TypesEnum::i16_from_buffer(&test_value).expect("Should success parsing");

    assert_eq!(1, rest.len());
    assert_eq!(-99i16, result);
}

#[test]
fn parse_u32_from_buffer() {
    let test_value = [99u8, 1, 0, 0];
    let (result, rest) = TypesEnum::u32_from_buffer(&test_value).expect("Should success parsing");

    assert_eq!(0, rest.len());
    assert_eq!(99u32 + 256u32, result);
}

#[test]
fn parse_i32_from_buffer() {
    let test_value = [-99i8 as u8, 0xff, 0xff, 0xff, 0];
    let (result, rest) = TypesEnum::i32_from_buffer(&test_value).expect("Should success parsing");

    assert_eq!(1, rest.len());
    assert_eq!(-99i32, result);
}

#[test]
fn parse_u64_from_buffer() {
    let test_value = [99u8, 1, 0, 0, 0, 0, 0, 0];
    let (result, rest) = TypesEnum::u64_from_buffer(&test_value).expect("Should success parsing");

    assert_eq!(0, rest.len());
    assert_eq!(99u64 + 256u64, result);
}

#[test]
fn parse_i64_from_buffer() {
    let test_value = [-99i8 as u8, 0xff, 0xff, 0xff, 0xff, 0xff, 0xff, 0xff, 0];
    let (result, rest) = TypesEnum::i64_from_buffer(&test_value).expect("Should success parsing");

    assert_eq!(1, rest.len());
    assert_eq!(-99i64, result);
}

#[test]
fn parse_bool_from_buffer() {
    let test_value = [1, 0xff, 0xff, 0xff, 0];
    let (result, rest) = TypesEnum::bool_from_buffer(&test_value).expect("Should success parsing");

    assert_eq!(4, rest.len());
    assert!(result);
}

#[test]
fn parse_string_from_buffer() {
    let expected_string = String::from("Test string");
    let mut test_buffer = expected_string.as_bytes().to_vec();
    test_buffer.append(&mut vec![0, 16, 40]);
    let (result, rest) =
        TypesEnum::string_from_buffer(test_buffer.as_slice()).expect("Should success parsing");

    assert_eq!(2, rest.len());
    assert_eq!(result, expected_string);
}

#[test]
fn extreme_integers_take_their_width_little_endian() {
    assert_eq!(TypesEnum::U8(255).write_to_buffer(), &[0xff]);
    assert_eq!(TypesEnum::I8(-128).write_to_buffer(), &[0x80]);
    assert_eq!(TypesEnum::I8(127).write_to_buffer(), &[0x7f]);
    assert_eq!(TypesEnum::U16(0xabcd).write_to_buffer(), &[0xcd, 0xab]);
    assert_eq!(TypesEnum::I16(i16::MIN).write_to_buffer(), &[0x00, 0x80]);
    assert_eq!(TypesEnum::U32(0x0102_0304).write_to_buffer(), &[4, 3, 2, 1]);
    assert_eq!(TypesEnum::I32(i32::MIN).write_to_buffer(), &[0, 0, 0, 0x80]);
    assert_eq!(TypesEnum::I32(i32::MAX).write_to_buffer(), &[0xff, 0xff, 0xff, 0x7f]);
    assert_eq!(
        TypesEnum::U64(u64::MAX).write_to_buffer(),
        &[0xff, 0xff, 0xff, 0xff, 0xff, 0xff, 0xff, 0xff]
    );
    assert_eq!(
        TypesEnum::U64(0x0102_0304_0506_0708).write_to_buffer(),
        &[8, 7, 6, 5, 4, 3, 2, 1]
    );
    assert_eq!(
        TypesEnum::I64(i64::MIN).write_to_buffer(),
        &[0, 0, 0, 0, 0, 0, 0, 0x80]
    );
    assert_eq!(
        TypesEnum::I64(i64::MAX).write_to_buffer(),
        &[0xff, 0xff, 0xff, 0xff, 0xff, 0xff, 0xff, 0x7f]
    );
}

#[test]
fn extreme_integers_read_back() {
    assert_eq!(Ok((i8::MIN, &[][..])), TypesEnum::i8_from_buffer(&[0x80]));
    assert_eq!(Ok((i16::MIN, &[7u8][..])), TypesEnum::i16_from_buffer(&[0, 0x80, 7]));
    assert_eq!(Ok((i32::MAX, &[][..])), TypesEnum::i32_from_buffer(&[0xff, 0xff, 0xff, 0x7f]));
    assert_eq!(
        Ok((i64::MIN, &[][..])),
        TypesEnum::i64_from_buffer(&[0, 0, 0, 0, 0, 0, 0, 0x80])
    );
    assert_eq!(
        Ok((u64::MAX, &[][..])),
        TypesEnum::u64_from_buffer(&[0xff, 0xff, 0xff, 0xff, 0xff, 0xff, 0xff, 0xff])
    );
    assert_eq!(
        Ok((0x0102_0304_0506_0708u64, &[9u8][..])),
        TypesEnum::u64_from_buffer(&[8, 7, 6, 5, 4, 3, 2, 1, 9])
    );
}

#[test]
fn false_is_written_as_zero() {
    assert_eq!(TypesEnum::Bool(false).write_to_buffer(), &[0u8]);
}

#[test]
fn any_byte_but_zero_reads_as_true() {
    assert_eq!(Ok((true, &[][..])), TypesEnum::bool_from_buffer(&[0x02]));
    assert_eq!(Ok((true, &[][..])), TypesEnum::bool_from_buffer(&[0xff]));
    assert_eq!(Ok((false, &[1u8][..])), TypesEnum::bool_from_buffer(&[0x00, 1]));
}

#[test]
fn short_buffers_are_truncated() {
    assert_eq!(Err(TypesEnumError::Truncated), TypesEnum::u8_from_buffer(&[]));
    assert_eq!(Err(TypesEnumError::Truncated), TypesEnum::bool_from_buffer(&[]));
    assert_eq!(Err(TypesEnumError::Truncated), TypesEnum::i16_from_buffer(&[1]));
    assert_eq!(Err(TypesEnumError::Truncated), TypesEnum::u32_from_buffer(&[1, 2, 3]));
    assert_eq!(
        Err(TypesEnumError::Truncated),
        TypesEnum::i64_from_buffer(&[1, 2, 3, 4, 5, 6, 7])
    );
}

#[test]
fn string_without_terminator_is_truncated() {
    assert_eq!(
        Err(TypesEnumError::Truncated),
        TypesEnum::string_from_buffer(b"no terminator")
    );
    assert_eq!(Err(TypesEnumError::Truncated), TypesEnum::string_from_buffer(&[]));
}

#[test]
fn string_that_is_not_utf8_is_invalid() {
    assert_eq!(
        Err(TypesEnumError::InvalidString),
        TypesEnum::string_from_buffer(&[0xff, 0xfe, 0x00])
    );
    assert_eq!(
        Err(TypesEnumError::InvalidString),
        TypesEnum::string_from_buffer(&[0xc3, 0x00])
    );
}

#[test]
fn empty_string_is_one_terminator() {
    assert_eq!(TypesEnum::Str(String::new()).write_to_buffer(), &[0u8]);
    assert_eq!(
        Ok((String::new(), &[5u8][..])),
        TypesEnum::string_from_buffer(&[0, 5])
    );
}

#[test]
fn string_beyond_ascii_keeps_its_utf8_bytes() {
    let text = "h\u{e9}llo \u{20ac} \u{1f600}";
    let bytes = TypesEnum::Str(text.to_string()).write_to_buffer();
    let mut expected = text.as_bytes().to_vec();
    expected.push(0);
    assert_eq!(expected, bytes);
    let (value, rest) = TypesEnum::string_from_buffer(&bytes).unwrap();
    assert_eq!(text, value);
    assert!(rest.is_empty());
}

#[test]
fn a_field_is_read_by_its_type() {
    assert_eq!(
        Ok((TypesEnum::U16(0x0201), &[3u8][..])),
        TypesEnum::from_buffer(ParameterType::Uint16, &[1, 2, 3])
    );
    assert_eq!(
        Ok((TypesEnum::I8(-1), &[][..])),
        TypesEnum::from_buffer(ParameterType::Int8, &[0xff])
    );
    assert_eq!(
        Ok((TypesEnum::Str("ab".to_string()), &[9u8][..])),
        TypesEnum::from_buffer(ParameterType::String, &[b'a', b'b', 0, 9])
    );
    assert_eq!(
        Ok((TypesEnum::Bool(true), &[][..])),
        TypesEnum::from_buffer(ParameterType::Bool, &[1])
    );
    assert_eq!(
        Err(TypesEnumError::Truncated),
        TypesEnum::from_buffer(ParameterType::Uint64, &[1, 2, 3, 4])
    );
}

#[test]
fn every_value_has_its_type() {
    assert_eq!(ParameterType::Uint8, TypesEnum::U8(1).data_type());
    assert_eq!(ParameterType::Int8, TypesEnum::I8(1).data_type());
    assert_eq!(ParameterType::Uint16, TypesEnum::U16(1).data_type());
    assert_eq!(ParameterType::Int16, TypesEnum::I16(1).data_type());
    assert_eq!(ParameterType::Uint32, TypesEnum::U32(1).data_type());
    assert_eq!(ParameterType::Int32, TypesEnum::I32(1).data_type());
    assert_eq!(ParameterType::Uint64, TypesEnum::U64(1).data_type());
    assert_eq!(ParameterType::Int64, TypesEnum::I64(1).data_type());
    assert_eq!(ParameterType::Bool, TypesEnum::Bool(true).data_type());
    assert_eq!(ParameterType::String, TypesEnum::Str(String::new()).data_type());
}
