use codes_parser::{
    Codes, CodesFile, Frame, FrameType, InstFeedback, InstFeedbackParameter, ParameterType,
    TypesEnum, TypesEnumError,
};
use std::collections::BTreeMap;

fn parameter(name: &str, data_type: ParameterType) -> InstFeedbackParameter {
    InstFeedbackParameter {
        name: name.to_string(),
        description: format!("The {name} of the frame"),
        data_type,
    }
}

fn variant(description: &str, parameters: Vec<InstFeedbackParameter>) -> Option<InstFeedback> {
    Some(InstFeedback {
        description: description.to_string(),
        parameters,
    })
}

fn schema() -> CodesFile {
    let mut codes = BTreeMap::new();
    codes.insert(
        0,
        Codes {
            name: "GetVersion".to_string(),
            instruction: variant("Asks for the version", vec![]),
            feedback: variant(
                "Gives the version",
                vec![
                    parameter("major", ParameterType::Uint8),
                    parameter("minor", ParameterType::Uint8),
                    parameter("patch", ParameterType::Uint8),
                ],
            ),
        },
    );
    codes.insert(
        1,
        Codes {
            name: "CoverageTest".to_string(),
            instruction: variant(
                "Covers the wide types",
                vec![
                    parameter("a_string", ParameterType::String),
                    parameter("a_u64", ParameterType::Uint64),
                    parameter("a_i64", ParameterType::Int64),
                ],
            ),
            feedback: variant(
                "Covers the signed types",
                vec![
                    parameter("a_i8", ParameterType::Int8),
                    parameter("a_i16", ParameterType::Int16),
                    parameter("a_i32", ParameterType::Int32),
                    parameter("a_string", ParameterType::String),
                ],
            ),
        },
    );
    codes.insert(
        3,
        Codes {
            name: "SleepPin".to_string(),
            instruction: variant(
                "Sleeps until the pin wakes",
                vec![
                    parameter("pre_sleep_time", ParameterType::Uint16),
                    parameter("wake_pin_active_state", ParameterType::Bool),
                ],
            ),
            feedback: variant(
                "Tells whether sleep was entered",
                vec![parameter("success", ParameterType::Bool)],
            ),
        },
    );
    codes.insert(
        4,
        Codes {
            name: "SleepTime".to_string(),
            instruction: variant(
                "Sleeps for a time",
                vec![
                    parameter("pre_sleep_time", ParameterType::Uint16),
                    parameter("duration", ParameterType::Uint32),
                ],
            ),
            feedback: variant(
                "Tells how sleep ended",
                vec![parameter("feedback", ParameterType::Uint8)],
            ),
        },
    );
    CodesFile { codes }
}

fn match_buffers(expected: &[i8], buffer: &[i8], len: usize) {
    assert_eq!(
        len,
        expected.len(),
        "Buffer length should match expectation"
    );
    assert!(
        expected.eq(&buffer[..len]),
        "Buffer content should match expectation"
    );
}

/// Encodes into a buffer of the given size, as a caller of generated C does:
/// the status, the buffer, and the length written.
fn build(frame: &Frame, size: usize) -> (i32, Vec<i8>, i32) {
    let mut buffer = vec![0u8; size];
    let (status, len) = match frame.build_frame(&mut buffer) {
        Ok(len) => (0, len as i32),
        Err(e) => (e.code(), size as i32),
    };
    (status, buffer.iter().map(|b| *b as i8).collect(), len)
}

/// Decodes as the dispatch of generated C does: the status, the code, and the
/// parameters, which are there exactly when the status is zero.
fn parse(kind: FrameType, buffer: &[i8]) -> (i32, Option<u32>, Option<Vec<TypesEnum>>) {
    let bytes: Vec<u8> = buffer.iter().map(|b| *b as u8).collect();
    match schema().parse_frame(kind, &bytes) {
        (status, Some(frame)) => (status, Some(frame.tag as u32), Some(frame.fields)),
        (status, None) => (status, None, None),
    }
}

fn text_of(value: &TypesEnum) -> Vec<i8> {
    match value {
        TypesEnum::Str(s) => s.as_bytes().iter().map(|i| *i as i8).collect(),
        _ => panic!("not a string"),
    }
}

#[test]
fn sleeping_sucessfull_frame() {
    let parameters = Frame { tag: 3, fields: vec![TypesEnum::Bool(true)] };
    let (result, buffer, len) = build(&parameters, 2);

    let expected_frame = [0x03i8, 1];

    assert_eq!(0, result, "The generation should succeed");
    match_buffers(&expected_frame, &buffer, len as usize);
}

#[test]
fn sleeping_failing_frame() {
    let parameters = Frame { tag: 3, fields: vec![TypesEnum::Bool(false)] };
    let (result, buffer, len) = build(&parameters, 2);

    let expected_frame = [0x03i8, 0];

    assert_eq!(0, result, "The generation should succeed");
    match_buffers(&expected_frame, &buffer, len as usize);
}

#[test]
fn sleeping_frame_too_small_buffer() {
    let parameters = Frame { tag: 3, fields: vec![TypesEnum::Bool(true)] };
    let (result, _buffer, _len) = build(&parameters, 1);

    assert_ne!(
        0, result,
        "The generation should fail due to too small buffer"
    );
}

#[test]
fn parse_feedback_sleeping_frame() {
    let buffer: [i8; 2] = [0x03, 0x01];

    let (result, code, parameters) = parse(FrameType::Feedback, &buffer);

    assert_eq!(0, result, "Should succeed to parse frame");
    assert_eq!(Some(3), code, "Should have parsed a sleeping frame");

    assert_ne!(None, parameters, "Should return a non-NULL pointer");
    assert_eq!(
        vec![TypesEnum::Bool(true)],
        parameters.unwrap(),
        "Should have parsed a 'true' success parameter"
    );
}

#[test]
fn parse_invalid_sleeping_frame_length() {
    let buf: [i8; 1] = [0x03];

    let (result, _code, _parameters) = parse(FrameType::Feedback, &buf);

    assert_ne!(
        0, result,
        "Frame processing should fail due to wrong frame length"
    );
}

#[test]
fn parse_invalid_feedback_frame_code() {
    let buf = [0x50i8, 0x00, 0x00, 0x00, 0x00];

    let (result, _code, _parameters) = parse(FrameType::Feedback, &buf);

    assert_ne!(
        0, result,
        "Frame decoding should fail for unknown frame code"
    );
}

#[test]
fn parse_invalid_instruction_frame_code() {
    let buf = [0x50i8, 0x00, 0x00, 0x00, 0x00];

    let (result, _code, _parameters) = parse(FrameType::Instruction, &buf);

    assert_ne!(
        0, result,
        "Frame decoding should fail for unknown frame code"
    );
}

#[test]
fn parse_instruction_sleeping_frame() {
    let buf = [0x03i8, 120, 0, 1];
    let expected_struct = vec![TypesEnum::U16(120), TypesEnum::Bool(true)];

    let (result, code, parameters) = parse(FrameType::Instruction, &buf);

    assert_eq!(0, result, "Frame parsing should succeed");
    assert_ne!(None, parameters, "Should have allocated some pointer");
    assert_eq!(
        Some(3),
        code,
        "Instruction code should match Sleepin instruction"
    );

    assert_eq!(
        expected_struct,
        parameters.unwrap(),
        "Decoded structure should match the expected values"
    );
}

#[test]
fn build_sleepin_instruction() {
    let sent_frame = Frame {
        tag: 3,
        fields: vec![TypesEnum::U16(84), TypesEnum::Bool(false)],
    };

    let expected_buffer = [3i8, 84, 0, 0];

    let (result, buf, len) = build(&sent_frame, 255);

    assert_eq!(0, result, "Should succeed");

    match_buffers(&expected_buffer, &buf, len as usize);
}

#[test]
fn build_sleeptime_feedback() {
    let frame_to_send = Frame { tag: 4, fields: vec![TypesEnum::U8(0x55)] };

    let expected_frame = [4i8, 0x55];

    let (result, buf, len) = build(&frame_to_send, 255);

    assert_eq!(0, result, "Frame generation should have succeed");
    match_buffers(&expected_frame, &buf, len as usize);
}

#[test]
fn parse_feedback_sleeptime() {
    let frame_to_parse = [4i8, 0x7e];

    let (result, code, parameters) = parse(FrameType::Feedback, &frame_to_parse);

    assert_eq!(0, result, "Frame parsing should have succeed");
    assert_ne!(None, parameters, "Should have allocated some memory");
    assert_eq!(Some(4), code, "Code should be SleepTime feedback");

    let expected_frame = vec![TypesEnum::U8(0x7e)];

    assert_eq!(
        expected_frame,
        parameters.unwrap(),
        "Decoded frame should match expected one"
    );
}

#[test]
fn build_instruction_sleeptime() {
    let frame_to_send = Frame {
        tag: 4,
        fields: vec![TypesEnum::U16(10), TypesEnum::U32(1000)],
    };

    let expected_buffer = [0x04i8, 10, 0, -0x18, 0x03, 0, 0];

    let (result, buf, len) = build(&frame_to_send, 7);

    assert_eq!(0, result, "Frame generation should have succeed");

    match_buffers(&expected_buffer, &buf, len as usize);
}

#[test]
fn parse_instruction_sleeptime() {
    let expected_decoded = vec![TypesEnum::U16(10), TypesEnum::U32(1000)];
    let buf = [0x04i8, 10, 0, -0x18, 0x03, 0, 0];

    let (result, code, parameters) = parse(FrameType::Instruction, &buf);

    assert_eq!(0, result, "Frame parsing should have succeed");
    assert_eq!(Some(4), code, "Code should match the expected one");

    assert_ne!(None, parameters, "Should have allocated some memory ");

    assert_eq!(
        expected_decoded,
        parameters.unwrap(),
        "Decoded frame should match expectation"
    );
}

#[test]
fn build_instruction_getversion() {
    let frame_to_send = Frame { tag: 0, fields: vec![] };
    let expected_buffer = [0i8];

    let (result, buf, len) = build(&frame_to_send, 5);

    assert_eq!(0, result, "Frame generation should have worked");
    match_buffers(&expected_buffer, &buf, len as usize);
}

#[test]
fn parse_instruction_getversion() {
    let buf = [0i8];

    let (result, code, parameters) = parse(FrameType::Instruction, &buf);

    assert_eq!(0, result, "Frame decoding should have worked");
    assert_ne!(None, parameters, "Should have allocated some memory");

    assert_eq!(Some(0), code, "Should have GetVersion instruction id");
}

#[test]
fn build_feedback_getversion() {
    let frame_to_send = Frame {
        tag: 0,
        fields: vec![TypesEnum::U8(1), TypesEnum::U8(0), TypesEnum::U8(99)],
    };

    let expected_frame = [0i8, 1, 0, 99];

    let (result, buf, len) = build(&frame_to_send, 4);

    assert_eq!(0, result, "Frame generation should have worked");
    match_buffers(&expected_frame, &buf, len as usize);
}

#[test]
fn parse_feedback_getversion() {
    let buf = [0i8, 1, 0, 99];

    let expected_struct = vec![TypesEnum::U8(1), TypesEnum::U8(0), TypesEnum::U8(99)];
    let (result, code, parameters) = parse(FrameType::Feedback, &buf);

    assert_eq!(0, result, "Frame parsing should have worked");
    assert_ne!(None, parameters, "Should have allocated some memory");

    assert_eq!(Some(0), code, "Should have a getVersion feedback code");

    assert_eq!(
        expected_struct,
        parameters.unwrap(),
        "Decoded structure should match expected one"
    );
}

#[test]
fn generate_coverage_inst() {
    let base_struct = Frame {
        tag: 1,
        fields: vec![
            TypesEnum::Str("HelloMessage".to_string()),
            TypesEnum::U64(125000000),
            TypesEnum::I64(-15699),
        ],
    };

    let expected = [
        1u8, b'H', b'e', b'l', b'l', b'o', b'M', b'e', b's', b's', b'a', b'g', b'e', 0, 0x40, 0x59,
        0x73, 0x07, 0, 0, 0, 0, 0xad, 0xc2, 0xff, 0xff, 0xff, 0xff, 0xff, 0xff,
    ]
    .iter()
    .map(|u| *u as i8)
    .collect::<Vec<i8>>();

    let (result, buffer, len) = build(&base_struct, 255);

    assert_eq!(0, result, "Generation should success");

    match_buffers(&expected, &buffer, len as usize);
}

#[test]
fn parse_coverage_inst() {
    let the_string = "HelloMessage"
        .as_bytes()
        .iter()
        .map(|i| *i as i8)
        .collect::<Vec<i8>>();

    let encoded = [
        1u8, b'H', b'e', b'l', b'l', b'o', b'M', b'e', b's', b's', b'a', b'g', b'e', 0, 0x40, 0x59,
        0x73, 0x07, 0, 0, 0, 0, 0xad, 0xc2, 0xff, 0xff, 0xff, 0xff, 0xff, 0xff,
    ]
    .iter()
    .map(|u| *u as i8)
    .collect::<Vec<i8>>();

    let (result, _code, parameters) = parse(FrameType::Instruction, &encoded);

    assert_eq!(0, result, "Parsing should success");
    assert_ne!(
        None, parameters,
        "Should have allocated some memory for the data"
    );

    let data = parameters.unwrap();

    assert_eq!(the_string, text_of(&data[0]), "Generated structure should match");
    assert_eq!(TypesEnum::U64(125000000), data[1], "Generated structure should match");
    assert_eq!(TypesEnum::I64(-15699), data[2], "Generated structure should match");
}

#[test]
fn generate_coverage_fb() {
    let input_struct = Frame {
        tag: 1,
        fields: vec![
            TypesEnum::I8(99),
            TypesEnum::I16(1983),
            TypesEnum::I32(-19488),
            TypesEnum::Str("This is a test string".to_string()),
        ],
    };

    let (result, buffer, len) = build(&input_struct, 255);

    assert_eq!(0, result);

    let expected = [
        1u8, 99u8, 0xbf, 0x07, 0xe0, 0xb3, 0xff, 0xff, b'T', b'h', b'i', b's', b' ', b'i', b's',
        b' ', b'a', b' ', b't', b'e', b's', b't', b' ', b's', b't', b'r', b'i', b'n', b'g', 0,
    ]
    .iter()
    .map(|i| *i as i8)
    .collect::<Vec<i8>>();

    match_buffers(&expected, &buffer, len as usize);
}

#[test]
fn parse_coverage_fb() {
    let msg_string = "This is a test string"
        .as_bytes()
        .iter()
        .map(|i| *i as i8)
        .collect::<Vec<i8>>();

    let encoded = [
        1u8, 99u8, 0xbf, 0x07, 0xe0, 0xb3, 0xff, 0xff, b'T', b'h', b'i', b's', b' ', b'i', b's',
        b' ', b'a', b' ', b't', b'e', b's', b't', b' ', b's', b't', b'r', b'i', b'n', b'g', 0,
    ]
    .iter()
    .map(|i| *i as i8)
    .collect::<Vec<i8>>();

    let (result, code, parameters) = parse(FrameType::Feedback, &encoded);

    assert_eq!(0, result);
    assert_eq!(Some(1), code);
    assert_ne!(None, parameters);

    let decoded = parameters.unwrap();

    assert_eq!(TypesEnum::I8(99), decoded[0]);
    assert_eq!(TypesEnum::I16(1983), decoded[1]);
    assert_eq!(TypesEnum::I32(-19488), decoded[2]);
    assert_eq!(msg_string, text_of(&decoded[3]));
}

#[test]
fn parse_invalid_string() {
    let encoded = [
        1u8, b'H', b'e', b'l', b'l', b'o', b'M', b'e', b's', b's', b'a', b'g', b'e', 0x40, 0x59,
        0x73, 0x07, 0, 0, 0, 0, 0xad, 0xc2, 0xff, 0xff, 0xff, 0xff, 0xff, 0xff,
    ]
    .iter()
    .map(|u| *u as i8)
    .collect::<Vec<i8>>();

    let (result, _code, parameters) = parse(FrameType::Instruction, &encoded);

    assert_ne!(0, result, "Parsing should fail");
    assert_eq!(None, parameters, "Should have freed allocated memory");
}

#[test]
fn a_string_without_terminator_yields_no_frame() {
    let mut bytes = vec![1u8];
    bytes.extend_from_slice(b"HelloMessage");
    assert_eq!((-1, None), schema().parse_frame(FrameType::Instruction, &bytes));
    assert_eq!(
        Err(TypesEnumError::Truncated),
        schema().from_bytes(FrameType::Instruction, &bytes)
    );
}

#[test]
fn the_three_failures_of_the_dispatch_differ() {
    let codes = schema();
    assert_eq!((-3, None), codes.parse_frame(FrameType::Feedback, &[]));
    assert_eq!((-2, None), codes.parse_frame(FrameType::Feedback, &[0x50, 0]));
    assert_eq!((-1, None), codes.parse_frame(FrameType::Feedback, &[0x03]));
    assert_eq!(
        (0, Some(Frame { tag: 3, fields: vec![TypesEnum::Bool(false)] })),
        codes.parse_frame(FrameType::Feedback, &[0x03, 0x00])
    );
}

#[test]
fn the_buffer_behind_the_frame_is_left_alone() {
    let frame = Frame { tag: 4, fields: vec![TypesEnum::U16(0x0102)] };
    let mut buffer = vec![0xeeu8; 6];
    assert_eq!(Ok(3), frame.build_frame(&mut buffer));
    assert_eq!(vec![4u8, 2, 1, 0xee, 0xee, 0xee], buffer);
}

#[test]
fn a_buffer_without_room_is_left_as_it_was() {
    let frame = Frame {
        tag: 4,
        fields: vec![TypesEnum::U16(10), TypesEnum::U32(1000)],
    };
    for size in 0..7 {
        let mut buffer = vec![0xeeu8; size];
        assert_eq!(Err(TypesEnumError::BufferTooSmall), frame.build_frame(&mut buffer));
        assert_eq!(vec![0xeeu8; size], buffer);
    }
    let mut buffer = vec![0xeeu8; 7];
    assert_eq!(Ok(7), frame.build_frame(&mut buffer));
}

#[test]
fn both_encoders_write_the_same_bytes() {
    let frames = [
        Frame { tag: 0, fields: vec![] },
        Frame { tag: 3, fields: vec![TypesEnum::U16(100), TypesEnum::Bool(false)] },
        Frame {
            tag: 1,
            fields: vec![
                TypesEnum::Str("HelloMessage".to_string()),
                TypesEnum::U64(125000000),
                TypesEnum::I64(-15699),
            ],
        },
        Frame {
            tag: 1,
            fields: vec![
                TypesEnum::I8(-1),
                TypesEnum::I16(i16::MAX),
                TypesEnum::I32(-19488),
                TypesEnum::Str("\u{e9}t\u{e9}".to_string()),
            ],
        },
    ];
    for frame in frames.iter() {
        let owned = frame.to_bytes();
        let mut buffer = vec![0u8; 64];
        let len = frame.build_frame(&mut buffer).unwrap();
        assert_eq!(owned.len(), len);
        assert_eq!(owned.as_slice(), &buffer[..len]);
    }
}
