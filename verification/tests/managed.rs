use codes_parser::{
    Codes, CodesFile, Frame, FrameType, InstFeedback, InstFeedbackParameter, ParameterType,
    TypesEnum, TypesEnumError,
};
use std::collections::BTreeMap;

fn parameter(name: &str, data_type: ParameterType) -> InstFeedbackParameter {
    InstFeedbackParameter {
        name: name.to_string(),
        description: format!("The {name} of the frame"),
        data_type,
    }
}

fn variant(description: &str, parameters: Vec<InstFeedbackParameter>) -> Option<InstFeedback> {
    Some(InstFeedback {
        description: description.to_string(),
        parameters,
    })
}

fn schema() -> CodesFile {
    let mut codes = BTreeMap::new();
    codes.insert(
        0,
        Codes {
            name: "GetVersion".to_string(),
            instruction: variant("Asks for the version", vec![]),
            feedback: variant(
                "Gives the version",
                vec![
                    parameter("major", ParameterType::Uint8),
                    parameter("minor", ParameterType::Uint8),
                    parameter("patch", ParameterType::Uint8),
                ],
            ),
        },
    );
    codes.insert(
        1,
        Codes {
            name: "CoverageTest".to_string(),
            instruction: variant(
                "Covers the wide types",
                vec![
                    parameter("a_string", ParameterType::String),
                    parameter("a_u64", ParameterType::Uint64),
                    parameter("a_i64", ParameterType::Int64),
                ],
            ),
            feedback: variant(
                "Covers the signed types",
                vec![
                    parameter("a_i8", ParameterType::Int8),
                    parameter("a_i16", ParameterType::Int16),
                    parameter("a_i32", ParameterType::Int32),
                    parameter("a_string", ParameterType::String),
                ],
            ),
        },
    );
    codes.insert(
        3,
        Codes {
            name: "SleepPin".to_string(),
            instruction: variant(
                "Sleeps until the pin wakes",
                vec![
                    parameter("pre_sleep_time", ParameterType::Uint16),
                    parameter("wake_pin_active_state", ParameterType::Bool),
                ],
            ),
            feedback: variant(
                "Tells whether sleep was entered",
                vec![parameter("success", ParameterType::Bool)],
            ),
        },
    );
    codes.insert(
        4,
        Codes {
            name: "SleepTime".to_string(),
            instruction: variant(
                "Sleeps for a time",
                vec![
                    parameter("pre_sleep_time", ParameterType::Uint16),
                    parameter("duration", ParameterType::Uint32),
                ],
            ),
            feedback: variant(
                "Tells how sleep ended",
                vec![parameter("feedback", ParameterType::Uint8)],
            ),
        },
    );
    CodesFile { codes }
}

fn match_buffers(expected_frame: &[u8], buffer: &Vec<u8>) {
    assert_eq!(
        expected_frame.len(),
        buffer.len(),
        "Frame length should match expected frame length"
    );
    assert_eq!(
        expected_frame,
        &buffer[..expected_frame.len()],
        "Buffer content should match expected frame"
    );
}

fn sleep_pin_feedback(success: bool) -> Frame {
    Frame {
        tag: 3,
        fields: vec![TypesEnum::Bool(success)],
    }
}

fn sleep_pin_instruction(pre_sleep_time: u16, wake_pin_active_state: bool) -> Frame {
    Frame {
        tag: 3,
        fields: vec![
            TypesEnum::U16(pre_sleep_time),
            TypesEnum::Bool(wake_pin_active_state),
        ],
    }
}

fn sleep_time_feedback(feedback: u8) -> Frame {
    Frame {
        tag: 4,
        fields: vec![TypesEnum::U8(feedback)],
    }
}

fn sleep_time_instruction(pre_sleep_time: u16, duration: u32) -> Frame {
    Frame {
        tag: 4,
        fields: vec![TypesEnum::U16(pre_sleep_time), TypesEnum::U32(duration)],
    }
}

fn get_version_feedback(major: u8, minor: u8, patch: u8) -> Frame {
    Frame {
        tag: 0,
        fields: vec![
            TypesEnum::U8(major),
            TypesEnum::U8(minor),
            TypesEnum::U8(patch),
        ],
    }
}

fn get_version_instruction() -> Frame {
    Frame {
        tag: 0,
        fields: vec![],
    }
}

#[test]
fn generate_sleepin_fb() {
    let frame = sleep_pin_feedback(true);

    let result = frame.to_bytes();

    let expected_frame = [3u8, 1];

    match_buffers(&expected_frame, &result);
}

#[test]
fn generate_sleepin_inst() {
    let frame = sleep_pin_instruction(100, false);

    let result = frame.to_bytes();
    let expected_frame = [0x03u8, 100, 0, 0];

    match_buffers(&expected_frame, &result);
}

#[test]
fn parse_sleepin_fb() {
    let frame = [3u8, 1];
    let decoded = schema()
        .from_bytes(FrameType::Feedback, &frame)
        .expect("Frame decoding should have worked");
    let expected = sleep_pin_feedback(true);

    assert_eq!(
        decoded, expected,
        "Decoded structure should match expectation"
    );
}

#[test]
fn parse_sleepin_inst() {
    let frame = [3u8, 100, 0, 1];
    let decoded = schema()
        .from_bytes(FrameType::Instruction, &frame)
        .expect("Frame decoding should have worked");
    let expected = sleep_pin_instruction(100, true);

    assert_eq!(
        decoded, expected,
        "Decoded structure should match expectation"
    );
}

#[test]
fn generate_sleeptime_fb() {
    let frame = sleep_time_feedback(8);
    let encoded = frame.to_bytes();
    let expected = [4u8, 8];

    match_buffers(&expected, &encoded);
}

#[test]
fn generate_sleeptime_inst() {
    let frame = sleep_time_instruction(1000, 700);
    let encoded = frame.to_bytes();
    let expected = [4u8, 0xe8, 3, 0xbc, 2, 0, 0];

    match_buffers(&expected, &encoded);
}

#[test]
fn parse_sleeptime_fb() {
    let frame = [4u8, 50];
    let expected = sleep_time_feedback(50);
    let decoded = schema()
        .from_bytes(FrameType::Feedback, &frame)
        .expect("Frame decoding should have worked");

    assert_eq!(expected, decoded, "Decoded frame should match expectation");
}

#[test]
fn parse_sleeptime_inst() {
    let frame = [4u8, 0xbc, 2, 0xe8, 3, 0, 0];
    let expected = sleep_time_instruction(700, 1000);
    let decoded = schema()
        .from_bytes(FrameType::Instruction, &frame)
        .expect("Frame decoding should have worked");

    assert_eq!(expected, decoded, "Decoded frame should match expectation");
}

#[test]
fn generate_getversion_feedback() {
    let frame = get_version_feedback(1, 0, 99);
    let encoded = frame.to_bytes();
    let expected = [0u8, 1, 0, 99];

    match_buffers(&expected, &encoded);
}

#[test]
fn generate_getversion_inst() {
    let frame = get_version_instruction();
    let encoded = frame.to_bytes();
    let expected = [0u8];

    match_buffers(&expected, &encoded);
}

#[test]
fn parse_getversion_fb() {
    let frame = [0, 50, 1, 9];
    let expected = get_version_feedback(50, 1, 9);
    let decoded = schema()
        .from_bytes(FrameType::Feedback, &frame)
        .expect("Frame decoding should have worked");

    assert_eq!(expected, decoded, "Decoded frame should match expectation");
}

#[test]
fn parse_getversion_inst() {
    let frame = [0];
    let expected = get_version_instruction();
    let decoded = schema()
        .from_bytes(FrameType::Instruction, &frame)
        .expect("Frame decoding should have worked");

    assert_eq!(expected, decoded, "Decoded frame should match expectation");
}

#[test]
fn false_feedback_is_tag_and_zero() {
    assert_eq!(vec![0x03u8, 0x00], sleep_pin_feedback(false).to_bytes());
}

#[test]
fn sleep_time_of_ten_and_thousand() {
    assert_eq!(
        vec![0x04u8, 0x0a, 0x00, 0xe8, 0x03, 0x00, 0x00],
        sleep_time_instruction(10, 1000).to_bytes()
    );
}

fn coverage_instruction() -> Frame {
    Frame {
        tag: 1,
        fields: vec![
            TypesEnum::Str("HelloMessage".to_string()),
            TypesEnum::U64(125000000),
            TypesEnum::I64(-15699),
        ],
    }
}

fn coverage_bytes() -> Vec<u8> {
    let mut expected = vec![0x01u8];
    expected.extend_from_slice(b"HelloMessage");
    expected.push(0x00);
    expected.extend_from_slice(&125000000u64.to_le_bytes());
    expected.extend_from_slice(&(-15699i64).to_le_bytes());
    expected
}

#[test]
fn string_then_wide_integers() {
    assert_eq!(coverage_bytes(), coverage_instruction().to_bytes());
}

#[test]
fn decoding_gives_back_what_was_encoded() {
    let codes = schema();
    let frames = [
        (FrameType::Instruction, coverage_instruction()),
        (FrameType::Instruction, sleep_pin_instruction(u16::MAX, true)),
        (FrameType::Instruction, sleep_time_instruction(0, u32::MAX)),
        (FrameType::Instruction, get_version_instruction()),
        (FrameType::Feedback, get_version_feedback(255, 0, 1)),
        (FrameType::Feedback, sleep_pin_feedback(false)),
        (
            FrameType::Feedback,
            Frame {
                tag: 1,
                fields: vec![
                    TypesEnum::I8(i8::MIN),
                    TypesEnum::I16(-2),
                    TypesEnum::I32(i32::MIN),
                    TypesEnum::Str("gr\u{fc}\u{df}e".to_string()),
                ],
            },
        ),
    ];
    for (kind, frame) in frames.iter() {
        assert!(codes.accepts(*kind, frame));
        let bytes = frame.to_bytes();
        assert_eq!(Ok(frame), codes.from_bytes(*kind, &bytes).as_ref());
    }
}

#[test]
fn a_string_with_a_zero_inside_does_not_come_back() {
    let frame = Frame {
        tag: 1,
        fields: vec![
            TypesEnum::I8(1),
            TypesEnum::I16(2),
            TypesEnum::I32(3),
            TypesEnum::Str("ab\0cd".to_string()),
        ],
    };
    let decoded = schema()
        .from_bytes(FrameType::Feedback, &frame.to_bytes())
        .unwrap();
    assert_eq!(TypesEnum::Str("ab".to_string()), decoded.fields[3]);
}

#[test]
fn the_tag_of_a_decoded_frame_is_the_first_byte() {
    let codes = schema();
    for bytes in [vec![0u8, 1, 2, 3], vec![3, 0], vec![4, 9, 9]] {
        let frame = codes.from_bytes(FrameType::Feedback, &bytes).unwrap();
        assert_eq!(bytes[0], frame.tag);
    }
}

#[test]
fn bytes_behind_the_last_field_are_ignored() {
    let decoded = schema().from_bytes(FrameType::Feedback, &[3, 1, 0xaa, 0xbb]);
    assert_eq!(Ok(sleep_pin_feedback(true)), decoded);
}

#[test]
fn an_empty_buffer_is_an_invalid_argument() {
    assert_eq!(
        Err(TypesEnumError::InvalidArgument),
        schema().from_bytes(FrameType::Feedback, &[])
    );
}

#[test]
fn a_tag_without_variant_is_unknown() {
    let codes = schema();
    assert_eq!(
        Err(TypesEnumError::UnknownCode),
        codes.from_bytes(FrameType::Feedback, &[0x50, 0, 0, 0, 0])
    );
    assert_eq!(
        Err(TypesEnumError::UnknownCode),
        codes.from_bytes(FrameType::Instruction, &[2])
    );
}

#[test]
fn a_tag_is_looked_up_in_its_own_category() {
    let mut codes = schema();
    codes.codes.insert(
        7,
        Codes {
            name: "OnlyFeedback".to_string(),
            instruction: None,
            feedback: variant("Has no instruction", vec![]),
        },
    );
    assert_eq!(
        Ok(Frame { tag: 7, fields: vec![] }),
        codes.from_bytes(FrameType::Feedback, &[7])
    );
    assert_eq!(
        Err(TypesEnumError::UnknownCode),
        codes.from_bytes(FrameType::Instruction, &[7])
    );
}

#[test]
fn a_short_buffer_is_truncated() {
    let codes = schema();
    assert_eq!(
        Err(TypesEnumError::Truncated),
        codes.from_bytes(FrameType::Feedback, &[3])
    );
    assert_eq!(
        Err(TypesEnumError::Truncated),
        codes.from_bytes(FrameType::Instruction, &[4, 1, 0, 2, 0, 0])
    );
    let whole = coverage_bytes();
    for len in 1..whole.len() {
        assert_eq!(
            Err(TypesEnumError::Truncated),
            codes.from_bytes(FrameType::Instruction, &whole[..len])
        );
    }
}

#[test]
fn a_frame_conforms_to_its_variant_only() {
    let codes = schema();
    assert!(codes.accepts(FrameType::Feedback, &sleep_pin_feedback(true)));
    assert!(!codes.accepts(FrameType::Instruction, &sleep_pin_feedback(true)));
    assert!(!codes.accepts(FrameType::Feedback, &sleep_time_instruction(1, 2)));
    assert!(!codes.accepts(
        FrameType::Feedback,
        &Frame { tag: 9, fields: vec![] }
    ));
    assert!(!codes.accepts(
        FrameType::Feedback,
        &Frame { tag: 3, fields: vec![TypesEnum::U8(1)] }
    ));
}

#[test]
fn variants_are_found_by_tag() {
    let codes = schema();
    assert_eq!(3, codes.variant(FrameType::Feedback, 0).unwrap().parameters.len());
    assert_eq!(0, codes.variant(FrameType::Instruction, 0).unwrap().parameters.len());
    assert!(codes.variant(FrameType::Instruction, 2).is_none());
}

#[test]
fn failures_have_the_status_of_the_dispatch() {
    assert_eq!(-3, TypesEnumError::InvalidArgument.code());
    assert_eq!(-2, TypesEnumError::UnknownCode.code());
    assert_eq!(-1, TypesEnumError::Truncated.code());
    assert_eq!(-1, TypesEnumError::InvalidString.code());
    assert_eq!(-1, TypesEnumError::BufferTooSmall.code());
}
