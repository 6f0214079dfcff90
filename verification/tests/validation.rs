use codes_parser::schema::SchemaError;
use codes_parser::{Codes, CodesFile, FrameType, InstFeedback, InstFeedbackParameter, ParameterType};
use codes_parser::ParameterType::{Bool, Int32, String as Text, Uint64, Uint8};
use std::collections::BTreeMap;

fn variant(types: &[ParameterType]) -> InstFeedback {
    InstFeedback {
        description: "A variant".to_string(),
        parameters: types
            .iter()
            .enumerate()
            .map(|(i, t)| InstFeedbackParameter {
                name: format!("p{i}"),
                description: format!("Parameter {i}"),
                data_type: *t,
            })
            .collect(),
    }
}

fn entry(instruction: Option<InstFeedback>, feedback: Option<InstFeedback>) -> Codes {
    Codes {
        name: "Entry".to_string(),
        instruction,
        feedback,
    }
}

fn schema(entries: Vec<(u32, Codes)>) -> CodesFile {
    let mut codes = BTreeMap::new();
    for (code, entry) in entries {
        codes.insert(code, entry);
    }
    CodesFile { codes }
}

#[test]
fn a_string_may_only_be_the_last_parameter() {
    assert_eq!(None, variant(&[]).misplaced_string());
    assert_eq!(None, variant(&[Text]).misplaced_string());
    assert_eq!(None, variant(&[Uint8, Bool, Text]).misplaced_string());
    assert_eq!(Some(0), variant(&[Text, Uint8]).misplaced_string());
    assert_eq!(Some(1), variant(&[Uint8, Text, Bool]).misplaced_string());
    assert_eq!(Some(0), variant(&[Text, Text]).misplaced_string());
    assert_eq!(Some(1), variant(&[Uint8, Text, Text, Text]).misplaced_string());
}

#[test]
fn a_schema_with_strings_at_the_end_is_valid() {
    let codes = schema(vec![
        (0, entry(None, None)),
        (1, entry(Some(variant(&[])), Some(variant(&[Int32, Text])))),
        (255, entry(Some(variant(&[Text])), None)),
    ]);
    assert_eq!(Ok(()), codes.validate());
    assert_eq!(Ok(()), schema(vec![]).validate());
}

#[test]
fn a_schema_with_a_string_before_another_parameter_is_rejected() {
    let codes = schema(vec![
        (2, entry(Some(variant(&[Bool])), Some(variant(&[Bool, Text, Uint64])))),
    ]);
    assert_eq!(
        Err(SchemaError::StringNotLast {
            code: 2,
            frame_type: FrameType::Feedback,
            index: 1
        }),
        codes.validate()
    );
    let codes = schema(vec![
        (2, entry(Some(variant(&[Text, Bool])), Some(variant(&[Text, Uint64])))),
    ]);
    assert_eq!(
        Err(SchemaError::StringNotLast {
            code: 2,
            frame_type: FrameType::Instruction,
            index: 0
        }),
        codes.validate()
    );
}

#[test]
fn a_code_above_the_tag_byte_is_rejected() {
    let codes = schema(vec![(256, entry(None, None))]);
    assert_eq!(Err(SchemaError::CodeOutOfRange { code: 256 }), codes.validate());
    let codes = schema(vec![(u32::MAX, entry(None, None)), (255, entry(None, None))]);
    assert_eq!(
        Err(SchemaError::CodeOutOfRange { code: u32::MAX }),
        codes.validate()
    );
}

#[test]
fn the_fault_of_the_lowest_code_is_reported() {
    let codes = schema(vec![
        (300, entry(None, None)),
        (7, entry(None, Some(variant(&[Text, Uint8])))),
        (3, entry(None, None)),
    ]);
    assert_eq!(
        Err(SchemaError::StringNotLast {
            code: 7,
            frame_type: FrameType::Feedback,
            index: 0
        }),
        codes.validate()
    );
}

#[test]
fn the_fault_of_one_entry() {
    assert_eq!(None, entry(None, None).fault(255));
    assert_eq!(
        Some(SchemaError::CodeOutOfRange { code: 1000 }),
        entry(Some(variant(&[Text, Uint8])), None).fault(1000)
    );
    assert_eq!(
        Some(SchemaError::StringNotLast {
            code: 5,
            frame_type: FrameType::Instruction,
            index: 0
        }),
        entry(Some(variant(&[Text, Uint8])), None).fault(5)
    );
}
