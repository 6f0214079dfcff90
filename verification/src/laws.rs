//! What holds of the layout of frames, for every schema and every frame, and
//! of the template engine, for every skeleton.

use crate::frame::{
    conforms, decoded, fields_bytes, least_len, lemma_terminator_found, read_field, read_fields,
    terminator_index, types_of, variant_of, written, FrameView, TypesEnumError, Value,
};
use crate::cpp_model::{builder_of, enumeration_line, ENUM_ASSIGN};
use crate::generator::{leading_placeholder, rendered};
use crate::schema::{EntryView, FrameType, NamedVariant};
use crate::text::decimal_text;
use crate::types::ParameterType;
use crate::wire::{
    lemma_le_bytes_len, lemma_le_round_trip, lemma_radix_values, lemma_signed_round_trip,
};
use vstd::prelude::*;
use vstd::utf8::{encode_scalar, encode_utf8, is_scalar};

verus! {

/// A character other than NUL has no zero byte in its UTF-8 encoding.
proof fn lemma_scalar_bytes_not_zero(scalar: u32)
    requires
        is_scalar(scalar),
        scalar != 0,
    ensures
        forall|i: int| 0 <= i < encode_scalar(scalar).len() ==> encode_scalar(scalar)[i] != 0,
{
    if scalar <= 0x7F {
        assert(((scalar & 0x7F) as u8) != 0) by (bit_vector)
            requires
                0 < scalar <= 0x7F,
        ;
    }
    assert((0xC0u8 | ((scalar >> 6) & 0x1F) as u8) != 0) by (bit_vector);
    assert((0xE0u8 | ((scalar >> 12) & 0x0F) as u8) != 0) by (bit_vector);
    assert((0xF0u8 | ((scalar >> 18) & 0x7) as u8) != 0) by (bit_vector);
    assert((0x80u8 | (scalar & 0x3F) as u8) != 0) by (bit_vector);
    assert((0x80u8 | ((scalar >> 6) & 0x3F) as u8) != 0) by (bit_vector);
    assert((0x80u8 | ((scalar >> 12) & 0x3F) as u8) != 0) by (bit_vector);
}

/// A text without NUL character has no zero byte in its UTF-8 encoding.
pub proof fn lemma_text_bytes_not_zero(chars: Seq<char>)
    requires
        forall|i: int| 0 <= i < chars.len() ==> chars[i] != '\0',
    ensures
        forall|j: int| 0 <= j < encode_utf8(chars).len() ==> encode_utf8(chars)[j] != 0,
    decreases chars.len(),
{
    if chars.len() > 0 {
        let first = chars[0] as u32;
        vstd::utf8::char_is_scalar(chars[0]);
        assert(first != 0) by {
            vstd::utf8::char_u32_cast(chars[0], first);
            vstd::utf8::char_u32_cast('\0', 0u32);
        }
        lemma_scalar_bytes_not_zero(first);
        let rest = chars.drop_first();
        assert forall|i: int| 0 <= i < rest.len() implies rest[i] != '\0' by {
            assert(rest[i] == chars[i + 1]);
        }
        lemma_text_bytes_not_zero(rest);
        let head = encode_scalar(first);
        assert forall|j: int| 0 <= j < encode_utf8(chars).len() implies encode_utf8(chars)[j]
            != 0 by {
            if j < head.len() {
                assert(encode_utf8(chars)[j] == head[j]);
            } else {
                assert(encode_utf8(chars)[j] == encode_utf8(rest)[j - head.len()]);
            }
        }
    }
}

/// A value that is read from its own bytes comes back, whatever follows the
/// bytes.
pub proof fn lemma_read_field_round_trip(value: Value, rest: Seq<u8>)
    requires
        value.readable(),
    ensures
        read_field(value.data_type(), value.bytes() + rest) == Ok::<
            (Value, nat),
            TypesEnumError,
        >((value, value.bytes().len())),
{
    let bytes = value.bytes() + rest;
    match value {
        Value::Str(s) => {
            let text = encode_utf8(s);
            lemma_text_bytes_not_zero(s);
            assert(bytes[text.len() as int] == 0);
            assert forall|i: int| 0 <= i < text.len() implies bytes[i] != 0 by {
                assert(bytes[i] == text[i]);
            }
            lemma_terminator_found(bytes, text.len());
            assert(bytes.take(text.len() as int) =~= text);
            vstd::utf8::encode_utf8_valid_utf8(s);
            vstd::utf8::encode_utf8_decode_utf8(s);
        },
        _ => {
            let width = value.data_type().width();
            lemma_radix_values();
            lemma_le_bytes_len(value.raw(), width);
            assert(bytes.take(width as int) =~= value.bytes());
            match value {
                Value::I8(x) => lemma_signed_round_trip(x as int, 1),
                Value::I16(x) => lemma_signed_round_trip(x as int, 2),
                Value::I32(x) => lemma_signed_round_trip(x as int, 4),
                Value::I64(x) => lemma_signed_round_trip(x as int, 8),
                _ => {},
            }
            lemma_le_round_trip(value.raw(), width);
        },
    }
}

/// Values that are read from their own bytes come back, whatever follows the
/// bytes.
pub proof fn lemma_read_fields_round_trip(values: Seq<Value>, rest: Seq<u8>)
    requires
        forall|i: int| 0 <= i < values.len() ==> (#[trigger] values[i]).readable(),
    ensures
        read_fields(types_of(values), fields_bytes(values) + rest) == Ok::<
            Seq<Value>,
            TypesEnumError,
        >(values),
    decreases values.len(),
{
    if values.len() == 0 {
        assert(types_of(values) =~= Seq::<ParameterType>::empty());
        assert(values =~= Seq::<Value>::empty());
    } else {
        let first = values[0];
        let tail = values.skip(1);
        let after = fields_bytes(tail) + rest;
        assert(fields_bytes(values) + rest =~= first.bytes() + after);
        lemma_read_field_round_trip(first, after);
        assert((first.bytes() + after).skip(first.bytes().len() as int) =~= after);
        assert(types_of(values).skip(1) =~= types_of(tail));
        assert forall|i: int| 0 <= i < tail.len() implies (#[trigger] tail[i]).readable() by {
            assert(tail[i] == values[i + 1]);
        }
        lemma_read_fields_round_trip(tail, rest);
        assert(seq![first] + tail =~= values);
    }
}

/// Decoding the bytes of a frame gives the frame back, for every frame of the
/// schema whose strings hold no NUL character. Both ways of decoding go by
/// `decoded`, so this holds of both.
pub proof fn lemma_round_trip(codes: Map<u32, EntryView>, kind: FrameType, frame: FrameView)
    requires
        conforms(codes, kind, frame),
        frame.readable(),
    ensures
        decoded(codes, kind, frame.bytes()) == Ok::<FrameView, TypesEnumError>(frame),
{
    let bytes = frame.bytes();
    assert(bytes.skip(1) =~= fields_bytes(frame.fields) + Seq::<u8>::empty());
    lemma_read_fields_round_trip(frame.fields, Seq::empty());
}

/// A frame that decodes carries the first byte of the buffer as its tag.
pub proof fn lemma_tag_is_first_byte(codes: Map<u32, EntryView>, kind: FrameType, bytes: Seq<u8>)
    ensures
        decoded(codes, kind, bytes) matches Ok(frame) ==> bytes.len() > 0 && frame.tag == bytes[0]
            && variant_of(codes, kind, frame.tag) is Some,
{
}

/// A buffer whose first byte names no variant of the category is refused as
/// such, and only such a buffer.
pub proof fn lemma_unknown_tag(codes: Map<u32, EntryView>, kind: FrameType, bytes: Seq<u8>)
    ensures
        decoded(codes, kind, bytes) == Err::<FrameView, TypesEnumError>(
            TypesEnumError::UnknownCode,
        ) <==> bytes.len() > 0 && variant_of(codes, kind, bytes[0]) is None,
{
    if bytes.len() > 0 {
        match variant_of(codes, kind, bytes[0]) {
            Some(variant) => {
                lemma_read_fields_errors(variant.types(), bytes.skip(1));
            },
            None => {},
        }
    }
}

/// Reading fields fails only for want of bytes or for a string that is not
/// UTF-8.
pub proof fn lemma_read_fields_errors(types: Seq<ParameterType>, bytes: Seq<u8>)
    ensures
        read_fields(types, bytes) matches Err(e) ==> e == TypesEnumError::Truncated || e
            == TypesEnumError::InvalidString,
    decreases types.len(),
{
    if types.len() > 0 {
        match read_field(types[0], bytes) {
            Err(_) => {},
            Ok((_, used)) => {
                lemma_read_fields_errors(types.skip(1), bytes.skip(used as int));
            },
        }
    }
}

/// A field takes at least one byte, and a fixed field its width.
pub proof fn lemma_read_field_uses(t: ParameterType, bytes: Seq<u8>)
    ensures
        read_field(t, bytes) matches Ok((_, used)) ==> used <= bytes.len() && used >= (if t
            == ParameterType::String {
            1
        } else {
            t.width()
        }),
{
    if t == ParameterType::String {
        lemma_terminator_in_range(bytes);
    }
}

/// A terminator lies inside the bytes.
pub proof fn lemma_terminator_in_range(bytes: Seq<u8>)
    ensures
        terminator_index(bytes) matches Some(n) ==> n < bytes.len() && bytes[n as int] == 0,
    decreases bytes.len(),
{
    if bytes.len() > 0 && bytes[0] != 0 {
        lemma_terminator_in_range(bytes.skip(1));
    }
}

/// Fewer bytes than the fields take at least cannot be read.
pub proof fn lemma_truncated_fields(types: Seq<ParameterType>, bytes: Seq<u8>)
    requires
        bytes.len() < least_len(types),
    ensures
        read_fields(types, bytes) is Err,
    decreases types.len(),
{
    if types.len() > 0 {
        lemma_read_field_uses(types[0], bytes);
        match read_field(types[0], bytes) {
            Err(_) => {},
            Ok((_, used)) => {
                lemma_truncated_fields(types.skip(1), bytes.skip(used as int));
            },
        }
    }
}

/// A buffer that is shorter than the variant of its tag requires does not
/// decode, and neither does an empty buffer nor one with an unknown tag.
pub proof fn lemma_truncated(codes: Map<u32, EntryView>, kind: FrameType, bytes: Seq<u8>)
    requires
        bytes.len() == 0 || (variant_of(codes, kind, bytes[0]) matches Some(variant) ==> bytes.len()
            < 1 + least_len(variant.types())),
    ensures
        decoded(codes, kind, bytes) is Err,
{
    if bytes.len() > 0 && variant_of(codes, kind, bytes[0]) is Some {
        let variant = variant_of(codes, kind, bytes[0]).unwrap();
        lemma_truncated_fields(variant.types(), bytes.skip(1));
    }
}

/// Both ways of encoding write the same bytes: what is written at the head
/// of a caller's buffer is the frame's own byte sequence.
pub proof fn lemma_backends_agree(buffer: Seq<u8>, frame: FrameView)
    ensures
        written(buffer, frame) matches Some(after) ==> after.take(frame.bytes().len() as int)
            == frame.bytes() && after.len() == buffer.len(),
        written(buffer, frame) is Some <==> frame.bytes().len() <= buffer.len(),
{
    if frame.bytes().len() <= buffer.len() {
        let after = written(buffer, frame).unwrap();
        assert(after.take(frame.bytes().len() as int) =~= frame.bytes());
    }
}

/// The enumerator that the C header declares for a variant is the key that
/// its encoder writes as the tag, that its decoder tests, and that labels its
/// case in the dispatch.
pub proof fn lemma_case_label_is_enumerator(kind: FrameType, v: NamedVariant)
    ensures
        enumeration_line(v, kind.enumerator_prefix()) == builder_of(kind, v.name, v.variant).key
            + ENUM_ASSIGN@ + decimal_text(v.code as nat),
{
    assert(enumeration_line(v, kind.enumerator_prefix()) =~= builder_of(
        kind,
        v.name,
        v.variant,
    ).key + ENUM_ASSIGN@ + decimal_text(v.code as nat));
}

/// A skeleton in which no placeholder of the table stands is left as it is.
pub proof fn lemma_rendered_without_placeholders(
    text: Seq<char>,
    table: Seq<(Seq<char>, Seq<char>)>,
)
    requires
        forall|i: int|
            0 <= i < text.len() ==> leading_placeholder(#[trigger] text.skip(i), table, 0)
                is None,
    ensures
        rendered(text, table) == text,
    decreases text.len(),
{
    if text.len() > 0 {
        let rest = text.skip(1);
        assert(text.skip(0) =~= text);
        assert forall|i: int| 0 <= i < rest.len() implies leading_placeholder(
            #[trigger] rest.skip(i),
            table,
            0,
        ) is None by {
            assert(rest.skip(i) =~= text.skip(i + 1));
        }
        lemma_rendered_without_placeholders(rest, table);
        assert(seq![text[0]] + rest =~= text);
    }
}

} // verus!
