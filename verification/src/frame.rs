//! The layout of frames: one tag byte, then the fields of the variant in the
//! order of its parameters.
//!
//! Integers take their width in bytes, little-endian, two's complement for
//! signed types. A boolean takes one byte, `1` or `0`. A string takes its
//! UTF-8 bytes and one terminating zero byte.

use crate::schema::{CodesFile, EntryView, FrameType, InstFeedback, VariantView};
use crate::types::ParameterType;
use crate::wire::{
    from_raw, le_bytes, le_value, lemma_le_value_bound, lemma_radix_values, push_le, radix,
    read_le, signed_value, to_raw, twos_complement,
};
use vstd::prelude::*;
use vstd::slice::{slice_subrange, slice_to_vec};
use vstd::string::*;
use vstd::utf8::{decode_utf8, encode_utf8, valid_utf8};

verus! {

broadcast use {vstd::std_specs::btree::group_btree_axioms, vstd::laws_cmp::group_laws_cmp};

/// The value of one field.
#[derive(Debug, PartialEq, Eq)]
pub enum TypesEnum {
    U8(u8),
    I8(i8),
    U16(u16),
    I16(i16),
    U32(u32),
    I32(i32),
    U64(u64),
    I64(i64),
    Bool(bool),
    Str(String),
}

/// What a field value is.
pub enum Value {
    U8(u8),
    I8(i8),
    U16(u16),
    I16(i16),
    U32(u32),
    I32(i32),
    U64(u64),
    I64(i64),
    Bool(bool),
    Str(Seq<char>),
}

/// How encoding or decoding a frame can fail.
#[derive(PartialEq, Eq, Clone, Copy, Debug, Structural)]
pub enum TypesEnumError {
    /// There is no frame to read: the buffer is empty.
    InvalidArgument,
    /// The destination has no room for the frame.
    BufferTooSmall,
    /// The tag names no variant of the category.
    UnknownCode,
    /// The buffer ends inside a field, or before the terminator of a string.
    Truncated,
    /// The bytes of a string field are not UTF-8.
    InvalidString,
}

/// A frame: the tag of its variant and the values of its fields.
#[derive(Debug, PartialEq, Eq)]
pub struct Frame {
    pub tag: u8,
    pub fields: Vec<TypesEnum>,
}

/// What a frame is.
pub struct FrameView {
    pub tag: u8,
    pub fields: Seq<Value>,
}

impl View for TypesEnum {
    type V = Value;

    open spec fn view(&self) -> Value {
        match self {
            Self::U8(x) => Value::U8(*x),
            Self::I8(x) => Value::I8(*x),
            Self::U16(x) => Value::U16(*x),
            Self::I16(x) => Value::I16(*x),
            Self::U32(x) => Value::U32(*x),
            Self::I32(x) => Value::I32(*x),
            Self::U64(x) => Value::U64(*x),
            Self::I64(x) => Value::I64(*x),
            Self::Bool(x) => Value::Bool(*x),
            Self::Str(x) => Value::Str(x@),
        }
    }
}

/// What a list of field values holds.
pub open spec fn values_view(fields: Seq<TypesEnum>) -> Seq<Value> {
    fields.map_values(|f: TypesEnum| f@)
}

impl View for Frame {
    type V = FrameView;

    open spec fn view(&self) -> FrameView {
        FrameView { tag: self.tag, fields: values_view(self.fields@) }
    }
}

impl Value {
    /// The type of the value.
    pub open spec fn data_type(self) -> ParameterType {
        match self {
            Self::U8(_) => ParameterType::Uint8,
            Self::I8(_) => ParameterType::Int8,
            Self::U16(_) => ParameterType::Uint16,
            Self::I16(_) => ParameterType::Int16,
            Self::U32(_) => ParameterType::Uint32,
            Self::I32(_) => ParameterType::Int32,
            Self::U64(_) => ParameterType::Uint64,
            Self::I64(_) => ParameterType::Int64,
            Self::Bool(_) => ParameterType::Bool,
            Self::Str(_) => ParameterType::String,
        }
    }

    /// The unsigned number that an integer value puts on the wire.
    pub open spec fn raw(self) -> nat {
        match self {
            Self::U8(x) => x as nat,
            Self::I8(x) => twos_complement(x as int, 1),
            Self::U16(x) => x as nat,
            Self::I16(x) => twos_complement(x as int, 2),
            Self::U32(x) => x as nat,
            Self::I32(x) => twos_complement(x as int, 4),
            Self::U64(x) => x as nat,
            Self::I64(x) => twos_complement(x as int, 8),
            Self::Bool(x) => if x {
                1
            } else {
                0
            },
            Self::Str(_) => 0,
        }
    }

    /// The bytes of the value on the wire.
    pub open spec fn bytes(self) -> Seq<u8> {
        match self {
            Self::Str(s) => encode_utf8(s) + seq![0u8],
            _ => le_bytes(self.raw(), self.data_type().width()),
        }
    }

    /// Whether the value can be read back from its bytes. Every integer and
    /// boolean can; a string can when it holds no NUL character, which on the
    /// wire would end it early.
    pub open spec fn readable(self) -> bool {
        match self {
            Self::Str(s) => forall|i: int| 0 <= i < s.len() ==> #[trigger] s[i] != '\0',
            _ => true,
        }
    }
}

/// The types of a list of values.
pub open spec fn types_of(values: Seq<Value>) -> Seq<ParameterType> {
    values.map_values(|v: Value| v.data_type())
}

/// The bytes of a list of values, one value after the other.
pub open spec fn fields_bytes(values: Seq<Value>) -> Seq<u8>
    decreases values.len(),
{
    if values.len() == 0 {
        Seq::empty()
    } else {
        values[0].bytes() + fields_bytes(values.skip(1))
    }
}

impl FrameView {
    /// The bytes of the frame: the tag, then the fields.
    pub open spec fn bytes(self) -> Seq<u8> {
        seq![self.tag] + fields_bytes(self.fields)
    }

    /// Whether every field can be read back from its bytes.
    pub open spec fn readable(self) -> bool {
        forall|i: int| 0 <= i < self.fields.len() ==> (#[trigger] self.fields[i]).readable()
    }
}

/// The position of the first zero byte.
pub open spec fn terminator_index(bytes: Seq<u8>) -> Option<nat>
    decreases bytes.len(),
{
    if bytes.len() == 0 {
        None
    } else if bytes[0] == 0 {
        Some(0)
    } else {
        match terminator_index(bytes.skip(1)) {
            Some(n) => Some(n + 1),
            None => None,
        }
    }
}

/// The integer value of a type that a number read from the wire stands for.
pub open spec fn number_value(t: ParameterType, raw: nat) -> Value {
    match t {
        ParameterType::Uint8 => Value::U8(raw as u8),
        ParameterType::Int8 => Value::I8(signed_value(raw, 1) as i8),
        ParameterType::Uint16 => Value::U16(raw as u16),
        ParameterType::Int16 => Value::I16(signed_value(raw, 2) as i16),
        ParameterType::Uint32 => Value::U32(raw as u32),
        ParameterType::Int32 => Value::I32(signed_value(raw, 4) as i32),
        ParameterType::Uint64 => Value::U64(raw as u64),
        ParameterType::Int64 => Value::I64(signed_value(raw, 8) as i64),
        ParameterType::Bool => Value::Bool(raw != 0),
        ParameterType::String => Value::Str(Seq::empty()),
    }
}

/// What reading one field of a type from the head of some bytes gives: the
/// value and the number of bytes that it took.
///
/// A byte other than zero reads as `true`.
pub open spec fn read_field(t: ParameterType, bytes: Seq<u8>) -> Result<
    (Value, nat),
    TypesEnumError,
> {
    match t {
        ParameterType::String => match terminator_index(bytes) {
            None => Err(TypesEnumError::Truncated),
            Some(n) => if valid_utf8(bytes.take(n as int)) {
                Ok((Value::Str(decode_utf8(bytes.take(n as int))), n + 1))
            } else {
                Err(TypesEnumError::InvalidString)
            },
        },
        _ => if bytes.len() < t.width() {
            Err(TypesEnumError::Truncated)
        } else {
            Ok((number_value(t, le_value(bytes.take(t.width() as int))), t.width()))
        },
    }
}

/// Values read so far, followed by what the rest of a reading gives.
pub open spec fn resume(done: Seq<Value>, rest: Result<Seq<Value>, TypesEnumError>) -> Result<
    Seq<Value>,
    TypesEnumError,
> {
    match rest {
        Ok(values) => Ok(done + values),
        Err(e) => Err(e),
    }
}

/// What reading the fields of the given types, in order, gives. The first
/// field that cannot be read decides the error. Bytes behind the last field
/// are not looked at.
pub open spec fn read_fields(types: Seq<ParameterType>, bytes: Seq<u8>) -> Result<
    Seq<Value>,
    TypesEnumError,
>
    decreases types.len(),
{
    if types.len() == 0 {
        Ok(Seq::empty())
    } else {
        match read_field(types[0], bytes) {
            Err(e) => Err(e),
            Ok((value, used)) => resume(
                seq![value],
                read_fields(types.skip(1), bytes.skip(used as int)),
            ),
        }
    }
}

/// The variant that a tag names in a category.
pub open spec fn variant_of(codes: Map<u32, EntryView>, kind: FrameType, tag: u8) -> Option<
    VariantView,
> {
    if codes.contains_key(tag as u32) {
        codes[tag as u32].variant(kind)
    } else {
        None
    }
}

/// What decoding a buffer as a frame of a category gives.
pub open spec fn decoded(codes: Map<u32, EntryView>, kind: FrameType, bytes: Seq<u8>) -> Result<
    FrameView,
    TypesEnumError,
> {
    if bytes.len() == 0 {
        Err(TypesEnumError::InvalidArgument)
    } else {
        match variant_of(codes, kind, bytes[0]) {
            None => Err(TypesEnumError::UnknownCode),
            Some(variant) => match read_fields(variant.types(), bytes.skip(1)) {
                Ok(fields) => Ok(FrameView { tag: bytes[0], fields }),
                Err(e) => Err(e),
            },
        }
    }
}

/// Whether a frame is one of a variant of the category: its tag names the
/// variant and its fields have the types of the parameters.
pub open spec fn conforms(codes: Map<u32, EntryView>, kind: FrameType, frame: FrameView) -> bool {
    match variant_of(codes, kind, frame.tag) {
        Some(variant) => variant.types() == types_of(frame.fields),
        None => false,
    }
}

/// The fewest bytes that fields of the given types take: the width of each
/// fixed field, and the terminator of each string.
pub open spec fn least_len(types: Seq<ParameterType>) -> nat
    decreases types.len(),
{
    if types.len() == 0 {
        0
    } else {
        (if types[0] == ParameterType::String {
            1
        } else {
            types[0].width()
        }) + least_len(types.skip(1))
    }
}

/// A caller's buffer after a frame was written at its head, if it has room.
pub open spec fn written(buffer: Seq<u8>, frame: FrameView) -> Option<Seq<u8>> {
    if frame.bytes().len() <= buffer.len() {
        Some(frame.bytes() + buffer.skip(frame.bytes().len() as int))
    } else {
        None
    }
}

/// The bytes of a list grow by the bytes of a value put at its end.
pub proof fn lemma_fields_bytes_push(values: Seq<Value>, last: Value)
    ensures
        fields_bytes(values.push(last)) == fields_bytes(values) + last.bytes(),
    decreases values.len(),
{
    if values.len() == 0 {
        assert(values.push(last).skip(1) =~= Seq::<Value>::empty());
        assert(values.push(last)[0] == last);
        assert(fields_bytes(Seq::<Value>::empty()) =~= Seq::<u8>::empty());
        assert(fields_bytes(values.push(last)) =~= last.bytes() + Seq::<u8>::empty());
        assert(fields_bytes(values) + last.bytes() =~= last.bytes());
    } else {
        assert(values.push(last).skip(1) =~= values.skip(1).push(last));
        lemma_fields_bytes_push(values.skip(1), last);
        assert(fields_bytes(values.push(last)) =~= fields_bytes(values) + last.bytes());
    }
}

/// Bytes without a zero among the first `n`, and a zero behind them, have
/// their terminator at `n`.
pub proof fn lemma_terminator_found(bytes: Seq<u8>, n: nat)
    requires
        n < bytes.len(),
        bytes[n as int] == 0,
        forall|i: int| 0 <= i < n ==> bytes[i] != 0,
    ensures
        terminator_index(bytes) == Some(n),
    decreases n,
{
    if n > 0 {
        lemma_terminator_found(bytes.skip(1), (n - 1) as nat);
    }
}

/// Bytes without a zero have no terminator.
pub proof fn lemma_terminator_absent(bytes: Seq<u8>)
    requires
        forall|i: int| 0 <= i < bytes.len() ==> bytes[i] != 0,
    ensures
        terminator_index(bytes) is None,
    decreases bytes.len(),
{
    if bytes.len() > 0 {
        lemma_terminator_absent(bytes.skip(1));
    }
}

/// Calls `String::from_utf8`. The standard library accepts exactly the byte
/// sequences that are UTF-8, and the string it returns holds the bytes it was
/// given.
#[verifier::external_body]
fn string_from_utf8(bytes: Vec<u8>) -> (r: Option<String>)
    ensures
        r is Some <==> valid_utf8(bytes@),
        r matches Some(s) ==> encode_utf8(s@) == bytes@,
{
    String::from_utf8(bytes).ok()
}

/// Reads the number that the first `width` bytes spell and hands back the
/// bytes behind them.
fn read_unsigned(buffer: &[u8], width: usize) -> (r: Result<(u64, &[u8]), TypesEnumError>)
    requires
        1 <= width <= 8,
    ensures
        buffer@.len() < width ==> (r matches Err(e) && e == TypesEnumError::Truncated),
        buffer@.len() >= width ==> (r matches Ok((raw, rest)) && raw == le_value(
            buffer@.take(width as int),
        ) && raw < radix(width as nat) && rest@ == buffer@.skip(width as int)),
{
    if buffer.len() < width {
        return Err(TypesEnumError::Truncated);
    }
    let raw = read_le(buffer, width);
    proof {
        lemma_le_value_bound(buffer@.take(width as int));
    }
    let rest = slice_subrange(buffer, width, buffer.len());
    assert(rest@ =~= buffer@.skip(width as int));
    Ok((raw, rest))
}

impl Clone for TypesEnum {
    fn clone(&self) -> (r: Self)
        ensures
            r@ == self@,
    {
        match self {
            Self::U8(x) => Self::U8(*x),
            Self::I8(x) => Self::I8(*x),
            Self::U16(x) => Self::U16(*x),
            Self::I16(x) => Self::I16(*x),
            Self::U32(x) => Self::U32(*x),
            Self::I32(x) => Self::I32(*x),
            Self::U64(x) => Self::U64(*x),
            Self::I64(x) => Self::I64(*x),
            Self::Bool(x) => Self::Bool(*x),
            Self::Str(x) => Self::Str(x.clone()),
        }
    }
}

impl TypesEnum {
    /// The type of the value.
    pub fn data_type(&self) -> (r: ParameterType)
        ensures
            r == self@.data_type(),
    {
        match self {
            Self::U8(_) => ParameterType::Uint8,
            Self::I8(_) => ParameterType::Int8,
            Self::U16(_) => ParameterType::Uint16,
            Self::I16(_) => ParameterType::Int16,
            Self::U32(_) => ParameterType::Uint32,
            Self::I32(_) => ParameterType::Int32,
            Self::U64(_) => ParameterType::Uint64,
            Self::I64(_) => ParameterType::Int64,
            Self::Bool(_) => ParameterType::Bool,
            Self::Str(_) => ParameterType::String,
        }
    }

    /// Appends the bytes of the value.
    pub fn append_to(&self, out: &mut Vec<u8>)
        ensures
            final(out)@ == old(out)@ + self@.bytes(),
    {
        proof {
            lemma_radix_values();
        }
        match self {
            Self::U8(x) => push_le(out, *x as u64, 1),
            Self::I8(x) => push_le(out, to_raw(*x as i64, 1), 1),
            Self::U16(x) => push_le(out, *x as u64, 2),
            Self::I16(x) => push_le(out, to_raw(*x as i64, 2), 2),
            Self::U32(x) => push_le(out, *x as u64, 4),
            Self::I32(x) => push_le(out, to_raw(*x as i64, 4), 4),
            Self::U64(x) => push_le(out, *x as u64, 8),
            Self::I64(x) => push_le(out, to_raw(*x as i64, 8), 8),
            Self::Bool(x) => {
                let ghost before = out@;
                out.push(if *x { 1 } else { 0 });
                proof {
                    reveal_with_fuel(le_bytes, 2);
                }
                assert(out@ =~= before + self@.bytes());
            },
            Self::Str(x) => {
                let ghost before = out@;
                out.extend_from_slice(x.as_str().as_bytes());
                out.push(0);
                assert(out@ =~= before + self@.bytes());
            },
        }
    }

    /// The bytes of the value.
    pub fn write_to_buffer(&self) -> (r: Vec<u8>)
        ensures
            r@ == self@.bytes(),
    {
        let mut out: Vec<u8> = Vec::new();
        self.append_to(&mut out);
        assert(out@ =~= self@.bytes());
        out
    }

    /// Reads an unsigned byte from the head of a buffer.
    pub fn u8_from_buffer(buffer: &[u8]) -> (r: Result<(u8, &[u8]), TypesEnumError>)
        ensures
            match read_field(ParameterType::Uint8, buffer@) {
                Ok((value, used)) => r matches Ok((x, rest)) && value == Value::U8(x) && rest@
                    == buffer@.skip(used as int),
                Err(e) => r matches Err(f) && f == e,
            },
    {
        match read_unsigned(buffer, 1) {
            Ok((raw, rest)) => {
                proof {
                    lemma_radix_values();
                }
                Ok((raw as u8, rest))
            },
            Err(e) => Err(e),
        }
    }

    /// Reads a signed byte from the head of a buffer.
    pub fn i8_from_buffer(buffer: &[u8]) -> (r: Result<(i8, &[u8]), TypesEnumError>)
        ensures
            match read_field(ParameterType::Int8, buffer@) {
                Ok((value, used)) => r matches Ok((x, rest)) && value == Value::I8(x) && rest@
                    == buffer@.skip(used as int),
                Err(e) => r matches Err(f) && f == e,
            },
    {
        match read_unsigned(buffer, 1) {
            Ok((raw, rest)) => {
                proof {
                    lemma_radix_values();
                }
                Ok((from_raw(raw, 1) as i8, rest))
            },
            Err(e) => Err(e),
        }
    }

    /// Reads an unsigned 16-bit number from the head of a buffer.
    pub fn u16_from_buffer(buffer: &[u8]) -> (r: Result<(u16, &[u8]), TypesEnumError>)
        ensures
            match read_field(ParameterType::Uint16, buffer@) {
                Ok((value, used)) => r matches Ok((x, rest)) && value == Value::U16(x) && rest@
                    == buffer@.skip(used as int),
                Err(e) => r matches Err(f) && f == e,
            },
    {
        match read_unsigned(buffer, 2) {
            Ok((raw, rest)) => {
                proof {
                    lemma_radix_values();
                }
                Ok((raw as u16, rest))
            },
            Err(e) => Err(e),
        }
    }

    /// Reads a signed 16-bit number from the head of a buffer.
    pub fn i16_from_buffer(buffer: &[u8]) -> (r: Result<(i16, &[u8]), TypesEnumError>)
        ensures
            match read_field(ParameterType::Int16, buffer@) {
                Ok((value, used)) => r matches Ok((x, rest)) && value == Value::I16(x) && rest@
                    == buffer@.skip(used as int),
                Err(e) => r matches Err(f) && f == e,
            },
    {
        match read_unsigned(buffer, 2) {
            Ok((raw, rest)) => {
                proof {
                    lemma_radix_values();
                }
                Ok((from_raw(raw, 2) as i16, rest))
            },
            Err(e) => Err(e),
        }
    }

    /// Reads an unsigned 32-bit number from the head of a buffer.
    pub fn u32_from_buffer(buffer: &[u8]) -> (r: Result<(u32, &[u8]), TypesEnumError>)
        ensures
            match read_field(ParameterType::Uint32, buffer@) {
                Ok((value, used)) => r matches Ok((x, rest)) && value == Value::U32(x) && rest@
                    == buffer@.skip(used as int),
                Err(e) => r matches Err(f) && f == e,
            },
    {
        match read_unsigned(buffer, 4) {
            Ok((raw, rest)) => {
                proof {
                    lemma_radix_values();
                }
                Ok((raw as u32, rest))
            },
            Err(e) => Err(e),
        }
    }

    /// Reads a signed 32-bit number from the head of a buffer.
    pub fn i32_from_buffer(buffer: &[u8]) -> (r: Result<(i32, &[u8]), TypesEnumError>)
        ensures
            match read_field(ParameterType::Int32, buffer@) {
                Ok((value, used)) => r matches Ok((x, rest)) && value == Value::I32(x) && rest@
                    == buffer@.skip(used as int),
                Err(e) => r matches Err(f) && f == e,
            },
    {
        match read_unsigned(buffer, 4) {
            Ok((raw, rest)) => {
                proof {
                    lemma_radix_values();
                }
                Ok((from_raw(raw, 4) as i32, rest))
            },
            Err(e) => Err(e),
        }
    }

    /// Reads an unsigned 64-bit number from the head of a buffer.
    pub fn u64_from_buffer(buffer: &[u8]) -> (r: Result<(u64, &[u8]), TypesEnumError>)
        ensures
            match read_field(ParameterType::Uint64, buffer@) {
                Ok((value, used)) => r matches Ok((x, rest)) && value == Value::U64(x) && rest@
                    == buffer@.skip(used as int),
                Err(e) => r matches Err(f) && f == e,
            },
    {
        match read_unsigned(buffer, 8) {
            Ok((raw, rest)) => {
                proof {
                    lemma_radix_values();
                }
                Ok((raw as u64, rest))
            },
            Err(e) => Err(e),
        }
    }

    /// Reads a signed 64-bit number from the head of a buffer.
    pub fn i64_from_buffer(buffer: &[u8]) -> (r: Result<(i64, &[u8]), TypesEnumError>)
        ensures
            match read_field(ParameterType::Int64, buffer@) {
                Ok((value, used)) => r matches Ok((x, rest)) && value == Value::I64(x) && rest@
                    == buffer@.skip(used as int),
                Err(e) => r matches Err(f) && f == e,
            },
    {
        match read_unsigned(buffer, 8) {
            Ok((raw, rest)) => {
                proof {
                    lemma_radix_values();
                }
                Ok((from_raw(raw, 8) as i64, rest))
            },
            Err(e) => Err(e),
        }
    }

    /// Reads a boolean from the head of a buffer. Any byte but zero is `true`.
    pub fn bool_from_buffer(buffer: &[u8]) -> (r: Result<(bool, &[u8]), TypesEnumError>)
        ensures
            match read_field(ParameterType::Bool, buffer@) {
                Ok((value, used)) => r matches Ok((x, rest)) && value == Value::Bool(x) && rest@
                    == buffer@.skip(used as int),
                Err(e) => r matches Err(f) && f == e,
            },
    {
        match read_unsigned(buffer, 1) {
            Ok((raw, rest)) => Ok((raw != 0, rest)),
            Err(e) => Err(e),
        }
    }

    /// Reads a string from the head of a buffer, up to its terminator. The
    /// bytes behind the terminator are handed back.
    pub fn string_from_buffer(buffer: &[u8]) -> (r: Result<(String, &[u8]), TypesEnumError>)
        ensures
            match read_field(ParameterType::String, buffer@) {
                Ok((value, used)) => r matches Ok((x, rest)) && value == Value::Str(x@) && rest@
                    == buffer@.skip(used as int),
                Err(e) => r matches Err(f) && f == e,
            },
    {
        let mut n: usize = 0;
        while n < buffer.len() && buffer[n] != 0
            invariant
                n <= buffer.len(),
                forall|i: int| 0 <= i < n ==> buffer@[i] != 0,
            decreases buffer.len() - n,
        {
            n += 1;
        }
        if n == buffer.len() {
            proof {
                lemma_terminator_absent(buffer@);
            }
            return Err(TypesEnumError::Truncated);
        }
        proof {
            lemma_terminator_found(buffer@, n as nat);
        }
        let text = slice_to_vec(slice_subrange(buffer, 0, n));
        assert(text@ =~= buffer@.take(n as int));
        match string_from_utf8(text) {
            Some(s) => {
                proof {
                    vstd::utf8::encode_utf8_decode_utf8(s@);
                }
                let rest = slice_subrange(buffer, n + 1, buffer.len());
                assert(rest@ =~= buffer@.skip(n + 1));
                Ok((s, rest))
            },
            None => Err(TypesEnumError::InvalidString),
        }
    }

    /// Reads one field of the given type from the head of a buffer and hands
    /// back the bytes behind it.
    pub fn from_buffer(t: ParameterType, buffer: &[u8]) -> (r: Result<
        (TypesEnum, &[u8]),
        TypesEnumError,
    >)
        ensures
            match read_field(t, buffer@) {
                Ok((value, used)) => r matches Ok((x, rest)) && value == x@ && rest@
                    == buffer@.skip(used as int),
                Err(e) => r matches Err(f) && f == e,
            },
    {
        match t {
            ParameterType::Uint8 => match Self::u8_from_buffer(buffer) {
                Ok((v, rest)) => Ok((TypesEnum::U8(v), rest)),
                Err(e) => Err(e),
            },
            ParameterType::Int8 => match Self::i8_from_buffer(buffer) {
                Ok((v, rest)) => Ok((TypesEnum::I8(v), rest)),
                Err(e) => Err(e),
            },
            ParameterType::Uint16 => match Self::u16_from_buffer(buffer) {
                Ok((v, rest)) => Ok((TypesEnum::U16(v), rest)),
                Err(e) => Err(e),
            },
            ParameterType::Int16 => match Self::i16_from_buffer(buffer) {
                Ok((v, rest)) => Ok((TypesEnum::I16(v), rest)),
                Err(e) => Err(e),
            },
            ParameterType::Uint32 => match Self::u32_from_buffer(buffer) {
                Ok((v, rest)) => Ok((TypesEnum::U32(v), rest)),
                Err(e) => Err(e),
            },
            ParameterType::Int32 => match Self::i32_from_buffer(buffer) {
                Ok((v, rest)) => Ok((TypesEnum::I32(v), rest)),
                Err(e) => Err(e),
            },
            ParameterType::Uint64 => match Self::u64_from_buffer(buffer) {
                Ok((v, rest)) => Ok((TypesEnum::U64(v), rest)),
                Err(e) => Err(e),
            },
            ParameterType::Int64 => match Self::i64_from_buffer(buffer) {
                Ok((v, rest)) => Ok((TypesEnum::I64(v), rest)),
                Err(e) => Err(e),
            },
            ParameterType::Bool => match Self::bool_from_buffer(buffer) {
                Ok((v, rest)) => Ok((TypesEnum::Bool(v), rest)),
                Err(e) => Err(e),
            },
            ParameterType::String => match Self::string_from_buffer(buffer) {
                Ok((v, rest)) => Ok((TypesEnum::Str(v), rest)),
                Err(e) => Err(e),
            },
        }
    }
}

impl TypesEnumError {
    /// The status that generated C reports for the failure.
    pub open spec fn status(self) -> int {
        match self {
            Self::InvalidArgument => -3,
            Self::UnknownCode => -2,
            _ => -1,
        }
    }

    /// The status that generated C reports for the failure: `-3` for a
    /// missing argument, `-2` for an unknown tag, `-1` for any other.
    pub fn code(&self) -> (r: i32)
        ensures
            r == self.status(),
    {
        match self {
            Self::InvalidArgument => -3,
            Self::UnknownCode => -2,
            _ => -1,
        }
    }
}

impl Frame {
    /// The bytes of the frame, as an owned sequence.
    pub fn to_bytes(&self) -> (r: Vec<u8>)
        ensures
            r@ == self@.bytes(),
    {
        let mut out: Vec<u8> = Vec::new();
        out.push(self.tag);
        let mut i: usize = 0;
        assert(values_view(self.fields@).take(0) =~= Seq::<Value>::empty());
        assert(out@ =~= seq![self.tag] + fields_bytes(values_view(self.fields@).take(0)));
        while i < self.fields.len()
            invariant
                i <= self.fields.len(),
                out@ == seq![self.tag] + fields_bytes(values_view(self.fields@).take(i as int)),
            decreases self.fields.len() - i,
        {
            self.fields[i].append_to(&mut out);
            proof {
                let values = values_view(self.fields@);
                lemma_fields_bytes_push(values.take(i as int), values[i as int]);
                assert(values.take(i + 1) =~= values.take(i as int).push(values[i as int]));
                assert(out@ =~= seq![self.tag] + fields_bytes(values.take(i + 1)));
            }
            i += 1;
        }
        assert(values_view(self.fields@).take(i as int) =~= values_view(self.fields@));
        out
    }

    /// Writes the frame at the head of a caller's buffer and reports the
    /// number of bytes written. A buffer without room for the whole frame is
    /// left as it was.
    pub fn build_frame(&self, buffer: &mut Vec<u8>) -> (r: Result<usize, TypesEnumError>)
        ensures
            match written(old(buffer)@, self@) {
                Some(after) => r == Ok::<usize, TypesEnumError>(self@.bytes().len() as usize)
                    && final(buffer)@ == after,
                None => r == Err::<usize, TypesEnumError>(TypesEnumError::BufferTooSmall)
                    && final(buffer)@ == old(buffer)@,
            },
    {
        let capacity = buffer.len();
        if capacity == 0 {
            return Err(TypesEnumError::BufferTooSmall);
        }
        let mut staged: Vec<u8> = Vec::new();
        staged.push(self.tag);
        let mut i: usize = 0;
        assert(values_view(self.fields@).take(0) =~= Seq::<Value>::empty());
        assert(staged@ =~= seq![self.tag] + fields_bytes(values_view(self.fields@).take(0)));
        while i < self.fields.len()
            invariant
                i <= self.fields.len(),
                capacity == buffer.len(),
                buffer@ == old(buffer)@,
                staged@.len() <= capacity,
                staged@ == seq![self.tag] + fields_bytes(
                    values_view(self.fields@).take(i as int),
                ),
            decreases self.fields.len() - i,
        {
            let field = self.fields[i].write_to_buffer();
            proof {
                let values = values_view(self.fields@);
                lemma_fields_bytes_push(values.take(i as int), values[i as int]);
                assert(values.take(i + 1) =~= values.take(i as int).push(values[i as int]));
                assert(staged@ + field@ =~= seq![self.tag] + fields_bytes(values.take(i + 1)));
            }
            if field.len() > capacity - staged.len() {
                proof {
                    lemma_fields_prefix(values_view(self.fields@), i + 1);
                }
                return Err(TypesEnumError::BufferTooSmall);
            }
            staged.extend_from_slice(field.as_slice());
            i += 1;
        }
        assert(values_view(self.fields@).take(i as int) =~= values_view(self.fields@));
        let mut j: usize = 0;
        while j < staged.len()
            invariant
                j <= staged.len() <= capacity,
                capacity == buffer.len(),
                capacity == old(buffer)@.len(),
                buffer@ == staged@.take(j as int) + old(buffer)@.skip(j as int),
            decreases staged.len() - j,
        {
            buffer.set(j, staged[j]);
            assert(buffer@ =~= staged@.take(j + 1) + old(buffer)@.skip(j + 1));
            j += 1;
        }
        assert(staged@.take(j as int) =~= staged@);
        Ok(staged.len())
    }
}

/// The bytes of the first values of a list are no longer than the bytes of
/// the whole list.
pub proof fn lemma_fields_prefix(values: Seq<Value>, n: int)
    requires
        0 <= n <= values.len(),
    ensures
        fields_bytes(values.take(n)).len() <= fields_bytes(values).len(),
    decreases values.len() - n,
{
    if n < values.len() {
        lemma_fields_bytes_push(values.take(n), values[n]);
        assert(values.take(n + 1) =~= values.take(n).push(values[n]));
        lemma_fields_prefix(values, n + 1);
    } else {
        assert(values.take(n) =~= values);
    }
}

impl CodesFile {
    /// The variant that a tag names in a category.
    pub fn variant(&self, kind: FrameType, tag: u8) -> (r: Option<&InstFeedback>)
        ensures
            match r {
                Some(v) => variant_of(self@, kind, tag) == Some(v@),
                None => variant_of(self@, kind, tag) is None,
            },
    {
        let code = tag as u32;
        match self.codes.get(&code) {
            Some(entry) => {
                assert(entry@ == self@[code]);
                match kind {
                    FrameType::Instruction => entry.instruction.as_ref(),
                    FrameType::Feedback => entry.feedback.as_ref(),
                }
            },
            None => None,
        }
    }

    /// Whether a frame is one of a variant of the category.
    pub fn accepts(&self, kind: FrameType, frame: &Frame) -> (r: bool)
        ensures
            r == conforms(self@, kind, frame@),
    {
        match self.variant(kind, frame.tag) {
            None => false,
            Some(variant) => {
                if variant.parameters.len() != frame.fields.len() {
                    assert(variant@.types().len() != types_of(frame@.fields).len());
                    return false;
                }
                let mut i: usize = 0;
                while i < frame.fields.len()
                    invariant
                        i <= frame.fields.len(),
                        variant.parameters.len() == frame.fields.len(),
                        variant_of(self@, kind, frame.tag) == Some(variant@),
                        forall|j: int|
                            0 <= j < i ==> variant@.types()[j] == types_of(frame@.fields)[j],
                    decreases frame.fields.len() - i,
                {
                    if variant.parameters[i].data_type != frame.fields[i].data_type() {
                        assert(variant@.types()[i as int] != types_of(frame@.fields)[i as int]);
                        return false;
                    }
                    i += 1;
                }
                assert(variant@.types() =~= types_of(frame@.fields));
                true
            },
        }
    }

    /// Decodes a buffer as a frame of a category.
    ///
    /// The first byte is the tag. The fields are read in the order of the
    /// parameters of the variant that the tag names; bytes behind the last
    /// field are not looked at.
    pub fn from_bytes(&self, kind: FrameType, bytes: &[u8]) -> (r: Result<Frame, TypesEnumError>)
        ensures
            match decoded(self@, kind, bytes@) {
                Ok(frame) => r matches Ok(f) && f@ == frame && f.tag == bytes@[0],
                Err(e) => r matches Err(f) && f == e,
            },
    {
        if bytes.len() == 0 {
            return Err(TypesEnumError::InvalidArgument);
        }
        let tag = bytes[0];
        let variant = match self.variant(kind, tag) {
            Some(variant) => variant,
            None => {
                return Err(TypesEnumError::UnknownCode);
            },
        };
        let ghost types = variant@.types();
        let ghost payload = bytes@.skip(1);
        let mut rest = slice_subrange(bytes, 1, bytes.len());
        assert(rest@ =~= payload);
        let mut fields: Vec<TypesEnum> = Vec::new();
        let mut i: usize = 0;
        assert(types.skip(0) =~= types);
        assert(resume(values_view(fields@), read_fields(types, payload)) == read_fields(
            types,
            payload,
        )) by {
            match read_fields(types, payload) {
                Ok(values) => {
                    assert(values_view(fields@) + values =~= values);
                },
                Err(_) => {},
            }
        }
        while i < variant.parameters.len()
            invariant
                i <= variant.parameters.len(),
                types == variant@.types(),
                bytes@.len() > 0,
                tag == bytes@[0],
                payload == bytes@.skip(1),
                variant_of(self@, kind, tag) == Some(variant@),
                read_fields(types, payload) == resume(
                    values_view(fields@),
                    read_fields(types.skip(i as int), rest@),
                ),
            decreases variant.parameters.len() - i,
        {
            let ghost done = values_view(fields@);
            let ghost here = rest@;
            assert(types.skip(i as int)[0] == variant.parameters@[i as int].data_type);
            assert(types.skip(i as int).skip(1) =~= types.skip(i + 1));
            match TypesEnum::from_buffer(variant.parameters[i].data_type, rest) {
                Ok((value, behind)) => {
                    fields.push(value);
                    rest = behind;
                    proof {
                        assert(values_view(fields@) =~= done.push(value@));
                        match read_fields(types.skip(i + 1), rest@) {
                            Ok(more) => {
                                assert(done + (seq![value@] + more) =~= done.push(value@) + more);
                            },
                            Err(_) => {},
                        }
                    }
                },
                Err(e) => {
                    return Err(e);
                },
            }
            i += 1;
        }
        assert(types.skip(i as int) =~= Seq::<ParameterType>::empty());
        assert(values_view(fields@) + Seq::<Value>::empty() =~= values_view(fields@));
        Ok(Frame { tag, fields })
    }

    /// Decodes a buffer as generated C does: a status, zero for success, and
    /// the frame, which is there exactly when the status is zero.
    pub fn parse_frame(&self, kind: FrameType, buffer: &[u8]) -> (r: (i32, Option<Frame>))
        ensures
            match decoded(self@, kind, buffer@) {
                Ok(frame) => r.0 == 0 && (r.1 matches Some(f) && f@ == frame),
                Err(e) => r.0 == e.status() && r.1 is None,
            },
    {
        match self.from_bytes(kind, buffer) {
            Ok(frame) => (0, Some(frame)),
            Err(e) => (e.code(), None),
        }
    }
}

} // verus!
