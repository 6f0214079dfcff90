//! The C backend: declarations for a header and implementations for a source
//! file, as free functions over raw buffers.

use crate::generator::{replace_all, replaced, LanguageModel};
use crate::schema::{
    lemma_variants_valid, named_variants, valid_schema, valid_variants, variants_of, CodesFile,
    EntryView, FrameType, InstFeedback, NamedVariant, ParameterView, VariantView,
};
use crate::text::{
    decimal, decimal_text, join, joined, lowercase_of, to_lowercase, to_uppercase, uppercase_of,
};
use crate::types::ParameterType;
use std::path::Path;
use vstd::prelude::*;
use vstd::string::*;

verus! {

// The fixed text of the C that is written, cut wherever a name or a list is
// put in. Braces and blanks stand as the output has them.

pub const EXTERNAL_DECLARATIONS: &'static str = "\n\n// External parsing functions\nextern int parse_feedback_frame(char* buffer, int len, Feedbacks* code, void **parameters);\nextern int parse_instruction_frame(char* buffer, int len, Instructions* code, void **parameters);";

pub const INCLUDE_OPEN: &'static str = "#include \"";

pub const INCLUDE_CLOSE: &'static str = "\"\n    ";

pub const ENUM_COMMENT_OPEN: &'static str = "\n// ";

pub const ENUM_TYPEDEF_OPEN: &'static str = " Codes list\ntypedef enum __";

pub const ENUM_BODY_OPEN: &'static str = "_enum {\n    ";

pub const ENUM_BODY_CLOSE: &'static str = "\n} ";

pub const ENUM_END: &'static str = ";\n\n";

pub const STRUCT_OPEN: &'static str = "\nstruct s_";

pub const UNDERSCORE: &'static str = "_";

pub const STRUCT_BODY_OPEN: &'static str = "_params {\n    ";

pub const STRUCT_CLOSE: &'static str = "\n};\n";

pub const BUILD_NAME_OPEN: &'static str = "\nint build_";

pub const BUILD_ARGUMENTS_OPEN: &'static str = "_frame(char* buffer, int *len, struct s_";

pub const DECLARATION_CLOSE: &'static str = "_params* parameters);\n";

pub const BUILD_BODY_OPEN: &'static str = "_params* parameters)\n{\n\n    if ((buffer == NULL) || (len == NULL) || (parameters == NULL))\n      return -1;\n    \n    buffer_slice slice = {.head=buffer, .len= (size_t) *len, .valid = true};\n\n    if (*len > 0) buffer[0] = ";

pub const BUILD_TAG_WRITTEN: &'static str = ";\n    else return -1;\n\n    slice = move_buffer_slice(slice, 1);\n";

pub const BUILD_BODY_CLOSE: &'static str = "\n    if (!slice.valid) {\n      return -1;\n    }\n    *len = (slice.head - buffer);\n\n    return 0;\n}\n        ";

pub const PARSE_NAME_OPEN: &'static str = "\nint parse_";

pub const PARSE_ARGUMENTS_OPEN: &'static str = "_frame(char* buffer, int len, struct s_";

pub const PARSE_BODY_OPEN: &'static str = "_params* parameters)\n{\n    const size_t p_size = sizeof(struct s_";

pub const PARSE_CHECKS: &'static str = "_params);\n    if ((buffer == NULL) || (len <= 0))\n        return -1;\n\n    if ((p_size > 0) && (parameters == NULL))\n        return -1;\n        \n    // Check the code\n    if ((unsigned char)buffer[0] != ";

pub const PARSE_TAG_CHECKED: &'static str = ") return -1;\n\n    buffer_slice slice = {.head=buffer, .len=(size_t)len, .valid=true};\n    slice = move_buffer_slice(slice, 1);\n";

pub const PARSE_FAILURE_OPEN: &'static str = "\n    if (!slice.valid) {\n       ";

pub const PARSE_BODY_CLOSE: &'static str = "return -1;\n    }\n    return 0;\n}\n        ";

pub const FREE_OPEN: &'static str = "\n        if (parameters->";

pub const FREE_CALL: &'static str = " != NULL) {\n            free(parameters->";

pub const FREE_CLOSE: &'static str = ");\n        }";

pub const CASE_OPEN: &'static str = "\n        case ";

pub const CASE_SIZE: &'static str = ":\n            {\n                const size_t psize = sizeof(struct s_";

pub const CASE_ALLOCATE: &'static str = "_params);\n                *parameters = k_malloc(psize);\n                memset(*parameters, 0, psize);\n                *code = ";

pub const CASE_CALL: &'static str = ";\n                int result =  parse_";

pub const CASE_CALL_ARGUMENTS: &'static str = "_frame(buffer, len, (struct s_";

pub const CASE_CLOSE: &'static str = "_params*)*parameters);\n                if (result < 0) {\n                   k_free(*parameters);\n                   *parameters=NULL;\n                }\n                return result;\n            }\n        ";

pub const DISPATCH_ARGUMENTS_OPEN: &'static str = "_frame(char* buffer, int len, ";

pub const DISPATCH_BODY_OPEN: &'static str = "* code, void **parameters)\n{\n    if ((buffer == NULL) || (code == NULL) || (parameters == NULL) || (len <= 0))\n        return -3;\n\n    switch ((unsigned char)buffer[0])\n    {\n    ";

pub const DISPATCH_BODY_CLOSE: &'static str = "\n    default: \n        return -2;\n    }\n}\n\n    ";

pub const WRITE_OPEN: &'static str = "\t\tslice = write_";

pub const WRITE_ARGUMENTS: &'static str = "_to_buffer(slice, parameters->";

pub const WRITE_CLOSE: &'static str = ");\n";

pub const READ_OPEN: &'static str = "\t\tparameters->";

pub const READ_CALL: &'static str = " = parse_";

pub const READ_CLOSE: &'static str = "_from_buffer(&slice);";

pub const ENUM_ASSIGN: &'static str = " = ";

/// The C backend. With a header name the model writes a source file that
/// includes the header; without one it writes the header itself.
pub struct CppLanguageModel {
    pub headerfile_name: Option<String>,
}

/// Writes the functions of one variant: its encoder, its decoder and its case
/// in the dispatch.
pub struct WriteFrameBuilder<'a> {
    builder_type: FrameType,
    key: String,
    lowercase_name: String,
    name: &'a str,
    instruction: &'a InstFeedback,
}

/// What a builder works on: the variant, and the two spellings of its name
/// that the identifiers are made of.
pub struct BuilderView {
    pub kind: FrameType,
    /// The enumerator of the variant.
    pub key: Seq<char>,
    /// The name in lower case.
    pub lower: Seq<char>,
    pub name: Seq<char>,
    pub variant: VariantView,
}

impl FrameType {
    /// The prefix of the enumerators of the category.
    pub open spec fn enumerator_prefix(self) -> Seq<char> {
        match self {
            Self::Instruction => "INST"@,
            Self::Feedback => "FB"@,
        }
    }
}

/// The enumerator that names a variant in the C that is written: the prefix
/// of the category and the name of the code in upper case.
pub open spec fn frame_key(kind: FrameType, name: Seq<char>) -> Seq<char> {
    kind.enumerator_prefix() + UNDERSCORE@ + uppercase_of(name)
}

/// What a builder made for a variant of a category works on.
pub open spec fn builder_of(kind: FrameType, name: Seq<char>, variant: VariantView) -> BuilderView {
    BuilderView { kind, key: frame_key(kind, name), lower: lowercase_of(name), name, variant }
}

/// The statement that writes one parameter into the buffer.
pub open spec fn write_line(p: ParameterView) -> Seq<char> {
    WRITE_OPEN@ + p.data_type.rust_name() + WRITE_ARGUMENTS@ + p.name + WRITE_CLOSE@
}

/// The statement that reads one parameter from the buffer.
pub open spec fn read_line(p: ParameterView) -> Seq<char> {
    READ_OPEN@ + p.name + READ_CALL@ + p.data_type.rust_name() + READ_CLOSE@
}

/// The statements that release one string parameter after a failed read.
pub open spec fn free_block(name: Seq<char>) -> Seq<char> {
    FREE_OPEN@ + name + FREE_CALL@ + name + FREE_CLOSE@
}

/// The release statements of the string parameters, in order.
pub open spec fn free_blocks(params: Seq<ParameterView>) -> Seq<Seq<char>>
    decreases params.len(),
{
    if params.len() == 0 {
        Seq::empty()
    } else if params.last().data_type == ParameterType::String {
        free_blocks(params.drop_last()).push(free_block(params.last().name))
    } else {
        free_blocks(params.drop_last())
    }
}

/// The function that encodes a variant into a buffer.
pub open spec fn build_frame_text(b: BuilderView) -> Seq<char> {
    BUILD_NAME_OPEN@ + b.kind.long_text() + UNDERSCORE@ + b.lower + BUILD_ARGUMENTS_OPEN@
        + b.kind.short_text() + UNDERSCORE@ + b.lower + BUILD_BODY_OPEN@ + b.key
        + BUILD_TAG_WRITTEN@ + joined(
        b.variant.parameters.map_values(|p: ParameterView| write_line(p)),
        "\n"@,
    ) + BUILD_BODY_CLOSE@
}

/// The function that decodes a variant from a buffer.
pub open spec fn build_frame_parser_text(b: BuilderView) -> Seq<char> {
    PARSE_NAME_OPEN@ + b.kind.long_text() + UNDERSCORE@ + b.lower + PARSE_ARGUMENTS_OPEN@
        + b.kind.short_text() + UNDERSCORE@ + b.lower + PARSE_BODY_OPEN@ + b.kind.short_text()
        + UNDERSCORE@ + b.lower + PARSE_CHECKS@ + b.key + PARSE_TAG_CHECKED@ + joined(
        b.variant.parameters.map_values(|p: ParameterView| read_line(p)),
        "\n"@,
    ) + PARSE_FAILURE_OPEN@ + joined(free_blocks(b.variant.parameters), "\n\t\t\t"@)
        + PARSE_BODY_CLOSE@
}

/// The case of the dispatch that allocates, decodes and, on failure, releases
/// the parameters of a variant.
pub open spec fn dispatch_case_text(b: BuilderView) -> Seq<char> {
    CASE_OPEN@ + b.key + CASE_SIZE@ + b.kind.short_text() + UNDERSCORE@ + b.lower
        + CASE_ALLOCATE@ + b.key + CASE_CALL@ + b.kind.long_text() + UNDERSCORE@ + b.lower
        + CASE_CALL_ARGUMENTS@ + b.kind.short_text() + UNDERSCORE@ + b.lower + CASE_CLOSE@
}

/// One enumerator: prefix, name in upper case, and the code as its value.
pub open spec fn enumerator_text(prefix: Seq<char>, upper: Seq<char>, code: u32) -> Seq<char> {
    prefix + UNDERSCORE@ + upper + ENUM_ASSIGN@ + decimal_text(code as nat)
}

/// The enumerator of a variant.
pub open spec fn enumeration_line(v: NamedVariant, prefix: Seq<char>) -> Seq<char> {
    enumerator_text(prefix, uppercase_of(v.name), v.code)
}

/// The enumerators of a list of variants.
pub open spec fn enumeration_codes_text(list: Seq<NamedVariant>, prefix: Seq<char>) -> Seq<char> {
    joined(list.map_values(|v: NamedVariant| enumeration_line(v, prefix)), ",\n\t"@)
}

/// The opening of an enumeration, from its name and the name in lower case.
pub open spec fn enumeration_opening_text(name: Seq<char>, lower: Seq<char>) -> Seq<char> {
    ENUM_COMMENT_OPEN@ + name + ENUM_TYPEDEF_OPEN@ + lower + ENUM_BODY_OPEN@
}

/// The opening of an enumeration.
pub open spec fn enumerations_header_text(name: Seq<char>) -> Seq<char> {
    enumeration_opening_text(name, lowercase_of(name))
}

/// The closing of an enumeration.
pub open spec fn enumerations_footer_text(name: Seq<char>) -> Seq<char> {
    ENUM_BODY_CLOSE@ + name + ENUM_END@
}

/// The enumeration of the codes of one category.
pub open spec fn enumeration_text(list: Seq<NamedVariant>, kind: FrameType) -> Seq<char> {
    enumerations_header_text(kind.struct_text()) + enumeration_codes_text(
        list,
        kind.enumerator_prefix(),
    ) + enumerations_footer_text(kind.struct_text())
}

/// The record that holds the parameters of a variant, from the name of the
/// variant in lower case.
pub open spec fn record_text(lower: Seq<char>, variant: VariantView, struct_type: Seq<char>) -> Seq<
    char,
> {
    STRUCT_OPEN@ + struct_type + UNDERSCORE@ + lower + STRUCT_BODY_OPEN@ + joined(
        variant.parameters.map_values(|p: ParameterView| p.c_definition_with_comment()),
        "\n\t"@,
    ) + STRUCT_CLOSE@
}

/// The record that holds the parameters of a variant.
pub open spec fn parameters_structure_text(
    name: Seq<char>,
    variant: VariantView,
    struct_type: Seq<char>,
) -> Seq<char> {
    record_text(lowercase_of(name), variant, struct_type)
}

/// The declaration of the encoder of a variant, from the name of the variant
/// in lower case.
pub open spec fn encoder_declaration_text(
    lower: Seq<char>,
    inst: Seq<char>,
    short: Seq<char>,
) -> Seq<char> {
    BUILD_NAME_OPEN@ + inst + UNDERSCORE@ + lower + BUILD_ARGUMENTS_OPEN@ + short + UNDERSCORE@
        + lower + DECLARATION_CLOSE@
}

/// The declaration of the encoder of a variant.
pub open spec fn declare_build_function_text(
    name: Seq<char>,
    inst: Seq<char>,
    short: Seq<char>,
) -> Seq<char> {
    encoder_declaration_text(lowercase_of(name), inst, short)
}

/// The records of all variants of a category.
pub open spec fn structures_text(list: Seq<NamedVariant>, kind: FrameType) -> Seq<char> {
    joined(
        list.map_values(
            |v: NamedVariant| parameters_structure_text(v.name, v.variant, kind.short_text()),
        ),
        ""@,
    )
}

/// The encoder declarations of all variants of a category.
pub open spec fn functions_text(list: Seq<NamedVariant>, kind: FrameType) -> Seq<char> {
    joined(
        list.map_values(
            |v: NamedVariant| declare_build_function_text(v.name, kind.long_text(), kind.short_text()),
        ),
        ""@,
    )
}

/// The encoders of all variants of a category.
pub open spec fn builders_text(list: Seq<NamedVariant>, kind: FrameType) -> Seq<char> {
    joined(list.map_values(|v: NamedVariant| build_frame_text(builder_of(kind, v.name, v.variant))), ""@)
}

/// The decoders of all variants of a category.
pub open spec fn decoders_text(list: Seq<NamedVariant>, kind: FrameType) -> Seq<char> {
    joined(list.map_values(|v: NamedVariant| build_frame_parser_text(builder_of(kind, v.name, v.variant))), ""@)
}

/// The function that reads the tag of a frame and hands the frame to the
/// decoder of its variant.
pub open spec fn frames_dispatch_text(list: Seq<NamedVariant>, kind: FrameType) -> Seq<char> {
    PARSE_NAME_OPEN@ + kind.long_text() + DISPATCH_ARGUMENTS_OPEN@ + kind.struct_text()
        + DISPATCH_BODY_OPEN@ + joined(
        list.map_values(|v: NamedVariant| dispatch_case_text(builder_of(kind, v.name, v.variant))),
        ""@,
    ) + DISPATCH_BODY_CLOSE@
}

/// The declarations of one category: enumeration, records, encoders.
pub open spec fn cpp_declarations_text(codes: Map<u32, EntryView>, kind: FrameType) -> Seq<char> {
    enumeration_text(variants_of(codes, kind), kind) + structures_text(
        variants_of(codes, kind),
        kind,
    ) + functions_text(variants_of(codes, kind), kind)
}

/// The implementation of one category: encoders, decoders, dispatch.
pub open spec fn cpp_implementation_text(codes: Map<u32, EntryView>, kind: FrameType) -> Seq<
    char,
> {
    builders_text(variants_of(codes, kind), kind) + decoders_text(variants_of(codes, kind), kind)
        + frames_dispatch_text(variants_of(codes, kind), kind)
}

impl<'a> View for WriteFrameBuilder<'a> {
    type V = BuilderView;

    closed spec fn view(&self) -> BuilderView {
        BuilderView {
            kind: self.builder_type,
            key: self.key@,
            lower: self.lowercase_name@,
            name: self.name@,
            variant: self.instruction@,
        }
    }
}

impl<'a> WriteFrameBuilder<'a> {
    /// Makes the builder of one variant. The key is the enumerator of the
    /// variant: the prefix of the category and the name of the code in upper
    /// case.
    pub fn new(builder_type: FrameType, name: &'a str, instruction: &'a InstFeedback) -> (r: Self)
        ensures
            r@ == builder_of(builder_type, name@, instruction@),
    {
        let mut key = String::from_str(builder_type.prefix());
        key.append(UNDERSCORE);
        key.append(to_uppercase(name).as_str());
        Self::from_spellings(builder_type, name, key, to_lowercase(name), instruction)
    }

    /// Makes the builder of one variant from the spellings of its name: the
    /// enumerator, and the name in lower case.
    pub fn from_spellings(
        builder_type: FrameType,
        name: &'a str,
        key: String,
        lowercase_name: String,
        instruction: &'a InstFeedback,
    ) -> (r: Self)
        ensures
            r@ == (BuilderView {
                kind: builder_type,
                key: key@,
                lower: lowercase_name@,
                name: name@,
                variant: instruction@,
            }),
    {
        WriteFrameBuilder { builder_type, key, lowercase_name, name, instruction }
    }

    /// The function that encodes the variant into a buffer. The variant must
    /// be well formed: a string may only be its last parameter.
    pub fn build_frame(&self) -> (r: String)
        requires
            self@.variant.well_formed(),
        ensures
            r@ == build_frame_text(self@),
    {
        let lowercase_name = &self.lowercase_name;
        let mut lines: Vec<String> = Vec::new();
        let mut i: usize = 0;
        while i < self.instruction.parameters.len()
            invariant
                i <= self.instruction.parameters.len(),
                lines.deep_view() == self@.variant.parameters.map_values(
                    |p: ParameterView| write_line(p),
                ).take(i as int),
            decreases self.instruction.parameters.len() - i,
        {
            let p = &self.instruction.parameters[i];
            let mut line = String::from_str(WRITE_OPEN);
            line.append(p.data_type.to_rust_type_string().as_str());
            line.append(WRITE_ARGUMENTS);
            line.append(p.name.as_str());
            line.append(WRITE_CLOSE);
            assert(line@ == write_line(self@.variant.parameters[i as int]));
            let ghost before = lines.deep_view();
            lines.push(line);
            assert(lines.deep_view() =~= before.push(line@));
            i += 1;
        }
        assert(lines.deep_view() =~= self@.variant.parameters.map_values(
            |p: ParameterView| write_line(p),
        ));
        let mut out = String::from_str(BUILD_NAME_OPEN);
        out.append(self.builder_type.long());
        out.append(UNDERSCORE);
        out.append(lowercase_name.as_str());
        out.append(BUILD_ARGUMENTS_OPEN);
        out.append(self.builder_type.short());
        out.append(UNDERSCORE);
        out.append(lowercase_name.as_str());
        out.append(BUILD_BODY_OPEN);
        out.append(self.key.as_str());
        out.append(BUILD_TAG_WRITTEN);
        out.append(join(&lines, "\n").as_str());
        out.append(BUILD_BODY_CLOSE);
        out
    }

    /// The function that decodes the variant from a buffer. The variant must
    /// be well formed: a string may only be its last parameter.
    pub fn build_frame_parser(&self) -> (r: String)
        requires
            self@.variant.well_formed(),
        ensures
            r@ == build_frame_parser_text(self@),
    {
        let lowercase_name = &self.lowercase_name;
        let mut lines: Vec<String> = Vec::new();
        let mut frees: Vec<String> = Vec::new();
        let mut i: usize = 0;
        while i < self.instruction.parameters.len()
            invariant
                i <= self.instruction.parameters.len(),
                lines.deep_view() == self@.variant.parameters.map_values(
                    |p: ParameterView| read_line(p),
                ).take(i as int),
                frees.deep_view() == free_blocks(self@.variant.parameters.take(i as int)),
            decreases self.instruction.parameters.len() - i,
        {
            let p = &self.instruction.parameters[i];
            let mut line = String::from_str(READ_OPEN);
            line.append(p.name.as_str());
            line.append(READ_CALL);
            line.append(p.data_type.to_rust_type_string().as_str());
            line.append(READ_CLOSE);
            assert(line@ == read_line(self@.variant.parameters[i as int]));
            let ghost before = lines.deep_view();
            lines.push(line);
            assert(lines.deep_view() =~= before.push(line@));
            proof {
                let params = self@.variant.parameters;
                assert(params.take(i + 1).drop_last() =~= params.take(i as int));
                assert(params.take(i + 1).last() == params[i as int]);
            }
            if p.data_type == ParameterType::String {
                let mut block = String::from_str(FREE_OPEN);
                block.append(p.name.as_str());
                block.append(FREE_CALL);
                block.append(p.name.as_str());
                block.append(FREE_CLOSE);
                let ghost before = frees.deep_view();
                frees.push(block);
                assert(frees.deep_view() =~= before.push(block@));
            }
            i += 1;
        }
        assert(lines.deep_view() =~= self@.variant.parameters.map_values(
            |p: ParameterView| read_line(p),
        ));
        assert(self@.variant.parameters.take(i as int) =~= self@.variant.parameters);
        let mut out = String::from_str(PARSE_NAME_OPEN);
        out.append(self.builder_type.long());
        out.append(UNDERSCORE);
        out.append(lowercase_name.as_str());
        out.append(PARSE_ARGUMENTS_OPEN);
        out.append(self.builder_type.short());
        out.append(UNDERSCORE);
        out.append(lowercase_name.as_str());
        out.append(PARSE_BODY_OPEN);
        out.append(self.builder_type.short());
        out.append(UNDERSCORE);
        out.append(lowercase_name.as_str());
        out.append(PARSE_CHECKS);
        out.append(self.key.as_str());
        out.append(PARSE_TAG_CHECKED);
        out.append(join(&lines, "\n").as_str());
        out.append(PARSE_FAILURE_OPEN);
        out.append(join(&frees, "\n\t\t\t").as_str());
        out.append(PARSE_BODY_CLOSE);
        out
    }

    /// The case of the dispatch that decodes the variant.
    pub fn build_dispatch_case(&self) -> (r: String)
        ensures
            r@ == dispatch_case_text(self@),
    {
        let lowercase_name = &self.lowercase_name;
        let mut out = String::from_str(CASE_OPEN);
        out.append(self.key.as_str());
        out.append(CASE_SIZE);
        out.append(self.builder_type.short());
        out.append(UNDERSCORE);
        out.append(lowercase_name.as_str());
        out.append(CASE_ALLOCATE);
        out.append(self.key.as_str());
        out.append(CASE_CALL);
        out.append(self.builder_type.long());
        out.append(UNDERSCORE);
        out.append(lowercase_name.as_str());
        out.append(CASE_CALL_ARGUMENTS);
        out.append(self.builder_type.short());
        out.append(UNDERSCORE);
        out.append(lowercase_name.as_str());
        out.append(CASE_CLOSE);
        out
    }
}

/// One enumerator: prefix, name in upper case, and the code as its value.
pub fn enumerator(prefix: &str, uppercase_name: &str, code: u32) -> (r: String)
    ensures
        r@ == enumerator_text(prefix@, uppercase_name@, code),
{
    let mut out = String::from_str(prefix);
    out.append(UNDERSCORE);
    out.append(uppercase_name);
    out.append(ENUM_ASSIGN);
    out.append(decimal(code as u64).as_str());
    out
}

/// The opening of an enumeration, from its name and the name in lower case.
pub fn enumeration_opening(name: &str, lowercase_name: &str) -> (r: String)
    ensures
        r@ == enumeration_opening_text(name@, lowercase_name@),
{
    let mut out = String::from_str(ENUM_COMMENT_OPEN);
    out.append(name);
    out.append(ENUM_TYPEDEF_OPEN);
    out.append(lowercase_name);
    out.append(ENUM_BODY_OPEN);
    out
}

/// The record that holds the parameters of a variant, from the name of the
/// variant in lower case.
pub fn parameters_record(lowercase_name: &str, parameters: &InstFeedback, struct_type: &str) -> (r:
    String)
    ensures
        r@ == record_text(lowercase_name@, parameters@, struct_type@),
{
    let mut lines: Vec<String> = Vec::new();
    let mut i: usize = 0;
    while i < parameters.parameters.len()
        invariant
            i <= parameters.parameters.len(),
            lines.deep_view() == parameters@.parameters.map_values(
                |p: ParameterView| p.c_definition_with_comment(),
            ).take(i as int),
        decreases parameters.parameters.len() - i,
    {
        let line = parameters.parameters[i].c_parameter_definition_with_comment();
        assert(line@ == parameters@.parameters[i as int].c_definition_with_comment());
        let ghost before = lines.deep_view();
        lines.push(line);
        assert(lines.deep_view() =~= before.push(line@));
        i += 1;
    }
    assert(lines.deep_view() =~= parameters@.parameters.map_values(
        |p: ParameterView| p.c_definition_with_comment(),
    ));
    let mut out = String::from_str(STRUCT_OPEN);
    out.append(struct_type);
    out.append(UNDERSCORE);
    out.append(lowercase_name);
    out.append(STRUCT_BODY_OPEN);
    out.append(join(&lines, "\n\t").as_str());
    out.append(STRUCT_CLOSE);
    out
}

/// The declaration of the encoder of a variant, from the name of the variant
/// in lower case.
pub fn encoder_declaration(lowercase_name: &str, inst: &str, short: &str) -> (r: String)
    ensures
        r@ == encoder_declaration_text(lowercase_name@, inst@, short@),
{
    let mut out = String::from_str(BUILD_NAME_OPEN);
    out.append(inst);
    out.append(UNDERSCORE);
    out.append(lowercase_name);
    out.append(BUILD_ARGUMENTS_OPEN);
    out.append(short);
    out.append(UNDERSCORE);
    out.append(lowercase_name);
    out.append(DECLARATION_CLOSE);
    out
}

impl FrameType {
    /// The prefix of the enumerators of the category.
    pub fn prefix(&self) -> (r: &'static str)
        ensures
            r@ == self.enumerator_prefix(),
    {
        match self {
            Self::Instruction => "INST",
            Self::Feedback => "FB",
        }
    }
}

impl CppLanguageModel {
    /// The enumerators of a list of variants, each with its code as value.
    pub fn get_formatted_enumeration_codes(
        &self,
        parameters: &Vec<(u32, String, InstFeedback)>,
        prefix: &str,
    ) -> (r: String)
        ensures
            r@ == enumeration_codes_text(named_variants(parameters@), prefix@),
    {
        let ghost list = named_variants(parameters@);
        let mut lines: Vec<String> = Vec::new();
        let mut i: usize = 0;
        while i < parameters.len()
            invariant
                i <= parameters.len(),
                list == named_variants(parameters@),
                lines.deep_view() == list.map_values(
                    |v: NamedVariant| enumeration_line(v, prefix@),
                ).take(i as int),
            decreases parameters.len() - i,
        {
            let line = enumerator(
                prefix,
                to_uppercase(parameters[i].1.as_str()).as_str(),
                parameters[i].0,
            );
            assert(line@ == enumeration_line(list[i as int], prefix@));
            let ghost before = lines.deep_view();
            lines.push(line);
            assert(lines.deep_view() =~= before.push(line@));
            i += 1;
        }
        assert(lines.deep_view() =~= list.map_values(
            |v: NamedVariant| enumeration_line(v, prefix@),
        ));
        join(&lines, ",\n\t")
    }

    /// The opening of an enumeration.
    pub fn enumerations_header(&self, enumeration_name: &str) -> (r: String)
        ensures
            r@ == enumerations_header_text(enumeration_name@),
    {
        enumeration_opening(enumeration_name, to_lowercase(enumeration_name).as_str())
    }

    /// The closing of an enumeration.
    pub fn enumerations_footer(&self, enumeration_name: &str) -> (r: String)
        ensures
            r@ == enumerations_footer_text(enumeration_name@),
    {
        let mut out = String::from_str(ENUM_BODY_CLOSE);
        out.append(enumeration_name);
        out.append(ENUM_END);
        out
    }

    /// The record that holds the parameters of a variant.
    pub fn create_parameters_structure(
        &self,
        name: &str,
        parameters: &InstFeedback,
        struct_type: &str,
    ) -> (r: String)
        ensures
            r@ == parameters_structure_text(name@, parameters@, struct_type@),
    {
        parameters_record(to_lowercase(name).as_str(), parameters, struct_type)
    }

    /// The declaration of the encoder of a variant.
    pub fn declare_build_function(&self, name: &str, inst: &str, short: &str) -> (r: String)
        ensures
            r@ == declare_build_function_text(name@, inst@, short@),
    {
        encoder_declaration(to_lowercase(name).as_str(), inst, short)
    }

    /// The enumeration of the codes of one category.
    pub fn declare_enum(&self, codes: &CodesFile, kind: FrameType) -> (r: String)
        ensures
            r@ == enumeration_text(variants_of(codes@, kind), kind),
    {
        let mut out = self.enumerations_header(kind.struct_name());
        out.append(self.get_formatted_enumeration_codes(&codes.get_variants(kind), kind.prefix()).as_str());
        out.append(self.enumerations_footer(kind.struct_name()).as_str());
        out
    }

    /// The enumeration of the feedbacks.
    pub fn declare_feedback_enum(&self, parameters: &CodesFile) -> (r: String)
        ensures
            r@ == enumeration_text(
                variants_of(parameters@, FrameType::Feedback),
                FrameType::Feedback,
            ),
    {
        self.declare_enum(parameters, FrameType::Feedback)
    }

    /// The enumeration of the instructions.
    pub fn declare_instructions_enum(&self, parameters: &CodesFile) -> (r: String)
        ensures
            r@ == enumeration_text(
                variants_of(parameters@, FrameType::Instruction),
                FrameType::Instruction,
            ),
    {
        self.declare_enum(parameters, FrameType::Instruction)
    }

    /// The records of all variants of one category.
    pub fn declare_structures(&self, codes: &CodesFile, kind: FrameType) -> (r: String)
        ensures
            r@ == structures_text(variants_of(codes@, kind), kind),
    {
        let variants = codes.get_variants(kind);
        let ghost list = named_variants(variants@);
        let mut parts: Vec<String> = Vec::new();
        let mut i: usize = 0;
        while i < variants.len()
            invariant
                i <= variants.len(),
                list == named_variants(variants@),
                parts.deep_view() == list.map_values(
                    |v: NamedVariant|
                        parameters_structure_text(v.name, v.variant, kind.short_text()),
                ).take(i as int),
            decreases variants.len() - i,
        {
            let part = self.create_parameters_structure(
                variants[i].1.as_str(),
                &variants[i].2,
                kind.short(),
            );
            assert(part@ == parameters_structure_text(
                list[i as int].name,
                list[i as int].variant,
                kind.short_text(),
            ));
            let ghost before = parts.deep_view();
            parts.push(part);
            assert(parts.deep_view() =~= before.push(part@));
            i += 1;
        }
        assert(parts.deep_view() =~= list.map_values(
            |v: NamedVariant| parameters_structure_text(v.name, v.variant, kind.short_text()),
        ));
        join(&parts, "")
    }

    /// The records of the feedbacks.
    pub fn declare_feedback_structures(&self, parameters: &CodesFile) -> (r: String)
        ensures
            r@ == structures_text(
                variants_of(parameters@, FrameType::Feedback),
                FrameType::Feedback,
            ),
    {
        self.declare_structures(parameters, FrameType::Feedback)
    }

    /// The records of the instructions.
    pub fn declare_instructions_structures(&self, parameters: &CodesFile) -> (r: String)
        ensures
            r@ == structures_text(
                variants_of(parameters@, FrameType::Instruction),
                FrameType::Instruction,
            ),
    {
        self.declare_structures(parameters, FrameType::Instruction)
    }

    /// The encoder declarations of all variants of one category.
    pub fn declare_functions(&self, codes: &CodesFile, kind: FrameType) -> (r: String)
        ensures
            r@ == functions_text(variants_of(codes@, kind), kind),
    {
        let variants = codes.get_variants(kind);
        let ghost list = named_variants(variants@);
        let mut parts: Vec<String> = Vec::new();
        let mut i: usize = 0;
        while i < variants.len()
            invariant
                i <= variants.len(),
                list == named_variants(variants@),
                parts.deep_view() == list.map_values(
                    |v: NamedVariant|
                        declare_build_function_text(v.name, kind.long_text(), kind.short_text()),
                ).take(i as int),
            decreases variants.len() - i,
        {
            let part = self.declare_build_function(
                variants[i].1.as_str(),
                kind.long(),
                kind.short(),
            );
            assert(part@ == declare_build_function_text(
                list[i as int].name,
                kind.long_text(),
                kind.short_text(),
            ));
            let ghost before = parts.deep_view();
            parts.push(part);
            assert(parts.deep_view() =~= before.push(part@));
            i += 1;
        }
        assert(parts.deep_view() =~= list.map_values(
            |v: NamedVariant|
                declare_build_function_text(v.name, kind.long_text(), kind.short_text()),
        ));
        join(&parts, "")
    }

    /// The encoder declarations of the feedbacks.
    pub fn declare_feedbacks_functions(&self, codes: &CodesFile) -> (r: String)
        ensures
            r@ == functions_text(variants_of(codes@, FrameType::Feedback), FrameType::Feedback),
    {
        self.declare_functions(codes, FrameType::Feedback)
    }

    /// The encoder declarations of the instructions.
    pub fn declare_instructions_functions(&self, codes: &CodesFile) -> (r: String)
        ensures
            r@ == functions_text(
                variants_of(codes@, FrameType::Instruction),
                FrameType::Instruction,
            ),
    {
        self.declare_functions(codes, FrameType::Instruction)
    }

    /// The encoder of one instruction.
    pub fn write_instruction_frame_builder(
        &self,
        _key: u32,
        name: &str,
        instruction: &InstFeedback,
    ) -> (r: String)
        requires
            instruction@.well_formed(),
        ensures
            r@ == build_frame_text(
                builder_of(FrameType::Instruction, name@, instruction@),
            ),
    {
        WriteFrameBuilder::new(FrameType::Instruction, name, instruction).build_frame()
    }

    /// The encoder of one feedback.
    pub fn write_feedback_frame_builder(
        &self,
        _key: u32,
        name: &str,
        instruction: &InstFeedback,
    ) -> (r: String)
        requires
            instruction@.well_formed(),
        ensures
            r@ == build_frame_text(
                builder_of(FrameType::Feedback, name@, instruction@),
            ),
    {
        WriteFrameBuilder::new(FrameType::Feedback, name, instruction).build_frame()
    }

    /// The decoder of one feedback.
    pub fn write_feedback_frame_parser(&self, _key: u32, name: &str, fb: &InstFeedback) -> (r:
        String)
        requires
            fb@.well_formed(),
        ensures
            r@ == build_frame_parser_text(
                builder_of(FrameType::Feedback, name@, fb@),
            ),
    {
        WriteFrameBuilder::new(FrameType::Feedback, name, fb).build_frame_parser()
    }

    /// The decoder of one instruction.
    pub fn write_instruction_frame_parser(&self, _key: u32, name: &str, inst: &InstFeedback) -> (r:
        String)
        requires
            inst@.well_formed(),
        ensures
            r@ == build_frame_parser_text(
                builder_of(FrameType::Instruction, name@, inst@),
            ),
    {
        WriteFrameBuilder::new(FrameType::Instruction, name, inst).build_frame_parser()
    }

    /// The function that reads the tag of a frame and hands the frame to the
    /// decoder of its variant.
    pub fn write_frames_dispatch(
        &self,
        builder_type: FrameType,
        instructions: Vec<(u32, String, InstFeedback)>,
    ) -> (r: String)
        ensures
            r@ == frames_dispatch_text(named_variants(instructions@), builder_type),
    {
        let ghost list = named_variants(instructions@);
        let mut parts: Vec<String> = Vec::new();
        let mut i: usize = 0;
        while i < instructions.len()
            invariant
                i <= instructions.len(),
                list == named_variants(instructions@),
                parts.deep_view() == list.map_values(
                    |v: NamedVariant| dispatch_case_text(builder_of(builder_type, v.name, v.variant)),
                ).take(i as int),
            decreases instructions.len() - i,
        {
            let part = WriteFrameBuilder::new(
                builder_type,
                instructions[i].1.as_str(),
                &instructions[i].2,
            ).build_dispatch_case();
            assert(part@ == dispatch_case_text(builder_of(builder_type, list[i as int].name, list[i as int].variant)));
            let ghost before = parts.deep_view();
            parts.push(part);
            assert(parts.deep_view() =~= before.push(part@));
            i += 1;
        }
        assert(parts.deep_view() =~= list.map_values(
            |v: NamedVariant| dispatch_case_text(builder_of(builder_type, v.name, v.variant)),
        ));
        let mut out = String::from_str(PARSE_NAME_OPEN);
        out.append(builder_type.long());
        out.append(DISPATCH_ARGUMENTS_OPEN);
        out.append(builder_type.struct_name());
        out.append(DISPATCH_BODY_OPEN);
        out.append(join(&parts, "").as_str());
        out.append(DISPATCH_BODY_CLOSE);
        out
    }

    /// The dispatch of the feedbacks.
    pub fn implement_feedback_frames_dispatch(&self, codes: &CodesFile) -> (r: String)
        ensures
            r@ == frames_dispatch_text(
                variants_of(codes@, FrameType::Feedback),
                FrameType::Feedback,
            ),
    {
        self.write_frames_dispatch(FrameType::Feedback, codes.get_feedbacks())
    }

    /// The dispatch of the instructions.
    pub fn implement_instruction_frames_dispatch(&self, codes: &CodesFile) -> (r: String)
        ensures
            r@ == frames_dispatch_text(
                variants_of(codes@, FrameType::Instruction),
                FrameType::Instruction,
            ),
    {
        self.write_frames_dispatch(FrameType::Instruction, codes.get_instructions())
    }

    /// The encoders of all variants of one category.
    pub fn implement_builders(&self, codes: &CodesFile, kind: FrameType) -> (r: String)
        requires
            valid_schema(codes@),
        ensures
            r@ == builders_text(variants_of(codes@, kind), kind),
    {
        let variants = codes.get_variants(kind);
        let ghost list = named_variants(variants@);
        proof {
            lemma_variants_valid(codes@, kind);
        }
        let mut parts: Vec<String> = Vec::new();
        let mut i: usize = 0;
        while i < variants.len()
            invariant
                i <= variants.len(),
                list == named_variants(variants@),
                valid_variants(list),
                parts.deep_view() == list.map_values(
                    |v: NamedVariant| build_frame_text(builder_of(kind, v.name, v.variant)),
                ).take(i as int),
            decreases variants.len() - i,
        {
            assert(list[i as int].valid());
            let part = WriteFrameBuilder::new(
                kind,
                variants[i].1.as_str(),
                &variants[i].2,
            ).build_frame();
            assert(part@ == build_frame_text(builder_of(kind, list[i as int].name, list[i as int].variant)));
            let ghost before = parts.deep_view();
            parts.push(part);
            assert(parts.deep_view() =~= before.push(part@));
            i += 1;
        }
        assert(parts.deep_view() =~= list.map_values(
            |v: NamedVariant| build_frame_text(builder_of(kind, v.name, v.variant)),
        ));
        join(&parts, "")
    }

    /// The encoders of the feedbacks.
    pub fn implement_feedbacks_builders(&self, codes: &CodesFile) -> (r: String)
        requires
            valid_schema(codes@),
        ensures
            r@ == builders_text(variants_of(codes@, FrameType::Feedback), FrameType::Feedback),
    {
        self.implement_builders(codes, FrameType::Feedback)
    }

    /// The encoders of the instructions.
    pub fn implement_instructions_builders(&self, codes: &CodesFile) -> (r: String)
        requires
            valid_schema(codes@),
        ensures
            r@ == builders_text(
                variants_of(codes@, FrameType::Instruction),
                FrameType::Instruction,
            ),
    {
        self.implement_builders(codes, FrameType::Instruction)
    }

    /// The decoders of all variants of one category.
    pub fn implement_decoders(&self, codes: &CodesFile, kind: FrameType) -> (r: String)
        requires
            valid_schema(codes@),
        ensures
            r@ == decoders_text(variants_of(codes@, kind), kind),
    {
        let variants = codes.get_variants(kind);
        let ghost list = named_variants(variants@);
        proof {
            lemma_variants_valid(codes@, kind);
        }
        let mut parts: Vec<String> = Vec::new();
        let mut i: usize = 0;
        while i < variants.len()
            invariant
                i <= variants.len(),
                list == named_variants(variants@),
                valid_variants(list),
                parts.deep_view() == list.map_values(
                    |v: NamedVariant| build_frame_parser_text(builder_of(kind, v.name, v.variant)),
                ).take(i as int),
            decreases variants.len() - i,
        {
            assert(list[i as int].valid());
            let part = WriteFrameBuilder::new(
                kind,
                variants[i].1.as_str(),
                &variants[i].2,
            ).build_frame_parser();
            assert(part@ == build_frame_parser_text(builder_of(kind, list[i as int].name, list[i as int].variant)));
            let ghost before = parts.deep_view();
            parts.push(part);
            assert(parts.deep_view() =~= before.push(part@));
            i += 1;
        }
        assert(parts.deep_view() =~= list.map_values(
            |v: NamedVariant| build_frame_parser_text(builder_of(kind, v.name, v.variant)),
        ));
        join(&parts, "")
    }

    /// The decoders of the feedbacks.
    pub fn implement_feedbacks_decoders(&self, codes: &CodesFile) -> (r: String)
        requires
            valid_schema(codes@),
        ensures
            r@ == decoders_text(variants_of(codes@, FrameType::Feedback), FrameType::Feedback),
    {
        self.implement_decoders(codes, FrameType::Feedback)
    }

    /// The decoders of the instructions.
    pub fn implement_instructions_decoders(&self, codes: &CodesFile) -> (r: String)
        requires
            valid_schema(codes@),
        ensures
            r@ == decoders_text(
                variants_of(codes@, FrameType::Instruction),
                FrameType::Instruction,
            ),
    {
        self.implement_decoders(codes, FrameType::Instruction)
    }

    /// The declarations of one category.
    pub fn declare(&self, codes: &CodesFile, kind: FrameType) -> (r: String)
        ensures
            r@ == cpp_declarations_text(codes@, kind),
    {
        let mut out = self.declare_enum(codes, kind);
        out.append(self.declare_structures(codes, kind).as_str());
        out.append(self.declare_functions(codes, kind).as_str());
        out
    }

    /// The implementation of one category.
    pub fn implement(&self, codes: &CodesFile, kind: FrameType) -> (r: String)
        requires
            valid_schema(codes@),
        ensures
            r@ == cpp_implementation_text(codes@, kind),
    {
        let mut out = self.implement_builders(codes, kind);
        out.append(self.implement_decoders(codes, kind).as_str());
        out.append(self.write_frames_dispatch(kind, codes.get_variants(kind)).as_str());
        out
    }
}

/// The name of the header that goes with a file: the name of the file with
/// every `.cpp`, and then every `.c`, replaced by `.h`.
pub open spec fn header_name_text(file_name: Seq<char>) -> Seq<char> {
    replaced(replaced(file_name, ".cpp"@, ".h"@), ".c"@, ".h"@)
}

/// The name of the header that goes with a file, from the name of the file
/// without its directories.
pub fn header_name(file_name: &str) -> (r: String)
    ensures
        r@ == header_name_text(file_name@),
{
    let first = replace_all(file_name, ".cpp", ".h");
    replace_all(first.as_str(), ".c", ".h")
}

/// Calls `Path::file_name`, which gives the last component of a path, if
/// there is one. Nothing is claimed of the result: where a component begins
/// depends on the separators of the platform.
#[verifier::external_body]
fn file_name_of(path: &str) -> (r: Option<String>) {
    let name = Path::new(path).file_name()?;
    Some(name.to_str()?.to_string())
}

/// The path that names the header of a C source file: that of the header
/// file where one is asked for, else that of the source file itself.
pub fn header_path<'a>(source_file_name: &'a str, header_file: &'a Option<String>) -> (r: &'a str)
    ensures
        r@ == (match header_file {
            Some(header) => header@,
            None => source_file_name@,
        }),
{
    match header_file {
        Some(header) => header.as_str(),
        None => source_file_name,
    }
}

/// The name of the header that a C source file includes: the header name of
/// the last component of the header path. There is none where the path has
/// no last component.
pub fn header_name_for(source_file_name: &str, header_file: &Option<String>) -> (r: Option<String>)
    ensures
        r matches Some(header) ==> exists|name: Seq<char>|
            header@ == #[trigger] header_name_text(name),
{
    let path = header_path(source_file_name, header_file);
    match file_name_of(path) {
        Some(name) => Some(header_name(name.as_str())),
        None => None,
    }
}

impl LanguageModel for CppLanguageModel {
    open spec fn includes_text(&self) -> Seq<char> {
        match self.headerfile_name {
            Some(header) => INCLUDE_OPEN@ + header@ + INCLUDE_CLOSE@,
            None => Seq::empty(),
        }
    }

    open spec fn footer_text(&self) -> Seq<char> {
        match self.headerfile_name {
            Some(_) => Seq::empty(),
            None => EXTERNAL_DECLARATIONS@,
        }
    }

    open spec fn declarations_text(&self, codes: Map<u32, EntryView>, kind: FrameType) -> Seq<
        char,
    > {
        cpp_declarations_text(codes, kind)
    }

    open spec fn implementation_text(&self, codes: Map<u32, EntryView>, kind: FrameType) -> Seq<
        char,
    > {
        cpp_implementation_text(codes, kind)
    }

    fn custom_footer(&self) -> (r: String) {
        if self.headerfile_name.is_none() {
            String::from_str(EXTERNAL_DECLARATIONS)
        } else {
            String::new()
        }
    }

    fn custom_includes(&self) -> (r: String) {
        match &self.headerfile_name {
            Some(header_filename) => {
                let mut out = String::from_str(INCLUDE_OPEN);
                out.append(header_filename.as_str());
                out.append(INCLUDE_CLOSE);
                out
            },
            None => String::new(),
        }
    }

    fn implement_feedbacks(&self, codes: &CodesFile) -> (r: String) {
        self.implement(codes, FrameType::Feedback)
    }

    fn implement_instructions(&self, codes: &CodesFile) -> (r: String) {
        self.implement(codes, FrameType::Instruction)
    }

    fn declare_instructions(&self, codes: &CodesFile) -> (r: String) {
        self.declare(codes, FrameType::Instruction)
    }

    fn declare_feedbacks(&self, codes: &CodesFile) -> (r: String) {
        self.declare(codes, FrameType::Feedback)
    }
}

} // verus!
