//! The Rust backend: two enumerations, one per category, each with a
//! conversion to bytes and one from bytes.

use crate::generator::LanguageModel;
use crate::schema::{
    lemma_variants_valid, named_variants, valid_schema, valid_variants, variants_of, Codes,
    CodesFile, EntryView, FrameType, InstFeedback, NamedVariant, ParameterView, VariantView,
};
use crate::text::{decimal, decimal_text, join, joined, one_line, to_one_line};
use vstd::prelude::*;
use vstd::string::*;

verus! {

// The fixed text of the Rust that is written, cut wherever a name or a list
// is put in.

pub const ENUM_INSTRUCTIONS_OPEN: &'static str = "\n#[derive(PartialEq, Eq, Clone, Serialize, Debug)]\npub enum Instructions {\n    ";

pub const ENUM_INSTRUCTIONS_CLOSE: &'static str = "\n}\n\n\n";

pub const ENUM_FEEDBACKS_OPEN: &'static str = "\n#[derive(PartialEq, Eq, Clone, Serialize, Debug)]\npub enum Feedbacks {\n    ";

pub const ENUM_FEEDBACKS_CLOSE: &'static str = "\n}\n\n\n\n";

pub const IMPL_FEEDBACKS_OPEN: &'static str = "\nimpl Feedbacks {\n    pub fn to_bytes(self) -> Vec<u8> {\n        match self {\n            ";

pub const IMPL_INSTRUCTIONS_OPEN: &'static str = "\n\nimpl Instructions {\n    pub fn to_bytes(self) -> Vec<u8> {\n        match self {\n    ";

pub const FROM_BYTES_OPEN: &'static str = "\n        }\n    }\n\n    pub fn from_bytes(bytes: &[u8]) -> Result<Self, TypesEnumError> {\n        if bytes.is_empty() {\n            return Err(TypesEnumError::InvalidArgument);\n        }\n        match bytes[0] {\n            ";

pub const FALLBACK_SEPARATOR: &'static str = ",";

pub const IMPL_CLOSE: &'static str = "\n    _ => Err(TypesEnumError::UnknownCode)\n        }\n    }\n}\n";

pub const READ_OPEN: &'static str = "let (";

pub const READ_CALL: &'static str = ", bytes) = TypesEnum::";

pub const READ_CLOSE: &'static str = "_from_buffer(bytes)?;\n";

pub const ARM_OPEN: &'static str = "u8 => {\n                let bytes = &bytes[1..];\n                ";

pub const ARM_RESULT: &'static str = "\n                Ok(Self::";

pub const BRACE_OPEN: &'static str = "{";

pub const ARM_CLOSE: &'static str = "})\n            }\n                ";

pub const INSTRUCTION_COMMENT: &'static str = ",     // ";

pub const FEEDBACK_COMMENT: &'static str = ",    // ";

pub const BRACE_CLOSE: &'static str = "}";

pub const FIELD_TYPE: &'static str = ": ";

pub const WRITE_OPEN: &'static str = "TypesEnum::";

pub const WRITE_VALUE: &'static str = "(";

pub const WRITE_CLOSE: &'static str = ").write_to_buffer().as_slice()";

pub const SELF_VARIANT: &'static str = "Self::";

pub const BUILD_TAG_OPEN: &'static str = "} => vec![&[";

pub const BUILD_TAG_CLOSE: &'static str = "u8] as &[u8],";

pub const BUILD_CLOSE: &'static str = "].concat()";

/// The Rust backend.
pub struct RustLanguageModel {}

impl FrameType {
    /// What opens the enumeration of the category.
    pub open spec fn rust_enum_open(self) -> Seq<char> {
        match self {
            Self::Instruction => ENUM_INSTRUCTIONS_OPEN@,
            Self::Feedback => ENUM_FEEDBACKS_OPEN@,
        }
    }

    /// What closes the enumeration of the category.
    pub open spec fn rust_enum_close(self) -> Seq<char> {
        match self {
            Self::Instruction => ENUM_INSTRUCTIONS_CLOSE@,
            Self::Feedback => ENUM_FEEDBACKS_CLOSE@,
        }
    }

    /// What stands between a variant and the comment that describes it.
    pub open spec fn rust_comment_open(self) -> Seq<char> {
        match self {
            Self::Instruction => INSTRUCTION_COMMENT@,
            Self::Feedback => FEEDBACK_COMMENT@,
        }
    }

    /// What opens the implementation of the category.
    pub open spec fn rust_impl_open(self) -> Seq<char> {
        match self {
            Self::Instruction => IMPL_INSTRUCTIONS_OPEN@,
            Self::Feedback => IMPL_FEEDBACKS_OPEN@,
        }
    }
}

/// One field of a variant: name, colon, Rust type.
pub open spec fn field_text(p: ParameterView) -> Seq<char> {
    p.name + FIELD_TYPE@ + p.data_type.rust_name()
}

/// The fields of a variant, in braces.
pub open spec fn fields_text(variant: VariantView) -> Seq<char> {
    BRACE_OPEN@ + joined(variant.parameters.map_values(|p: ParameterView| field_text(p)), ","@)
        + BRACE_CLOSE@
}

/// The names of the parameters, with a separator.
pub open spec fn names_text(variant: VariantView, sep: Seq<char>) -> Seq<char> {
    joined(variant.parameters.map_values(|p: ParameterView| p.name), sep)
}

/// One variant of an enumeration, with its description, on one line, as a
/// comment.
pub open spec fn variant_line(v: NamedVariant, kind: FrameType) -> Seq<char> {
    v.name + fields_text(v.variant) + kind.rust_comment_open() + one_line(v.variant.description)
}

/// The statement that reads one field from the remaining bytes.
pub open spec fn read_statement(p: ParameterView) -> Seq<char> {
    READ_OPEN@ + p.name + READ_CALL@ + p.data_type.typesenum_parsing_name() + READ_CLOSE@
}

/// The match arm that decodes the frames of one code.
pub open spec fn parse_arm_text(id: u32, name: Seq<char>, variant: VariantView) -> Seq<char> {
    decimal_text(id as nat) + ARM_OPEN@ + joined(
        variant.parameters.map_values(|p: ParameterView| read_statement(p)),
        "\t\t\t\t"@,
    ) + ARM_RESULT@ + name + BRACE_OPEN@ + names_text(variant, ", "@) + ARM_CLOSE@
}

/// The expression that encodes one field.
pub open spec fn write_expression(p: ParameterView) -> Seq<char> {
    WRITE_OPEN@ + p.data_type.typesenum_name() + WRITE_VALUE@ + p.name + WRITE_CLOSE@
}

/// The match arm that encodes the frames of one code.
pub open spec fn build_arm_text(id: u32, name: Seq<char>, variant: VariantView) -> Seq<char> {
    SELF_VARIANT@ + name + BRACE_OPEN@ + names_text(variant, ","@) + BUILD_TAG_OPEN@
        + decimal_text(id as nat) + BUILD_TAG_CLOSE@ + joined(
        variant.parameters.map_values(|p: ParameterView| write_expression(p)),
        ","@,
    ) + BUILD_CLOSE@
}

/// The enumeration of one category.
pub open spec fn rust_declarations_text(codes: Map<u32, EntryView>, kind: FrameType) -> Seq<
    char,
> {
    kind.rust_enum_open() + joined(
        variants_of(codes, kind).map_values(|v: NamedVariant| variant_line(v, kind)),
        "\n\t"@,
    ) + kind.rust_enum_close()
}

/// The match arms that stand before the fallback arm, with the comma that
/// parts them from it. Without an arm there is no comma either.
pub open spec fn arms_before_fallback(arms: Seq<Seq<char>>) -> Seq<char> {
    if arms.len() == 0 {
        Seq::empty()
    } else {
        joined(arms, ",\n\t\t\t"@) + FALLBACK_SEPARATOR@
    }
}

/// The two conversions of one category. The conversion from bytes refuses an
/// empty buffer before it reads the tag.
pub open spec fn rust_implementation_text(codes: Map<u32, EntryView>, kind: FrameType) -> Seq<
    char,
> {
    kind.rust_impl_open() + joined(
        variants_of(codes, kind).map_values(
            |v: NamedVariant| build_arm_text(v.code, v.name, v.variant),
        ),
        ",\n\t\t\t"@,
    ) + FROM_BYTES_OPEN@ + arms_before_fallback(
        variants_of(codes, kind).map_values(
            |v: NamedVariant| parse_arm_text(v.code, v.name, v.variant),
        ),
    ) + IMPL_CLOSE@
}

/// The names of the parameters, with a separator.
fn parameter_names(variant: &InstFeedback, sep: &str) -> (r: String)
    ensures
        r@ == names_text(variant@, sep@),
{
    let mut names: Vec<String> = Vec::new();
    let mut i: usize = 0;
    while i < variant.parameters.len()
        invariant
            i <= variant.parameters.len(),
            names.deep_view() == variant@.parameters.map_values(|p: ParameterView| p.name).take(
                i as int,
            ),
        decreases variant.parameters.len() - i,
    {
        let name = variant.parameters[i].name.clone();
        assert(name@ == variant@.parameters[i as int].name);
        let ghost before = names.deep_view();
        names.push(name);
        assert(names.deep_view() =~= before.push(name@));
        i += 1;
    }
    assert(names.deep_view() =~= variant@.parameters.map_values(|p: ParameterView| p.name));
    join(&names, sep)
}

/// The match arm that decodes the frames of one code. The code must fit the
/// tag byte and the variant must be well formed.
pub fn parse_arm(id: u32, name: &str, variant: &InstFeedback) -> (r: String)
    requires
        id <= 255,
        variant@.well_formed(),
    ensures
        r@ == parse_arm_text(id, name@, variant@),
{
    let mut statements: Vec<String> = Vec::new();
    let mut i: usize = 0;
    while i < variant.parameters.len()
        invariant
            i <= variant.parameters.len(),
            statements.deep_view() == variant@.parameters.map_values(
                |p: ParameterView| read_statement(p),
            ).take(i as int),
        decreases variant.parameters.len() - i,
    {
        let p = &variant.parameters[i];
        let mut statement = String::from_str(READ_OPEN);
        statement.append(p.name.as_str());
        statement.append(READ_CALL);
        statement.append(p.data_type.to_typesenum_parsing_funtion_type());
        statement.append(READ_CLOSE);
        assert(statement@ == read_statement(variant@.parameters[i as int]));
        let ghost before = statements.deep_view();
        statements.push(statement);
        assert(statements.deep_view() =~= before.push(statement@));
        i += 1;
    }
    assert(statements.deep_view() =~= variant@.parameters.map_values(
        |p: ParameterView| read_statement(p),
    ));
    let mut out = decimal(id as u64);
    out.append(ARM_OPEN);
    out.append(join(&statements, "\t\t\t\t").as_str());
    out.append(ARM_RESULT);
    out.append(name);
    out.append(BRACE_OPEN);
    out.append(parameter_names(variant, ", ").as_str());
    out.append(ARM_CLOSE);
    out
}

/// The match arm that encodes the frames of one code. The code must fit the
/// tag byte and the variant must be well formed.
pub fn build_arm(id: u32, name: &str, variant: &InstFeedback) -> (r: String)
    requires
        id <= 255,
        variant@.well_formed(),
    ensures
        r@ == build_arm_text(id, name@, variant@),
{
    let mut expressions: Vec<String> = Vec::new();
    let mut i: usize = 0;
    while i < variant.parameters.len()
        invariant
            i <= variant.parameters.len(),
            expressions.deep_view() == variant@.parameters.map_values(
                |p: ParameterView| write_expression(p),
            ).take(i as int),
        decreases variant.parameters.len() - i,
    {
        let p = &variant.parameters[i];
        let mut expression = String::from_str(WRITE_OPEN);
        expression.append(p.data_type.to_typesenum_name());
        expression.append(WRITE_VALUE);
        expression.append(p.name.as_str());
        expression.append(WRITE_CLOSE);
        assert(expression@ == write_expression(variant@.parameters[i as int]));
        let ghost before = expressions.deep_view();
        expressions.push(expression);
        assert(expressions.deep_view() =~= before.push(expression@));
        i += 1;
    }
    assert(expressions.deep_view() =~= variant@.parameters.map_values(
        |p: ParameterView| write_expression(p),
    ));
    let mut out = String::from_str(SELF_VARIANT);
    out.append(name);
    out.append(BRACE_OPEN);
    out.append(parameter_names(variant, ",").as_str());
    out.append(BUILD_TAG_OPEN);
    out.append(decimal(id as u64).as_str());
    out.append(BUILD_TAG_CLOSE);
    out.append(join(&expressions, ",").as_str());
    out.append(BUILD_CLOSE);
    out
}

/// The match arm that decodes the frames of one code.
pub fn parse_frame_to_fields(id: u32, code: &Codes, code_fb: &InstFeedback) -> (r: String)
    requires
        id <= 255,
        code_fb@.well_formed(),
    ensures
        r@ == parse_arm_text(id, code@.name, code_fb@),
{
    parse_arm(id, code.name.as_str(), code_fb)
}

/// The match arm that encodes the frames of one code.
pub fn build_frame_from_fields(id: u32, code: &Codes, code_fb: &InstFeedback) -> (r: String)
    requires
        id <= 255,
        code_fb@.well_formed(),
    ensures
        r@ == build_arm_text(id, code@.name, code_fb@),
{
    build_arm(id, code.name.as_str(), code_fb)
}

impl FrameType {
    fn enum_open(&self) -> (r: &'static str)
        ensures
            r@ == self.rust_enum_open(),
    {
        match self {
            Self::Instruction => ENUM_INSTRUCTIONS_OPEN,
            Self::Feedback => ENUM_FEEDBACKS_OPEN,
        }
    }

    fn enum_close(&self) -> (r: &'static str)
        ensures
            r@ == self.rust_enum_close(),
    {
        match self {
            Self::Instruction => ENUM_INSTRUCTIONS_CLOSE,
            Self::Feedback => ENUM_FEEDBACKS_CLOSE,
        }
    }

    fn comment_open(&self) -> (r: &'static str)
        ensures
            r@ == self.rust_comment_open(),
    {
        match self {
            Self::Instruction => INSTRUCTION_COMMENT,
            Self::Feedback => FEEDBACK_COMMENT,
        }
    }

    fn impl_open(&self) -> (r: &'static str)
        ensures
            r@ == self.rust_impl_open(),
    {
        match self {
            Self::Instruction => IMPL_INSTRUCTIONS_OPEN,
            Self::Feedback => IMPL_FEEDBACKS_OPEN,
        }
    }
}

impl RustLanguageModel {
    /// The fields of a variant, in braces, each with its Rust type.
    pub fn map_instfeedback_list_and_type(inst: &InstFeedback) -> (r: String)
        ensures
            r@ == fields_text(inst@),
    {
        let mut fields: Vec<String> = Vec::new();
        let mut i: usize = 0;
        while i < inst.parameters.len()
            invariant
                i <= inst.parameters.len(),
                fields.deep_view() == inst@.parameters.map_values(
                    |p: ParameterView| field_text(p),
                ).take(i as int),
            decreases inst.parameters.len() - i,
        {
            let v = &inst.parameters[i];
            let mut field = v.name.clone();
            field.append(FIELD_TYPE);
            field.append(v.data_type.to_rust_type_string().as_str());
            assert(field@ == field_text(inst@.parameters[i as int]));
            let ghost before = fields.deep_view();
            fields.push(field);
            assert(fields.deep_view() =~= before.push(field@));
            i += 1;
        }
        assert(fields.deep_view() =~= inst@.parameters.map_values(
            |p: ParameterView| field_text(p),
        ));
        let mut out = String::from_str(BRACE_OPEN);
        out.append(join(&fields, ",").as_str());
        out.append(BRACE_CLOSE);
        out
    }

    /// The enumeration of one category.
    pub fn declare(&self, codes: &CodesFile, kind: FrameType) -> (r: String)
        ensures
            r@ == rust_declarations_text(codes@, kind),
    {
        let variants = codes.get_variants(kind);
        let ghost list = named_variants(variants@);
        let mut lines: Vec<String> = Vec::new();
        let mut i: usize = 0;
        while i < variants.len()
            invariant
                i <= variants.len(),
                list == named_variants(variants@),
                lines.deep_view() == list.map_values(|v: NamedVariant| variant_line(v, kind)).take(
                    i as int,
                ),
            decreases variants.len() - i,
        {
            let mut line = variants[i].1.clone();
            line.append(Self::map_instfeedback_list_and_type(&variants[i].2).as_str());
            line.append(kind.comment_open());
            line.append(to_one_line(variants[i].2.description.as_str()).as_str());
            assert(line@ == variant_line(list[i as int], kind));
            let ghost before = lines.deep_view();
            lines.push(line);
            assert(lines.deep_view() =~= before.push(line@));
            i += 1;
        }
        assert(lines.deep_view() =~= list.map_values(|v: NamedVariant| variant_line(v, kind)));
        let mut out = String::from_str(kind.enum_open());
        out.append(join(&lines, "\n\t").as_str());
        out.append(kind.enum_close());
        out
    }

    /// The two conversions of one category.
    pub fn implement(&self, codes: &CodesFile, kind: FrameType) -> (r: String)
        requires
            valid_schema(codes@),
        ensures
            r@ == rust_implementation_text(codes@, kind),
    {
        let variants = codes.get_variants(kind);
        let ghost list = named_variants(variants@);
        proof {
            lemma_variants_valid(codes@, kind);
        }
        let mut builds: Vec<String> = Vec::new();
        let mut parses: Vec<String> = Vec::new();
        let mut i: usize = 0;
        while i < variants.len()
            invariant
                i <= variants.len(),
                list == named_variants(variants@),
                valid_variants(list),
                builds.deep_view() == list.map_values(
                    |v: NamedVariant| build_arm_text(v.code, v.name, v.variant),
                ).take(i as int),
                parses.deep_view() == list.map_values(
                    |v: NamedVariant| parse_arm_text(v.code, v.name, v.variant),
                ).take(i as int),
            decreases variants.len() - i,
        {
            assert(list[i as int].valid());
            let build = build_arm(variants[i].0, variants[i].1.as_str(), &variants[i].2);
            let parse = parse_arm(variants[i].0, variants[i].1.as_str(), &variants[i].2);
            assert(build@ == build_arm_text(
                list[i as int].code,
                list[i as int].name,
                list[i as int].variant,
            ));
            assert(parse@ == parse_arm_text(
                list[i as int].code,
                list[i as int].name,
                list[i as int].variant,
            ));
            let ghost before_builds = builds.deep_view();
            let ghost before_parses = parses.deep_view();
            builds.push(build);
            parses.push(parse);
            assert(builds.deep_view() =~= before_builds.push(build@));
            assert(parses.deep_view() =~= before_parses.push(parse@));
            i += 1;
        }
        assert(builds.deep_view() =~= list.map_values(
            |v: NamedVariant| build_arm_text(v.code, v.name, v.variant),
        ));
        assert(parses.deep_view() =~= list.map_values(
            |v: NamedVariant| parse_arm_text(v.code, v.name, v.variant),
        ));
        let mut out = String::from_str(kind.impl_open());
        out.append(join(&builds, ",\n\t\t\t").as_str());
        out.append(FROM_BYTES_OPEN);
        let mut arms = join(&parses, ",\n\t\t\t");
        if parses.len() > 0 {
            arms.append(FALLBACK_SEPARATOR);
        }
        assert(arms@ == arms_before_fallback(parses.deep_view()));
        out.append(arms.as_str());
        out.append(IMPL_CLOSE);
        out
    }
}

impl LanguageModel for RustLanguageModel {
    open spec fn includes_text(&self) -> Seq<char> {
        Seq::empty()
    }

    open spec fn footer_text(&self) -> Seq<char> {
        Seq::empty()
    }

    open spec fn declarations_text(&self, codes: Map<u32, EntryView>, kind: FrameType) -> Seq<
        char,
    > {
        rust_declarations_text(codes, kind)
    }

    open spec fn implementation_text(&self, codes: Map<u32, EntryView>, kind: FrameType) -> Seq<
        char,
    > {
        rust_implementation_text(codes, kind)
    }

    fn custom_includes(&self) -> (r: String) {
        String::new()
    }

    fn custom_footer(&self) -> (r: String) {
        String::new()
    }

    fn declare_instructions(&self, codes: &CodesFile) -> (r: String) {
        self.declare(codes, FrameType::Instruction)
    }

    fn declare_feedbacks(&self, codes: &CodesFile) -> (r: String) {
        self.declare(codes, FrameType::Feedback)
    }

    fn implement_feedbacks(&self, codes: &CodesFile) -> (r: String) {
        self.implement(codes, FrameType::Feedback)
    }

    fn implement_instructions(&self, codes: &CodesFile) -> (r: String) {
        self.implement(codes, FrameType::Instruction)
    }
}

} // verus!
