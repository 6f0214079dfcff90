//! The schema: numbered codes, each with an optional instruction and an
//! optional feedback, each an ordered list of typed parameters.

use crate::text::{decimal, decimal_text, one_line, to_one_line};
use crate::types::ParameterType;
use std::collections::BTreeMap;
use vstd::prelude::*;
use vstd::std_specs::btree::*;
use vstd::std_specs::cmp::OrdSpec;
use vstd::std_specs::iter::IteratorSpec;
use vstd::string::*;

verus! {

broadcast use {vstd::std_specs::btree::group_btree_axioms, vstd::laws_cmp::group_laws_cmp};

/// The two categories of frames. Each has its own space of tags.
#[derive(PartialEq, Eq, Clone, Copy, Debug, Structural)]
pub enum FrameType {
    Instruction,
    Feedback,
}

/// Why a schema is refused.
#[derive(PartialEq, Eq, Clone, Copy, Debug, Structural)]
pub enum SchemaError {
    /// A code is above 255 and cannot be the tag byte of a frame.
    CodeOutOfRange { code: u32 },
    /// A string parameter is followed by another parameter.
    StringNotLast { code: u32, frame_type: FrameType, index: usize },
}

/// One parameter: its name, what it means, and its type.
#[derive(Debug, PartialEq)]
pub struct InstFeedbackParameter {
    pub name: String,
    pub description: String,
    pub data_type: ParameterType,
}

/// An instruction or a feedback: a description and the parameters in wire
/// order.
#[derive(Debug, PartialEq)]
pub struct InstFeedback {
    pub description: String,
    pub parameters: Vec<InstFeedbackParameter>,
}

/// One code of the protocol.
#[derive(Debug, PartialEq)]
pub struct Codes {
    pub name: String,
    pub instruction: Option<InstFeedback>,
    pub feedback: Option<InstFeedback>,
}

/// The whole schema, keyed by the numeric code.
#[derive(Debug, PartialEq)]
pub struct CodesFile {
    pub codes: BTreeMap<u32, Codes>,
}

/// What a parameter is, as plain text and type.
pub struct ParameterView {
    pub name: Seq<char>,
    pub description: Seq<char>,
    pub data_type: ParameterType,
}

/// What an instruction or a feedback is.
pub struct VariantView {
    pub description: Seq<char>,
    pub parameters: Seq<ParameterView>,
}

/// What a code is.
pub struct EntryView {
    pub name: Seq<char>,
    pub instruction: Option<VariantView>,
    pub feedback: Option<VariantView>,
}

/// One variant of a category as the generators enumerate it: the code, the
/// name of its entry, and the variant.
pub struct NamedVariant {
    pub code: u32,
    pub name: Seq<char>,
    pub variant: VariantView,
}

impl View for InstFeedbackParameter {
    type V = ParameterView;

    open spec fn view(&self) -> ParameterView {
        ParameterView {
            name: self.name@,
            description: self.description@,
            data_type: self.data_type,
        }
    }
}

impl View for InstFeedback {
    type V = VariantView;

    open spec fn view(&self) -> VariantView {
        VariantView {
            description: self.description@,
            parameters: self.parameters@.map_values(|p: InstFeedbackParameter| p@),
        }
    }
}

/// The view of an optional variant.
pub open spec fn optional_view(v: Option<InstFeedback>) -> Option<VariantView> {
    match v {
        Some(v) => Some(v@),
        None => None,
    }
}

impl View for Codes {
    type V = EntryView;

    open spec fn view(&self) -> EntryView {
        EntryView {
            name: self.name@,
            instruction: optional_view(self.instruction),
            feedback: optional_view(self.feedback),
        }
    }
}

impl View for CodesFile {
    type V = Map<u32, EntryView>;

    open spec fn view(&self) -> Map<u32, EntryView> {
        Map::new(|code: u32| self.codes@.contains_key(code), |code: u32| self.codes@[code]@)
    }
}

impl EntryView {
    /// The variant of the entry in one category.
    pub open spec fn variant(self, kind: FrameType) -> Option<VariantView> {
        match kind {
            FrameType::Instruction => self.instruction,
            FrameType::Feedback => self.feedback,
        }
    }
}

impl VariantView {
    /// The types of the parameters, in wire order.
    pub open spec fn types(self) -> Seq<ParameterType> {
        self.parameters.map_values(|p: ParameterView| p.data_type)
    }

    /// The index of the first string parameter that another parameter follows.
    pub open spec fn misplaced_string_from(self, start: nat) -> Option<nat>
        decreases self.parameters.len() - start,
    {
        if start + 1 >= self.parameters.len() {
            None
        } else if self.parameters[start as int].data_type == ParameterType::String {
            Some(start)
        } else {
            self.misplaced_string_from(start + 1)
        }
    }

    /// The index of the first string parameter that is not the last parameter.
    pub open spec fn misplaced_string(self) -> Option<nat> {
        self.misplaced_string_from(0)
    }

    /// A variant is well formed when only its last parameter may be a string.
    pub open spec fn well_formed(self) -> bool {
        forall|i: int|
            0 <= i < self.parameters.len() - 1 ==> (#[trigger] self.parameters[i]).data_type
                != ParameterType::String
    }
}

/// The variants of one category among the codes below a bound, by rising code.
pub open spec fn variants_below(codes: Map<u32, EntryView>, kind: FrameType, bound: nat) -> Seq<
    NamedVariant,
>
    decreases bound,
{
    if bound == 0 {
        Seq::empty()
    } else {
        let before = variants_below(codes, kind, (bound - 1) as nat);
        let code = (bound - 1) as u32;
        if bound - 1 <= u32::MAX && codes.contains_key(code) && codes[code].variant(kind) is Some {
            before.push(
                NamedVariant {
                    code,
                    name: codes[code].name,
                    variant: codes[code].variant(kind).unwrap(),
                },
            )
        } else {
            before
        }
    }
}

/// All variants of one category, by rising code.
pub open spec fn variants_of(codes: Map<u32, EntryView>, kind: FrameType) -> Seq<NamedVariant> {
    variants_below(codes, kind, 0x1_0000_0000)
}

/// What a list of enumerated variants holds.
pub open spec fn named_variants(list: Seq<(u32, String, InstFeedback)>) -> Seq<NamedVariant> {
    list.map_values(
        |t: (u32, String, InstFeedback)| NamedVariant { code: t.0, name: t.1@, variant: t.2@ },
    )
}

/// Codes that are absent add nothing to the enumeration.
pub proof fn lemma_variants_skip(codes: Map<u32, EntryView>, kind: FrameType, lo: nat, hi: nat)
    requires
        lo <= hi,
        forall|code: u32| lo <= code < hi ==> !codes.contains_key(code),
    ensures
        variants_below(codes, kind, hi) == variants_below(codes, kind, lo),
    decreases hi - lo,
{
    if lo < hi {
        lemma_variants_skip(codes, kind, lo, (hi - 1) as nat);
    }
}

proof fn lemma_keys_increasing(s: Seq<&u32>)
    requires
        increasing_seq(s),
    ensures
        forall|i: int, j: int| 0 <= i < j < s.len() ==> *s[i] < *s[j],
{
    assert(vstd::laws_cmp::obeys_cmp::<u32>());
    assert(vstd::laws_cmp::obeys_cmp::<&u32>());
    axiom_increasing_seq_meaning::<&u32>(s);
    assert forall|i: int, j: int| 0 <= i < j < s.len() implies *s[i] < *s[j] by {
        assert((&s[i]).cmp_spec(&s[j]) is Less);
    }
}

/// Whether a list holds exactly the given codes, each once, by rising value.
pub open spec fn lists_codes(list: Seq<u32>, codes: Set<u32>) -> bool {
    &&& forall|i: int, j: int| 0 <= i < j < list.len() ==> list[i] < list[j]
    &&& forall|code: u32| codes.contains(code) <==> list.contains(code)
}

/// The lowest code that a walk along the list has not passed yet, after `i`
/// of its codes.
pub open spec fn passed(list: Seq<u32>, i: int) -> nat {
    if i == 0 {
        0
    } else {
        (list[i - 1] + 1) as nat
    }
}

/// Between the codes that a walk has passed and the next code of the list
/// there is no code of the set.
pub proof fn lemma_gap(list: Seq<u32>, codes: Set<u32>, i: int)
    requires
        lists_codes(list, codes),
        0 <= i <= list.len(),
    ensures
        forall|c: u32|
            passed(list, i) <= c < (if i < list.len() {
                list[i] as int
            } else {
                0x1_0000_0000
            }) ==> !codes.contains(c),
{
    assert forall|c: u32|
        passed(list, i) <= c < (if i < list.len() {
            list[i] as int
        } else {
            0x1_0000_0000
        }) implies !codes.contains(c) by {
        if codes.contains(c) {
            assert(list.contains(c));
            let j = choose|j: int| 0 <= j < list.len() && list[j] == c;
            if j < i {
                if j < i - 1 {
                    assert(list[j] < list[i - 1]);
                }
            } else if j > i {
                assert(list[i] < list[j]);
            }
        }
    }
}

// The parts of the messages of a schema error.

pub const CODE_PATH_OPEN: &'static str = "codes.";

pub const CODE_OUT_OF_RANGE: &'static str = ": the code does not fit in the tag byte, which holds 0 to 255";

pub const PARAMETER_PATH_OPEN: &'static str = ".parameters[";

pub const STRING_NOT_LAST: &'static str =
    "].data_type: a string takes the rest of the frame and must be the last parameter";

impl SchemaError {
    /// The error as one line, with the path of what is wrong.
    pub open spec fn text(self) -> Seq<char> {
        match self {
            Self::CodeOutOfRange { code } => CODE_PATH_OPEN@ + decimal_text(code as nat)
                + CODE_OUT_OF_RANGE@,
            Self::StringNotLast { code, frame_type, index } => CODE_PATH_OPEN@ + decimal_text(
                code as nat,
            ) + "."@ + frame_type.long_text() + PARAMETER_PATH_OPEN@ + decimal_text(
                index as nat,
            ) + STRING_NOT_LAST@,
        }
    }

    /// The error as one line, with the path of what is wrong.
    pub fn to_string(&self) -> (r: String)
        ensures
            r@ == self.text(),
    {
        match self {
            Self::CodeOutOfRange { code } => {
                let mut out = String::from_str(CODE_PATH_OPEN);
                out.append(decimal(*code as u64).as_str());
                out.append(CODE_OUT_OF_RANGE);
                out
            },
            Self::StringNotLast { code, frame_type, index } => {
                let mut out = String::from_str(CODE_PATH_OPEN);
                out.append(decimal(*code as u64).as_str());
                out.append(".");
                out.append(frame_type.long());
                out.append(PARAMETER_PATH_OPEN);
                out.append(decimal(*index as u64).as_str());
                out.append(STRING_NOT_LAST);
                out
            },
        }
    }
}

impl FrameType {
    /// The short name of the category, as generated identifiers hold it.
    pub open spec fn short_text(self) -> Seq<char> {
        match self {
            Self::Instruction => "inst"@,
            Self::Feedback => "fb"@,
        }
    }

    /// The full name of the category.
    pub open spec fn long_text(self) -> Seq<char> {
        match self {
            Self::Instruction => "instruction"@,
            Self::Feedback => "feedback"@,
        }
    }

    /// The name of the generated type that enumerates the category.
    pub open spec fn struct_text(self) -> Seq<char> {
        match self {
            Self::Instruction => "Instructions"@,
            Self::Feedback => "Feedbacks"@,
        }
    }

    /// The short name of the category, as generated identifiers hold it.
    pub fn short(&self) -> (r: &'static str)
        ensures
            r@ == self.short_text(),
    {
        match self {
            Self::Instruction => "inst",
            Self::Feedback => "fb",
        }
    }

    /// The full name of the category.
    pub fn long(&self) -> (r: &'static str)
        ensures
            r@ == self.long_text(),
    {
        match self {
            Self::Instruction => "instruction",
            Self::Feedback => "feedback",
        }
    }

    /// The name of the generated type that enumerates the category.
    pub fn struct_name(&self) -> (r: &'static str)
        ensures
            r@ == self.struct_text(),
    {
        match self {
            Self::Instruction => "Instructions",
            Self::Feedback => "Feedbacks",
        }
    }
}

/// What is wrong with one entry, if anything: first its code, then its
/// instruction, then its feedback.
pub open spec fn entry_fault(code: u32, entry: EntryView) -> Option<SchemaError> {
    if code > 255 {
        Some(SchemaError::CodeOutOfRange { code })
    } else if entry.instruction is Some && entry.instruction.unwrap().misplaced_string() is Some {
        Some(
            SchemaError::StringNotLast {
                code,
                frame_type: FrameType::Instruction,
                index: entry.instruction.unwrap().misplaced_string().unwrap() as usize,
            },
        )
    } else if entry.feedback is Some && entry.feedback.unwrap().misplaced_string() is Some {
        Some(
            SchemaError::StringNotLast {
                code,
                frame_type: FrameType::Feedback,
                index: entry.feedback.unwrap().misplaced_string().unwrap() as usize,
            },
        )
    } else {
        None
    }
}

/// What is wrong with the entry of the lowest code that has a fault, among
/// the codes below a bound.
pub open spec fn first_fault_below(codes: Map<u32, EntryView>, bound: nat) -> Option<SchemaError>
    decreases bound,
{
    if bound == 0 {
        None
    } else {
        let code = (bound - 1) as u32;
        match first_fault_below(codes, (bound - 1) as nat) {
            Some(fault) => Some(fault),
            None => if bound - 1 <= u32::MAX && codes.contains_key(code) {
                entry_fault(code, codes[code])
            } else {
                None
            },
        }
    }
}

/// What is wrong with a schema, if anything.
pub open spec fn schema_fault(codes: Map<u32, EntryView>) -> Option<SchemaError> {
    first_fault_below(codes, 0x1_0000_0000)
}

/// A schema is valid when every code fits the tag byte and no variant has a
/// string parameter that is not its last.
pub open spec fn valid_schema(codes: Map<u32, EntryView>) -> bool {
    forall|code: u32| #[trigger]
        codes.contains_key(code) ==> {
            &&& code <= 255
            &&& codes[code].instruction matches Some(v) ==> v.well_formed()
            &&& codes[code].feedback matches Some(v) ==> v.well_formed()
        }
}

/// A misplaced string is found from an index on exactly when one stands at or
/// behind the index, before the last parameter.
pub proof fn lemma_misplaced_string_from(v: VariantView, start: nat)
    ensures
        match v.misplaced_string_from(start) {
            Some(i) => {
                &&& start <= i < v.parameters.len() - 1
                &&& v.parameters[i as int].data_type == ParameterType::String
                &&& forall|j: int|
                    start <= j < i ==> (#[trigger] v.parameters[j]).data_type
                        != ParameterType::String
            },
            None => forall|j: int|
                start <= j < v.parameters.len() - 1 ==> (#[trigger] v.parameters[j]).data_type
                    != ParameterType::String,
        },
    decreases v.parameters.len() - start,
{
    if start + 1 < v.parameters.len() && v.parameters[start as int].data_type
        != ParameterType::String {
        lemma_misplaced_string_from(v, start + 1);
    }
}

/// A variant is well formed exactly when no string is misplaced in it.
pub proof fn lemma_misplaced_string(v: VariantView)
    ensures
        v.misplaced_string() is None <==> v.well_formed(),
{
    lemma_misplaced_string_from(v, 0);
    if v.misplaced_string() is Some {
        let i = v.misplaced_string().unwrap();
        assert(v.parameters[i as int].data_type == ParameterType::String);
    }
}

/// An entry has no fault exactly when its code fits the tag byte and its
/// variants are well formed.
pub proof fn lemma_entry_fault(code: u32, entry: EntryView)
    ensures
        entry_fault(code, entry) is None <==> {
            &&& code <= 255
            &&& entry.instruction matches Some(v) ==> v.well_formed()
            &&& entry.feedback matches Some(v) ==> v.well_formed()
        },
{
    if entry.instruction is Some {
        lemma_misplaced_string(entry.instruction.unwrap());
    }
    if entry.feedback is Some {
        lemma_misplaced_string(entry.feedback.unwrap());
    }
}

/// No fault below a bound means that no entry below the bound has one.
pub proof fn lemma_first_fault_below(codes: Map<u32, EntryView>, bound: nat)
    requires
        bound <= 0x1_0000_0000,
    ensures
        first_fault_below(codes, bound) is None <==> forall|code: u32|
            code < bound && #[trigger] codes.contains_key(code) ==> entry_fault(code, codes[code])
                is None,
    decreases bound,
{
    if bound > 0 {
        lemma_first_fault_below(codes, (bound - 1) as nat);
        let last = (bound - 1) as u32;
        if first_fault_below(codes, bound) is None {
            assert forall|code: u32| code < bound && #[trigger] codes.contains_key(code) implies entry_fault(code, codes[code]) is None by {
                if code < last {
                } else {
                    assert(code == last);
                }
            }
        }
    }
}

/// A schema is rejected exactly when it is not valid.
pub proof fn lemma_schema_fault(codes: Map<u32, EntryView>)
    ensures
        schema_fault(codes) is None <==> valid_schema(codes),
{
    lemma_first_fault_below(codes, 0x1_0000_0000);
    assert forall|code: u32| #[trigger] codes.contains_key(code) implies (entry_fault(code, codes[code]) is None <==> {
        &&& code <= 255
        &&& codes[code].instruction matches Some(v) ==> v.well_formed()
        &&& codes[code].feedback matches Some(v) ==> v.well_formed()
    }) by {
        lemma_entry_fault(code, codes[code]);
    }
}

impl NamedVariant {
    /// Whether the variant can be laid out: its code fits the tag byte and
    /// only its last parameter may be a string.
    pub open spec fn valid(self) -> bool {
        self.code <= 255 && self.variant.well_formed()
    }
}

/// Whether every variant of a list can be laid out.
pub open spec fn valid_variants(list: Seq<NamedVariant>) -> bool {
    forall|i: int| 0 <= i < list.len() ==> (#[trigger] list[i]).valid()
}

/// The variants that a valid schema enumerates below a bound can be laid out.
pub proof fn lemma_variants_below_valid(codes: Map<u32, EntryView>, kind: FrameType, bound: nat)
    requires
        valid_schema(codes),
    ensures
        valid_variants(variants_below(codes, kind, bound)),
    decreases bound,
{
    if bound > 0 {
        lemma_variants_below_valid(codes, kind, (bound - 1) as nat);
        let before = variants_below(codes, kind, (bound - 1) as nat);
        let code = (bound - 1) as u32;
        if bound - 1 <= u32::MAX && codes.contains_key(code) && codes[code].variant(kind) is Some {
            let list = variants_below(codes, kind, bound);
            assert forall|i: int| 0 <= i < list.len() implies (#[trigger] list[i]).valid() by {
                if i < before.len() {
                    assert(list[i] == before[i]);
                }
            }
        }
    }
}

/// The variants that a valid schema enumerates can be laid out.
pub proof fn lemma_variants_valid(codes: Map<u32, EntryView>, kind: FrameType)
    requires
        valid_schema(codes),
    ensures
        valid_variants(variants_of(codes, kind)),
{
    lemma_variants_below_valid(codes, kind, 0x1_0000_0000);
}

/// Codes that are absent have no fault.
pub proof fn lemma_fault_skip(codes: Map<u32, EntryView>, lo: nat, hi: nat)
    requires
        lo <= hi,
        first_fault_below(codes, lo) is None,
        forall|code: u32| lo <= code < hi ==> !codes.contains_key(code),
    ensures
        first_fault_below(codes, hi) is None,
    decreases hi - lo,
{
    if lo < hi {
        lemma_fault_skip(codes, lo, (hi - 1) as nat);
    }
}

/// A fault found below a bound stays the first fault below every higher bound.
pub proof fn lemma_fault_stays(codes: Map<u32, EntryView>, lo: nat, hi: nat)
    requires
        lo <= hi,
        first_fault_below(codes, lo) is Some,
    ensures
        first_fault_below(codes, hi) == first_fault_below(codes, lo),
    decreases hi - lo,
{
    if lo < hi {
        lemma_fault_stays(codes, lo, (hi - 1) as nat);
    }
}

impl Clone for InstFeedbackParameter {
    fn clone(&self) -> (r: Self)
        ensures
            r@ == self@,
    {
        InstFeedbackParameter {
            name: self.name.clone(),
            description: self.description.clone(),
            data_type: self.data_type,
        }
    }
}

impl Clone for InstFeedback {
    fn clone(&self) -> (r: Self)
        ensures
            r@ == self@,
    {
        let mut parameters: Vec<InstFeedbackParameter> = Vec::new();
        let mut i: usize = 0;
        while i < self.parameters.len()
            invariant
                i <= self.parameters.len(),
                parameters@.len() == i,
                forall|j: int| 0 <= j < i ==> (#[trigger] parameters@[j])@ == self.parameters@[j]@,
            decreases self.parameters.len() - i,
        {
            parameters.push(self.parameters[i].clone());
            i += 1;
        }
        let r = InstFeedback { description: self.description.clone(), parameters };
        assert(r@.parameters =~= self@.parameters);
        r
    }
}

impl InstFeedbackParameter {
    /// The parameter as a C declarator: type, then name.
    pub fn c_parameter_definition(&self) -> (r: String)
        ensures
            r@ == self@.c_definition(),
    {
        let mut out = self.data_type.to_cpp_type_string();
        out.append(" ");
        out.append(self.name.as_str());
        out
    }

    /// The parameter as a member of a C struct, with its description, on one
    /// line, as a comment.
    pub fn c_parameter_definition_with_comment(&self) -> (r: String)
        ensures
            r@ == self@.c_definition_with_comment(),
    {
        let mut out = self.data_type.to_cpp_type_string();
        out.append(" ");
        out.append(self.name.as_str());
        out.append(";\t// ");
        out.append(to_one_line(self.description.as_str()).as_str());
        out
    }
}

impl ParameterView {
    /// The parameter as a C declarator: type, then name.
    pub open spec fn c_definition(self) -> Seq<char> {
        self.data_type.cpp_name() + " "@ + self.name
    }

    /// The parameter as a member of a C struct, with its description, on one
    /// line, as a comment.
    pub open spec fn c_definition_with_comment(self) -> Seq<char> {
        self.data_type.cpp_name() + " "@ + self.name + ";\t// "@ + one_line(self.description)
    }
}

impl InstFeedback {
    /// The index of the first string parameter that is not the last parameter.
    /// Such a parameter would make the ones behind it unreachable.
    pub fn misplaced_string(&self) -> (r: Option<usize>)
        ensures
            r is Some <==> !self@.well_formed(),
            match r {
                Some(i) => self@.misplaced_string() == Some(i as nat),
                None => self@.misplaced_string() is None,
            },
    {
        let n = self.parameters.len();
        let mut i: usize = 0;
        while n > 0 && i < n - 1
            invariant
                n == self.parameters.len(),
                i <= n,
                self@.misplaced_string() == self@.misplaced_string_from(i as nat),
                forall|j: int|
                    0 <= j < i && j < n - 1 ==> (#[trigger] self@.parameters[j]).data_type
                        != ParameterType::String,
            decreases n - i,
        {
            if self.parameters[i].data_type == ParameterType::String {
                assert(self@.parameters[i as int].data_type == ParameterType::String);
                return Some(i);
            }
            i += 1;
        }
        None
    }
}

impl Codes {
    /// The instruction of the entry, with the name of the code.
    pub fn get_instructions(&self) -> (r: Option<(String, InstFeedback)>)
        ensures
            r is Some <==> self@.instruction is Some,
            r matches Some(pair) ==> pair.0@ == self@.name && Some(pair.1@) == self@.instruction,
    {
        match &self.instruction {
            Some(inst) => Some((self.name.clone(), inst.clone())),
            None => None,
        }
    }

    /// The feedback of the entry, with the name of the code.
    pub fn get_feedbacks(&self) -> (r: Option<(String, InstFeedback)>)
        ensures
            r is Some <==> self@.feedback is Some,
            r matches Some(pair) ==> pair.0@ == self@.name && Some(pair.1@) == self@.feedback,
    {
        match &self.feedback {
            Some(fb) => Some((self.name.clone(), fb.clone())),
            None => None,
        }
    }

    /// What is wrong with the entry under the given code, if anything.
    pub fn fault(&self, code: u32) -> (r: Option<SchemaError>)
        ensures
            r == entry_fault(code, self@),
    {
        if code > 255 {
            return Some(SchemaError::CodeOutOfRange { code });
        }
        match &self.instruction {
            Some(v) => match v.misplaced_string() {
                Some(index) => {
                    return Some(
                        SchemaError::StringNotLast {
                            code,
                            frame_type: FrameType::Instruction,
                            index,
                        },
                    );
                },
                None => {},
            },
            None => {},
        }
        match &self.feedback {
            Some(v) => match v.misplaced_string() {
                Some(index) => {
                    return Some(
                        SchemaError::StringNotLast { code, frame_type: FrameType::Feedback, index },
                    );
                },
                None => {},
            },
            None => {},
        }
        None
    }

    /// The variant of one category, with the name of the code.
    pub fn get_variant(&self, kind: FrameType) -> (r: Option<(String, InstFeedback)>)
        ensures
            r is Some <==> self@.variant(kind) is Some,
            r matches Some(pair) ==> pair.0@ == self@.name && Some(pair.1@) == self@.variant(kind),
    {
        match kind {
            FrameType::Instruction => self.get_instructions(),
            FrameType::Feedback => self.get_feedbacks(),
        }
    }
}

impl CodesFile {
    /// The codes of the schema, by rising value.
    pub fn sorted_codes(&self) -> (r: Vec<u32>)
        ensures
            lists_codes(r@, self@.dom()),
    {
        let mut out: Vec<u32> = Vec::new();
        let keys = self.codes.keys();
        for k in it: keys
            invariant
                out@ == it.seq().take(it.index() as int).unref(),
                it.seq() == spec_keys_iter(&self.codes).remaining(),
        {
            out.push(*k);
            assert(it.seq().take(it.index() + 1).unref() =~= it.seq().take(
                it.index() as int,
            ).unref().push(*k));
        }
        proof {
            let s = spec_keys_iter(&self.codes).remaining();
            assert(s.take(s.len() as int) =~= s);
            assert(out@ == s.unref());
            lemma_keys_increasing(s);
            assert forall|i: int, j: int| 0 <= i < j < out@.len() implies out@[i] < out@[j] by {
                assert(s[i] == &out@[i]);
                assert(s[j] == &out@[j]);
            }
            assert(s.unref().to_set() == self.codes@.dom());
            assert forall|code: u32| self@.dom().contains(code) <==> out@.contains(code) by {
                assert(self@.dom().contains(code) <==> self.codes@.dom().contains(code));
                assert(out@.to_set().contains(code) <==> out@.contains(code));
            }
        }
        out
    }

    /// The variants of one category, by rising code.
    pub fn get_variants(&self, kind: FrameType) -> (r: Vec<(u32, String, InstFeedback)>)
        ensures
            named_variants(r@) == variants_of(self@, kind),
    {
        let keys = self.sorted_codes();
        let mut out: Vec<(u32, String, InstFeedback)> = Vec::new();
        let mut i: usize = 0;
        let ghost mut done: nat = 0;
        while i < keys.len()
            invariant
                i <= keys.len(),
                lists_codes(keys@, self@.dom()),
                done == passed(keys@, i as int),
                named_variants(out@) == variants_below(self@, kind, done),
            decreases keys.len() - i,
        {
            let code = keys[i];
            proof {
                lemma_gap(keys@, self@.dom(), i as int);
                lemma_variants_skip(self@, kind, done, code as nat);
                assert(keys@.contains(code));
                assert(self@.contains_key(code));
            }
            match self.codes.get(&code) {
                Some(entry) => {
                    assert(entry@ == self@[code]);
                    match entry.get_variant(kind) {
                        Some(pair) => {
                            let ghost before = named_variants(out@);
                            out.push((code, pair.0, pair.1));
                            assert(named_variants(out@) =~= before.push(
                                NamedVariant {
                                    code,
                                    name: self@[code].name,
                                    variant: self@[code].variant(kind).unwrap(),
                                },
                            ));
                        },
                        None => {},
                    }
                },
                None => {
                    assert(false);
                },
            }
            proof {
                done = (code + 1) as nat;
            }
            i += 1;
        }
        proof {
            lemma_gap(keys@, self@.dom(), keys@.len() as int);
            lemma_variants_skip(self@, kind, done, 0x1_0000_0000);
        }
        out
    }

    /// Checks the schema: every code must fit the tag byte, and in every
    /// variant only the last parameter may be a string. The fault reported is
    /// that of the lowest code that has one.
    pub fn validate(&self) -> (r: Result<(), SchemaError>)
        ensures
            r is Ok <==> valid_schema(self@),
            match schema_fault(self@) {
                Some(fault) => r == Err::<(), SchemaError>(fault),
                None => r is Ok,
            },
    {
        proof {
            lemma_schema_fault(self@);
        }
        let keys = self.sorted_codes();
        let mut i: usize = 0;
        let ghost mut done: nat = 0;
        while i < keys.len()
            invariant
                i <= keys.len(),
                lists_codes(keys@, self@.dom()),
                done <= 0x1_0000_0000,
                done == passed(keys@, i as int),
                first_fault_below(self@, done) is None,
            decreases keys.len() - i,
        {
            let code = keys[i];
            proof {
                lemma_gap(keys@, self@.dom(), i as int);
                lemma_fault_skip(self@, done, code as nat);
                assert(keys@.contains(code));
                assert(self@.contains_key(code));
            }
            match self.codes.get(&code) {
                Some(entry) => {
                    assert(entry@ == self@[code]);
                    let fault = entry.fault(code);
                    match fault {
                        Some(fault) => {
                            proof {
                                lemma_fault_stays(self@, (code + 1) as nat, 0x1_0000_0000);
                                lemma_schema_fault(self@);
                            }
                            return Err(fault);
                        },
                        None => {},
                    }
                },
                None => {
                    assert(false);
                },
            }
            proof {
                done = (code + 1) as nat;
            }
            i += 1;
        }
        proof {
            lemma_gap(keys@, self@.dom(), keys@.len() as int);
            lemma_fault_skip(self@, done, 0x1_0000_0000);
        }
        Ok(())
    }

    /// The instructions of the schema, by rising code.
    pub fn get_instructions(&self) -> (r: Vec<(u32, String, InstFeedback)>)
        ensures
            named_variants(r@) == variants_of(self@, FrameType::Instruction),
    {
        self.get_variants(FrameType::Instruction)
    }

    /// The feedbacks of the schema, by rising code.
    pub fn get_feedbacks(&self) -> (r: Vec<(u32, String, InstFeedback)>)
        ensures
            named_variants(r@) == variants_of(self@, FrameType::Feedback),
    {
        self.get_variants(FrameType::Feedback)
    }
}

} // verus!
