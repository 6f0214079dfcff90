//! Loading a schema from a document.
//!
//! A reader hands over the document as it found it: every scalar as the text
//! that was written, every field that may be missing as an option. Loading
//! checks that the required fields are there and that every type token spells
//! a type, and reports the first fault with the path of the field.

use crate::schema::{
    Codes, CodesFile, EntryView, FrameType, InstFeedback, InstFeedbackParameter, ParameterView,
    VariantView,
};
use crate::text::{decimal, decimal_text, lowercase_of};
use crate::types::{type_of_token, ParameterType};
use std::collections::BTreeMap;
use vstd::prelude::*;
use vstd::string::*;

verus! {

broadcast use {vstd::std_specs::btree::group_btree_axioms, vstd::laws_cmp::group_laws_cmp};

// The parts of paths and messages.

pub const CODES_FIELD: &'static str = "codes";

pub const PATH_SEPARATOR: &'static str = ".";

pub const PARAMETERS_OPEN: &'static str = ".parameters[";

pub const PARAMETERS_CLOSE: &'static str = "]";

pub const DATA_TYPE_FIELD: &'static str = ".data_type";

pub const MESSAGE_SEPARATOR: &'static str = ": ";

pub const INVALID_TYPE_OPEN: &'static str = "invalid value: string \"";

pub const INVALID_TYPE_CLOSE: &'static str =
    "\", expected a string representing type [uXX, iXX, string or bool]";

pub const MISSING_CODES: &'static str = "missing field `codes`";

pub const MISSING_NAME: &'static str = "missing field `name`";

pub const MISSING_DESCRIPTION: &'static str = "missing field `description`";

pub const MISSING_PARAMETERS: &'static str = "missing field `parameters`";

pub const MISSING_DATA_TYPE: &'static str = "missing field `data_type`";

/// A parameter as the document has it.
#[derive(Debug, PartialEq)]
pub struct RawParameter {
    pub name: Option<String>,
    pub description: Option<String>,
    pub data_type: Option<String>,
}

/// An instruction or a feedback as the document has it.
#[derive(Debug, PartialEq)]
pub struct RawVariant {
    pub description: Option<String>,
    pub parameters: Option<Vec<RawParameter>>,
}

/// One entry of the document: the code, the text that spelled it, and the
/// fields under it.
#[derive(Debug, PartialEq)]
pub struct RawCode {
    pub code: u32,
    pub spelling: String,
    pub name: Option<String>,
    pub instruction: Option<RawVariant>,
    pub feedback: Option<RawVariant>,
}

/// The document: the entries under `codes`, in the order of the document.
#[derive(Debug, PartialEq)]
pub struct RawDocument {
    pub codes: Option<Vec<RawCode>>,
}

/// Why a document is no schema: where, and what is wrong there.
#[derive(Debug, PartialEq, Eq)]
pub struct LoadError {
    pub path: String,
    pub message: String,
}

/// What a load error says.
pub struct Fault {
    pub path: Seq<char>,
    pub message: Seq<char>,
}

impl View for LoadError {
    type V = Fault;

    open spec fn view(&self) -> Fault {
        Fault { path: self.path@, message: self.message@ }
    }
}

impl Fault {
    /// The fault as one line: the path, a colon, the message. A fault of the
    /// document itself has no path and is its message alone.
    pub open spec fn text(self) -> Seq<char> {
        if self.path.len() == 0 {
            self.message
        } else {
            self.path + MESSAGE_SEPARATOR@ + self.message
        }
    }
}

/// The message for a type token that spells no type.
pub open spec fn invalid_type_message(token: Seq<char>) -> Seq<char> {
    INVALID_TYPE_OPEN@ + token + INVALID_TYPE_CLOSE@
}

/// The path of an entry: `codes`, a dot, and the code as it was spelled.
pub open spec fn entry_path(spelling: Seq<char>) -> Seq<char> {
    CODES_FIELD@ + PATH_SEPARATOR@ + spelling
}

/// The path of a variant of an entry.
pub open spec fn variant_path(spelling: Seq<char>, kind: FrameType) -> Seq<char> {
    entry_path(spelling) + PATH_SEPARATOR@ + kind.long_text()
}

/// The path of a parameter of a variant.
pub open spec fn parameter_path(variant: Seq<char>, index: nat) -> Seq<char> {
    variant + PARAMETERS_OPEN@ + decimal_text(index) + PARAMETERS_CLOSE@
}

/// The text of an optional scalar; empty where it is missing.
pub open spec fn text_of(scalar: Option<String>) -> Seq<char> {
    match scalar {
        Some(s) => s@,
        None => Seq::empty(),
    }
}

/// What is wrong with a parameter, if anything. A type token that spells no
/// type comes first, then the first missing field.
pub open spec fn parameter_fault(p: RawParameter, path: Seq<char>) -> Option<Fault> {
    if p.data_type is Some && type_of_token(lowercase_of(p.data_type.unwrap()@)) is None {
        Some(
            Fault {
                path: path + DATA_TYPE_FIELD@,
                message: invalid_type_message(p.data_type.unwrap()@),
            },
        )
    } else if p.name is None {
        Some(Fault { path, message: MISSING_NAME@ })
    } else if p.description is None {
        Some(Fault { path, message: MISSING_DESCRIPTION@ })
    } else if p.data_type is None {
        Some(Fault { path, message: MISSING_DATA_TYPE@ })
    } else {
        None
    }
}

/// The parameter that a faultless raw parameter stands for.
pub open spec fn parameter_of(p: RawParameter) -> ParameterView {
    ParameterView {
        name: text_of(p.name),
        description: text_of(p.description),
        data_type: type_of_token(lowercase_of(text_of(p.data_type))).unwrap(),
    }
}

/// What is wrong with the first faulty parameter among the first `upto`.
pub open spec fn parameters_fault(list: Seq<RawParameter>, path: Seq<char>, upto: nat) -> Option<
    Fault,
>
    decreases upto,
{
    if upto == 0 {
        None
    } else {
        match parameters_fault(list, path, (upto - 1) as nat) {
            Some(fault) => Some(fault),
            None => parameter_fault(list[upto - 1], parameter_path(path, (upto - 1) as nat)),
        }
    }
}

/// What is wrong with a variant, if anything: its parameters come first, in
/// order, then the first missing field.
pub open spec fn variant_fault(v: RawVariant, path: Seq<char>) -> Option<Fault> {
    if v.parameters is Some && parameters_fault(
        v.parameters.unwrap()@,
        path,
        v.parameters.unwrap()@.len(),
    ) is Some {
        parameters_fault(v.parameters.unwrap()@, path, v.parameters.unwrap()@.len())
    } else if v.description is None {
        Some(Fault { path, message: MISSING_DESCRIPTION@ })
    } else if v.parameters is None {
        Some(Fault { path, message: MISSING_PARAMETERS@ })
    } else {
        None
    }
}

/// The variant that a faultless raw variant stands for.
pub open spec fn variant_of_raw(v: RawVariant) -> VariantView {
    VariantView {
        description: text_of(v.description),
        parameters: match v.parameters {
            Some(list) => list@.map_values(|p: RawParameter| parameter_of(p)),
            None => Seq::empty(),
        },
    }
}

/// The variant that an optional raw variant stands for.
pub open spec fn optional_variant(v: Option<RawVariant>) -> Option<VariantView> {
    match v {
        Some(v) => Some(variant_of_raw(v)),
        None => None,
    }
}

/// What is wrong with an entry, if anything: its instruction comes first,
/// then its feedback, then a missing name.
pub open spec fn raw_entry_fault(c: RawCode) -> Option<Fault> {
    if c.instruction is Some && variant_fault(
        c.instruction.unwrap(),
        variant_path(c.spelling@, FrameType::Instruction),
    ) is Some {
        variant_fault(c.instruction.unwrap(), variant_path(c.spelling@, FrameType::Instruction))
    } else if c.feedback is Some && variant_fault(
        c.feedback.unwrap(),
        variant_path(c.spelling@, FrameType::Feedback),
    ) is Some {
        variant_fault(c.feedback.unwrap(), variant_path(c.spelling@, FrameType::Feedback))
    } else if c.name is None {
        Some(Fault { path: entry_path(c.spelling@), message: MISSING_NAME@ })
    } else {
        None
    }
}

/// The entry that a faultless raw entry stands for.
pub open spec fn entry_of(c: RawCode) -> EntryView {
    EntryView {
        name: text_of(c.name),
        instruction: optional_variant(c.instruction),
        feedback: optional_variant(c.feedback),
    }
}

/// What is wrong with the first faulty entry among the first `upto`.
pub open spec fn entries_fault(list: Seq<RawCode>, upto: nat) -> Option<Fault>
    decreases upto,
{
    if upto == 0 {
        None
    } else {
        match entries_fault(list, (upto - 1) as nat) {
            Some(fault) => Some(fault),
            None => raw_entry_fault(list[upto - 1]),
        }
    }
}

/// The schema that the first `upto` entries make. Where a code occurs twice,
/// the later entry stands.
pub open spec fn entries_schema(list: Seq<RawCode>, upto: nat) -> Map<u32, EntryView>
    decreases upto,
{
    if upto == 0 {
        Map::empty()
    } else {
        entries_schema(list, (upto - 1) as nat).insert(list[upto - 1].code, entry_of(list[upto - 1]))
    }
}

/// What is wrong with a document, if anything.
pub open spec fn document_fault(document: RawDocument) -> Option<Fault> {
    match document.codes {
        None => Some(Fault { path: Seq::empty(), message: MISSING_CODES@ }),
        Some(list) => entries_fault(list@, list@.len()),
    }
}

/// The schema that a faultless document stands for.
pub open spec fn document_schema(document: RawDocument) -> Map<u32, EntryView> {
    match document.codes {
        None => Map::empty(),
        Some(list) => entries_schema(list@, list@.len()),
    }
}

impl LoadError {
    /// The error as one line: the path, a colon, the message.
    pub fn to_string(&self) -> (r: String)
        ensures
            r@ == self@.text(),
    {
        if self.path.as_str().is_empty() {
            self.message.clone()
        } else {
            let mut out = self.path.clone();
            out.append(MESSAGE_SEPARATOR);
            out.append(self.message.as_str());
            out
        }
    }
}

/// A fault at a path.
fn fault(path: &str, message: &str) -> (r: LoadError)
    ensures
        r@ == (Fault { path: path@, message: message@ }),
{
    LoadError { path: String::from_str(path), message: String::from_str(message) }
}

/// Loads one parameter. The path is that of the parameter.
pub fn load_parameter(p: &RawParameter, path: &str) -> (r: Result<
    InstFeedbackParameter,
    LoadError,
>)
    ensures
        match parameter_fault(*p, path@) {
            Some(f) => r matches Err(e) && e@ == f,
            None => r matches Ok(loaded) && loaded@ == parameter_of(*p),
        },
{
    let data_type = match &p.data_type {
        Some(token) => match ParameterType::try_from(token.clone()) {
            Ok(t) => Some(t),
            Err(_) => {
                let mut at = String::from_str(path);
                at.append(DATA_TYPE_FIELD);
                let mut message = String::from_str(INVALID_TYPE_OPEN);
                message.append(token.as_str());
                message.append(INVALID_TYPE_CLOSE);
                return Err(LoadError { path: at, message });
            },
        },
        None => None,
    };
    let name = match &p.name {
        Some(name) => name.clone(),
        None => {
            return Err(fault(path, MISSING_NAME));
        },
    };
    let description = match &p.description {
        Some(description) => description.clone(),
        None => {
            return Err(fault(path, MISSING_DESCRIPTION));
        },
    };
    match data_type {
        Some(data_type) => Ok(InstFeedbackParameter { name, description, data_type }),
        None => Err(fault(path, MISSING_DATA_TYPE)),
    }
}

/// Loads one variant. The path is that of the variant.
pub fn load_variant(v: &RawVariant, path: &str) -> (r: Result<InstFeedback, LoadError>)
    ensures
        match variant_fault(*v, path@) {
            Some(f) => r matches Err(e) && e@ == f,
            None => r matches Ok(loaded) && loaded@ == variant_of_raw(*v),
        },
{
    let mut parameters: Vec<InstFeedbackParameter> = Vec::new();
    let mut listed = false;
    match &v.parameters {
        Some(list) => {
            listed = true;
            let mut i: usize = 0;
            while i < list.len()
                invariant
                    i <= list.len(),
                    v.parameters == Some(*list),
                    parameters_fault(list@, path@, i as nat) is None,
                    parameters@.len() == i,
                    forall|j: int|
                        0 <= j < i ==> (#[trigger] parameters@[j])@ == parameter_of(list@[j]),
                decreases list.len() - i,
            {
                let mut at = String::from_str(path);
                at.append(PARAMETERS_OPEN);
                at.append(decimal(i as u64).as_str());
                at.append(PARAMETERS_CLOSE);
                assert(at@ == parameter_path(path@, i as nat));
                match load_parameter(&list[i], at.as_str()) {
                    Ok(p) => {
                        parameters.push(p);
                    },
                    Err(e) => {
                        proof {
                            lemma_parameters_fault_stays(
                                list@,
                                path@,
                                (i + 1) as nat,
                                list@.len(),
                            );
                        }
                        return Err(e);
                    },
                }
                i += 1;
            }
        },
        None => {},
    }
    let description = match &v.description {
        Some(description) => description.clone(),
        None => {
            return Err(fault(path, MISSING_DESCRIPTION));
        },
    };
    if !listed {
        return Err(fault(path, MISSING_PARAMETERS));
    }
    let loaded = InstFeedback { description, parameters };
    assert(loaded@.parameters =~= variant_of_raw(*v).parameters);
    Ok(loaded)
}

/// A fault among the first parameters stays the first fault of a longer list.
pub proof fn lemma_parameters_fault_stays(
    list: Seq<RawParameter>,
    path: Seq<char>,
    lo: nat,
    hi: nat,
)
    requires
        lo <= hi,
        parameters_fault(list, path, lo) is Some,
    ensures
        parameters_fault(list, path, hi) == parameters_fault(list, path, lo),
    decreases hi - lo,
{
    if lo < hi {
        lemma_parameters_fault_stays(list, path, lo, (hi - 1) as nat);
    }
}

/// A fault among the first entries stays the first fault of a longer list.
pub proof fn lemma_entries_fault_stays(list: Seq<RawCode>, lo: nat, hi: nat)
    requires
        lo <= hi,
        entries_fault(list, lo) is Some,
    ensures
        entries_fault(list, hi) == entries_fault(list, lo),
    decreases hi - lo,
{
    if lo < hi {
        lemma_entries_fault_stays(list, lo, (hi - 1) as nat);
    }
}

/// Loads the variant of one category of an entry, where the entry has one.
fn load_optional_variant(v: &Option<RawVariant>, spelling: &str, kind: FrameType) -> (r: Result<
    Option<InstFeedback>,
    LoadError,
>)
    ensures
        match v {
            Some(raw) => match variant_fault(*raw, variant_path(spelling@, kind)) {
                Some(f) => r matches Err(e) && e@ == f,
                None => r matches Ok(Some(loaded)) && loaded@ == variant_of_raw(*raw),
            },
            None => r matches Ok(None),
        },
{
    match v {
        Some(raw) => {
            let mut path = String::from_str(CODES_FIELD);
            path.append(PATH_SEPARATOR);
            path.append(spelling);
            path.append(PATH_SEPARATOR);
            path.append(kind.long());
            match load_variant(raw, path.as_str()) {
                Ok(loaded) => Ok(Some(loaded)),
                Err(e) => Err(e),
            }
        },
        None => Ok(None),
    }
}

/// Loads one entry of the document.
pub fn load_entry(c: &RawCode) -> (r: Result<Codes, LoadError>)
    ensures
        match raw_entry_fault(*c) {
            Some(f) => r matches Err(e) && e@ == f,
            None => r matches Ok(loaded) && loaded@ == entry_of(*c),
        },
{
    let instruction = match load_optional_variant(
        &c.instruction,
        c.spelling.as_str(),
        FrameType::Instruction,
    ) {
        Ok(v) => v,
        Err(e) => {
            return Err(e);
        },
    };
    let feedback = match load_optional_variant(
        &c.feedback,
        c.spelling.as_str(),
        FrameType::Feedback,
    ) {
        Ok(v) => v,
        Err(e) => {
            return Err(e);
        },
    };
    match &c.name {
        Some(name) => Ok(Codes { name: name.clone(), instruction, feedback }),
        None => {
            let mut path = String::from_str(CODES_FIELD);
            path.append(PATH_SEPARATOR);
            path.append(c.spelling.as_str());
            Err(LoadError { path, message: String::from_str(MISSING_NAME) })
        },
    }
}

/// Loads a schema from a document.
///
/// The entries are read in the order of the document and the first fault is
/// reported. Where a code occurs twice, the later entry stands. Whether the
/// schema can be laid out is not looked at here: see `CodesFile::validate`.
pub fn load(document: &RawDocument) -> (r: Result<CodesFile, LoadError>)
    ensures
        match document_fault(*document) {
            Some(f) => r matches Err(e) && e@ == f,
            None => r matches Ok(codes) && codes@ == document_schema(*document),
        },
{
    let list = match &document.codes {
        Some(list) => list,
        None => {
            return Err(LoadError { path: String::new(), message: String::from_str(MISSING_CODES) });
        },
    };
    let mut schema = CodesFile { codes: BTreeMap::new() };
    assert(schema@ =~= entries_schema(list@, 0));
    let mut i: usize = 0;
    while i < list.len()
        invariant
            i <= list.len(),
            document.codes == Some(*list),
            entries_fault(list@, i as nat) is None,
            schema@ == entries_schema(list@, i as nat),
        decreases list.len() - i,
    {
        match load_entry(&list[i]) {
            Ok(entry) => {
                let ghost before = schema@;
                let ghost loaded = entry@;
                schema.codes.insert(list[i].code, entry);
                assert(schema@ =~= before.insert(list@[i as int].code, loaded));
            },
            Err(e) => {
                proof {
                    lemma_entries_fault_stays(list@, (i + 1) as nat, list@.len());
                }
                return Err(e);
            },
        }
        i += 1;
    }
    Ok(schema)
}

} // verus!
