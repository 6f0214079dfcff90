//! From a document to the text of one backend.

use crate::cpp_model::CppLanguageModel;
use crate::generator::{fragment_table, process_template, rendered, LanguageModel};
use crate::loader::{document_fault, document_schema, load, LoadError, RawDocument};
use crate::rust_model::RustLanguageModel;
use crate::schema::{schema_fault, CodesFile, EntryView, FrameType, SchemaError};
use vstd::prelude::*;
use vstd::string::*;

verus! {

/// A backend, chosen by value.
pub enum Backend {
    /// Free functions in C over raw buffers.
    Native(CppLanguageModel),
    /// Two enumerations in Rust with conversions to and from bytes.
    Managed(RustLanguageModel),
}

impl LanguageModel for Backend {
    open spec fn includes_text(&self) -> Seq<char> {
        match self {
            Self::Native(model) => model.includes_text(),
            Self::Managed(model) => model.includes_text(),
        }
    }

    open spec fn footer_text(&self) -> Seq<char> {
        match self {
            Self::Native(model) => model.footer_text(),
            Self::Managed(model) => model.footer_text(),
        }
    }

    open spec fn declarations_text(&self, codes: Map<u32, EntryView>, kind: FrameType) -> Seq<
        char,
    > {
        match self {
            Self::Native(model) => model.declarations_text(codes, kind),
            Self::Managed(model) => model.declarations_text(codes, kind),
        }
    }

    open spec fn implementation_text(&self, codes: Map<u32, EntryView>, kind: FrameType) -> Seq<
        char,
    > {
        match self {
            Self::Native(model) => model.implementation_text(codes, kind),
            Self::Managed(model) => model.implementation_text(codes, kind),
        }
    }

    fn custom_includes(&self) -> (r: String) {
        match self {
            Self::Native(model) => model.custom_includes(),
            Self::Managed(model) => model.custom_includes(),
        }
    }

    fn custom_footer(&self) -> (r: String) {
        match self {
            Self::Native(model) => model.custom_footer(),
            Self::Managed(model) => model.custom_footer(),
        }
    }

    fn declare_feedbacks(&self, codes: &CodesFile) -> (r: String) {
        match self {
            Self::Native(model) => model.declare_feedbacks(codes),
            Self::Managed(model) => model.declare_feedbacks(codes),
        }
    }

    fn declare_instructions(&self, codes: &CodesFile) -> (r: String) {
        match self {
            Self::Native(model) => model.declare_instructions(codes),
            Self::Managed(model) => model.declare_instructions(codes),
        }
    }

    fn implement_feedbacks(&self, codes: &CodesFile) -> (r: String) {
        match self {
            Self::Native(model) => model.implement_feedbacks(codes),
            Self::Managed(model) => model.implement_feedbacks(codes),
        }
    }

    fn implement_instructions(&self, codes: &CodesFile) -> (r: String) {
        match self {
            Self::Native(model) => model.implement_instructions(codes),
            Self::Managed(model) => model.implement_instructions(codes),
        }
    }
}

/// Why a document was not compiled.
#[derive(Debug, PartialEq, Eq)]
pub enum CompileError {
    /// The document is no schema.
    Load(LoadError),
    /// The schema cannot be laid out.
    Schema(SchemaError),
}

impl CompileError {
    /// The error as one line, with the path of what is wrong.
    pub open spec fn text(self) -> Seq<char> {
        match self {
            Self::Load(e) => e@.text(),
            Self::Schema(e) => e.text(),
        }
    }

    /// The error as one line, with the path of what is wrong.
    pub fn to_string(&self) -> (r: String)
        ensures
            r@ == self.text(),
    {
        match self {
            Self::Load(e) => e.to_string(),
            Self::Schema(e) => e.to_string(),
        }
    }
}

/// Checks a schema and fills the skeleton of a backend for it.
///
/// A schema that is not valid is refused with its fault and nothing is
/// written for it: no text is ever made for a code that does not fit the tag
/// byte, nor for a variant with a parameter behind a string.
pub fn generate<M: LanguageModel>(codes: &CodesFile, template: &str, model: &M) -> (r: Result<
    String,
    SchemaError,
>)
    ensures
        match schema_fault(codes@) {
            Some(fault) => r == Err::<String, SchemaError>(fault),
            None => r matches Ok(text) && text@ == rendered(
                template@,
                fragment_table(model, codes@),
            ),
        },
{
    match codes.validate() {
        Ok(()) => Ok(process_template(template, model, codes)),
        Err(e) => Err(e),
    }
}

/// Loads a document, checks the schema, and fills the skeleton of a backend.
///
/// Nothing is written for a document with a fault: the first fault of the
/// document is reported, or else the fault of the schema.
pub fn compile<M: LanguageModel>(document: &RawDocument, template: &str, model: &M) -> (r: Result<
    String,
    CompileError,
>)
    ensures
        match document_fault(*document) {
            Some(fault) => r matches Err(CompileError::Load(e)) && e@ == fault,
            None => match schema_fault(document_schema(*document)) {
                Some(fault) => r matches Err(CompileError::Schema(e)) && e == fault,
                None => r matches Ok(text) && text@ == rendered(
                    template@,
                    fragment_table(model, document_schema(*document)),
                ),
            },
        },
{
    let codes = match load(document) {
        Ok(codes) => codes,
        Err(e) => {
            return Err(CompileError::Load(e));
        },
    };
    match generate(&codes, template, model) {
        Ok(text) => Ok(text),
        Err(e) => Err(CompileError::Schema(e)),
    }
}

} // verus!
