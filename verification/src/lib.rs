//! A compiler for binary protocol descriptions.
//!
//! A protocol is a set of numbered codes. Each code may carry an instruction
//! and a feedback, each an ordered list of typed parameters. From such a schema
//! the crate lays out wire frames and writes the source text that encodes and
//! decodes them in C and in Rust.
//!
//! - [`types`]: the parameter types and their spellings.
//! - [`schema`]: the schema, its enumeration by rising code, and its
//!   validation.
//! - [`loader`]: from a document, as a reader found it, to a schema, with
//!   path-qualified errors.
//! - [`wire`] and [`frame`]: the layout of frames, and encoding and decoding
//!   against a schema, into owned bytes or into a caller's buffer.
//! - [`laws`]: what holds of the layout for every schema and frame.
//! - [`generator`], [`cpp_model`], [`rust_model`]: the backends and the
//!   template engine that merges their fragments into a skeleton.
//! - [`compile`]: from a schema or a document to the text of one backend,
//!   with the check of the schema before anything is written.
//!
//! The backends write for valid schemas only, and say so as a precondition.
//! [`generate`] and [`compile`] have no precondition: they check the schema
//! and refuse one that is not valid.
//!
//! Every function is verified against its contract. Four calls into the
//! standard library are believed rather than proved: the two case mappings of
//! [`text`], whose results the contracts only name, the UTF-8 check behind
//! the reading of strings in [`frame`], and the last component of a path in
//! [`cpp_model`], of which nothing is claimed.

pub mod compile;
pub mod cpp_model;
pub mod frame;
pub mod generator;
pub mod laws;
pub mod loader;
pub mod rust_model;
pub mod schema;
pub mod text;
pub mod types;
pub mod wire;

pub use compile::{compile, generate, Backend, CompileError};
pub use cpp_model::{CppLanguageModel, WriteFrameBuilder};
pub use frame::{Frame, TypesEnum, TypesEnumError};
pub use generator::{process_template, render, LanguageModel};
pub use loader::{load, LoadError, RawCode, RawDocument, RawParameter, RawVariant};
pub use rust_model::{build_frame_from_fields, parse_frame_to_fields, RustLanguageModel};
pub use schema::{
    Codes, CodesFile, FrameType, InstFeedback, InstFeedbackParameter, SchemaError,
};
pub use types::{InstFeedbackParameterType, ParameterType};
