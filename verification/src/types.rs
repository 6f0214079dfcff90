//! The parameter types of the protocol and their spellings.

use crate::text::{lowercase_of, str_eq, to_lowercase};
use vstd::prelude::*;
use vstd::string::*;

verus! {

/// The type of one parameter of an instruction or a feedback.
#[derive(PartialEq, Eq, Clone, Copy, Debug, Structural)]
pub enum ParameterType {
    Uint64,
    Uint32,
    Uint16,
    Uint8,
    Int64,
    Int32,
    Int16,
    Int8,
    Bool,
    String,
}

/// The former, longer name of [`ParameterType`].
pub type InstFeedbackParameterType = ParameterType;

/// The type that a lower-case token spells, if any.
pub open spec fn type_of_token(token: Seq<char>) -> Option<ParameterType> {
    if token == "u8"@ || token == "uint8"@ || token == "byte"@ {
        Some(ParameterType::Uint8)
    } else if token == "u16"@ || token == "uint16"@ {
        Some(ParameterType::Uint16)
    } else if token == "u32"@ || token == "uint32"@ {
        Some(ParameterType::Uint32)
    } else if token == "u64"@ || token == "uint64"@ {
        Some(ParameterType::Uint64)
    } else if token == "i8"@ || token == "int8"@ {
        Some(ParameterType::Int8)
    } else if token == "i16"@ || token == "int16"@ {
        Some(ParameterType::Int16)
    } else if token == "i32"@ || token == "int32"@ {
        Some(ParameterType::Int32)
    } else if token == "i64"@ || token == "int64"@ {
        Some(ParameterType::Int64)
    } else if token == "string"@ || token == "str"@ {
        Some(ParameterType::String)
    } else if token == "bool"@ || token == "boolean"@ {
        Some(ParameterType::Bool)
    } else {
        None
    }
}

/// The message that reports a token which spells no type.
pub open spec fn unknown_type_message(token: Seq<char>) -> Seq<char> {
    "Unknown type "@ + token
}

impl ParameterType {
    /// The name of the type in Rust source.
    pub open spec fn rust_name(self) -> Seq<char> {
        match self {
            Self::String => "String"@,
            Self::Uint64 => "u64"@,
            Self::Uint32 => "u32"@,
            Self::Uint16 => "u16"@,
            Self::Uint8 => "u8"@,
            Self::Int64 => "i64"@,
            Self::Int32 => "i32"@,
            Self::Int16 => "i16"@,
            Self::Int8 => "i8"@,
            Self::Bool => "bool"@,
        }
    }

    /// The name of the type in C source.
    pub open spec fn cpp_name(self) -> Seq<char> {
        match self {
            Self::String => "char *"@,
            Self::Uint64 => "uint64_t"@,
            Self::Uint32 => "uint32_t"@,
            Self::Uint16 => "uint16_t"@,
            Self::Uint8 => "uint8_t"@,
            Self::Int64 => "int64_t"@,
            Self::Int32 => "int32_t"@,
            Self::Int16 => "int16_t"@,
            Self::Int8 => "int8_t"@,
            Self::Bool => "bool"@,
        }
    }

    /// The canonical name of the type, as diagnostics show it.
    pub open spec fn display_name(self) -> Seq<char> {
        match self {
            Self::String => "String"@,
            Self::Uint64 => "Uint64"@,
            Self::Uint32 => "Uint32"@,
            Self::Uint16 => "Uint16"@,
            Self::Uint8 => "Uint8"@,
            Self::Int64 => "Int64"@,
            Self::Int32 => "Int32"@,
            Self::Int16 => "Int16"@,
            Self::Int8 => "Int8"@,
            Self::Bool => "Bool"@,
        }
    }

    /// The name of the variant of `TypesEnum` that carries a value of the type.
    pub open spec fn typesenum_name(self) -> Seq<char> {
        match self {
            Self::Int8 => "I8"@,
            Self::Uint8 => "U8"@,
            Self::Int16 => "I16"@,
            Self::Uint16 => "U16"@,
            Self::Int32 => "I32"@,
            Self::Uint32 => "U32"@,
            Self::Int64 => "I64"@,
            Self::Uint64 => "U64"@,
            Self::Bool => "Bool"@,
            Self::String => "Str"@,
        }
    }

    /// The stem of the `TypesEnum` function that reads a value of the type.
    pub open spec fn typesenum_parsing_name(self) -> Seq<char> {
        match self {
            Self::Int8 => "i8"@,
            Self::Uint8 => "u8"@,
            Self::Int16 => "i16"@,
            Self::Uint16 => "u16"@,
            Self::Int32 => "i32"@,
            Self::Uint32 => "u32"@,
            Self::Int64 => "i64"@,
            Self::Uint64 => "u64"@,
            Self::Bool => "bool"@,
            Self::String => "string"@,
        }
    }

    /// The number of bytes a value of the type takes on the wire; zero for a
    /// string, whose length varies.
    pub open spec fn width(self) -> nat {
        match self {
            Self::String => 0,
            Self::Uint64 => 8,
            Self::Uint32 => 4,
            Self::Uint16 => 2,
            Self::Uint8 => 1,
            Self::Int64 => 8,
            Self::Int32 => 4,
            Self::Int16 => 2,
            Self::Int8 => 1,
            Self::Bool => 1,
        }
    }

    /// The name of the type in Rust source.
    pub fn to_rust_type_string(self) -> (r: String)
        ensures
            r@ == self.rust_name(),
    {
        String::from_str(
            match self {
                Self::String => "String",
                Self::Uint64 => "u64",
                Self::Uint32 => "u32",
                Self::Uint16 => "u16",
                Self::Uint8 => "u8",
                Self::Int64 => "i64",
                Self::Int32 => "i32",
                Self::Int16 => "i16",
                Self::Int8 => "i8",
                Self::Bool => "bool",
            },
        )
    }

    /// The name of the type in C source.
    pub fn to_cpp_type_string(self) -> (r: String)
        ensures
            r@ == self.cpp_name(),
    {
        String::from_str(
            match self {
                Self::String => "char *",
                Self::Uint64 => "uint64_t",
                Self::Uint32 => "uint32_t",
                Self::Uint16 => "uint16_t",
                Self::Uint8 => "uint8_t",
                Self::Int64 => "int64_t",
                Self::Int32 => "int32_t",
                Self::Int16 => "int16_t",
                Self::Int8 => "int8_t",
                Self::Bool => "bool",
            },
        )
    }

    /// The number of bytes a value of the type takes on the wire; zero for a
    /// string, whose length varies.
    pub fn size(self) -> (r: usize)
        ensures
            r == self.width(),
    {
        match self {
            Self::String => 0,
            Self::Uint64 => 8,
            Self::Uint32 => 4,
            Self::Uint16 => 2,
            Self::Uint8 => 1,
            Self::Int64 => 8,
            Self::Int32 => 4,
            Self::Int16 => 2,
            Self::Int8 => 1,
            Self::Bool => 1,
        }
    }

    /// The canonical name of the type.
    pub fn to_string(&self) -> (r: String)
        ensures
            r@ == self.display_name(),
    {
        String::from_str(
            match self {
                Self::String => "String",
                Self::Uint64 => "Uint64",
                Self::Uint32 => "Uint32",
                Self::Uint16 => "Uint16",
                Self::Uint8 => "Uint8",
                Self::Int64 => "Int64",
                Self::Int32 => "Int32",
                Self::Int16 => "Int16",
                Self::Int8 => "Int8",
                Self::Bool => "Bool",
            },
        )
    }

    /// The name of the variant of `TypesEnum` that carries a value of the type.
    pub fn to_typesenum_name(&self) -> (r: &'static str)
        ensures
            r@ == self.typesenum_name(),
    {
        match self {
            Self::Int8 => "I8",
            Self::Uint8 => "U8",
            Self::Int16 => "I16",
            Self::Uint16 => "U16",
            Self::Int32 => "I32",
            Self::Uint32 => "U32",
            Self::Int64 => "I64",
            Self::Uint64 => "U64",
            Self::Bool => "Bool",
            Self::String => "Str",
        }
    }

    /// The stem of the `TypesEnum` function that reads a value of the type.
    pub fn to_typesenum_parsing_funtion_type(&self) -> (r: &'static str)
        ensures
            r@ == self.typesenum_parsing_name(),
    {
        match self {
            Self::Int8 => "i8",
            Self::Uint8 => "u8",
            Self::Int16 => "i16",
            Self::Uint16 => "u16",
            Self::Int32 => "i32",
            Self::Uint32 => "u32",
            Self::Int64 => "i64",
            Self::Uint64 => "u64",
            Self::Bool => "bool",
            Self::String => "string",
        }
    }

    /// Reads a type from a token that is already in lower case.
    pub fn from_token(token: &str) -> (r: Option<ParameterType>)
        ensures
            r == type_of_token(token@),
    {
        if str_eq(token, "u8") || str_eq(token, "uint8") || str_eq(token, "byte") {
            Some(Self::Uint8)
        } else if str_eq(token, "u16") || str_eq(token, "uint16") {
            Some(Self::Uint16)
        } else if str_eq(token, "u32") || str_eq(token, "uint32") {
            Some(Self::Uint32)
        } else if str_eq(token, "u64") || str_eq(token, "uint64") {
            Some(Self::Uint64)
        } else if str_eq(token, "i8") || str_eq(token, "int8") {
            Some(Self::Int8)
        } else if str_eq(token, "i16") || str_eq(token, "int16") {
            Some(Self::Int16)
        } else if str_eq(token, "i32") || str_eq(token, "int32") {
            Some(Self::Int32)
        } else if str_eq(token, "i64") || str_eq(token, "int64") {
            Some(Self::Int64)
        } else if str_eq(token, "string") || str_eq(token, "str") {
            Some(Self::String)
        } else if str_eq(token, "bool") || str_eq(token, "boolean") {
            Some(Self::Bool)
        } else {
            None
        }
    }

    /// Reads a type from a token, whatever its case. A token that spells no
    /// type comes back in the error message.
    pub fn try_from(from: String) -> (r: Result<ParameterType, String>)
        ensures
            r is Ok <==> type_of_token(lowercase_of(from@)) is Some,
            r matches Ok(t) ==> type_of_token(lowercase_of(from@)) == Some(t),
            r matches Err(e) ==> e@ == unknown_type_message(from@),
    {
        let lower = to_lowercase(from.as_str());
        match Self::from_token(lower.as_str()) {
            Some(t) => Ok(t),
            None => {
                let mut message = String::from_str("Unknown type ");
                message.append(from.as_str());
                Err(message)
            },
        }
    }
}

} // verus!
