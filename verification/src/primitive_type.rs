//! The types that JSON Schema distinguishes among documents.

use crate::json::{is_float, json_of, kind_of, Json, JsonKind};
use crate::text::same_text;
use serde_json::Value;
use vstd::prelude::*;

verus! {

/// A type in the sense of the `type` keyword.
#[derive(Clone, Copy, PartialEq, Eq, Structural, Debug)]
pub enum PrimitiveType {
    Array,
    Boolean,
    Integer,
    Null,
    Number,
    Object,
    String,
}

impl PrimitiveType {
    /// Whether a document is of this type. An integer is a number that is
    /// not held as a floating-point value.
    pub open spec fn admits(self, document: Json) -> bool {
        match self {
            PrimitiveType::Array => document.kind() == JsonKind::Array,
            PrimitiveType::Boolean => document.kind() == JsonKind::Bool,
            PrimitiveType::Integer => document.kind() == JsonKind::Number && !document.is_float(),
            PrimitiveType::Null => document.kind() == JsonKind::Null,
            PrimitiveType::Number => document.kind() == JsonKind::Number,
            PrimitiveType::Object => document.kind() == JsonKind::Object,
            PrimitiveType::String => document.kind() == JsonKind::String,
        }
    }

    /// Whether `value` holds a document of this type.
    pub fn matches(self, value: &Value) -> (yes: bool)
        ensures
            yes == self.admits(json_of(*value)),
    {
        let kind = kind_of(value);
        match self {
            PrimitiveType::Array => kind == JsonKind::Array,
            PrimitiveType::Boolean => kind == JsonKind::Bool,
            PrimitiveType::Integer => kind == JsonKind::Number && !is_float(value),
            PrimitiveType::Null => kind == JsonKind::Null,
            PrimitiveType::Number => kind == JsonKind::Number,
            PrimitiveType::Object => kind == JsonKind::Object,
            PrimitiveType::String => kind == JsonKind::String,
        }
    }

    /// The name that schemas give this type.
    pub open spec fn name_text(self) -> Seq<char> {
        match self {
            PrimitiveType::Array => "array"@,
            PrimitiveType::Boolean => "boolean"@,
            PrimitiveType::Integer => "integer"@,
            PrimitiveType::Null => "null"@,
            PrimitiveType::Number => "number"@,
            PrimitiveType::Object => "object"@,
            PrimitiveType::String => "string"@,
        }
    }

    /// The type that schemas give the name `name`.
    pub open spec fn named(name: Seq<char>) -> Option<PrimitiveType> {
        if name == "array"@ {
            Some(PrimitiveType::Array)
        } else if name == "boolean"@ {
            Some(PrimitiveType::Boolean)
        } else if name == "integer"@ {
            Some(PrimitiveType::Integer)
        } else if name == "null"@ {
            Some(PrimitiveType::Null)
        } else if name == "number"@ {
            Some(PrimitiveType::Number)
        } else if name == "object"@ {
            Some(PrimitiveType::Object)
        } else if name == "string"@ {
            Some(PrimitiveType::String)
        } else {
            None
        }
    }

    /// The type that schemas give the name `name`.
    pub fn from_name(name: &str) -> (found: Option<PrimitiveType>)
        ensures
            found == Self::named(name@),
    {
        if same_text(name, "array") {
            Some(PrimitiveType::Array)
        } else if same_text(name, "boolean") {
            Some(PrimitiveType::Boolean)
        } else if same_text(name, "integer") {
            Some(PrimitiveType::Integer)
        } else if same_text(name, "null") {
            Some(PrimitiveType::Null)
        } else if same_text(name, "number") {
            Some(PrimitiveType::Number)
        } else if same_text(name, "object") {
            Some(PrimitiveType::Object)
        } else if same_text(name, "string") {
            Some(PrimitiveType::String)
        } else {
            None
        }
    }

    /// The name that schemas give this type.
    pub fn name(self) -> (text: &'static str)
        ensures
            text@ == self.name_text(),
    {
        match self {
            PrimitiveType::Array => "array",
            PrimitiveType::Boolean => "boolean",
            PrimitiveType::Integer => "integer",
            PrimitiveType::Null => "null",
            PrimitiveType::Number => "number",
            PrimitiveType::Object => "object",
            PrimitiveType::String => "string",
        }
    }
}

} // verus!
