//! What a failed compilation or validation reports.

use crate::json::{json_of, snapshot, Json};
use crate::paths::{decimal, decimal_text, JsonPointer, PathSegment};
use crate::primitive_type::PrimitiveType;
use serde_json::Value;
use vstd::prelude::*;
use vstd::string::*;

verus! {

/// Why the payload of a `discriminator` keyword was refused.
#[derive(Clone, Copy, PartialEq, Eq, Structural, Debug)]
pub enum DiscriminatorFault {
    /// The payload is not an object.
    NotAnObject,
    /// The payload has no `propertyName`.
    MissingPropertyName,
    /// `propertyName` is not a string.
    PropertyNameNotString,
    /// `propertyName` is the empty string.
    EmptyPropertyName,
    /// `mapping` is present and is not an object.
    MappingNotObject,
    /// A value of `mapping` is not a string.
    MappingValueNotString,
}

/// The kinds of failure.
#[derive(Clone, Copy, PartialEq, Eq, Structural, Debug)]
pub enum ValidationErrorKind {
    /// A document is not of the type that was asked for.
    TypeMismatch { expected: PrimitiveType },
    /// The payload of a `discriminator` keyword is malformed.
    InvalidDiscriminator { reason: DiscriminatorFault },
    /// No alternative accepts the instance.
    OneOfNotValid,
    /// More than one alternative accepts the instance.
    OneOfMultipleValid,
    /// A reference could not be compiled.
    ReferenceUnresolved,
    /// A string is longer than the limit.
    MaxLength { limit: u64 },
    /// An object lacks a member that it must have.
    Required,
}

impl DiscriminatorFault {
    /// The fault in words.
    pub open spec fn description(self) -> Seq<char> {
        match self {
            DiscriminatorFault::NotAnObject => "the discriminator is not an object"@,
            DiscriminatorFault::MissingPropertyName => "the discriminator has no propertyName"@,
            DiscriminatorFault::PropertyNameNotString => "propertyName is not a string"@,
            DiscriminatorFault::EmptyPropertyName => "propertyName is empty"@,
            DiscriminatorFault::MappingNotObject => "mapping is not an object"@,
            DiscriminatorFault::MappingValueNotString => "a value of mapping is not a string"@,
        }
    }

    /// The fault in words.
    pub fn describe(self) -> (text: &'static str)
        ensures
            text@ == self.description(),
    {
        match self {
            DiscriminatorFault::NotAnObject => "the discriminator is not an object",
            DiscriminatorFault::MissingPropertyName => "the discriminator has no propertyName",
            DiscriminatorFault::PropertyNameNotString => "propertyName is not a string",
            DiscriminatorFault::EmptyPropertyName => "propertyName is empty",
            DiscriminatorFault::MappingNotObject => "mapping is not an object",
            DiscriminatorFault::MappingValueNotString => "a value of mapping is not a string",
        }
    }
}

impl ValidationErrorKind {
    /// The failure in words.
    pub open spec fn description(self) -> Seq<char> {
        match self {
            ValidationErrorKind::TypeMismatch { expected } => "not of type "@ + expected.name_text(),
            ValidationErrorKind::InvalidDiscriminator { reason } => "invalid discriminator: "@
                + reason.description(),
            ValidationErrorKind::OneOfNotValid => "not valid under any of the schemas of oneOf"@,
            ValidationErrorKind::OneOfMultipleValid => "valid under more than one of the schemas of oneOf"@,
            ValidationErrorKind::ReferenceUnresolved => "a reference could not be compiled"@,
            ValidationErrorKind::MaxLength { limit } => "longer than "@ + decimal_text(limit as nat)
                + " characters"@,
            ValidationErrorKind::Required => "a required property is missing"@,
        }
    }

    /// The failure in words.
    pub fn describe(self) -> (text: String)
        ensures
            text@ == self.description(),
    {
        match self {
            ValidationErrorKind::TypeMismatch { expected } => {
                String::from_str("not of type ").concat(expected.name())
            },
            ValidationErrorKind::InvalidDiscriminator { reason } => {
                String::from_str("invalid discriminator: ").concat(reason.describe())
            },
            ValidationErrorKind::OneOfNotValid => String::from_str(
                "not valid under any of the schemas of oneOf",
            ),
            ValidationErrorKind::OneOfMultipleValid => String::from_str(
                "valid under more than one of the schemas of oneOf",
            ),
            ValidationErrorKind::ReferenceUnresolved => String::from_str(
                "a reference could not be compiled",
            ),
            ValidationErrorKind::MaxLength { limit } => {
                let digits = decimal(limit);
                String::from_str("longer than ").concat(digits.as_str()).concat(" characters")
            },
            ValidationErrorKind::Required => String::from_str("a required property is missing"),
        }
    }
}

/// A failure, as contracts see it.
pub struct ErrorView {
    pub instance: Json,
    pub kind: ValidationErrorKind,
    pub instance_path: Seq<PathSegment>,
    pub schema_path: Seq<PathSegment>,
}

/// A failure: what was rejected, why, and where in the instance and in the
/// schema.
#[derive(Debug)]
pub struct ValidationError {
    /// A copy of the rejected document.
    pub instance: Value,
    pub kind: ValidationErrorKind,
    /// Where the rejected document stands.
    pub instance_path: JsonPointer,
    /// Where the keyword that rejected it stands.
    pub schema_path: JsonPointer,
}

/// The failure of a compilation over `schema`, for a schema that stands at
/// `place`: the place is given as that of the rejected document.
pub open spec fn compilation_failure(
    kind: ValidationErrorKind,
    place: Seq<PathSegment>,
    schema: Json,
) -> ErrorView {
    ErrorView { instance: schema, kind, instance_path: place, schema_path: Seq::empty() }
}

impl View for ValidationError {
    type V = ErrorView;

    open spec fn view(&self) -> ErrorView {
        ErrorView {
            instance: json_of(self.instance),
            kind: self.kind,
            instance_path: self.instance_path@,
            schema_path: self.schema_path@,
        }
    }
}

impl Clone for ValidationError {
    fn clone(&self) -> (copy: Self)
        ensures
            copy@ == self@,
    {
        ValidationError {
            instance: snapshot(&self.instance),
            kind: self.kind,
            instance_path: self.instance_path.clone(),
            schema_path: self.schema_path.clone(),
        }
    }
}

impl ValidationError {
    /// A failure of the given kind about `instance`.
    pub fn new(
        kind: ValidationErrorKind,
        schema_path: JsonPointer,
        instance_path: JsonPointer,
        instance: &Value,
    ) -> (error: Self)
        ensures
            error@ == (ErrorView {
                instance: json_of(*instance),
                kind,
                instance_path: instance_path@,
                schema_path: schema_path@,
            }),
    {
        ValidationError { instance: snapshot(instance), kind, instance_path, schema_path }
    }

    /// A failure of a compilation over `schema`, for a schema that stands
    /// at `place`.
    pub fn compilation(kind: ValidationErrorKind, place: JsonPointer, schema: &Value) -> (error:
        Self)
        ensures
            error@ == compilation_failure(kind, place@, json_of(*schema)),
    {
        Self::new(kind, JsonPointer::default(), place, schema)
    }

    /// `instance` is not of the one type that was asked for.
    pub fn single_type_error(
        schema_path: JsonPointer,
        instance_path: JsonPointer,
        instance: &Value,
        expected: PrimitiveType,
    ) -> (error: Self)
        ensures
            error@ == (ErrorView {
                instance: json_of(*instance),
                kind: ValidationErrorKind::TypeMismatch { expected },
                instance_path: instance_path@,
                schema_path: schema_path@,
            }),
    {
        Self::new(ValidationErrorKind::TypeMismatch { expected }, schema_path, instance_path, instance)
    }

    /// No alternative accepts `instance`.
    pub fn one_of_not_valid(
        schema_path: JsonPointer,
        instance_path: JsonPointer,
        instance: &Value,
    ) -> (error: Self)
        ensures
            error@ == (ErrorView {
                instance: json_of(*instance),
                kind: ValidationErrorKind::OneOfNotValid,
                instance_path: instance_path@,
                schema_path: schema_path@,
            }),
    {
        Self::new(ValidationErrorKind::OneOfNotValid, schema_path, instance_path, instance)
    }

    /// More than one alternative accepts `instance`.
    pub fn one_of_multiple_valid(
        schema_path: JsonPointer,
        instance_path: JsonPointer,
        instance: &Value,
    ) -> (error: Self)
        ensures
            error@ == (ErrorView {
                instance: json_of(*instance),
                kind: ValidationErrorKind::OneOfMultipleValid,
                instance_path: instance_path@,
                schema_path: schema_path@,
            }),
    {
        Self::new(ValidationErrorKind::OneOfMultipleValid, schema_path, instance_path, instance)
    }
}

} // verus!
