//! The keywords that look at an instance by themselves, with no schema
//! below them.

use crate::error::{ErrorView, ValidationError};
use crate::json::Json;
use crate::keywords::max_length::MaxLengthValidator;
use crate::keywords::required::RequiredValidator;
use crate::keywords::type_::TypeValidator;
use crate::output::{ApplicationView, PartialApplication};
use crate::paths::{JsonPointer, PathSegment};
use crate::validator::Validate;
use serde_json::Value;
use vstd::prelude::*;

verus! {

/// A compiled keyword that looks at an instance by itself.
pub enum Assertion {
    Type(TypeValidator),
    MaxLength(MaxLengthValidator),
    Required(RequiredValidator),
}

impl Validate for Assertion {
    open spec fn accepts(&self, instance: Json) -> bool {
        match self {
            Assertion::Type(validator) => validator.accepts(instance),
            Assertion::MaxLength(validator) => validator.accepts(instance),
            Assertion::Required(validator) => validator.accepts(instance),
        }
    }

    open spec fn errors(&self, instance: Json, instance_path: Seq<PathSegment>) -> Seq<ErrorView> {
        match self {
            Assertion::Type(validator) => validator.errors(instance, instance_path),
            Assertion::MaxLength(validator) => validator.errors(instance, instance_path),
            Assertion::Required(validator) => validator.errors(instance, instance_path),
        }
    }

    open spec fn output(&self, instance: Json, instance_path: Seq<PathSegment>) -> ApplicationView {
        match self {
            Assertion::Type(validator) => validator.output(instance, instance_path),
            Assertion::MaxLength(validator) => validator.output(instance, instance_path),
            Assertion::Required(validator) => validator.output(instance, instance_path),
        }
    }

    open spec fn rendering(&self) -> Seq<char> {
        match self {
            Assertion::Type(validator) => validator.rendering(),
            Assertion::MaxLength(validator) => validator.rendering(),
            Assertion::Required(validator) => validator.rendering(),
        }
    }

    proof fn lemma_verdicts_agree(&self, instance: Json, instance_path: Seq<PathSegment>) {
        match self {
            Assertion::Type(validator) => validator.lemma_verdicts_agree(instance, instance_path),
            Assertion::MaxLength(validator) => validator.lemma_verdicts_agree(
                instance,
                instance_path,
            ),
            Assertion::Required(validator) => validator.lemma_verdicts_agree(
                instance,
                instance_path,
            ),
        }
    }

    fn is_valid(&self, instance: &Value) -> (valid: bool) {
        match self {
            Assertion::Type(validator) => validator.is_valid(instance),
            Assertion::MaxLength(validator) => validator.is_valid(instance),
            Assertion::Required(validator) => validator.is_valid(instance),
        }
    }

    fn validate(&self, instance: &Value, instance_path: &JsonPointer) -> (errors: Vec<
        ValidationError,
    >) {
        match self {
            Assertion::Type(validator) => validator.validate(instance, instance_path),
            Assertion::MaxLength(validator) => validator.validate(instance, instance_path),
            Assertion::Required(validator) => validator.validate(instance, instance_path),
        }
    }

    fn apply(&self, instance: &Value, instance_path: &JsonPointer) -> (application:
        PartialApplication) {
        match self {
            Assertion::Type(validator) => validator.apply(instance, instance_path),
            Assertion::MaxLength(validator) => validator.apply(instance, instance_path),
            Assertion::Required(validator) => validator.apply(instance, instance_path),
        }
    }

    fn render(&self) -> (text: String) {
        match self {
            Assertion::Type(validator) => validator.render(),
            Assertion::MaxLength(validator) => validator.render(),
            Assertion::Required(validator) => validator.render(),
        }
    }
}

} // verus!
