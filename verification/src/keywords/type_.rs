//! `type`: an instance is valid when it is of the one type that is named.

use crate::error::{ErrorView, ValidationError, ValidationErrorKind};
use crate::json::Json;
use crate::output::{ApplicationView, PartialApplication};
use crate::paths::{JsonPointer, PathSegment};
use crate::primitive_type::PrimitiveType;
use crate::validator::{application_of_errors, output_of_errors, Validate};
use serde_json::Value;
use vstd::prelude::*;
use vstd::string::*;

verus! {

/// A compiled `type` with one name.
pub struct TypeValidator {
    pub expected: PrimitiveType,
    pub schema_path: JsonPointer,
}

impl TypeValidator {
    /// A validator for `expected`, for a keyword that stands at
    /// `schema_path`.
    pub fn new(expected: PrimitiveType, schema_path: JsonPointer) -> (validator: Self)
        ensures
            validator.expected == expected,
            validator.schema_path == schema_path,
    {
        TypeValidator { expected, schema_path }
    }
}

impl Validate for TypeValidator {
    open spec fn accepts(&self, instance: Json) -> bool {
        self.expected.admits(instance)
    }

    open spec fn errors(&self, instance: Json, instance_path: Seq<PathSegment>) -> Seq<ErrorView> {
        if self.expected.admits(instance) {
            Seq::empty()
        } else {
            seq![
                ErrorView {
                    instance,
                    kind: ValidationErrorKind::TypeMismatch { expected: self.expected },
                    instance_path,
                    schema_path: self.schema_path@,
                },
            ]
        }
    }

    open spec fn output(&self, instance: Json, instance_path: Seq<PathSegment>) -> ApplicationView {
        output_of_errors(self.errors(instance, instance_path))
    }

    open spec fn rendering(&self) -> Seq<char> {
        "type: "@ + self.expected.name_text()
    }

    proof fn lemma_verdicts_agree(&self, instance: Json, instance_path: Seq<PathSegment>) {
    }

    fn is_valid(&self, instance: &Value) -> (valid: bool) {
        self.expected.matches(instance)
    }

    fn validate(&self, instance: &Value, instance_path: &JsonPointer) -> (errors: Vec<
        ValidationError,
    >) {
        let mut errors: Vec<ValidationError> = Vec::new();
        if !self.expected.matches(instance) {
            errors.push(
                ValidationError::single_type_error(
                    self.schema_path.clone(),
                    instance_path.clone(),
                    instance,
                    self.expected,
                ),
            );
        }
        errors
    }

    fn apply(&self, instance: &Value, instance_path: &JsonPointer) -> (application:
        PartialApplication) {
        let errors = self.validate(instance, instance_path);
        application_of_errors(&errors)
    }

    fn render(&self) -> (text: String) {
        String::from_str("type: ").concat(self.expected.name())
    }
}

} // verus!
