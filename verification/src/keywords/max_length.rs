//! `maxLength`: a string is valid when it has no more characters than the
//! limit; what is not a string is valid.

use crate::error::{ErrorView, ValidationError, ValidationErrorKind};
use crate::json::{as_text, Json};
use crate::output::{ApplicationView, PartialApplication};
use crate::paths::{decimal, decimal_text, JsonPointer, PathSegment};
use crate::validator::{application_of_errors, output_of_errors, Validate};
use serde_json::Value;
use vstd::prelude::*;
use vstd::string::*;

verus! {

/// A compiled `maxLength`.
pub struct MaxLengthValidator {
    pub limit: u64,
    pub schema_path: JsonPointer,
}

impl MaxLengthValidator {
    /// A validator for strings of at most `limit` characters, for a keyword
    /// that stands at `schema_path`.
    pub fn new(limit: u64, schema_path: JsonPointer) -> (validator: Self)
        ensures
            validator.limit == limit,
            validator.schema_path == schema_path,
    {
        MaxLengthValidator { limit, schema_path }
    }
}

impl Validate for MaxLengthValidator {
    open spec fn accepts(&self, instance: Json) -> bool {
        match instance {
            Json::String(text) => text.len() <= self.limit,
            _ => true,
        }
    }

    open spec fn errors(&self, instance: Json, instance_path: Seq<PathSegment>) -> Seq<ErrorView> {
        if self.accepts(instance) {
            Seq::empty()
        } else {
            seq![
                ErrorView {
                    instance,
                    kind: ValidationErrorKind::MaxLength { limit: self.limit },
                    instance_path,
                    schema_path: self.schema_path@,
                },
            ]
        }
    }

    open spec fn output(&self, instance: Json, instance_path: Seq<PathSegment>) -> ApplicationView {
        output_of_errors(self.errors(instance, instance_path))
    }

    open spec fn rendering(&self) -> Seq<char> {
        "maxLength: "@ + decimal_text(self.limit as nat)
    }

    proof fn lemma_verdicts_agree(&self, instance: Json, instance_path: Seq<PathSegment>) {
    }

    fn is_valid(&self, instance: &Value) -> (valid: bool) {
        match as_text(instance) {
            Some(text) => text.unicode_len() as u64 <= self.limit,
            None => true,
        }
    }

    fn validate(&self, instance: &Value, instance_path: &JsonPointer) -> (errors: Vec<
        ValidationError,
    >) {
        let mut errors: Vec<ValidationError> = Vec::new();
        if !self.is_valid(instance) {
            errors.push(
                ValidationError::new(
                    ValidationErrorKind::MaxLength { limit: self.limit },
                    self.schema_path.clone(),
                    instance_path.clone(),
                    instance,
                ),
            );
        }
        errors
    }

    fn apply(&self, instance: &Value, instance_path: &JsonPointer) -> (application:
        PartialApplication) {
        let errors = self.validate(instance, instance_path);
        application_of_errors(&errors)
    }

    fn render(&self) -> (text: String) {
        let digits = decimal(self.limit);
        String::from_str("maxLength: ").concat(digits.as_str())
    }
}

} // verus!
