//! `required`: an object is valid when it has every member that is named;
//! what is not an object is valid.

use crate::error::{ErrorView, ValidationError, ValidationErrorKind};
use crate::json::{json_of, kind_of, member, Json, JsonKind};
use crate::output::{ApplicationView, PartialApplication};
use crate::paths::{JsonPointer, PathSegment};
use crate::text::{join, joined, texts_of};
use crate::validator::{application_of_errors, output_of_errors, Validate};
use serde_json::Value;
use vstd::prelude::*;
use vstd::string::*;

verus! {

/// A compiled `required`.
pub struct RequiredValidator {
    pub required: Vec<String>,
    pub schema_path: JsonPointer,
}

impl RequiredValidator {
    /// A validator for objects with the members `required`, for a keyword
    /// that stands at `schema_path`.
    pub fn new(required: Vec<String>, schema_path: JsonPointer) -> (validator: Self)
        ensures
            validator.required == required,
            validator.schema_path == schema_path,
    {
        RequiredValidator { required, schema_path }
    }
}

impl Validate for RequiredValidator {
    open spec fn accepts(&self, instance: Json) -> bool {
        match instance {
            Json::Object(members) => forall|i: int|
                0 <= i < self.required@.len() ==> members.contains_key(#[trigger] self.required@[i]@),
            _ => true,
        }
    }

    open spec fn errors(&self, instance: Json, instance_path: Seq<PathSegment>) -> Seq<ErrorView> {
        if self.accepts(instance) {
            Seq::empty()
        } else {
            seq![
                ErrorView {
                    instance,
                    kind: ValidationErrorKind::Required,
                    instance_path,
                    schema_path: self.schema_path@,
                },
            ]
        }
    }

    open spec fn output(&self, instance: Json, instance_path: Seq<PathSegment>) -> ApplicationView {
        output_of_errors(self.errors(instance, instance_path))
    }

    open spec fn rendering(&self) -> Seq<char> {
        "required: ["@ + joined(texts_of(self.required@), ", "@) + "]"@
    }

    proof fn lemma_verdicts_agree(&self, instance: Json, instance_path: Seq<PathSegment>) {
    }

    fn is_valid(&self, instance: &Value) -> (valid: bool) {
        if kind_of(instance) != JsonKind::Object {
            return true;
        }
        let mut i: usize = 0;
        while i < self.required.len()
            invariant
                i <= self.required@.len(),
                json_of(*instance) is Object,
                forall|j: int|
                    0 <= j < i ==> json_of(*instance)->Object_0.contains_key(
                        #[trigger] self.required@[j]@,
                    ),
            decreases self.required@.len() - i,
        {
            if member(instance, self.required[i].as_str()).is_none() {
                return false;
            }
            i += 1;
        }
        true
    }

    fn validate(&self, instance: &Value, instance_path: &JsonPointer) -> (errors: Vec<
        ValidationError,
    >) {
        let mut errors: Vec<ValidationError> = Vec::new();
        if !self.is_valid(instance) {
            errors.push(
                ValidationError::new(
                    ValidationErrorKind::Required,
                    self.schema_path.clone(),
                    instance_path.clone(),
                    instance,
                ),
            );
        }
        errors
    }

    fn apply(&self, instance: &Value, instance_path: &JsonPointer) -> (application:
        PartialApplication) {
        let errors = self.validate(instance, instance_path);
        application_of_errors(&errors)
    }

    fn render(&self) -> (text: String) {
        let inner = join(&self.required, ", ");
        String::from_str("required: [").concat(inner.as_str()).concat("]")
    }
}

} // verus!
