//! What every compiled validator offers.

use crate::error::{ErrorView, ValidationError};
use crate::json::{json_of, Json};
use crate::output::{ApplicationView, PartialApplication};
use crate::paths::{JsonPointer, PathSegment};
use crate::text::texts_of;
use crate::views::views_of;
use serde_json::Value;
use vstd::prelude::*;

verus! {

/// A compiled validator.
///
/// It checks an instance in three ways that never disagree: with a plain
/// yes or no, with the list of failures, and with the structured result. It
/// keeps nothing of the instances it has seen.
pub trait Validate {
    /// Whether the validator accepts an instance.
    spec fn accepts(&self, instance: Json) -> bool;

    /// The failures that the validator reports for an instance that stands
    /// at `instance_path`.
    spec fn errors(&self, instance: Json, instance_path: Seq<PathSegment>) -> Seq<ErrorView>;

    /// The structured result for an instance that stands at `instance_path`.
    spec fn output(&self, instance: Json, instance_path: Seq<PathSegment>) -> ApplicationView;

    /// The validator in words.
    spec fn rendering(&self) -> Seq<char>;

    /// The three answers agree: an instance is accepted exactly when no
    /// failure is reported for it, and exactly when its structured result
    /// passes.
    proof fn lemma_verdicts_agree(&self, instance: Json, instance_path: Seq<PathSegment>)
        ensures
            self.accepts(instance) <==> self.errors(instance, instance_path).len() == 0,
            self.accepts(instance) <==> self.output(instance, instance_path).is_valid(),
    ;

    /// The bare verdict.
    fn is_valid(&self, instance: &Value) -> (valid: bool)
        ensures
            valid == self.accepts(json_of(*instance)),
    ;

    /// The failures, in the order in which the validator finds them.
    fn validate(&self, instance: &Value, instance_path: &JsonPointer) -> (errors: Vec<
        ValidationError,
    >)
        ensures
            views_of(errors@) == self.errors(json_of(*instance), instance_path@),
            errors@.len() == 0 <==> self.accepts(json_of(*instance)),
    ;

    /// The structured result.
    fn apply(&self, instance: &Value, instance_path: &JsonPointer) -> (application:
        PartialApplication)
        ensures
            application@ == self.output(json_of(*instance), instance_path@),
            application@.is_valid() <==> self.accepts(json_of(*instance)),
    ;

    /// The validator in words.
    fn render(&self) -> (text: String)
        ensures
            text@ == self.rendering(),
    ;
}

/// A validator rejects an instance exactly when it reports at least one
/// failure for it.
pub proof fn lemma_error_count_consistent<V: Validate>(
    validator: V,
    instance: Json,
    instance_path: Seq<PathSegment>,
)
    ensures
        !validator.accepts(instance) <==> validator.errors(instance, instance_path).len() >= 1,
{
    validator.lemma_verdicts_agree(instance, instance_path);
}

/// Asking again changes nothing. Whatever two rounds of checks return for
/// two values that hold the same document at the same place, the verdicts
/// are the same, the failures are the same one by one, and the structured
/// results are the same.
pub proof fn lemma_idempotent<V: Validate>(
    validator: V,
    first: Value,
    second: Value,
    instance_path: JsonPointer,
    first_verdict: bool,
    second_verdict: bool,
    first_errors: Vec<ValidationError>,
    second_errors: Vec<ValidationError>,
    first_application: PartialApplication,
    second_application: PartialApplication,
)
    requires
        json_of(first) == json_of(second),
        first_verdict == validator.accepts(json_of(first)),
        second_verdict == validator.accepts(json_of(second)),
        views_of(first_errors@) == validator.errors(json_of(first), instance_path@),
        views_of(second_errors@) == validator.errors(json_of(second), instance_path@),
        first_application@ == validator.output(json_of(first), instance_path@),
        second_application@ == validator.output(json_of(second), instance_path@),
    ensures
        first_verdict == second_verdict,
        views_of(first_errors@) == views_of(second_errors@),
        first_application@ == second_application@,
{
}

/// The descriptions of a run of failures, in order.
pub open spec fn descriptions_of(errors: Seq<ErrorView>) -> Seq<Seq<char>> {
    Seq::new(errors.len(), |i: int| errors[i].kind.description())
}

/// The structured result of a keyword that has no nodes below it and
/// reports `errors`: it passes when there are none, and fails with their
/// descriptions otherwise.
pub open spec fn output_of_errors(errors: Seq<ErrorView>) -> ApplicationView {
    if errors.len() == 0 {
        ApplicationView::valid_empty()
    } else {
        ApplicationView::invalid_empty(descriptions_of(errors))
    }
}

/// The structured result of a keyword that has no nodes below it and
/// reports `errors`.
pub fn application_of_errors(errors: &Vec<ValidationError>) -> (application: PartialApplication)
    ensures
        application@ == output_of_errors(views_of(errors@)),
{
    if errors.len() == 0 {
        PartialApplication::valid_empty()
    } else {
        let mut descriptions: Vec<String> = Vec::new();
        let mut i: usize = 0;
        while i < errors.len()
            invariant
                i <= errors@.len(),
                descriptions@.len() == i,
                forall|j: int| 0 <= j < i ==> descriptions@[j]@ == errors@[j]@.kind.description(),
            decreases errors@.len() - i,
        {
            descriptions.push(errors[i].kind.describe());
            i += 1;
        }
        assert(texts_of(descriptions@) =~= descriptions_of(views_of(errors@)));
        PartialApplication::invalid_empty(descriptions)
    }
}

} // verus!
