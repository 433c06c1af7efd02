//! A compiled schema: its keywords in order, and where it stands.

use crate::compilation::CompilationContext;
use crate::error::{ErrorView, ValidationError};
use crate::json::{json_of, Json};
use crate::output::{
    lemma_sum_verdict,
    sum_of,
    ApplicationView,
    BasicOutput,
    OutputView,
    PartialApplication,
};
use crate::paths::{JsonPointer, PathChunk, PathSegment};
use crate::resolver::Resolve;
use crate::text::{join, joined, texts_of};
use crate::validator::Validate;
use crate::views::{concatenated, lemma_concatenated_empty, lemma_views_add, views_of};
use serde_json::Value;
use vstd::prelude::*;
use vstd::string::*;

verus! {

/// A compiled schema: the validators of its keywords, each under the
/// keyword's name, in the order of compilation, and the place of the schema.
pub struct SchemaNode<K: Validate> {
    pub validators: Vec<(String, K)>,
    pub schema_path: JsonPointer,
}

/// What each keyword of a node reports for an instance, keyword by keyword.
pub open spec fn keyword_errors<K: Validate>(
    validators: Seq<(String, K)>,
    instance: Json,
    instance_path: Seq<PathSegment>,
) -> Seq<Seq<ErrorView>> {
    Seq::new(validators.len(), |k: int| validators[k].1.errors(instance, instance_path))
}

/// The complete result that each keyword of a node contributes, keyword by
/// keyword; a keyword stands at the node's place followed by its name.
pub open spec fn keyword_outputs<K: Validate>(
    validators: Seq<(String, K)>,
    schema_path: Seq<PathSegment>,
    instance: Json,
    instance_path: Seq<PathSegment>,
) -> Seq<OutputView> {
    Seq::new(
        validators.len(),
        |k: int|
            validators[k].1.output(instance, instance_path).rooted(
                schema_path.push(PathSegment::Property(validators[k].0@)),
                instance_path,
            ),
    )
}

/// The keywords of a node in words, keyword by keyword.
pub open spec fn keyword_renderings<K: Validate>(validators: Seq<(String, K)>) -> Seq<Seq<char>> {
    Seq::new(validators.len(), |k: int| validators[k].1.rendering())
}

impl<K: Validate> SchemaNode<K> {
    /// The complete result of the node for an instance: the sum of what its
    /// keywords contribute.
    pub open spec fn rooted_output(
        &self,
        instance: Json,
        instance_path: Seq<PathSegment>,
    ) -> OutputView {
        sum_of(keyword_outputs(self.validators@, self.schema_path@, instance, instance_path))
    }

    /// The node accepts an instance exactly when its complete result passes.
    pub proof fn lemma_rooted_verdict(&self, instance: Json, instance_path: Seq<PathSegment>)
        ensures
            self.accepts(instance) <==> self.rooted_output(instance, instance_path).is_valid(),
    {
        let outputs = keyword_outputs(self.validators@, self.schema_path@, instance, instance_path);
        lemma_sum_verdict(outputs);
        assert forall|k: int| 0 <= k < self.validators@.len() implies ((#[trigger] outputs[k]).is_valid()
            <==> self.validators@[k].1.accepts(instance)) by {
            self.validators@[k].1.lemma_verdicts_agree(instance, instance_path);
        }
        if self.accepts(instance) {
            assert forall|k: int| 0 <= k < outputs.len() implies (#[trigger] outputs[k]).is_valid() by {}
        } else {
            let k = choose|k: int|
                0 <= k < self.validators@.len() && !(#[trigger] self.validators@[k]).1.accepts(instance);
            assert(!outputs[k].is_valid());
        }
    }

    /// A node made of compiled keywords, at the place that `context` gives.
    pub fn new_from_keywords<R: Resolve>(
        context: &CompilationContext<R>,
        validators: Vec<(String, K)>,
    ) -> (node: Self)
        ensures
            node.validators == validators,
            node.schema_path@ == context.path@,
    {
        SchemaNode { validators, schema_path: context.pointer() }
    }

    /// The compiled keywords, each under its name.
    pub fn validators(&self) -> (validators: &Vec<(String, K)>)
        ensures
            validators == self.validators,
    {
        &self.validators
    }

    /// The complete result of the node for an instance.
    pub fn apply_rooted(&self, instance: &Value, instance_path: &JsonPointer) -> (output:
        BasicOutput)
        ensures
            output@ == self.rooted_output(json_of(*instance), instance_path@),
    {
        let ghost outputs = keyword_outputs(
            self.validators@,
            self.schema_path@,
            json_of(*instance),
            instance_path@,
        );
        let mut total = BasicOutput::empty();
        let mut k: usize = 0;
        while k < self.validators.len()
            invariant
                k <= self.validators@.len(),
                outputs == keyword_outputs(
                    self.validators@,
                    self.schema_path@,
                    json_of(*instance),
                    instance_path@,
                ),
                total@ == sum_of(outputs.take(k as int)),
            decreases self.validators@.len() - k,
        {
            let name = self.validators[k].0.clone();
            let location = self.schema_path.clone_with(PathChunk::Property(name));
            let application = self.validators[k].1.apply(instance, instance_path);
            let contribution = application.into_output(&location, instance_path);
            total = total.plus(contribution);
            assert(outputs.take(k + 1).drop_last() =~= outputs.take(k as int));
            k += 1;
        }
        assert(outputs.take(k as int) =~= outputs);
        total
    }
}

impl<K: Validate> Validate for SchemaNode<K> {
    /// A node accepts what every one of its keywords accepts.
    open spec fn accepts(&self, instance: Json) -> bool {
        forall|k: int|
            0 <= k < self.validators@.len() ==> (#[trigger] self.validators@[k]).1.accepts(instance)
    }

    /// A node reports what its keywords report, keyword after keyword.
    open spec fn errors(&self, instance: Json, instance_path: Seq<PathSegment>) -> Seq<ErrorView> {
        concatenated(keyword_errors(self.validators@, instance, instance_path))
    }

    /// A node hands on its complete result.
    open spec fn output(&self, instance: Json, instance_path: Seq<PathSegment>) -> ApplicationView {
        ApplicationView::of_output(self.rooted_output(instance, instance_path))
    }

    /// The keywords in words, between braces and with commas between them.
    open spec fn rendering(&self) -> Seq<char> {
        "{"@ + joined(keyword_renderings(self.validators@), ", "@) + "}"@
    }

    proof fn lemma_verdicts_agree(&self, instance: Json, instance_path: Seq<PathSegment>) {
        self.lemma_rooted_verdict(instance, instance_path);
        let parts = keyword_errors(self.validators@, instance, instance_path);
        lemma_concatenated_empty(parts);
        assert forall|k: int| 0 <= k < self.validators@.len() implies ((#[trigger] parts[k]).len() == 0
            <==> self.validators@[k].1.accepts(instance)) by {
            self.validators@[k].1.lemma_verdicts_agree(instance, instance_path);
        }
        if self.accepts(instance) {
            assert forall|k: int| 0 <= k < parts.len() implies (#[trigger] parts[k]).len() == 0 by {}
        } else {
            let k = choose|k: int|
                0 <= k < self.validators@.len() && !(#[trigger] self.validators@[k]).1.accepts(instance);
            assert(parts[k].len() != 0);
        }
    }

    fn is_valid(&self, instance: &Value) -> (valid: bool) {
        let mut k: usize = 0;
        while k < self.validators.len()
            invariant
                k <= self.validators@.len(),
                forall|j: int|
                    0 <= j < k ==> (#[trigger] self.validators@[j]).1.accepts(json_of(*instance)),
            decreases self.validators@.len() - k,
        {
            if !self.validators[k].1.is_valid(instance) {
                return false;
            }
            k += 1;
        }
        true
    }

    fn validate(&self, instance: &Value, instance_path: &JsonPointer) -> (errors: Vec<
        ValidationError,
    >) {
        let ghost parts = keyword_errors(self.validators@, json_of(*instance), instance_path@);
        let mut all: Vec<ValidationError> = Vec::new();
        let mut k: usize = 0;
        while k < self.validators.len()
            invariant
                k <= self.validators@.len(),
                parts == keyword_errors(self.validators@, json_of(*instance), instance_path@),
                views_of(all@) == concatenated(parts.take(k as int)),
            decreases self.validators@.len() - k,
        {
            let mut more = self.validators[k].1.validate(instance, instance_path);
            proof {
                lemma_views_add(all@, more@);
                assert(parts.take(k + 1).drop_last() =~= parts.take(k as int));
            }
            all.append(&mut more);
            k += 1;
        }
        assert(parts.take(k as int) =~= parts);
        proof {
            self.lemma_verdicts_agree(json_of(*instance), instance_path@);
        }
        all
    }

    fn apply(&self, instance: &Value, instance_path: &JsonPointer) -> (application:
        PartialApplication) {
        proof {
            self.lemma_verdicts_agree(json_of(*instance), instance_path@);
        }
        PartialApplication::from_output(self.apply_rooted(instance, instance_path))
    }

    fn render(&self) -> (text: String) {
        let mut parts: Vec<String> = Vec::new();
        let mut k: usize = 0;
        while k < self.validators.len()
            invariant
                k <= self.validators@.len(),
                parts@.len() == k,
                forall|j: int| 0 <= j < k ==> parts@[j]@ == self.validators@[j].1.rendering(),
            decreases self.validators@.len() - k,
        {
            parts.push(self.validators[k].1.render());
            k += 1;
        }
        assert(texts_of(parts@) =~= keyword_renderings(self.validators@));
        let inner = join(&parts, ", ");
        String::from_str("{").concat(inner.as_str()).concat("}")
    }
}

} // verus!
