//! The structured result of applying a validator: what passed with its
//! annotations, or what failed with its descriptions.

use crate::json::{json_of, Json};
use crate::paths::{JsonPointer, PathSegment};
use crate::text::texts_of;
use crate::views::{lemma_views_add, views_of};
use serde_json::Value;
use vstd::prelude::*;
use vstd::seq_lib::lemma_multiset_commutative;

verus! {

/// An annotation with its place, as contracts see it.
pub struct AnnotationView {
    pub keyword_location: Seq<PathSegment>,
    pub instance_location: Seq<PathSegment>,
    pub value: Json,
}

/// An annotation that a keyword attached to a place of the instance.
#[derive(Debug)]
pub struct AnnotationUnit {
    pub keyword_location: JsonPointer,
    pub instance_location: JsonPointer,
    pub value: Value,
}

impl View for AnnotationUnit {
    type V = AnnotationView;

    open spec fn view(&self) -> AnnotationView {
        AnnotationView {
            keyword_location: self.keyword_location@,
            instance_location: self.instance_location@,
            value: json_of(self.value),
        }
    }
}

/// A described failure with its place, as contracts see it.
pub struct ErrorUnitView {
    pub keyword_location: Seq<PathSegment>,
    pub instance_location: Seq<PathSegment>,
    pub description: Seq<char>,
}

/// The description of a failure of a keyword at a place of the instance.
#[derive(Debug)]
pub struct ErrorUnit {
    pub keyword_location: JsonPointer,
    pub instance_location: JsonPointer,
    pub description: String,
}

impl View for ErrorUnit {
    type V = ErrorUnitView;

    open spec fn view(&self) -> ErrorUnitView {
        ErrorUnitView {
            keyword_location: self.keyword_location@,
            instance_location: self.instance_location@,
            description: self.description@,
        }
    }
}

/// A complete result, as contracts see it.
pub enum OutputView {
    Valid(Seq<AnnotationView>),
    Invalid(Seq<ErrorUnitView>),
}

impl OutputView {
    /// Whether the instance passed.
    pub open spec fn is_valid(self) -> bool {
        self is Valid
    }

    /// The annotations of a passing result; none for a failing one.
    pub open spec fn annotations(self) -> Seq<AnnotationView> {
        match self {
            OutputView::Valid(annotations) => annotations,
            OutputView::Invalid(_) => Seq::empty(),
        }
    }

    /// The failures of a failing result; none for a passing one.
    pub open spec fn errors(self) -> Seq<ErrorUnitView> {
        match self {
            OutputView::Valid(_) => Seq::empty(),
            OutputView::Invalid(errors) => errors,
        }
    }

    /// The result for both: passing when both pass, with the annotations of
    /// both; failing otherwise, with the failures of those that fail.
    pub open spec fn plus(self, other: OutputView) -> OutputView {
        match (self, other) {
            (OutputView::Valid(first), OutputView::Valid(second)) => OutputView::Valid(
                first + second,
            ),
            (OutputView::Valid(_), OutputView::Invalid(errors)) => OutputView::Invalid(errors),
            (OutputView::Invalid(errors), OutputView::Valid(_)) => OutputView::Invalid(errors),
            (OutputView::Invalid(first), OutputView::Invalid(second)) => OutputView::Invalid(
                first + second,
            ),
        }
    }
}

/// The result with nothing in it: it passes, and adding it changes nothing.
pub open spec fn empty_output() -> OutputView {
    OutputView::Valid(Seq::empty())
}

/// The results of a run added up from the left.
pub open spec fn sum_of(outputs: Seq<OutputView>) -> OutputView
    decreases outputs.len(),
{
    if outputs.len() == 0 {
        empty_output()
    } else {
        sum_of(outputs.drop_last()).plus(outputs.last())
    }
}

/// Adding results is associative.
pub proof fn lemma_plus_associative(a: OutputView, b: OutputView, c: OutputView)
    ensures
        a.plus(b).plus(c) == a.plus(b.plus(c)),
{
    match (a, b, c) {
        (OutputView::Valid(x), OutputView::Valid(y), OutputView::Valid(z)) => {
            assert((x + y) + z =~= x + (y + z));
        },
        (OutputView::Invalid(x), OutputView::Invalid(y), OutputView::Invalid(z)) => {
            assert((x + y) + z =~= x + (y + z));
        },
        _ => {},
    }
}

/// Adding results is commutative in all but the order of what they list:
/// either order gives the same verdict, the same annotations and the same
/// failures, each as often.
pub proof fn lemma_plus_commutative(a: OutputView, b: OutputView)
    ensures
        a.plus(b).is_valid() == b.plus(a).is_valid(),
        a.plus(b).annotations().to_multiset() == b.plus(a).annotations().to_multiset(),
        a.plus(b).errors().to_multiset() == b.plus(a).errors().to_multiset(),
{
    match (a, b) {
        (OutputView::Valid(x), OutputView::Valid(y)) => {
            lemma_multiset_commutative(x, y);
            lemma_multiset_commutative(y, x);
        },
        (OutputView::Invalid(x), OutputView::Invalid(y)) => {
            lemma_multiset_commutative(x, y);
            lemma_multiset_commutative(y, x);
        },
        _ => {},
    }
}

/// The empty result is neutral on both sides.
pub proof fn lemma_plus_empty(a: OutputView)
    ensures
        empty_output().plus(a) == a,
        a.plus(empty_output()) == a,
{
}

/// A sum passes exactly when every result in it passes.
pub proof fn lemma_sum_verdict(outputs: Seq<OutputView>)
    ensures
        sum_of(outputs).is_valid() <==> forall|i: int|
            0 <= i < outputs.len() ==> (#[trigger] outputs[i]).is_valid(),
    decreases outputs.len(),
{
    if outputs.len() > 0 {
        lemma_sum_verdict(outputs.drop_last());
        if sum_of(outputs).is_valid() {
            assert forall|i: int| 0 <= i < outputs.len() implies (#[trigger] outputs[i]).is_valid() by {
                if i < outputs.len() - 1 {
                    assert(outputs.drop_last()[i] == outputs[i]);
                }
            }
        }
    }
}

/// The complete result of applying a validator node.
#[derive(Debug)]
pub enum BasicOutput {
    /// The instance passed, with these annotations.
    Valid(Vec<AnnotationUnit>),
    /// The instance failed, with these failures.
    Invalid(Vec<ErrorUnit>),
}

impl View for BasicOutput {
    type V = OutputView;

    open spec fn view(&self) -> OutputView {
        match self {
            BasicOutput::Valid(annotations) => OutputView::Valid(views_of(annotations@)),
            BasicOutput::Invalid(errors) => OutputView::Invalid(views_of(errors@)),
        }
    }
}

impl BasicOutput {
    /// The result that passes with no annotation.
    pub fn empty() -> (output: Self)
        ensures
            output@ == empty_output(),
    {
        let output = BasicOutput::Valid(Vec::new());
        assert(output@.annotations() =~= Seq::empty());
        output
    }

    /// Whether the instance passed.
    pub fn is_valid(&self) -> (valid: bool)
        ensures
            valid == self@.is_valid(),
    {
        match self {
            BasicOutput::Valid(_) => true,
            BasicOutput::Invalid(_) => false,
        }
    }

    /// Adds the result of a sibling to this one.
    pub fn plus(self, other: BasicOutput) -> (total: BasicOutput)
        ensures
            total@ == self@.plus(other@),
    {
        match self {
            BasicOutput::Valid(first) => match other {
                BasicOutput::Valid(second) => {
                    let mut all = first;
                    let mut rest = second;
                    proof {
                        lemma_views_add(all@, rest@);
                    }
                    all.append(&mut rest);
                    BasicOutput::Valid(all)
                },
                BasicOutput::Invalid(errors) => BasicOutput::Invalid(errors),
            },
            BasicOutput::Invalid(first) => match other {
                BasicOutput::Valid(_) => BasicOutput::Invalid(first),
                BasicOutput::Invalid(second) => {
                    let mut all = first;
                    let mut rest = second;
                    proof {
                        lemma_views_add(all@, rest@);
                    }
                    all.append(&mut rest);
                    BasicOutput::Invalid(all)
                },
            },
        }
    }
}

/// The result of one keyword, as contracts see it.
#[allow(inconsistent_fields)]
pub enum ApplicationView {
    Valid { annotations: Option<Json>, child_results: Seq<AnnotationView> },
    Invalid { errors: Seq<Seq<char>>, child_results: Seq<ErrorUnitView> },
}

impl ApplicationView {
    /// Whether the keyword passed.
    pub open spec fn is_valid(self) -> bool {
        self is Valid
    }

    /// The result of a keyword that hands on the result of a node below it.
    pub open spec fn of_output(output: OutputView) -> ApplicationView {
        match output {
            OutputView::Valid(annotations) => ApplicationView::Valid {
                annotations: None,
                child_results: annotations,
            },
            OutputView::Invalid(errors) => ApplicationView::Invalid {
                errors: Seq::empty(),
                child_results: errors,
            },
        }
    }

    /// The complete result that this keyword contributes when it stands at
    /// `keyword_location`: what the nodes below it reported, and its own
    /// annotation or failures at that place.
    pub open spec fn rooted(
        self,
        keyword_location: Seq<PathSegment>,
        instance_location: Seq<PathSegment>,
    ) -> OutputView {
        match self {
            ApplicationView::Valid { annotations, child_results } => OutputView::Valid(
                match annotations {
                    Some(value) => seq![
                        AnnotationView { keyword_location, instance_location, value },
                    ],
                    None => Seq::empty(),
                } + child_results,
            ),
            ApplicationView::Invalid { errors, child_results } => OutputView::Invalid(
                child_results + Seq::new(
                    errors.len(),
                    |i: int|
                        ErrorUnitView { keyword_location, instance_location, description: errors[i] },
                ),
            ),
        }
    }

    /// The result of a keyword that fails by itself with these descriptions.
    pub open spec fn invalid_empty(errors: Seq<Seq<char>>) -> ApplicationView {
        ApplicationView::Invalid { errors, child_results: Seq::empty() }
    }

    /// The result of a keyword that passes and has nothing to add.
    pub open spec fn valid_empty() -> ApplicationView {
        ApplicationView::Valid { annotations: None, child_results: Seq::empty() }
    }
}

/// The result of applying one keyword: its own annotation or failures, and
/// the results of the nodes below it.
#[derive(Debug)]
#[allow(inconsistent_fields)]
pub enum PartialApplication {
    Valid { annotations: Option<Value>, child_results: Vec<AnnotationUnit> },
    Invalid { errors: Vec<String>, child_results: Vec<ErrorUnit> },
}

impl View for PartialApplication {
    type V = ApplicationView;

    open spec fn view(&self) -> ApplicationView {
        match self {
            PartialApplication::Valid { annotations, child_results } => ApplicationView::Valid {
                annotations: match annotations {
                    Some(value) => Some(json_of(*value)),
                    None => None,
                },
                child_results: views_of(child_results@),
            },
            PartialApplication::Invalid { errors, child_results } => ApplicationView::Invalid {
                errors: texts_of(errors@),
                child_results: views_of(child_results@),
            },
        }
    }
}

impl PartialApplication {
    /// Whether the keyword passed.
    pub fn is_valid(&self) -> (valid: bool)
        ensures
            valid == self@.is_valid(),
    {
        match self {
            PartialApplication::Valid { .. } => true,
            PartialApplication::Invalid { .. } => false,
        }
    }

    /// The result of a keyword that passes and has nothing to add.
    pub fn valid_empty() -> (application: Self)
        ensures
            application@ == ApplicationView::valid_empty(),
    {
        let application = PartialApplication::Valid { annotations: None, child_results: Vec::new() };
        assert(application@->Valid_child_results =~= Seq::empty());
        application
    }

    /// The result of a keyword that fails by itself with these descriptions.
    pub fn invalid_empty(errors: Vec<String>) -> (application: Self)
        ensures
            application@ == ApplicationView::invalid_empty(texts_of(errors@)),
    {
        let application = PartialApplication::Invalid { errors, child_results: Vec::new() };
        assert(application@->Invalid_child_results =~= Seq::empty());
        application
    }

    /// The complete result that this keyword contributes when it stands at
    /// `keyword_location`.
    pub fn into_output(self, keyword_location: &JsonPointer, instance_location: &JsonPointer) -> (output:
        BasicOutput)
        ensures
            output@ == self@.rooted(keyword_location@, instance_location@),
    {
        match self {
            PartialApplication::Valid { annotations, child_results } => {
                let mut units: Vec<AnnotationUnit> = Vec::new();
                match annotations {
                    Some(value) => {
                        units.push(
                            AnnotationUnit {
                                keyword_location: keyword_location.clone(),
                                instance_location: instance_location.clone(),
                                value,
                            },
                        );
                    },
                    None => {},
                }
                let mut below = child_results;
                proof {
                    lemma_views_add(units@, below@);
                }
                units.append(&mut below);
                let output = BasicOutput::Valid(units);
                assert(output@.annotations() =~= self@.rooted(
                    keyword_location@,
                    instance_location@,
                ).annotations());
                output
            },
            PartialApplication::Invalid { errors, child_results } => {
                let mut units = child_results;
                let ghost below = views_of(units@);
                let mut i: usize = 0;
                while i < errors.len()
                    invariant
                        i <= errors@.len(),
                        units@.len() == below.len() + i,
                        forall|j: int| 0 <= j < below.len() ==> units@[j]@ == below[j],
                        forall|j: int|
                            0 <= j < i ==> units@[below.len() + j]@ == (ErrorUnitView {
                                keyword_location: keyword_location@,
                                instance_location: instance_location@,
                                description: errors@[j]@,
                            }),
                    decreases errors@.len() - i,
                {
                    units.push(
                        ErrorUnit {
                            keyword_location: keyword_location.clone(),
                            instance_location: instance_location.clone(),
                            description: errors[i].clone(),
                        },
                    );
                    i += 1;
                }
                let output = BasicOutput::Invalid(units);
                assert(output@.errors() =~= self@.rooted(
                    keyword_location@,
                    instance_location@,
                ).errors());
                output
            },
        }
    }

    /// The result of a keyword that hands on the result of a node below it.
    pub fn from_output(output: BasicOutput) -> (application: Self)
        ensures
            application@ == ApplicationView::of_output(output@),
    {
        match output {
            BasicOutput::Valid(annotations) => PartialApplication::Valid {
                annotations: None,
                child_results: annotations,
            },
            BasicOutput::Invalid(errors) => {
                let application = PartialApplication::Invalid {
                    errors: Vec::new(),
                    child_results: errors,
                };
                assert(application@->Invalid_errors =~= Seq::empty());
                application
            },
        }
    }
}

} // verus!
