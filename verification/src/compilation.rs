//! What a keyword knows of its surroundings while it is compiled.

use crate::error::ValidationError;
use crate::paths::{pointer_text, JsonPointer, PathChunk, PathSegment};
use crate::resolver::{Draft, Resolve};
use crate::schema_node::SchemaNode;
use crate::validator::Validate;
use serde_json::Value;
use std::sync::Arc;
use vstd::prelude::*;
use vstd::string::*;

verus! {

/// `Arc::clone`: one more handle on the same shared value.
#[verifier::external_body]
pub(crate) fn share<T>(handle: &Arc<T>) -> (other: Arc<T>)
    ensures
        other == *handle,
{
    Arc::clone(handle)
}

/// The surroundings of the schema that is being compiled: the edition, the
/// base URL of the document, the place of the schema in it, and the resolver
/// that all levels share.
pub struct CompilationContext<R: Resolve> {
    pub draft: Draft,
    pub scope: String,
    pub path: JsonPointer,
    pub resolver: Arc<R>,
}

/// The reference to the keyword `keyword` beside the schema at `path`: a
/// fragment that points into the same document.
pub open spec fn sibling_reference_text(path: Seq<PathSegment>, keyword: Seq<char>) -> Seq<char> {
    seq!['#'] + pointer_text(path) + seq!['/'] + keyword
}

impl<R: Resolve> CompilationContext<R> {
    /// The context of a document's root.
    pub fn new(draft: Draft, scope: String, resolver: Arc<R>) -> (context: Self)
        ensures
            context.draft == draft,
            context.scope == scope,
            context.path@ == Seq::<PathSegment>::empty(),
            context.resolver == resolver,
    {
        CompilationContext { draft, scope, path: JsonPointer::default(), resolver }
    }

    /// The context one step further down; this one is left as it is.
    pub fn with_path(&self, chunk: PathChunk) -> (deeper: Self)
        ensures
            deeper.draft == self.draft,
            deeper.scope == self.scope,
            deeper.path@ == self.path@.push(chunk@),
            deeper.resolver == self.resolver,
    {
        CompilationContext {
            draft: self.draft,
            scope: self.scope.clone(),
            path: self.path.clone_with(chunk),
            resolver: share(&self.resolver),
        }
    }

    /// The place of the schema that is being compiled.
    pub fn into_pointer(self) -> (pointer: JsonPointer)
        ensures
            pointer@ == self.path@,
    {
        self.path
    }

    /// A copy of the place of the schema that is being compiled.
    pub fn pointer(&self) -> (pointer: JsonPointer)
        ensures
            pointer@ == self.path@,
    {
        self.path.clone()
    }

    /// The reference to the keyword `keyword` beside the schema that is
    /// being compiled.
    pub fn sibling_reference(&self, keyword: &str) -> (reference: String)
        ensures
            reference@ == sibling_reference_text(self.path@, keyword@),
    {
        let mut reference = String::from_str("#");
        proof {
            reveal_strlit("#");
            reveal_strlit("/");
        }
        let place = self.path.render();
        reference.append(place.as_str());
        reference.append("/");
        reference.append(keyword);
        reference
    }
}

impl<R: Resolve> Clone for CompilationContext<R> {
    fn clone(&self) -> (copy: Self)
        ensures
            copy.draft == self.draft,
            copy.scope == self.scope,
            copy.path@ == self.path@,
            copy.resolver == self.resolver,
    {
        CompilationContext {
            draft: self.draft,
            scope: self.scope.clone(),
            path: self.path.clone(),
            resolver: share(&self.resolver),
        }
    }
}

/// The compilers of the rest of a schema, which the keywords of this
/// library call for what stands below them.
///
/// Nothing is assumed of what they answer.
pub trait Compile {
    /// The validator of one keyword.
    type Keyword: Validate;

    /// The resolver of the contexts that the compilers work in.
    type Resolver: Resolve;

    /// Compiles any schema into a node. `context` gives the place of the
    /// schema.
    fn compile_validators(
        &self,
        schema: &Value,
        context: &CompilationContext<Self::Resolver>,
    ) -> Result<SchemaNode<Self::Keyword>, ValidationError>;

    /// Compiles a reference into the validator of what it names; `None`
    /// where `reference` is no reference at all.
    fn compile_reference(
        &self,
        reference: &Value,
        context: &CompilationContext<Self::Resolver>,
    ) -> Option<Result<Self::Keyword, ValidationError>>;
}

/// Whether `at` is the context of the schema at `place` in the document of
/// `parent`: the same edition, base URL and resolver, at that place.
pub open spec fn stands_at<R: Resolve>(
    at: CompilationContext<R>,
    parent: &CompilationContext<R>,
    place: Seq<PathSegment>,
) -> bool {
    &&& at.draft == parent.draft
    &&& at.scope == parent.scope
    &&& at.resolver == parent.resolver
    &&& at.path@ == place
}

/// Whether `answer` is something that `compiler` returns when it is asked
/// to compile `schema` at `place` in the document of `parent`.
pub open spec fn answers_schema<C: Compile>(
    compiler: &C,
    schema: Value,
    parent: &CompilationContext<C::Resolver>,
    place: Seq<PathSegment>,
    answer: Result<SchemaNode<C::Keyword>, ValidationError>,
) -> bool {
    exists|at: CompilationContext<C::Resolver>|
        stands_at(at, parent, place) && #[trigger] C::compile_validators.ensures(
            (compiler, &schema, &at),
            answer,
        )
}

/// Whether `answer` is something that `compiler` returns when it is asked
/// to compile the reference `reference` at `place` in the document of
/// `parent`.
pub open spec fn answers_reference<C: Compile>(
    compiler: &C,
    reference: Value,
    parent: &CompilationContext<C::Resolver>,
    place: Seq<PathSegment>,
    answer: Option<Result<C::Keyword, ValidationError>>,
) -> bool {
    exists|at: CompilationContext<C::Resolver>|
        stands_at(at, parent, place) && #[trigger] C::compile_reference.ensures(
            (compiler, &reference, &at),
            answer,
        )
}

} // verus!
