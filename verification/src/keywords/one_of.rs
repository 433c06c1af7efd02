//! `oneOf`: an instance is valid when exactly one of the alternatives
//! accepts it. Where the schema has a discriminator and the instance carries
//! a tag that it knows, the alternative under that tag decides alone.

use crate::compilation::{answers_schema, sibling_reference_text, CompilationContext, Compile};
use crate::index::position_index;
use crate::error::{compilation_failure, ErrorView, ValidationError, ValidationErrorKind};
use crate::json::{
    as_elements,
    as_text,
    documents_of,
    entries,
    entry_views,
    json_of,
    member,
    Json,
};
use crate::output::{
    lemma_sum_verdict,
    sum_of,
    ApplicationView,
    BasicOutput,
    OutputView,
    PartialApplication,
};
use crate::paths::{JsonPointer, PathChunk, PathSegment};
use crate::primitive_type::PrimitiveType;
use crate::resolver::{answers_fragment, parse_url, parsed_url, NotFound, Resolve};
use crate::schema_node::SchemaNode;
use crate::schemas::{discriminator_of, Discriminator, DiscriminatorView};
use crate::text::{join, joined, same_text, texts_of};
use crate::validator::Validate;
use crate::views::views_of;
use serde_json::Value;
use url::Url;
use vstd::hash_map::StringHashMap;
use vstd::prelude::*;
use vstd::string::*;

verus! {

/// Whether `alternatives` has a node at `i` that accepts `instance`.
pub open spec fn accepted_at<K: Validate>(
    alternatives: Seq<SchemaNode<K>>,
    instance: Json,
    i: int,
) -> bool {
    0 <= i < alternatives.len() && alternatives[i].accepts(instance)
}

/// Whether some alternative accepts `instance`.
pub open spec fn some_accepts<K: Validate>(alternatives: Seq<SchemaNode<K>>, instance: Json) -> bool {
    exists|i: int| accepted_at(alternatives, instance, i)
}

/// Whether the alternative at `i` accepts `instance` and no other does.
pub open spec fn sole_acceptor<K: Validate>(
    alternatives: Seq<SchemaNode<K>>,
    instance: Json,
    i: int,
) -> bool {
    accepted_at(alternatives, instance, i) && forall|j: int| #[trigger]
        accepted_at(alternatives, instance, j) ==> j == i
}

/// Whether exactly one alternative accepts `instance`.
pub open spec fn exactly_one_accepts<K: Validate>(
    alternatives: Seq<SchemaNode<K>>,
    instance: Json,
) -> bool {
    exists|i: int| sole_acceptor(alternatives, instance, i)
}

/// The alternative that a discriminator picks for an instance: the
/// instance is an object, its property of the discriminator's name is a
/// string, the mapping has a reference for that string, and `index` has an
/// alternative for that reference. `None` where any of these fails, and
/// where there is no discriminator.
pub open spec fn dispatch_of(
    discriminator: Option<DiscriminatorView>,
    index: Map<Seq<char>, usize>,
    instance: Json,
) -> Option<int> {
    match discriminator {
        Some(described) => match instance.tag(described.property_name) {
            Some(tag) => if described.mapping.contains_key(tag) && index.contains_key(
                described.mapping[tag],
            ) {
                Some(index[described.mapping[tag]] as int)
            } else {
                None
            },
            None => None,
        },
        None => None,
    }
}

/// The one failure that a combinator at `schema_path` reports by itself.
pub open spec fn combinator_error(
    kind: ValidationErrorKind,
    schema_path: Seq<PathSegment>,
    instance: Json,
    instance_path: Seq<PathSegment>,
) -> ErrorView {
    ErrorView { instance, kind, instance_path, schema_path }
}

/// What the exhaustive check reports: nothing where exactly one alternative
/// accepts the instance, one failure at the combinator's own place
/// otherwise, which tells too many from none.
pub open spec fn exhaustive_errors<K: Validate>(
    alternatives: Seq<SchemaNode<K>>,
    schema_path: Seq<PathSegment>,
    instance: Json,
    instance_path: Seq<PathSegment>,
) -> Seq<ErrorView> {
    if exactly_one_accepts(alternatives, instance) {
        Seq::empty()
    } else if some_accepts(alternatives, instance) {
        seq![
            combinator_error(
                ValidationErrorKind::OneOfMultipleValid,
                schema_path,
                instance,
                instance_path,
            ),
        ]
    } else {
        seq![
            combinator_error(ValidationErrorKind::OneOfNotValid, schema_path, instance, instance_path),
        ]
    }
}

/// The complete result of each alternative, in order.
pub open spec fn alternative_outputs<K: Validate>(
    alternatives: Seq<SchemaNode<K>>,
    instance: Json,
    instance_path: Seq<PathSegment>,
) -> Seq<OutputView> {
    Seq::new(alternatives.len(), |i: int| alternatives[i].rooted_output(instance, instance_path))
}

/// What a combinator says where more than one alternative passes.
pub open spec fn ambiguity_text() -> Seq<char> {
    "more than one subschema succeeded"@
}

/// The structured result of the exhaustive check: the result of the one
/// alternative that passes; a failure of the combinator's own where more
/// than one passes; the failures of all alternatives added up where none
/// does.
pub open spec fn exhaustive_output<K: Validate>(
    alternatives: Seq<SchemaNode<K>>,
    instance: Json,
    instance_path: Seq<PathSegment>,
) -> ApplicationView {
    if exactly_one_accepts(alternatives, instance) {
        let sole = choose|i: int| sole_acceptor(alternatives, instance, i);
        ApplicationView::of_output(alternatives[sole].rooted_output(instance, instance_path))
    } else if some_accepts(alternatives, instance) {
        ApplicationView::invalid_empty(seq![ambiguity_text()])
    } else {
        ApplicationView::Invalid {
            errors: Seq::empty(),
            child_results: sum_of(alternative_outputs(alternatives, instance, instance_path)).errors(),
        }
    }
}

/// The alternatives in words, in order.
pub open spec fn alternative_renderings<K: Validate>(alternatives: Seq<SchemaNode<K>>) -> Seq<
    Seq<char>,
> {
    Seq::new(alternatives.len(), |i: int| alternatives[i].rendering())
}

/// The reference of a schema that is a reference and nothing else: an
/// object whose only member is `$ref`, with a string under it.
pub open spec fn bare_reference_of(schema: Json) -> Option<Seq<char>> {
    match schema {
        Json::Object(members) => if forall|key: Seq<char>|
            members.contains_key(key) <==> key == "$ref"@ {
            members["$ref"@].text()
        } else {
            None
        },
        _ => None,
    }
}

/// The bare references of a run of schemas, schema by schema.
pub open spec fn bare_references_of(schemas: Seq<Json>) -> Seq<Option<Seq<char>>> {
    Seq::new(schemas.len(), |i: int| bare_reference_of(schemas[i]))
}

/// The texts of a run of references, some of which may be missing.
pub open spec fn reference_texts(references: Seq<Option<String>>) -> Seq<Option<Seq<char>>> {
    Seq::new(
        references.len(),
        |i: int|
            match references[i] {
                Some(reference) => Some(reference@),
                None => None,
            },
    )
}

/// Whether the value of a `oneOf` keyword gives alternatives: an array with
/// at least one element.
pub open spec fn gives_alternatives(schema: Json) -> bool {
    match schema {
        Json::Array(items) => items.len() >= 1,
        _ => false,
    }
}

/// What the answer of a resolver means for the schema at `place`: no
/// discriminator where it found nothing, the discriminator that the payload
/// describes, or a failure over a payload that describes none.
pub open spec fn resolution_outcome(
    resolved: Result<(Url, Value), NotFound>,
    place: Seq<PathSegment>,
) -> Result<Option<DiscriminatorView>, ErrorView> {
    match resolved {
        Err(_) => Ok(None),
        Ok((_, payload)) => match discriminator_of(json_of(payload)) {
            Ok(described) => Ok(Some(described)),
            Err(reason) => Err(
                compilation_failure(
                    ValidationErrorKind::InvalidDiscriminator { reason },
                    place,
                    json_of(payload),
                ),
            ),
        },
    }
}

/// The view of a discriminator that may be missing.
pub open spec fn described(discriminator: Option<Discriminator>) -> Option<DiscriminatorView> {
    match discriminator {
        Some(discriminator) => Some(discriminator@),
        None => None,
    }
}

/// The reference of a schema that is a reference and nothing else.
pub fn bare_reference(schema: &Value) -> (reference: Option<String>)
    ensures
        match reference {
            Some(text) => bare_reference_of(json_of(*schema)) == Some(text@),
            None => bare_reference_of(json_of(*schema)).is_none(),
        },
{
    match entries(schema) {
        None => None,
        Some(listed) => {
            let ghost members = json_of(*schema)->Object_0;
            let ghost views = entry_views(listed@);
            if listed.len() != 1 {
                proof {
                    if listed.len() >= 2 {
                        assert(members.contains_key(views[0].0));
                        assert(members.contains_key(views[1].0));
                    } else if members.contains_key("$ref"@) {
                        let i = choose|i: int| 0 <= i < views.len() && #[trigger] views[i].0 == "$ref"@;
                        assert(false);
                    }
                }
                return None;
            }
            let key = listed[0].0;
            let value = listed[0].1;
            assert(members.contains_key(views[0].0));
            if !same_text(key.as_str(), "$ref") {
                return None;
            }
            assert forall|other: Seq<char>| members.contains_key(other) implies other == "$ref"@ by {
                let i = choose|i: int| 0 <= i < views.len() && #[trigger] views[i].0 == other;
                assert(i == 0);
            }
            match as_text(value) {
                None => None,
                Some(text) => Some(String::from_str(text)),
            }
        },
    }
}

/// The bare references of a run of schemas, schema by schema.
pub fn bare_references(schemas: &Vec<Value>) -> (references: Vec<Option<String>>)
    ensures
        reference_texts(references@) == bare_references_of(documents_of(schemas@)),
{
    let mut references: Vec<Option<String>> = Vec::new();
    let mut i: usize = 0;
    while i < schemas.len()
        invariant
            i <= schemas@.len(),
            references@.len() == i,
            forall|j: int|
                0 <= j < i ==> (#[trigger] reference_texts(references@)[j]) == bare_reference_of(
                    json_of(schemas@[j]),
                ),
        decreases schemas@.len() - i,
    {
        let ghost before = references@;
        let found = bare_reference(&schemas[i]);
        references.push(found);
        proof {
            assert forall|j: int| 0 <= j < i + 1 implies (#[trigger] reference_texts(references@)[j])
                == bare_reference_of(json_of(schemas@[j])) by {
                if j < i {
                    assert(reference_texts(before)[j] == bare_reference_of(json_of(schemas@[j])));
                }
            }
        }
        i += 1;
    }
    references
}

/// What a lookup came to, as contracts see it.
pub open spec fn lookup_view(outcome: Result<Option<Discriminator>, ValidationError>) -> Result<
    Option<DiscriminatorView>,
    ErrorView,
> {
    match outcome {
        Ok(discriminator) => Ok(described(discriminator)),
        Err(error) => Err(error@),
    }
}

/// Reads the answer of a resolver that was asked for the discriminator
/// beside the schema that `context` stands at.
pub fn discriminator_from_resolution<R: Resolve>(
    resolved: Result<(Url, Value), NotFound>,
    context: &CompilationContext<R>,
) -> (outcome: Result<Option<Discriminator>, ValidationError>)
    ensures
        lookup_view(outcome) == resolution_outcome(resolved, context.path@),
        outcome matches Ok(Some(discriminator)) ==> discriminator.wf(),
{
    match resolved {
        Err(_) => Ok(None),
        Ok(found) => {
            let payload = found.1;
            match Discriminator::parse(&payload) {
                Ok(discriminator) => Ok(Some(discriminator)),
                Err(reason) => Err(
                    ValidationError::compilation(
                        ValidationErrorKind::InvalidDiscriminator { reason },
                        context.pointer(),
                        &payload,
                    ),
                ),
            }
        },
    }
}

/// The text of the URL under which the discriminator beside the schema at
/// `place` is asked for.
pub open spec fn discriminator_url_text(scope: Seq<char>, place: Seq<PathSegment>) -> Seq<char> {
    scope + sibling_reference_text(place, "discriminator"@)
}

/// Whether `found` is what a lookup of the discriminator beside the schema
/// of `context` comes to: the resolver of the context, asked under the URL
/// of the sibling for the reference to it, gives an answer that reads as
/// `found`.
pub open spec fn discriminator_found<R: Resolve>(
    context: &CompilationContext<R>,
    found: Result<Option<DiscriminatorView>, ErrorView>,
) -> bool {
    match parsed_url(discriminator_url_text(context.scope@, context.path@)) {
        None => false,
        Some(url) => exists|resolved: Result<(Url, Value), NotFound>| #[trigger]
            answers_fragment(
                &*context.resolver,
                context.draft,
                url,
                sibling_reference_text(context.path@, "discriminator"@),
                resolved,
            ) && resolution_outcome(resolved, context.path@) == found,
    }
}

/// Asks the resolver of `context` for the discriminator beside the schema
/// that is being compiled, and reads the answer.
///
/// Where the URL of the sibling cannot be written the lookup fails as an
/// unresolved reference over `schema`. Otherwise the resolver decides what
/// is found, and the outcome is what its answer reads as.
pub fn resolve_discriminator<R: Resolve>(schema: &Value, context: &CompilationContext<R>) -> (outcome:
    Result<Option<Discriminator>, ValidationError>)
    ensures
        if parsed_url(discriminator_url_text(context.scope@, context.path@)).is_none() {
            lookup_view(outcome) == Err::<Option<DiscriminatorView>, ErrorView>(
                compilation_failure(
                    ValidationErrorKind::ReferenceUnresolved,
                    context.path@,
                    json_of(*schema),
                ),
            )
        } else {
            discriminator_found(context, lookup_view(outcome))
        },
        outcome matches Ok(Some(discriminator)) ==> discriminator.wf(),
{
    let reference = context.sibling_reference("discriminator");
    let mut url_text = context.scope.clone();
    url_text.append(reference.as_str());
    match parse_url(url_text.as_str()) {
        None => Err(
            ValidationError::compilation(
                ValidationErrorKind::ReferenceUnresolved,
                context.pointer(),
                schema,
            ),
        ),
        Some(url) => {
            let resolved = context.resolver.resolve_fragment(context.draft, &url, reference.as_str());
            let outcome = discriminator_from_resolution(resolved, context);
            assert(answers_fragment(
                &*context.resolver,
                context.draft,
                url,
                sibling_reference_text(context.path@, "discriminator"@),
                resolved,
            ));
            outcome
        },
    }
}

/// A compiled `oneOf`.
pub struct OneOfValidator<K: Validate> {
    schemas: Vec<SchemaNode<K>>,
    index: StringHashMap<usize>,
    discriminator: Option<Discriminator>,
    schema_path: JsonPointer,
}

/// The place of the alternative at `i` of a `oneOf` keyword in a schema at
/// `place`.
pub open spec fn alternative_place(place: Seq<PathSegment>, i: int) -> Seq<PathSegment> {
    place.push(PathSegment::Keyword("oneOf"@)).push(PathSegment::Index(i as nat))
}

/// Whether `made` is the combinator that the value `schema` of a `oneOf`
/// keyword compiles to, in the schema that `context` stands at.
///
/// It stands one step below the schema. Its discriminator is what the lookup
/// of the sibling found. It has one alternative for each element of the
/// value, in order, and each is what `compiler` answered for that element at
/// its own place. It indexes the elements that are references and nothing
/// else.
pub open spec fn is_compiled<C: Compile>(
    made: OneOfValidator<C::Keyword>,
    schema: Json,
    context: &CompilationContext<C::Resolver>,
    compiler: &C,
) -> bool {
    &&& made.wf()
    &&& made.schema_path() == context.path@.push(PathSegment::Keyword("oneOf"@))
    &&& discriminator_found(
        context,
        Ok::<Option<DiscriminatorView>, ErrorView>(made.discriminator()),
    )
    &&& made.index() == position_index(bare_references_of(schema->Array_0))
    &&& exists|items: Seq<Value>|
        {
            &&& #[trigger] documents_of(items) == schema->Array_0
            &&& made.alternatives().len() == items.len()
            &&& forall|i: int|
                0 <= i < items.len() ==> answers_schema(
                    compiler,
                    #[trigger] items[i],
                    context,
                    alternative_place(context.path@, i),
                    Ok::<SchemaNode<C::Keyword>, ValidationError>(made.alternatives()[i]),
                )
        }
}

/// Whether `compiler` answers with a node for the element at `i` of the
/// value of a `oneOf` keyword, at the place of that alternative.
pub open spec fn element_compiles<C: Compile>(
    compiler: &C,
    items: Seq<Value>,
    context: &CompilationContext<C::Resolver>,
    i: int,
) -> bool {
    exists|node: SchemaNode<C::Keyword>| #[trigger]
        answers_schema(
            compiler,
            items[i],
            context,
            alternative_place(context.path@, i),
            Ok::<SchemaNode<C::Keyword>, ValidationError>(node),
        )
}

/// Whether `error` is what `compiler` answered for the element at `at` of
/// the value `schema` of a `oneOf` keyword, after the lookup of the sibling
/// found `found` and all elements before it compiled. `items` are the
/// elements.
pub open spec fn fails_at<C: Compile>(
    error: ValidationError,
    schema: Json,
    context: &CompilationContext<C::Resolver>,
    compiler: &C,
    found: Option<DiscriminatorView>,
    items: Seq<Value>,
    at: int,
) -> bool {
    &&& discriminator_found(context, Ok::<Option<DiscriminatorView>, ErrorView>(found))
    &&& documents_of(items) == schema->Array_0
    &&& 0 <= at < items.len()
    &&& answers_schema(
        compiler,
        items[at],
        context,
        alternative_place(context.path@, at),
        Err::<SchemaNode<C::Keyword>, ValidationError>(error),
    )
    &&& forall|i: int| 0 <= i < at ==> #[trigger] element_compiles(compiler, items, context, i)
}

/// Whether `error` is a failure that ends the compilation of the value
/// `schema` of a `oneOf` keyword that gives alternatives under a URL that can
/// be written: the failure that the lookup of the sibling came to, or the
/// failure that `compiler` answered for an element, all elements before it
/// having compiled.
pub open spec fn is_refused<C: Compile>(
    error: ValidationError,
    schema: Json,
    context: &CompilationContext<C::Resolver>,
    compiler: &C,
) -> bool {
    ||| discriminator_found(context, Err::<Option<DiscriminatorView>, ErrorView>(error@))
    ||| exists|found: Option<DiscriminatorView>, items: Seq<Value>, at: int| #[trigger]
        fails_at(error, schema, context, compiler, found, items, at)
}

/// What a compilation of the value `schema` of a `oneOf` keyword comes to,
/// in the schema that `context` stands at.
///
/// A value that gives no alternatives fails by its type. Otherwise, where
/// the URL of the sibling `discriminator` cannot be written, the
/// compilation fails as an unresolved reference. Otherwise the resolver and
/// the compiler decide: on what they answer the keyword compiles or is
/// refused.
pub open spec fn is_compiled_from<C: Compile>(
    compiled: Result<OneOfValidator<C::Keyword>, ValidationError>,
    schema: Json,
    context: &CompilationContext<C::Resolver>,
    compiler: &C,
) -> bool {
    if !gives_alternatives(schema) {
        compiled is Err && compiled->Err_0@ == compilation_failure(
            ValidationErrorKind::TypeMismatch { expected: PrimitiveType::Array },
            context.path@,
            schema,
        )
    } else if parsed_url(discriminator_url_text(context.scope@, context.path@)).is_none() {
        compiled is Err && compiled->Err_0@ == compilation_failure(
            ValidationErrorKind::ReferenceUnresolved,
            context.path@,
            schema,
        )
    } else {
        match compiled {
            Ok(made) => is_compiled(made, schema, context, compiler),
            Err(error) => is_refused(error, schema, context, compiler),
        }
    }
}

impl<K: Validate> OneOfValidator<K> {
    /// The alternatives, in the order of the schema.
    pub closed spec fn alternatives(&self) -> Seq<SchemaNode<K>> {
        self.schemas@
    }

    /// The position of the alternative that each reference names.
    pub closed spec fn index(&self) -> Map<Seq<char>, usize> {
        self.index@
    }

    /// The discriminator, where the schema has one.
    pub closed spec fn discriminator(&self) -> Option<DiscriminatorView> {
        match self.discriminator {
            Some(discriminator) => Some(discriminator@),
            None => None,
        }
    }

    /// The place of the keyword.
    pub closed spec fn schema_path(&self) -> Seq<PathSegment> {
        self.schema_path@
    }

    /// There is at least one alternative, the index names only
    /// alternatives that exist, and the property of a discriminator has a
    /// name.
    #[verifier::type_invariant]
    pub open spec fn wf(&self) -> bool {
        &&& self.alternatives().len() >= 1
        &&& forall|reference: Seq<char>| #[trigger]
            self.index().contains_key(reference) ==> self.index()[reference]
                < self.alternatives().len()
        &&& self.discriminator() matches Some(described) ==> described.property_name.len() > 0
    }

    /// A combinator over compiled alternatives. `references` gives, for each
    /// alternative in order, its reference where its schema is a reference
    /// and nothing else; of two alternatives with one reference the later
    /// is indexed. `None` where there is no alternative, or where the two
    /// runs differ in length.
    pub fn new(
        schemas: Vec<SchemaNode<K>>,
        references: &Vec<Option<String>>,
        discriminator: Option<Discriminator>,
        schema_path: JsonPointer,
    ) -> (validator: Option<Self>)
        ensures
            validator is Some <==> schemas@.len() >= 1 && references@.len() == schemas@.len(),
            validator matches Some(made) ==> {
                &&& made.wf()
                &&& made.alternatives() == schemas@
                &&& made.index() == position_index(reference_texts(references@))
                &&& made.discriminator() == described(discriminator)
                &&& made.schema_path() == schema_path@
            },
    {
        if schemas.len() == 0 || references.len() != schemas.len() {
            return None;
        }
        proof {
            match &discriminator {
                Some(described) => {
                    use_type_invariant(described);
                },
                None => {},
            }
        }
        let ghost texts = reference_texts(references@);
        let mut index: StringHashMap<usize> = StringHashMap::new();
        let mut i: usize = 0;
        while i < references.len()
            invariant
                i <= references@.len(),
                texts == reference_texts(references@),
                index@ == position_index(texts.take(i as int)),
                forall|reference: Seq<char>| #[trigger]
                    index@.contains_key(reference) ==> index@[reference] < i,
            decreases references@.len() - i,
        {
            proof {
                assert(texts.take(i + 1).drop_last() =~= texts.take(i as int));
            }
            match &references[i] {
                Some(reference) => {
                    index.insert(reference.clone(), i);
                },
                None => {},
            }
            i += 1;
        }
        assert(texts.take(i as int) =~= texts);
        Some(OneOfValidator { schemas, index, discriminator, schema_path })
    }

    /// Compiles the value of a `oneOf` keyword.
    ///
    /// The value must be an array with at least one element. The
    /// discriminator beside the keyword is asked of the resolver, and each
    /// element is handed to `compiler` at its own place; what these answer
    /// is theirs to decide, and a failure of either ends the compilation.
    #[verifier::loop_isolation(false)]
    pub fn compile<C: Compile<Keyword = K>>(
        schema: &Value,
        context: &CompilationContext<C::Resolver>,
        compiler: &C,
    ) -> (compiled: Result<Self, ValidationError>)
        ensures
            is_compiled_from(compiled, json_of(*schema), context, compiler),
    {
        let items = match as_elements(schema) {
            Some(items) => items,
            None => {
                return Err(
                    ValidationError::single_type_error(
                        JsonPointer::default(),
                        context.pointer(),
                        schema,
                        PrimitiveType::Array,
                    ),
                );
            },
        };
        if items.len() == 0 {
            return Err(
                ValidationError::single_type_error(
                    JsonPointer::default(),
                    context.pointer(),
                    schema,
                    PrimitiveType::Array,
                ),
            );
        }
        let discriminator = match resolve_discriminator(schema, context) {
            Ok(discriminator) => discriminator,
            Err(error) => {
                return Err(error);
            },
        };
        let keyword_context = context.with_path(PathChunk::Keyword("oneOf"));
        let mut schemas: Vec<SchemaNode<K>> = Vec::new();
        let mut idx: usize = 0;
        while idx < items.len()
            invariant
                idx <= items@.len(),
                schemas@.len() == idx,
                forall|i: int|
                    0 <= i < idx ==> answers_schema(
                        compiler,
                        #[trigger] items@[i],
                        context,
                        alternative_place(context.path@, i),
                        Ok::<SchemaNode<K>, ValidationError>(schemas@[i]),
                    ),
            decreases items@.len() - idx,
        {
            let item_context = keyword_context.with_path(PathChunk::Index(idx));
            let answer = compiler.compile_validators(&items[idx], &item_context);
            assert(answers_schema(
                compiler,
                items@[idx as int],
                context,
                alternative_place(context.path@, idx as int),
                answer,
            ));
            match answer {
                Ok(node) => {
                    schemas.push(node);
                },
                Err(error) => {
                    assert forall|i: int| 0 <= i < idx implies #[trigger] element_compiles(
                        compiler,
                        items@,
                        context,
                        i,
                    ) by {
                        assert(answers_schema(
                            compiler,
                            items@[i],
                            context,
                            alternative_place(context.path@, i),
                            Ok::<SchemaNode<K>, ValidationError>(schemas@[i]),
                        ));
                    }
                    assert(fails_at(
                        error,
                        json_of(*schema),
                        context,
                        compiler,
                        described(discriminator),
                        items@,
                        idx as int,
                    ));
                    return Err(error);
                },
            }
            idx += 1;
        }
        let references = bare_references(items);
        assert(reference_texts(references@).len() == references@.len());
        assert(bare_references_of(documents_of(items@)).len() == items@.len());
        let made = Self::new(schemas, &references, discriminator, keyword_context.into_pointer());
        Ok(made.unwrap())
    }

    /// The alternative that the discriminator picks for an instance.
    pub open spec fn dispatch_target(&self, instance: Json) -> Option<int> {
        dispatch_of(self.discriminator(), self.index(), instance)
    }

    /// The position of the alternative that the discriminator picks for
    /// `instance`.
    pub fn discriminated_index(&self, instance: &Value) -> (target: Option<usize>)
        ensures
            match target {
                Some(k) => self.dispatch_target(json_of(*instance)) == Some(k as int) && k
                    < self.alternatives().len(),
                None => self.dispatch_target(json_of(*instance)).is_none(),
            },
    {
        proof {
            use_type_invariant(self);
        }
        match &self.discriminator {
            None => None,
            Some(discriminator) => match member(instance, discriminator.property_name()) {
                None => None,
                Some(tagged) => match as_text(tagged) {
                    None => None,
                    Some(tag) => match discriminator.reference_for(tag) {
                        None => None,
                        Some(reference) => match self.index.get(reference) {
                            None => None,
                            Some(k) => Some(*k),
                        },
                    },
                },
            },
        }
    }

    /// What the alternative under the instance's tag reports; `None` where
    /// the discriminator picks no alternative.
    pub fn get_discriminated_valid(&self, instance: &Value, instance_path: &JsonPointer) -> (found:
        Option<Vec<ValidationError>>)
        ensures
            match found {
                Some(errors) => self.dispatch_target(json_of(*instance)).is_some() && views_of(errors@)
                    == self.alternatives()[self.dispatch_target(json_of(*instance)).unwrap()].errors(
                    json_of(*instance),
                    instance_path@,
                ),
                None => self.dispatch_target(json_of(*instance)).is_none(),
            },
    {
        match self.discriminated_index(instance) {
            Some(k) => Some(self.schemas[k].validate(instance, instance_path)),
            None => None,
        }
    }

    /// The position of the first alternative that accepts `instance`.
    pub fn get_first_valid(&self, instance: &Value) -> (first: Option<usize>)
        ensures
            match first {
                Some(i) => accepted_at(self.alternatives(), json_of(*instance), i as int) && forall|
                    j: int,
                | #[trigger]
                    accepted_at(self.alternatives(), json_of(*instance), j) ==> i <= j,
                None => !some_accepts(self.alternatives(), json_of(*instance)),
            },
    {
        let mut i: usize = 0;
        while i < self.schemas.len()
            invariant
                i <= self.schemas@.len(),
                forall|j: int| #[trigger]
                    accepted_at(self.schemas@, json_of(*instance), j) ==> i <= j,
            decreases self.schemas@.len() - i,
        {
            if self.schemas[i].is_valid(instance) {
                return Some(i);
            }
            i += 1;
        }
        None
    }

    /// Whether an alternative other than the one at `first_valid_idx`
    /// accepts `instance`.
    pub fn are_others_valid(&self, instance: &Value, first_valid_idx: usize) -> (others: bool)
        ensures
            others == exists|j: int| #[trigger]
                accepted_at(self.alternatives(), json_of(*instance), j) && j != first_valid_idx,
    {
        let mut i: usize = 0;
        while i < self.schemas.len()
            invariant
                i <= self.schemas@.len(),
                forall|j: int| #[trigger]
                    accepted_at(self.schemas@, json_of(*instance), j) && j != first_valid_idx ==> i
                        <= j,
            decreases self.schemas@.len() - i,
        {
            if i != first_valid_idx && self.schemas[i].is_valid(instance) {
                assert(accepted_at(self.alternatives(), json_of(*instance), i as int) && i as int
                    != first_valid_idx);
                return true;
            }
            i += 1;
        }
        false
    }

    /// The verdict of the exhaustive check.
    pub fn is_valid_exhaustive(&self, instance: &Value) -> (valid: bool)
        ensures
            valid == exactly_one_accepts(self.alternatives(), json_of(*instance)),
    {
        match self.get_first_valid(instance) {
            Some(first) => {
                let others = self.are_others_valid(instance, first);
                proof {
                    if !others {
                        assert(sole_acceptor(self.alternatives(), json_of(*instance), first as int));
                    }
                }
                !others
            },
            None => false,
        }
    }

    /// What the exhaustive check reports.
    pub fn validate_exhaustive(&self, instance: &Value, instance_path: &JsonPointer) -> (errors:
        Vec<ValidationError>)
        ensures
            views_of(errors@) == exhaustive_errors(
                self.alternatives(),
                self.schema_path(),
                json_of(*instance),
                instance_path@,
            ),
    {
        let mut errors: Vec<ValidationError> = Vec::new();
        match self.get_first_valid(instance) {
            Some(first) => {
                assert(some_accepts(self.alternatives(), json_of(*instance)));
                if self.are_others_valid(instance, first) {
                    errors.push(
                        ValidationError::one_of_multiple_valid(
                            self.schema_path.clone(),
                            instance_path.clone(),
                            instance,
                        ),
                    );
                } else {
                    assert(sole_acceptor(self.alternatives(), json_of(*instance), first as int));
                }
            },
            None => {
                errors.push(
                    ValidationError::one_of_not_valid(
                        self.schema_path.clone(),
                        instance_path.clone(),
                        instance,
                    ),
                );
            },
        }
        assert(views_of(errors@) =~= exhaustive_errors(
            self.alternatives(),
            self.schema_path(),
            json_of(*instance),
            instance_path@,
        ));
        errors
    }

    /// The structured result of the exhaustive check. Every alternative is
    /// applied.
    pub fn apply_exhaustive(&self, instance: &Value, instance_path: &JsonPointer) -> (application:
        PartialApplication)
        ensures
            application@ == exhaustive_output(
                self.alternatives(),
                json_of(*instance),
                instance_path@,
            ),
    {
        proof {
            use_type_invariant(self);
        }
        let ghost document = json_of(*instance);
        let ghost outputs = alternative_outputs(self.schemas@, document, instance_path@);
        let mut first: Option<BasicOutput> = None;
        let mut several = false;
        let mut failures = BasicOutput::empty();
        let ghost mut sole: int = 0;
        let ghost mut second: int = 0;
        let mut i: usize = 0;
        while i < self.schemas.len()
            invariant
                i <= self.schemas@.len(),
                document == json_of(*instance),
                outputs == alternative_outputs(self.schemas@, document, instance_path@),
                first is None ==> !several && failures@ == sum_of(outputs.take(i as int))
                    && forall|j: int| #[trigger] accepted_at(self.schemas@, document, j) ==> i <= j,
                first matches Some(output) ==> 0 <= sole < i && accepted_at(
                    self.schemas@,
                    document,
                    sole,
                ) && output@ == outputs[sole],
                first is Some && !several ==> forall|j: int| #[trigger]
                    accepted_at(self.schemas@, document, j) && j != sole ==> i <= j,
                several ==> first is Some && 0 <= second < i && second != sole && accepted_at(
                    self.schemas@,
                    document,
                    second,
                ),
            decreases self.schemas@.len() - i,
        {
            let output = self.schemas[i].apply_rooted(instance, instance_path);
            proof {
                self.schemas@[i as int].lemma_rooted_verdict(document, instance_path@);
                assert(outputs.take(i + 1).drop_last() =~= outputs.take(i as int));
            }
            if output.is_valid() {
                if first.is_none() {
                    first = Some(output);
                    proof {
                        sole = i as int;
                    }
                } else {
                    several = true;
                    proof {
                        second = i as int;
                    }
                }
            } else if first.is_none() {
                failures = failures.plus(output);
            }
            i += 1;
        }
        assert(outputs.take(i as int) =~= outputs);
        match first {
            Some(output) => {
                if several {
                    let mut errors: Vec<String> = Vec::new();
                    errors.push(String::from_str("more than one subschema succeeded"));
                    assert(texts_of(errors@) =~= seq![ambiguity_text()]);
                    PartialApplication::invalid_empty(errors)
                } else {
                    assert(sole_acceptor(self.schemas@, document, sole));
                    PartialApplication::from_output(output)
                }
            },
            None => {
                proof {
                    lemma_sum_verdict(outputs);
                    self.schemas@[0].lemma_rooted_verdict(document, instance_path@);
                    assert(!accepted_at(self.schemas@, document, 0));
                    assert(!outputs[0].is_valid());
                }
                PartialApplication::from_output(failures)
            },
        }
    }
}

impl<K: Validate> Validate for OneOfValidator<K> {
    /// Where the discriminator picks an alternative, that alternative
    /// decides; otherwise exactly one alternative must accept.
    open spec fn accepts(&self, instance: Json) -> bool {
        match self.dispatch_target(instance) {
            Some(k) => self.alternatives()[k].accepts(instance),
            None => exactly_one_accepts(self.alternatives(), instance),
        }
    }

    /// Where the discriminator picks an alternative, what that alternative
    /// reports; otherwise what the exhaustive check reports.
    open spec fn errors(&self, instance: Json, instance_path: Seq<PathSegment>) -> Seq<ErrorView> {
        match self.dispatch_target(instance) {
            Some(k) => self.alternatives()[k].errors(instance, instance_path),
            None => exhaustive_errors(
                self.alternatives(),
                self.schema_path(),
                instance,
                instance_path,
            ),
        }
    }

    /// Where the discriminator picks an alternative, the result of that
    /// alternative; otherwise the result of the exhaustive check.
    open spec fn output(&self, instance: Json, instance_path: Seq<PathSegment>) -> ApplicationView {
        match self.dispatch_target(instance) {
            Some(k) => self.alternatives()[k].output(instance, instance_path),
            None => exhaustive_output(self.alternatives(), instance, instance_path),
        }
    }

    /// The alternatives in words, between brackets and with commas between
    /// them, behind the keyword's name.
    open spec fn rendering(&self) -> Seq<char> {
        "oneOf: ["@ + joined(alternative_renderings(self.alternatives()), ", "@) + "]"@
    }

    proof fn lemma_verdicts_agree(&self, instance: Json, instance_path: Seq<PathSegment>) {
        match self.dispatch_target(instance) {
            Some(k) => {
                self.alternatives()[k].lemma_verdicts_agree(instance, instance_path);
            },
            None => {
                if exactly_one_accepts(self.alternatives(), instance) {
                    let sole = choose|i: int| sole_acceptor(self.alternatives(), instance, i);
                    self.alternatives()[sole].lemma_rooted_verdict(instance, instance_path);
                }
            },
        }
    }

    fn is_valid(&self, instance: &Value) -> (valid: bool) {
        match self.discriminated_index(instance) {
            Some(k) => self.schemas[k].is_valid(instance),
            None => self.is_valid_exhaustive(instance),
        }
    }

    fn validate(&self, instance: &Value, instance_path: &JsonPointer) -> (errors: Vec<
        ValidationError,
    >) {
        let errors = match self.get_discriminated_valid(instance, instance_path) {
            Some(errors) => errors,
            None => self.validate_exhaustive(instance, instance_path),
        };
        proof {
            self.lemma_verdicts_agree(json_of(*instance), instance_path@);
        }
        errors
    }

    fn apply(&self, instance: &Value, instance_path: &JsonPointer) -> (application:
        PartialApplication) {
        proof {
            self.lemma_verdicts_agree(json_of(*instance), instance_path@);
        }
        match self.discriminated_index(instance) {
            Some(k) => self.schemas[k].apply(instance, instance_path),
            None => self.apply_exhaustive(instance, instance_path),
        }
    }

    fn render(&self) -> (text: String) {
        let mut parts: Vec<String> = Vec::new();
        let mut i: usize = 0;
        while i < self.schemas.len()
            invariant
                i <= self.schemas@.len(),
                parts@.len() == i,
                forall|j: int| 0 <= j < i ==> parts@[j]@ == self.schemas@[j].rendering(),
            decreases self.schemas@.len() - i,
        {
            parts.push(self.schemas[i].render());
            i += 1;
        }
        assert(texts_of(parts@) =~= alternative_renderings(self.schemas@));
        let inner = join(&parts, ", ");
        String::from_str("oneOf: [").concat(inner.as_str()).concat("]")
    }
}

/// Without a discriminator, a combinator accepts an instance exactly when
/// one alternative, taken by itself, accepts it and no other does.
pub proof fn lemma_exactly_one<K: Validate>(validator: OneOfValidator<K>, instance: Json)
    requires
        validator.discriminator() is None,
    ensures
        validator.accepts(instance) <==> exists|i: int|
            0 <= i < validator.alternatives().len() && #[trigger] validator.alternatives()[i].accepts(
                instance,
            ) && forall|j: int|
                0 <= j < validator.alternatives().len() && j != i
                    ==> !#[trigger] validator.alternatives()[j].accepts(instance),
{
    let alternatives = validator.alternatives();
    if validator.accepts(instance) {
        let sole = choose|i: int| sole_acceptor(alternatives, instance, i);
        assert forall|j: int| 0 <= j < alternatives.len() && j != sole implies !#[trigger] alternatives[j].accepts(
            instance,
        ) by {
            if alternatives[j].accepts(instance) {
                assert(accepted_at(alternatives, instance, j));
            }
        }
    }
    if exists|i: int|
        0 <= i < alternatives.len() && #[trigger] alternatives[i].accepts(instance) && forall|j: int|
            0 <= j < alternatives.len() && j != i ==> !#[trigger] alternatives[j].accepts(instance) {
        let i = choose|i: int|
            0 <= i < alternatives.len() && #[trigger] alternatives[i].accepts(instance) && forall|j: int|
                0 <= j < alternatives.len() && j != i ==> !#[trigger] alternatives[j].accepts(instance);
        assert(sole_acceptor(alternatives, instance, i));
    }
}

/// Where the discriminator picks the alternative at `k`, that alternative
/// accepts the instance and no other does, the combinator answers as the
/// exhaustive check would: it accepts, and reports nothing.
pub proof fn lemma_dispatch_agrees_when_unambiguous<K: Validate>(
    validator: OneOfValidator<K>,
    instance: Json,
    instance_path: Seq<PathSegment>,
    k: int,
)
    requires
        validator.wf(),
        validator.dispatch_target(instance) == Some(k),
        validator.alternatives()[k].accepts(instance),
        forall|j: int|
            0 <= j < validator.alternatives().len() && j != k
                ==> !#[trigger] validator.alternatives()[j].accepts(instance),
    ensures
        validator.accepts(instance) == exactly_one_accepts(validator.alternatives(), instance),
        validator.errors(instance, instance_path) == exhaustive_errors(
            validator.alternatives(),
            validator.schema_path(),
            instance,
            instance_path,
        ),
        validator.accepts(instance),
{
    let alternatives = validator.alternatives();
    let described = validator.discriminator().unwrap();
    let tag = instance.tag(described.property_name).unwrap();
    assert(sole_acceptor(alternatives, instance, k));
    alternatives[k].lemma_verdicts_agree(instance, instance_path);
}

/// Where there is no discriminator, or the instance is no object, or it
/// lacks the discriminator's property, or that property is no string, or the
/// mapping does not know the string, or no alternative stands under the
/// mapped reference, the exhaustive check decides. It always decides: it
/// accepts, or it reports exactly one failure.
pub proof fn lemma_fallback_is_total<K: Validate>(
    validator: OneOfValidator<K>,
    instance: Json,
    instance_path: Seq<PathSegment>,
)
    requires
        match validator.discriminator() {
            None => true,
            Some(described) => match instance.tag(described.property_name) {
                None => true,
                Some(tag) => !described.mapping.contains_key(tag) || !validator.index().contains_key(
                    described.mapping[tag],
                ),
            },
        },
    ensures
        validator.dispatch_target(instance).is_none(),
        validator.accepts(instance) == exactly_one_accepts(validator.alternatives(), instance),
        validator.errors(instance, instance_path) == exhaustive_errors(
            validator.alternatives(),
            validator.schema_path(),
            instance,
            instance_path,
        ),
        validator.output(instance, instance_path) == exhaustive_output(
            validator.alternatives(),
            instance,
            instance_path,
        ),
        validator.accepts(instance) <==> validator.errors(instance, instance_path).len() == 0,
        !validator.accepts(instance) <==> validator.errors(instance, instance_path).len() == 1,
{
}

/// The order of the alternatives does not change what the exhaustive check
/// decides: exchanging two of them leaves the verdict as it was.
pub proof fn lemma_verdict_ignores_order<K: Validate>(
    alternatives: Seq<SchemaNode<K>>,
    instance: Json,
    a: int,
    b: int,
)
    requires
        0 <= a < alternatives.len(),
        0 <= b < alternatives.len(),
    ensures
        exactly_one_accepts(alternatives.update(a, alternatives[b]).update(b, alternatives[a]), instance)
            == exactly_one_accepts(alternatives, instance),
{
    let exchanged = alternatives.update(a, alternatives[b]).update(b, alternatives[a]);
    let moved = |i: int|
        if i == a {
            b
        } else if i == b {
            a
        } else {
            i
        };
    assert forall|i: int| accepted_at(exchanged, instance, i) == accepted_at(
        alternatives,
        instance,
        moved(i),
    ) by {}
    if exactly_one_accepts(alternatives, instance) {
        let sole = choose|i: int| sole_acceptor(alternatives, instance, i);
        assert forall|j: int| #[trigger] accepted_at(exchanged, instance, j) implies j == moved(sole) by {}
        assert(sole_acceptor(exchanged, instance, moved(sole)));
    }
    if exactly_one_accepts(exchanged, instance) {
        let sole = choose|i: int| sole_acceptor(exchanged, instance, i);
        assert forall|j: int| #[trigger] accepted_at(alternatives, instance, j) implies j == moved(sole) by {
            assert(accepted_at(exchanged, instance, moved(j)));
        }
        assert(sole_acceptor(alternatives, instance, moved(sole)));
    }
}

/// The factory of the `oneOf` keyword. `parent` is the schema that holds
/// the keyword and `schema` the keyword's value. The answer is never `None`:
/// the keyword is there, and either compiles or fails.
pub fn compile<C: Compile>(
    parent: &serde_json::Map<String, Value>,
    schema: &Value,
    context: &CompilationContext<C::Resolver>,
    compiler: &C,
) -> (compiled: Option<Result<OneOfValidator<C::Keyword>, ValidationError>>)
    ensures
        compiled is Some,
        is_compiled_from(compiled->Some_0, json_of(*schema), context, compiler),
{
    Some(OneOfValidator::compile(schema, context, compiler))
}

} // verus!
