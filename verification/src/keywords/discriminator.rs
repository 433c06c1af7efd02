//! `discriminator` as a keyword of its own: the instance names, by the tag
//! it carries, the one schema that it must satisfy.

use crate::compilation::{answers_reference, stands_at, CompilationContext, Compile};
use crate::error::{
    compilation_failure,
    DiscriminatorFault,
    ErrorView,
    ValidationError,
    ValidationErrorKind,
};
use crate::index::{all_named, lemma_position_index, position_index};
use crate::json::{as_text, entries, entry_views, json_of, kind_of, member, Json, JsonKind};
use crate::output::{ApplicationView, PartialApplication};
use crate::paths::{JsonPointer, PathChunk, PathSegment};
use crate::primitive_type::PrimitiveType;
use crate::resolver::Resolve;
use crate::schema_node::SchemaNode;
use crate::schemas::{discriminator_of, Discriminator};
use crate::text::{join, joined, texts_of};
use crate::validator::{application_of_errors, output_of_errors, Validate};
use crate::views::views_of;
use serde_json::Value;
use vstd::hash_map::StringHashMap;
use vstd::prelude::*;
use vstd::string::*;

verus! {

/// The schema that an instance names by its tag: the instance is an object,
/// its property of the given name is a string, and `mapping` knows that
/// string. `None` where any of these fails.
pub open spec fn target_of(
    property_name: Seq<char>,
    mapping: Map<Seq<char>, usize>,
    instance: Json,
) -> Option<int> {
    match instance.tag(property_name) {
        Some(tag) => if mapping.contains_key(tag) {
            Some(mapping[tag] as int)
        } else {
            None
        },
        None => None,
    }
}

/// The targets in words, in order.
pub open spec fn target_renderings<K: Validate>(targets: Seq<SchemaNode<K>>) -> Seq<Seq<char>> {
    Seq::new(targets.len(), |i: int| targets[i].rendering())
}

/// Whether a node holds one validator, under the name `$ref`, and stands at
/// `place`.
pub open spec fn is_reference_node<K: Validate>(node: SchemaNode<K>, place: Seq<PathSegment>) -> bool {
    &&& node.validators@.len() == 1
    &&& node.validators@[0].0@ == "$ref"@
    &&& node.schema_path@ == place
}

/// What the answer of the reference compiler means for a value of the
/// mapping: a node around the validator it made, its failure handed on, or
/// a failure of the value's type where it took the value for no reference.
pub open spec fn reference_outcome<K: Validate>(
    compiled: Option<Result<K, ValidationError>>,
    place: Seq<PathSegment>,
    schema: Json,
    node: Result<SchemaNode<K>, ValidationError>,
) -> bool {
    match compiled {
        Some(Ok(validator)) => node is Ok && is_reference_node(node->Ok_0, place)
            && node->Ok_0.validators@[0].1 == validator,
        Some(Err(error)) => node is Err && node->Err_0 == error,
        None => node is Err && node->Err_0@ == compilation_failure(
            ValidationErrorKind::TypeMismatch { expected: PrimitiveType::String },
            place,
            schema,
        ),
    }
}

/// Wraps the answer of the reference compiler for the value `schema` of a
/// mapping into a node.
pub fn node_of_reference<K: Validate, R: Resolve>(
    compiled: Option<Result<K, ValidationError>>,
    schema: &Value,
    context: &CompilationContext<R>,
) -> (node: Result<SchemaNode<K>, ValidationError>)
    ensures
        reference_outcome(compiled, context.path@, json_of(*schema), node),
{
    match compiled {
        Some(Ok(validator)) => {
            let mut validators: Vec<(String, K)> = Vec::new();
            validators.push((String::from_str("$ref"), validator));
            Ok(SchemaNode::new_from_keywords(context, validators))
        },
        Some(Err(error)) => Err(error),
        None => Err(
            ValidationError::single_type_error(
                JsonPointer::default(),
                context.pointer(),
                schema,
                PrimitiveType::String,
            ),
        ),
    }
}

/// Whether `node` is what the value `reference` of a mapping compiles to at
/// `place` in the document of `parent`.
///
/// A value that is no string fails as a malformed discriminator. For a
/// string the reference compiler decides, and the node is what its answer
/// means.
pub open spec fn target_compiled<C: Compile>(
    node: Result<SchemaNode<C::Keyword>, ValidationError>,
    reference: Value,
    parent: &CompilationContext<C::Resolver>,
    place: Seq<PathSegment>,
    compiler: &C,
) -> bool {
    if json_of(reference) is String {
        exists|compiled: Option<Result<C::Keyword, ValidationError>>| #[trigger]
            answers_reference(compiler, reference, parent, place, compiled) && reference_outcome(
                compiled,
                place,
                json_of(reference),
                node,
            )
    } else {
        node is Err && node->Err_0@ == compilation_failure(
            ValidationErrorKind::InvalidDiscriminator {
                reason: DiscriminatorFault::MappingValueNotString,
            },
            place,
            json_of(reference),
        )
    }
}

/// Compiles one value of a mapping: a string, which the reference compiler
/// turns into the validator of what it names.
pub fn compile_mapping<C: Compile>(
    schema: &Value,
    context: &CompilationContext<C::Resolver>,
    compiler: &C,
) -> (node: Result<SchemaNode<C::Keyword>, ValidationError>)
    ensures
        target_compiled(node, *schema, context, context.path@, compiler),
{
    match as_text(schema) {
        Some(_) => {
            let compiled = compiler.compile_reference(schema, context);
            assert(stands_at(*context, context, context.path@));
            assert(answers_reference(compiler, *schema, context, context.path@, compiled));
            node_of_reference(compiled, schema, context)
        },
        None => Err(
            ValidationError::compilation(
                ValidationErrorKind::InvalidDiscriminator {
                    reason: DiscriminatorFault::MappingValueNotString,
                },
                context.pointer(),
                schema,
            ),
        ),
    }
}

/// A node that compiled at the place of a context deeper in a document
/// compiled at that place in the document.
pub proof fn lemma_target_in_document<C: Compile>(
    node: Result<SchemaNode<C::Keyword>, ValidationError>,
    reference: Value,
    inner: &CompilationContext<C::Resolver>,
    outer: &CompilationContext<C::Resolver>,
    compiler: &C,
)
    requires
        target_compiled(node, reference, inner, inner.path@, compiler),
        inner.draft == outer.draft,
        inner.scope == outer.scope,
        inner.resolver == outer.resolver,
    ensures
        target_compiled(node, reference, outer, inner.path@, compiler),
{
    if json_of(reference) is String {
        let compiled = choose|compiled: Option<Result<C::Keyword, ValidationError>>| #[trigger]
            answers_reference(compiler, reference, inner, inner.path@, compiled) && reference_outcome(
                compiled,
                inner.path@,
                json_of(reference),
                node,
            );
        let at = choose|at: CompilationContext<C::Resolver>|
            stands_at(at, inner, inner.path@) && #[trigger] C::compile_reference.ensures(
                (compiler, &reference, &at),
                compiled,
            );
        assert(stands_at(at, outer, inner.path@));
        assert(answers_reference(compiler, reference, outer, inner.path@, compiled));
    }
}

/// A compiled `discriminator`.
pub struct DiscriminatorValidator<K: Validate> {
    schema_path: JsonPointer,
    property_name: String,
    targets: Vec<SchemaNode<K>>,
    mapping: StringHashMap<usize>,
}

/// The place of the value under `tag` in the mapping of a `discriminator`
/// keyword in a schema at `place`.
pub open spec fn mapping_place(place: Seq<PathSegment>, tag: Seq<char>) -> Seq<PathSegment> {
    place.push(PathSegment::Keyword("discriminator"@)).push(PathSegment::Keyword("mapping"@)).push(
        PathSegment::Property(tag),
    )
}

/// Whether `node` is what the value under `tag` in the mapping of `payload`
/// compiles to, in the schema that `context` stands at.
pub open spec fn entry_compiled<C: Compile>(
    node: Result<SchemaNode<C::Keyword>, ValidationError>,
    payload: Json,
    tag: Seq<char>,
    context: &CompilationContext<C::Resolver>,
    compiler: &C,
) -> bool {
    exists|reference: Value|
        json_of(reference) == payload->Object_0["mapping"@]->Object_0[tag] && #[trigger] target_compiled(
            node,
            reference,
            context,
            mapping_place(context.path@, tag),
            compiler,
        )
}

/// Whether `made` is the validator that the value `schema` of a
/// `discriminator` keyword compiles to, in the schema that `context` stands
/// at.
///
/// It stands one step below the schema and has the property name that the
/// value gives. It knows exactly the tags of the mapping, and under each tag
/// stands the node that the value under this tag compiled to.
pub open spec fn is_compiled<C: Compile>(
    made: DiscriminatorValidator<C::Keyword>,
    schema: Json,
    context: &CompilationContext<C::Resolver>,
    compiler: &C,
) -> bool {
    let described = discriminator_of(schema)->Ok_0;
    &&& made.wf()
    &&& made.schema_path() == context.path@.push(PathSegment::Keyword("discriminator"@))
    &&& made.property_name() == described.property_name
    &&& forall|tag: Seq<char>| #[trigger]
        made.mapping().contains_key(tag) <==> described.mapping.contains_key(tag)
    &&& forall|tag: Seq<char>| #[trigger]
        made.mapping().contains_key(tag) ==> entry_compiled(
            Ok::<SchemaNode<C::Keyword>, ValidationError>(made.targets()[made.mapping()[tag] as int]),
            schema,
            tag,
            context,
            compiler,
        )
}

/// Whether `error` is a failure that ends the compilation of a value
/// `schema` that describes a discriminator: what the value under some tag of
/// the mapping failed with.
pub open spec fn is_refused<C: Compile>(
    error: ValidationError,
    schema: Json,
    context: &CompilationContext<C::Resolver>,
    compiler: &C,
) -> bool {
    exists|tag: Seq<char>|
        discriminator_of(schema)->Ok_0.mapping.contains_key(tag) && #[trigger] entry_compiled(
            Err::<SchemaNode<C::Keyword>, ValidationError>(error),
            schema,
            tag,
            context,
            compiler,
        )
}

/// What a compilation of the value `schema` of a `discriminator` keyword
/// comes to, in the schema that `context` stands at.
///
/// A value that is no object fails by its type, and an object that
/// describes no discriminator fails with the reason. Otherwise the reference
/// compiler decides: on what it answers the keyword compiles or is refused.
pub open spec fn is_compiled_from<C: Compile>(
    compiled: Result<DiscriminatorValidator<C::Keyword>, ValidationError>,
    schema: Json,
    context: &CompilationContext<C::Resolver>,
    compiler: &C,
) -> bool {
    if !(schema is Object) {
        compiled is Err && compiled->Err_0@ == compilation_failure(
            ValidationErrorKind::TypeMismatch { expected: PrimitiveType::Object },
            context.path@,
            schema,
        )
    } else if discriminator_of(schema) is Err {
        compiled is Err && compiled->Err_0@ == compilation_failure(
            ValidationErrorKind::InvalidDiscriminator { reason: discriminator_of(schema)->Err_0 },
            context.path@,
            schema,
        )
    } else {
        match compiled {
            Ok(made) => is_compiled(made, schema, context, compiler),
            Err(error) => is_refused(error, schema, context, compiler),
        }
    }
}

impl<K: Validate> DiscriminatorValidator<K> {
    /// The place of the keyword.
    pub closed spec fn schema_path(&self) -> Seq<PathSegment> {
        self.schema_path@
    }

    /// The name of the property that carries the tag.
    pub closed spec fn property_name(&self) -> Seq<char> {
        self.property_name@
    }

    /// The compiled schemas that tags name, in the order of compilation.
    pub closed spec fn targets(&self) -> Seq<SchemaNode<K>> {
        self.targets@
    }

    /// The position of the schema that each tag names.
    pub closed spec fn mapping(&self) -> Map<Seq<char>, usize> {
        self.mapping@
    }

    /// The property has a name, and the mapping names only schemas that
    /// exist.
    #[verifier::type_invariant]
    pub open spec fn wf(&self) -> bool {
        &&& self.property_name().len() > 0
        &&& forall|tag: Seq<char>| #[trigger]
            self.mapping().contains_key(tag) ==> self.mapping()[tag] < self.targets().len()
    }

    /// The schema that an instance names by its tag.
    pub open spec fn target(&self, instance: Json) -> Option<int> {
        target_of(self.property_name(), self.mapping(), instance)
    }

    /// The one failure of an instance that names no schema.
    pub open spec fn no_target_error(
        &self,
        instance: Json,
        instance_path: Seq<PathSegment>,
    ) -> ErrorView {
        ErrorView {
            instance,
            kind: ValidationErrorKind::OneOfNotValid,
            instance_path,
            schema_path: self.schema_path(),
        }
    }

    /// A validator over compiled schemas. `tags` gives, for each schema in
    /// order, the tag that names it; of two schemas under one tag the later
    /// is named. `None` where the property has no name, or where the two
    /// runs differ in length.
    pub fn new(
        property_name: String,
        tags: &Vec<String>,
        targets: Vec<SchemaNode<K>>,
        schema_path: JsonPointer,
    ) -> (validator: Option<Self>)
        ensures
            validator is Some <==> property_name@.len() > 0 && tags@.len() == targets@.len(),
            validator matches Some(made) ==> {
                &&& made.wf()
                &&& made.property_name() == property_name@
                &&& made.targets() == targets@
                &&& made.mapping() == position_index(all_named(texts_of(tags@)))
                &&& made.schema_path() == schema_path@
            },
    {
        if property_name.as_str().is_empty() || tags.len() != targets.len() {
            return None;
        }
        let ghost texts = all_named(texts_of(tags@));
        let mut mapping: StringHashMap<usize> = StringHashMap::new();
        let mut i: usize = 0;
        while i < tags.len()
            invariant
                i <= tags@.len(),
                texts == all_named(texts_of(tags@)),
                mapping@ == position_index(texts.take(i as int)),
                forall|tag: Seq<char>| #[trigger] mapping@.contains_key(tag) ==> mapping@[tag] < i,
            decreases tags@.len() - i,
        {
            proof {
                assert(texts.take(i + 1).drop_last() =~= texts.take(i as int));
            }
            mapping.insert(tags[i].clone(), i);
            i += 1;
        }
        assert(texts.take(i as int) =~= texts);
        Some(DiscriminatorValidator { schema_path, property_name, targets, mapping })
    }

    /// Compiles the value of a `discriminator` keyword.
    ///
    /// The value must be an object that describes a discriminator. Each
    /// value of its mapping is then compiled as a reference, at its own
    /// place; what the reference compiler answers is its to decide, and a
    /// failure of it ends the compilation.
    #[verifier::loop_isolation(false)]
    pub fn compile<C: Compile<Keyword = K>>(
        schema: &Value,
        context: &CompilationContext<C::Resolver>,
        compiler: &C,
    ) -> (compiled: Result<Self, ValidationError>)
        ensures
            is_compiled_from(compiled, json_of(*schema), context, compiler),
    {
        if kind_of(schema) != JsonKind::Object {
            return Err(
                ValidationError::single_type_error(
                    JsonPointer::default(),
                    context.pointer(),
                    schema,
                    PrimitiveType::Object,
                ),
            );
        }
        let described = match Discriminator::parse(schema) {
            Ok(described) => described,
            Err(reason) => {
                return Err(
                    ValidationError::compilation(
                        ValidationErrorKind::InvalidDiscriminator { reason },
                        context.pointer(),
                        schema,
                    ),
                );
            },
        };
        let keyword_context = context.with_path(PathChunk::Keyword("discriminator"));
        let mapping_context = keyword_context.with_path(PathChunk::Keyword("mapping"));
        let mut tags: Vec<String> = Vec::new();
        let mut targets: Vec<SchemaNode<K>> = Vec::new();
        let ghost payload = json_of(*schema);
        let ghost mut sources: Seq<Value> = Seq::empty();
        match member(schema, "mapping") {
            None => {},
            Some(table) => match entries(table) {
                None => {
                    // The payload was read as a discriminator, so its mapping
                    // is an object.
                    assert(false);
                },
                Some(listed) => {
                    let ghost members = json_of(*table)->Object_0;
                    let ghost views = entry_views(listed@);
                    let mut i: usize = 0;
                    while i < listed.len()
                        invariant
                            i <= listed@.len(),
                            tags@.len() == i,
                            targets@.len() == i,
                            sources.len() == i,
                            forall|j: int| 0 <= j < i ==> (#[trigger] tags@[j])@ == views[j].0,
                            forall|j: int| 0 <= j < i ==> json_of(#[trigger] sources[j]) == views[j].1,
                            forall|j: int|
                                0 <= j < i ==> target_compiled(
                                    Ok::<SchemaNode<K>, ValidationError>(#[trigger] targets@[j]),
                                    sources[j],
                                    context,
                                    mapping_place(context.path@, views[j].0),
                                    compiler,
                                ),
                        decreases listed@.len() - i,
                    {
                        let key = listed[i].0;
                        let item = listed[i].1;
                        let item_context = mapping_context.with_path(
                            PathChunk::Property(key.clone()),
                        );
                        let node = compile_mapping(item, &item_context, compiler);
                        proof {
                            assert(views[i as int] == (key@, json_of(*item)));
                            assert(members.contains_key(views[i as int].0));
                            assert(payload->Object_0["mapping"@]->Object_0[key@] == json_of(*item));
                            assert(item_context.path@ == mapping_place(context.path@, key@));
                            lemma_target_in_document(node, *item, &item_context, context, compiler);
                        }
                        match node {
                            Ok(node) => {
                                tags.push(key.clone());
                                targets.push(node);
                                proof {
                                    sources = sources.push(*item);
                                }
                            },
                            Err(error) => {
                                assert(entry_compiled(
                                    Err::<SchemaNode<K>, ValidationError>(error),
                                    payload,
                                    key@,
                                    context,
                                    compiler,
                                ));
                                return Err(error);
                            },
                        }
                        i += 1;
                    }
                    proof {
                        let named = all_named(texts_of(tags@));
                        assert forall|tag: Seq<char>| named.contains(Some(tag)) <==> members.contains_key(
                            tag,
                        ) by {
                            if named.contains(Some(tag)) {
                                let j = choose|j: int| 0 <= j < named.len() && named[j] == Some(tag);
                                assert(tags@[j]@ == views[j].0);
                                assert(members.contains_key(views[j].0));
                            }
                            if members.contains_key(tag) {
                                let j = choose|j: int| 0 <= j < views.len() && #[trigger] views[j].0 == tag;
                                assert(named[j] == Some(tag));
                            }
                        }
                        assert forall|j: int| 0 <= j < tags@.len() implies entry_compiled(
                            Ok::<SchemaNode<K>, ValidationError>(#[trigger] targets@[j]),
                            payload,
                            tags@[j]@,
                            context,
                            compiler,
                        ) by {
                            assert(members.contains_key(views[j].0));
                            assert(json_of(sources[j]) == members[tags@[j]@]);
                        }
                    }
                },
            },
        }
        let property_name = String::from_str(described.property_name());
        let made = Self::new(property_name, &tags, targets, keyword_context.into_pointer()).unwrap();
        proof {
            let named = all_named(texts_of(tags@));
            let mapping = discriminator_of(payload)->Ok_0.mapping;
            lemma_position_index(named);
            assert forall|tag: Seq<char>| #[trigger]
                made.mapping().contains_key(tag) <==> mapping.contains_key(tag) by {}
            assert forall|tag: Seq<char>| #[trigger] made.mapping().contains_key(tag) implies entry_compiled(
                Ok::<SchemaNode<K>, ValidationError>(made.targets()[made.mapping()[tag] as int]),
                payload,
                tag,
                context,
                compiler,
            ) by {
                let k = made.mapping()[tag] as int;
                assert(named[k] == Some(tag));
                assert(tags@[k]@ == tag);
            }
        }
        Ok(made)
    }

    /// The position of the schema that `instance` names by its tag.
    pub fn target_index(&self, instance: &Value) -> (found: Option<usize>)
        ensures
            match found {
                Some(k) => self.target(json_of(*instance)) == Some(k as int) && k
                    < self.targets().len(),
                None => self.target(json_of(*instance)).is_none(),
            },
    {
        proof {
            use_type_invariant(self);
        }
        match member(instance, self.property_name.as_str()) {
            None => None,
            Some(tagged) => match as_text(tagged) {
                None => None,
                Some(tag) => match self.mapping.get(tag) {
                    None => None,
                    Some(k) => Some(*k),
                },
            },
        }
    }

    /// What the schema that `instance` names reports for it; the one
    /// failure of this keyword where it names none.
    pub fn get_discriminated_valid(&self, instance: &Value, instance_path: &JsonPointer) -> (errors:
        Vec<ValidationError>)
        ensures
            views_of(errors@) == self.errors(json_of(*instance), instance_path@),
    {
        match self.target_index(instance) {
            Some(k) => self.targets[k].validate(instance, instance_path),
            None => {
                let mut errors: Vec<ValidationError> = Vec::new();
                errors.push(
                    ValidationError::one_of_not_valid(
                        self.schema_path.clone(),
                        instance_path.clone(),
                        instance,
                    ),
                );
                errors
            },
        }
    }
}

impl<K: Validate> Validate for DiscriminatorValidator<K> {
    /// The schema that the instance names decides; an instance that names
    /// none is rejected.
    open spec fn accepts(&self, instance: Json) -> bool {
        match self.target(instance) {
            Some(k) => self.targets()[k].accepts(instance),
            None => false,
        }
    }

    /// What the schema that the instance names reports; one failure at the
    /// keyword's own place for an instance that names none.
    open spec fn errors(&self, instance: Json, instance_path: Seq<PathSegment>) -> Seq<ErrorView> {
        match self.target(instance) {
            Some(k) => self.targets()[k].errors(instance, instance_path),
            None => seq![self.no_target_error(instance, instance_path)],
        }
    }

    /// The result of the schema that the instance names; the keyword's own
    /// failure for an instance that names none.
    open spec fn output(&self, instance: Json, instance_path: Seq<PathSegment>) -> ApplicationView {
        match self.target(instance) {
            Some(k) => self.targets()[k].output(instance, instance_path),
            None => output_of_errors(seq![self.no_target_error(instance, instance_path)]),
        }
    }

    /// The schemas in words, between brackets and with commas between them,
    /// behind the keyword's name.
    open spec fn rendering(&self) -> Seq<char> {
        "discriminator: ["@ + joined(target_renderings(self.targets()), ", "@) + "]"@
    }

    proof fn lemma_verdicts_agree(&self, instance: Json, instance_path: Seq<PathSegment>) {
        match self.target(instance) {
            Some(k) => {
                self.targets()[k].lemma_verdicts_agree(instance, instance_path);
            },
            None => {},
        }
    }

    fn is_valid(&self, instance: &Value) -> (valid: bool) {
        match self.target_index(instance) {
            Some(k) => self.targets[k].is_valid(instance),
            None => false,
        }
    }

    fn validate(&self, instance: &Value, instance_path: &JsonPointer) -> (errors: Vec<
        ValidationError,
    >) {
        let errors = self.get_discriminated_valid(instance, instance_path);
        proof {
            self.lemma_verdicts_agree(json_of(*instance), instance_path@);
        }
        errors
    }

    fn apply(&self, instance: &Value, instance_path: &JsonPointer) -> (application:
        PartialApplication) {
        match self.target_index(instance) {
            Some(k) => self.targets[k].apply(instance, instance_path),
            None => {
                let errors = self.get_discriminated_valid(instance, instance_path);
                application_of_errors(&errors)
            },
        }
    }

    fn render(&self) -> (text: String) {
        let mut parts: Vec<String> = Vec::new();
        let mut i: usize = 0;
        while i < self.targets.len()
            invariant
                i <= self.targets@.len(),
                parts@.len() == i,
                forall|j: int| 0 <= j < i ==> parts@[j]@ == self.targets@[j].rendering(),
            decreases self.targets@.len() - i,
        {
            parts.push(self.targets[i].render());
            i += 1;
        }
        assert(texts_of(parts@) =~= target_renderings(self.targets@));
        let inner = join(&parts, ", ");
        String::from_str("discriminator: [").concat(inner.as_str()).concat("]")
    }
}

/// The factory of the `discriminator` keyword. `parent` is the schema that
/// holds the keyword and `schema` the keyword's value. The answer is never
/// `None`: the keyword is there, and either compiles or fails.
pub fn compile<C: Compile>(
    parent: &serde_json::Map<String, Value>,
    schema: &Value,
    context: &CompilationContext<C::Resolver>,
    compiler: &C,
) -> (compiled: Option<Result<DiscriminatorValidator<C::Keyword>, ValidationError>>)
    ensures
        compiled is Some,
        is_compiled_from(compiled->Some_0, json_of(*schema), context, compiler),
{
    Some(DiscriminatorValidator::compile(schema, context, compiler))
}

} // verus!
