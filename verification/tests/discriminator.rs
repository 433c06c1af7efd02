use jsonschema::compilation::{CompilationContext, Compile};
use jsonschema::error::{DiscriminatorFault, ValidationError, ValidationErrorKind};
use jsonschema::keywords::assertion::Assertion;
use jsonschema::keywords::max_length::MaxLengthValidator;
use jsonschema::keywords::discriminator::{
    compile, compile_mapping, node_of_reference, DiscriminatorValidator,
};
use jsonschema::keywords::required::RequiredValidator;
use jsonschema::keywords::type_::TypeValidator;
use jsonschema::output::PartialApplication;
use jsonschema::paths::{JsonPointer, PathChunk};
use jsonschema::primitive_type::PrimitiveType;
use jsonschema::resolver::{Draft, NotFound, Resolve};
use jsonschema::schema_node::SchemaNode;
use jsonschema::validator::Validate;
use serde_json::Value;
use std::sync::Arc;
use url::Url;

/// A resolver that knows one document and looks fragments up in it.
struct Document {
    root: Value,
}

impl Resolve for Document {
    fn resolve_fragment(
        &self,
        _draft: Draft,
        base_url: &Url,
        pointer: &str,
    ) -> Result<(Url, Value), NotFound> {
        if base_url.scheme() != "json-schema" {
            return Err(NotFound);
        }
        let fragment = pointer.strip_prefix('#').unwrap_or(pointer);
        match self.root.pointer(fragment) {
            Some(found) => Ok((base_url.clone(), found.clone())),
            None => Err(NotFound),
        }
    }
}

/// A compiler that knows `type`, `maxLength`, `required` and references
/// into the document of the context.
struct Keywords;

fn unresolved(schema: &Value, context: &CompilationContext<Document>) -> ValidationError {
    ValidationError::new(
        ValidationErrorKind::ReferenceUnresolved,
        JsonPointer::default(),
        context.pointer(),
        schema,
    )
}

fn follow(reference: &str, context: &CompilationContext<Document>) -> Option<Value> {
    let base = Url::parse(&context.scope).ok()?;
    let found = context.resolver.resolve_fragment(context.draft, &base, reference).ok()?;
    Some(found.1)
}

fn assertions(
    body: &Value,
    context: &CompilationContext<Document>,
) -> Result<Vec<(String, Assertion)>, ValidationError> {
    let mut validators = Vec::new();
    if let Some(name) = body.get("type") {
        let expected = name.as_str().and_then(PrimitiveType::from_name).ok_or_else(|| {
            ValidationError::single_type_error(
                JsonPointer::default(),
                context.pointer(),
                name,
                PrimitiveType::String,
            )
        })?;
        let place = context.with_path(PathChunk::Keyword("type")).into_pointer();
        validators.push(("type".to_string(), Assertion::Type(TypeValidator::new(expected, place))));
    }
    if let Some(limit) = body.get("maxLength").and_then(Value::as_u64) {
        let place = context.with_path(PathChunk::Keyword("maxLength")).into_pointer();
        validators.push((
            "maxLength".to_string(),
            Assertion::MaxLength(MaxLengthValidator::new(limit, place)),
        ));
    }
    if let Some(names) = body.get("required").and_then(Value::as_array) {
        let place = context.with_path(PathChunk::Keyword("required")).into_pointer();
        let names = names.iter().filter_map(Value::as_str).map(str::to_string).collect();
        validators.push((
            "required".to_string(),
            Assertion::Required(RequiredValidator::new(names, place)),
        ));
    }
    Ok(validators)
}

impl Compile for Keywords {
    type Keyword = Assertion;
    type Resolver = Document;

    fn compile_validators(
        &self,
        schema: &Value,
        context: &CompilationContext<Document>,
    ) -> Result<SchemaNode<Assertion>, ValidationError> {
        let mut validators = Vec::new();
        if let Some(reference) = schema.get("$ref").and_then(Value::as_str) {
            let target = follow(reference, context).ok_or_else(|| unresolved(schema, context))?;
            validators.extend(assertions(&target, &context.with_path(PathChunk::Keyword("$ref")))?);
        }
        validators.extend(assertions(schema, context)?);
        Ok(SchemaNode::new_from_keywords(context, validators))
    }

    fn compile_reference(
        &self,
        reference: &Value,
        context: &CompilationContext<Document>,
    ) -> Option<Result<Assertion, ValidationError>> {
        let text = reference.as_str()?;
        if !text.starts_with('#') {
            return None;
        }
        let compiled = follow(text, context)
            .ok_or_else(|| unresolved(reference, context))
            .and_then(|target| assertions(&target, context))
            .and_then(|mut found| found.pop().ok_or_else(|| unresolved(reference, context)));
        Some(compiled.map(|named| named.1))
    }
}

fn document(text: &str) -> Value {
    serde_json::from_str(text).unwrap()
}

fn context_with_scope(schema: &Value, scope: &str) -> CompilationContext<Document> {
    CompilationContext::new(
        Draft::Draft7,
        scope.to_string(),
        Arc::new(Document { root: schema.clone() }),
    )
}

fn root_context(schema: &Value) -> CompilationContext<Document> {
    context_with_scope(schema, "json-schema:///")
}

fn compile_discriminator(
    schema: &Value,
) -> Result<DiscriminatorValidator<Assertion>, ValidationError> {
    let parent = schema.as_object().unwrap();
    compile(parent, &schema["discriminator"], &root_context(schema), &Keywords).unwrap()
}

fn root() -> JsonPointer {
    JsonPointer::default()
}

fn kinds(errors: &[ValidationError]) -> Vec<ValidationErrorKind> {
    errors.iter().map(|error| error.kind).collect()
}

const SHAPES: &str = r##"{
    "discriminator": {
        "propertyName": "kind",
        "mapping": {"circle": "#/defs/Circle", "square": "#/defs/Square"}
    },
    "defs": {"Circle": {"required": ["radius"]}, "Square": {"required": ["side"]}}
}"##;

#[test]
fn unmapped_tag_is_rejected() {
    let validator = compile_discriminator(&document(SHAPES)).unwrap();
    let instance = document(r#"{"kind": "triangle", "radius": 1}"#);
    assert_eq!(validator.target_index(&instance), None);
    assert!(!validator.is_valid(&instance));
    let errors = validator.validate(&instance, &root());
    assert_eq!(kinds(&errors), vec![ValidationErrorKind::OneOfNotValid]);
    assert_eq!(errors[0].schema_path.render(), "/discriminator");
    assert_eq!(errors[0].instance_path.render(), "");
    assert_eq!(errors[0].instance, instance);
}

#[test]
fn instance_without_a_usable_tag_is_rejected() {
    let validator = compile_discriminator(&document(SHAPES)).unwrap();
    for text in ["7", r#""circle""#, r#"["circle"]"#, r#"{"radius": 1}"#, r#"{"kind": 1, "radius": 1}"#, r#"{"kind": null}"#]
    {
        let instance = document(text);
        assert_eq!(validator.target_index(&instance), None, "{}", text);
        assert!(!validator.is_valid(&instance), "{}", text);
        let errors = validator.get_discriminated_valid(&instance, &root());
        assert_eq!(kinds(&errors), vec![ValidationErrorKind::OneOfNotValid], "{}", text);
        match validator.apply(&instance, &root()) {
            PartialApplication::Invalid { errors, child_results } => {
                assert_eq!(errors, vec!["not valid under any of the schemas of oneOf".to_string()]);
                assert!(child_results.is_empty());
            },
            PartialApplication::Valid { .. } => panic!("no schema is named"),
        }
    }
}

#[test]
fn named_schema_decides() {
    let validator = compile_discriminator(&document(SHAPES)).unwrap();
    let circle = document(r#"{"kind": "circle", "radius": 1}"#);
    assert!(validator.is_valid(&circle));
    assert!(validator.validate(&circle, &root()).is_empty());
    assert!(validator.apply(&circle, &root()).is_valid());
    // Valid for the other schema, which is not asked.
    let wrong = document(r#"{"kind": "circle", "side": 1}"#);
    assert!(!validator.is_valid(&wrong));
    let errors = validator.validate(&wrong, &root());
    assert_eq!(kinds(&errors), vec![ValidationErrorKind::Required]);
    assert!(!validator.apply(&wrong, &root()).is_valid());
    // Valid for both: no ambiguity is looked for.
    let both = document(r#"{"kind": "square", "side": 1, "radius": 1}"#);
    assert!(validator.is_valid(&both));
}

#[test]
fn three_checks_of_the_keyword_agree() {
    let validator = compile_discriminator(&document(SHAPES)).unwrap();
    for text in [
        "null",
        r#"{"kind": "circle"}"#,
        r#"{"kind": "circle", "radius": 2}"#,
        r#"{"kind": "square", "radius": 2}"#,
        r#"{"kind": "square", "side": 2}"#,
        r#"{"kind": "other", "side": 2}"#,
    ] {
        let instance = document(text);
        let valid = validator.is_valid(&instance);
        assert_eq!(valid, validator.validate(&instance, &root()).is_empty(), "{}", text);
        assert_eq!(valid, validator.apply(&instance, &root()).is_valid(), "{}", text);
        assert_eq!(valid, validator.is_valid(&instance.clone()), "{}", text);
    }
}

#[test]
fn value_that_is_no_object_is_refused() {
    for text in [r#"{"discriminator": "kind"}"#, r#"{"discriminator": ["kind"]}"#, r#"{"discriminator": 1}"#] {
        let schema = document(text);
        let error = compile_discriminator(&schema).err().unwrap();
        assert_eq!(error.kind, ValidationErrorKind::TypeMismatch { expected: PrimitiveType::Object });
        assert_eq!(error.instance, schema["discriminator"]);
        assert_eq!(error.schema_path.render(), "");
        assert_eq!(error.instance_path.render(), "");
    }
}

#[test]
fn malformed_payload_is_refused() {
    let cases = [
        (r#"{"mapping": {}}"#, DiscriminatorFault::MissingPropertyName),
        (r#"{"propertyName": ["kind"]}"#, DiscriminatorFault::PropertyNameNotString),
        (r#"{"propertyName": ""}"#, DiscriminatorFault::EmptyPropertyName),
        (r#"{"propertyName": "kind", "mapping": 3}"#, DiscriminatorFault::MappingNotObject),
        (
            r##"{"propertyName": "kind", "mapping": {"a": "#/defs/A", "b": {}}}"##,
            DiscriminatorFault::MappingValueNotString,
        ),
    ];
    for (payload, reason) in cases {
        let mut schema = document(r#"{"defs": {"A": {"type": "string"}}}"#);
        schema["discriminator"] = document(payload);
        let error = compile_discriminator(&schema).err().unwrap();
        assert_eq!(error.kind, ValidationErrorKind::InvalidDiscriminator { reason }, "{}", payload);
        assert_eq!(error.instance, schema["discriminator"]);
        assert_eq!(error.instance_path.render(), "");
    }
}

#[test]
fn reference_that_cannot_be_compiled_is_refused() {
    let schema = document(
        r##"{"discriminator": {"propertyName": "kind", "mapping": {"a": "#/defs/Missing"}}}"##,
    );
    let error = compile_discriminator(&schema).err().unwrap();
    assert_eq!(error.kind, ValidationErrorKind::ReferenceUnresolved);
    assert_eq!(error.instance, document(r##""#/defs/Missing""##));
    assert_eq!(error.instance_path.render(), "/discriminator/mapping/a");
}

#[test]
fn text_that_is_no_reference_is_refused() {
    let schema = document(r#"{"discriminator": {"propertyName": "kind", "mapping": {"a": "Circle"}}}"#);
    let error = compile_discriminator(&schema).err().unwrap();
    assert_eq!(error.kind, ValidationErrorKind::TypeMismatch { expected: PrimitiveType::String });
    assert_eq!(error.instance, document(r#""Circle""#));
    assert_eq!(error.instance_path.render(), "/discriminator/mapping/a");
}

#[test]
fn one_value_of_a_mapping() {
    let schema = document(SHAPES);
    let context = root_context(&schema).with_path(PathChunk::Keyword("here"));
    let node = compile_mapping(&document(r##""#/defs/Circle""##), &context, &Keywords).ok().unwrap();
    assert_eq!(node.schema_path.render(), "/here");
    assert_eq!(node.validators().len(), 1);
    assert_eq!(node.validators()[0].0, "$ref");
    assert!(node.is_valid(&document(r#"{"radius": 1}"#)));
    assert!(!node.is_valid(&document(r#"{"side": 1}"#)));
    let error = compile_mapping(&document("12"), &context, &Keywords).err().unwrap();
    assert_eq!(
        error.kind,
        ValidationErrorKind::InvalidDiscriminator { reason: DiscriminatorFault::MappingValueNotString }
    );
    assert_eq!(error.instance, document("12"));
    assert_eq!(error.instance_path.render(), "/here");
    assert_eq!(error.schema_path.render(), "");
}

#[test]
fn answers_of_the_reference_compiler() {
    let schema = document(SHAPES);
    let context = root_context(&schema).with_path(PathChunk::Keyword("here"));
    let reference = document(r##""#/defs/Circle""##);
    let validator = Assertion::Type(TypeValidator::new(PrimitiveType::Null, root()));
    let node = node_of_reference(Some(Ok(validator)), &reference, &context).ok().unwrap();
    assert_eq!(node.validators().len(), 1);
    assert_eq!(node.validators()[0].0, "$ref");
    assert_eq!(node.schema_path.render(), "/here");
    assert!(node.is_valid(&document("null")));
    let handed = unresolved(&reference, &context);
    let error = node_of_reference::<Assertion, Document>(Some(Err(handed)), &reference, &context)
        .err()
        .unwrap();
    assert_eq!(error.kind, ValidationErrorKind::ReferenceUnresolved);
    let error = node_of_reference::<Assertion, Document>(None, &reference, &context).err().unwrap();
    assert_eq!(error.kind, ValidationErrorKind::TypeMismatch { expected: PrimitiveType::String });
    assert_eq!(error.instance, reference);
    assert_eq!(error.instance_path.render(), "/here");
}

#[test]
fn payload_without_a_mapping_names_nothing() {
    let schema = document(r#"{"discriminator": {"propertyName": "kind"}}"#);
    let validator = compile_discriminator(&schema).unwrap();
    assert!(!validator.is_valid(&document(r#"{"kind": "circle"}"#)));
    assert_eq!(validator.render(), "discriminator: []");
}

#[test]
fn constructor_wants_a_name_and_as_many_tags() {
    let context = root_context(&document("{}"));
    let node = || SchemaNode::<Assertion>::new_from_keywords(&context, Vec::new());
    assert!(DiscriminatorValidator::new(String::new(), &Vec::new(), Vec::<SchemaNode<Assertion>>::new(), root())
        .is_none());
    assert!(DiscriminatorValidator::new("kind".to_string(), &vec!["a".to_string()], Vec::<SchemaNode<Assertion>>::new(), root())
        .is_none());
    let made = DiscriminatorValidator::new(
        "kind".to_string(),
        &vec!["a".to_string(), "b".to_string(), "a".to_string()],
        vec![node(), node(), node()],
        root(),
    )
    .unwrap();
    // Of two schemas under one tag the later is named.
    assert_eq!(made.target_index(&document(r#"{"kind": "a"}"#)), Some(2));
    assert_eq!(made.target_index(&document(r#"{"kind": "b"}"#)), Some(1));
    assert_eq!(made.target_index(&document(r#"{"kind": "c"}"#)), None);
}

#[test]
fn keyword_in_words() {
    let validator = compile_discriminator(&document(SHAPES)).unwrap();
    assert_eq!(
        validator.render(),
        "discriminator: [{required: [radius]}, {required: [side]}]"
    );
}
