use jsonschema::compilation::{CompilationContext, Compile};
use jsonschema::error::{ValidationError, ValidationErrorKind};
use jsonschema::keywords::assertion::Assertion;
use jsonschema::keywords::discriminator::DiscriminatorValidator;
use jsonschema::keywords::one_of::{discriminator_from_resolution, resolve_discriminator, OneOfValidator};
use jsonschema::keywords::type_::TypeValidator;
use jsonschema::paths::PathChunk;
use jsonschema::primitive_type::PrimitiveType;
use jsonschema::resolver::{Draft, NotFound, Resolve};
use jsonschema::schema_node::SchemaNode;
use jsonschema::validator::Validate;
use serde_json::Value;
use std::sync::{Arc, Mutex};
use url::Url;

/// A resolver that writes down what it is asked and always answers the same.
struct Recorder {
    asked: Mutex<Vec<(Draft, String, String)>>,
    answer: Option<Value>,
}

impl Resolve for Recorder {
    fn resolve_fragment(
        &self,
        draft: Draft,
        base_url: &Url,
        pointer: &str,
    ) -> Result<(Url, Value), NotFound> {
        self.asked.lock().unwrap().push((draft, base_url.to_string(), pointer.to_string()));
        match &self.answer {
            Some(found) => Ok((base_url.clone(), found.clone())),
            None => Err(NotFound),
        }
    }
}

/// A compiler that writes down what it is asked; it refuses the schema
/// `false` and the reference `"#/bad"`, and makes a validator for `null` of
/// every other reference.
struct Listing {
    schemas: Mutex<Vec<(String, String)>>,
    references: Mutex<Vec<(String, String)>>,
}

impl Compile for Listing {
    type Keyword = Assertion;
    type Resolver = Recorder;

    fn compile_validators(
        &self,
        schema: &Value,
        context: &CompilationContext<Recorder>,
    ) -> Result<SchemaNode<Assertion>, ValidationError> {
        self.schemas.lock().unwrap().push((schema.to_string(), context.pointer().render()));
        if schema == &Value::Bool(false) {
            return Err(ValidationError::compilation(
                ValidationErrorKind::ReferenceUnresolved,
                context.pointer(),
                schema,
            ));
        }
        Ok(SchemaNode::new_from_keywords(context, Vec::new()))
    }

    fn compile_reference(
        &self,
        reference: &Value,
        context: &CompilationContext<Recorder>,
    ) -> Option<Result<Assertion, ValidationError>> {
        self.references.lock().unwrap().push((reference.to_string(), context.pointer().render()));
        if reference == &Value::from("#/bad") {
            return Some(Err(ValidationError::compilation(
                ValidationErrorKind::ReferenceUnresolved,
                context.pointer(),
                reference,
            )));
        }
        Some(Ok(Assertion::Type(TypeValidator::new(PrimitiveType::Null, context.pointer()))))
    }
}

fn document(text: &str) -> Value {
    serde_json::from_str(text).unwrap()
}

fn listing() -> Listing {
    Listing { schemas: Mutex::new(Vec::new()), references: Mutex::new(Vec::new()) }
}

fn context(answer: Option<Value>) -> CompilationContext<Recorder> {
    CompilationContext::new(
        Draft::Draft6,
        "json-schema:///".to_string(),
        Arc::new(Recorder { asked: Mutex::new(Vec::new()), answer }),
    )
}

fn asked(context: &CompilationContext<Recorder>) -> Vec<(Draft, String, String)> {
    context.resolver.asked.lock().unwrap().clone()
}

fn pairs(found: &Mutex<Vec<(String, String)>>) -> Vec<(String, String)> {
    found.lock().unwrap().clone()
}

fn pair(first: &str, second: &str) -> (String, String) {
    (first.to_string(), second.to_string())
}

#[test]
fn resolver_is_asked_for_the_sibling() {
    let context = context(None);
    let compiler = listing();
    let schema = document(r#"[{"type": "string"}]"#);
    assert!(OneOfValidator::compile(&schema, &context, &compiler).is_ok());
    assert_eq!(
        asked(&context),
        vec![(Draft::Draft6, "json-schema:///#/discriminator".to_string(), "#/discriminator".to_string())]
    );
}

#[test]
fn resolver_is_asked_beside_the_schema() {
    let root = context(None);
    let context = root.with_path(PathChunk::Keyword("properties")).with_path(PathChunk::Property("a".to_string()));
    let compiler = listing();
    let schema = document(r#"[true]"#);
    assert!(OneOfValidator::compile(&schema, &context, &compiler).is_ok());
    assert_eq!(
        asked(&root),
        vec![(
            Draft::Draft6,
            "json-schema:///#/properties/a/discriminator".to_string(),
            "#/properties/a/discriminator".to_string()
        )]
    );
    assert_eq!(pairs(&compiler.schemas), vec![pair("true", "/properties/a/oneOf/0")]);
}

#[test]
fn alternatives_are_compiled_in_order_at_their_places() {
    let context = context(None);
    let compiler = listing();
    let schema = document(r#"[{"type": "string"}, true, {"maxLength": 3}]"#);
    let validator = OneOfValidator::compile(&schema, &context, &compiler).ok().unwrap();
    assert_eq!(
        pairs(&compiler.schemas),
        vec![
            pair(r#"{"type":"string"}"#, "/oneOf/0"),
            pair("true", "/oneOf/1"),
            pair(r#"{"maxLength":3}"#, "/oneOf/2"),
        ]
    );
    assert_eq!(validator.render(), "oneOf: [{}, {}, {}]");
}

#[test]
fn nobody_is_asked_about_what_is_no_array() {
    let context = context(Some(document(r#"{"propertyName": "kind"}"#)));
    let compiler = listing();
    for text in ["{}", "[]", "null", r#""x""#] {
        let error = OneOfValidator::compile(&document(text), &context, &compiler).err().unwrap();
        assert_eq!(error.kind, ValidationErrorKind::TypeMismatch { expected: PrimitiveType::Array });
    }
    assert!(asked(&context).is_empty());
    assert!(pairs(&compiler.schemas).is_empty());
}

#[test]
fn malformed_discriminator_ends_the_compilation_at_once() {
    let context = context(Some(document(r#"{"propertyName": 5}"#)));
    let compiler = listing();
    let error = OneOfValidator::compile(&document("[true]"), &context, &compiler).err().unwrap();
    assert!(matches!(error.kind, ValidationErrorKind::InvalidDiscriminator { .. }));
    assert_eq!(asked(&context).len(), 1);
    assert!(pairs(&compiler.schemas).is_empty());
}

#[test]
fn failure_of_the_compiler_is_handed_on() {
    let context = context(None);
    let compiler = listing();
    let error = OneOfValidator::compile(&document("[true, false, true]"), &context, &compiler)
        .err()
        .unwrap();
    assert_eq!(error.kind, ValidationErrorKind::ReferenceUnresolved);
    assert_eq!(error.instance, Value::Bool(false));
    assert_eq!(error.instance_path.render(), "/oneOf/1");
    assert_eq!(pairs(&compiler.schemas).len(), 2);
}

#[test]
fn found_discriminator_is_attached() {
    let payload = document(r##"{"propertyName": "kind", "mapping": {"a": "#/defs/A"}}"##);
    let context = context(Some(payload));
    let compiler = listing();
    let schema = document(r##"[{"type": "string"}, {"$ref": "#/defs/A"}]"##);
    let validator = OneOfValidator::compile(&schema, &context, &compiler).ok().unwrap();
    assert_eq!(validator.discriminated_index(&document(r#"{"kind": "a"}"#)), Some(1));
    assert_eq!(validator.discriminated_index(&document(r#"{"kind": "b"}"#)), None);
}

#[test]
fn answers_of_the_resolver() {
    let context = context(None).with_path(PathChunk::Keyword("here"));
    let url = Url::parse("json-schema:///").unwrap();
    assert!(discriminator_from_resolution(Err(NotFound), &context).ok().unwrap().is_none());
    let payload = document(r#"{"propertyName": "kind", "mapping": {"a": "x"}}"#);
    let found = discriminator_from_resolution(Ok((url.clone(), payload)), &context).ok().unwrap().unwrap();
    assert_eq!(found.property_name(), "kind");
    assert_eq!(found.reference_for("a"), Some("x"));
    let payload = document(r#"{"mapping": {"a": "x"}}"#);
    let error = discriminator_from_resolution(Ok((url, payload.clone())), &context).err().unwrap();
    assert_eq!(
        error.kind,
        ValidationErrorKind::InvalidDiscriminator {
            reason: jsonschema::error::DiscriminatorFault::MissingPropertyName
        }
    );
    assert_eq!(error.instance, payload);
    assert_eq!(error.instance_path.render(), "/here");
    assert_eq!(error.schema_path.render(), "");
}

#[test]
fn discriminator_is_asked_for_and_read() {
    let schema = document("[true]");
    let absent = context(None);
    assert!(resolve_discriminator(&schema, &absent).ok().unwrap().is_none());
    let present = context(Some(document(r#"{"propertyName": "kind"}"#)));
    let found = resolve_discriminator(&schema, &present).ok().unwrap().unwrap();
    assert_eq!(found.property_name(), "kind");
    let broken = CompilationContext::new(
        Draft::Draft6,
        "::".to_string(),
        Arc::new(Recorder { asked: Mutex::new(Vec::new()), answer: None }),
    );
    let error = resolve_discriminator(&schema, &broken).err().unwrap();
    assert_eq!(error.kind, ValidationErrorKind::ReferenceUnresolved);
    assert_eq!(error.instance, schema);
    assert!(asked(&broken).is_empty());
}

#[test]
fn references_are_compiled_at_their_places() {
    let context = context(None);
    let compiler = listing();
    let schema = document(r##"{"propertyName": "kind", "mapping": {"b": "#/defs/B", "a": "#/defs/A"}}"##);
    let validator = DiscriminatorValidator::compile(&schema, &context, &compiler).ok().unwrap();
    let mut found = pairs(&compiler.references);
    found.sort();
    assert_eq!(
        found,
        vec![
            pair(r##""#/defs/A""##, "/discriminator/mapping/a"),
            pair(r##""#/defs/B""##, "/discriminator/mapping/b"),
        ]
    );
    assert!(asked(&context).is_empty());
    assert!(!validator.is_valid(&document(r#"{"kind": "a"}"#)));
    assert_eq!(validator.target_index(&document(r#"{"kind": "zzz"}"#)), None);
    assert!(validator.target_index(&document(r#"{"kind": "a"}"#)).is_some());
    assert!(validator.target_index(&document(r#"{"kind": "b"}"#)).is_some());
}

#[test]
fn malformed_payload_is_refused_before_any_reference() {
    let context = context(None);
    let compiler = listing();
    let schema = document(r##"{"propertyName": "kind", "mapping": {"a": "#/defs/A", "b": 1}}"##);
    assert!(DiscriminatorValidator::compile(&schema, &context, &compiler).is_err());
    assert!(pairs(&compiler.references).is_empty());
}

#[test]
fn failure_of_the_reference_compiler_is_handed_on() {
    let context = context(None);
    let compiler = listing();
    let schema = document(r##"{"propertyName": "kind", "mapping": {"a": "#/bad"}}"##);
    let error = DiscriminatorValidator::compile(&schema, &context, &compiler).err().unwrap();
    assert_eq!(error.kind, ValidationErrorKind::ReferenceUnresolved);
    assert_eq!(error.instance, Value::from("#/bad"));
    assert_eq!(error.instance_path.render(), "/discriminator/mapping/a");
}
