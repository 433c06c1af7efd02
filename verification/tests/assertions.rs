use jsonschema::compilation::CompilationContext;
use jsonschema::error::ValidationErrorKind;
use jsonschema::keywords::assertion::Assertion;
use jsonschema::keywords::max_length::MaxLengthValidator;
use jsonschema::keywords::required::RequiredValidator;
use jsonschema::keywords::type_::TypeValidator;
use jsonschema::output::{BasicOutput, PartialApplication};
use jsonschema::paths::{JsonPointer, PathChunk};
use jsonschema::primitive_type::PrimitiveType;
use jsonschema::resolver::{Draft, NotFound, Resolve};
use jsonschema::schema_node::SchemaNode;
use jsonschema::validator::Validate;
use serde_json::Value;
use std::sync::Arc;
use url::Url;

struct Nothing;

impl Resolve for Nothing {
    fn resolve_fragment(&self, _: Draft, _: &Url, _: &str) -> Result<(Url, Value), NotFound> {
        Err(NotFound)
    }
}

fn document(text: &str) -> Value {
    serde_json::from_str(text).unwrap()
}

fn place(name: &'static str) -> JsonPointer {
    JsonPointer(vec![PathChunk::Keyword(name)])
}

fn root() -> JsonPointer {
    JsonPointer::default()
}

fn node(validators: Vec<(String, Assertion)>) -> SchemaNode<Assertion> {
    let context =
        CompilationContext::new(Draft::Draft7, "json-schema:///".to_string(), Arc::new(Nothing))
            .with_path(PathChunk::Keyword("node"));
    SchemaNode::new_from_keywords(&context, validators)
}

fn string_of_at_most(limit: u64) -> SchemaNode<Assertion> {
    node(vec![
        ("type".to_string(), Assertion::Type(TypeValidator::new(PrimitiveType::String, place("type")))),
        ("maxLength".to_string(), Assertion::MaxLength(MaxLengthValidator::new(limit, place("maxLength")))),
    ])
}

#[test]
fn types_have_names() {
    let all = [
        (PrimitiveType::Array, "array"),
        (PrimitiveType::Boolean, "boolean"),
        (PrimitiveType::Integer, "integer"),
        (PrimitiveType::Null, "null"),
        (PrimitiveType::Number, "number"),
        (PrimitiveType::Object, "object"),
        (PrimitiveType::String, "string"),
    ];
    for (primitive, name) in all {
        assert_eq!(primitive.name(), name);
        assert_eq!(PrimitiveType::from_name(name), Some(primitive));
    }
    assert_eq!(PrimitiveType::from_name("String"), None);
    assert_eq!(PrimitiveType::from_name(""), None);
    assert_eq!(PrimitiveType::from_name("float"), None);
}

#[test]
fn types_of_documents() {
    let documents = ["[1]", "true", "3", "-3", "3.5", "3.0", "null", r#"{"a": 1}"#, r#""a""#];
    let expected = [
        (PrimitiveType::Array, [true, false, false, false, false, false, false, false, false]),
        (PrimitiveType::Boolean, [false, true, false, false, false, false, false, false, false]),
        (PrimitiveType::Integer, [false, false, true, true, false, false, false, false, false]),
        (PrimitiveType::Null, [false, false, false, false, false, false, true, false, false]),
        (PrimitiveType::Number, [false, false, true, true, true, true, false, false, false]),
        (PrimitiveType::Object, [false, false, false, false, false, false, false, true, false]),
        (PrimitiveType::String, [false, false, false, false, false, false, false, false, true]),
    ];
    for (primitive, row) in expected {
        for (text, expected) in documents.iter().zip(row) {
            assert_eq!(primitive.matches(&document(text)), expected, "{:?} {}", primitive, text);
            let validator = TypeValidator::new(primitive, place("type"));
            assert_eq!(validator.is_valid(&document(text)), expected);
        }
    }
}

#[test]
fn type_reports_one_failure() {
    let validator = TypeValidator::new(PrimitiveType::String, place("type"));
    let instance = document("5");
    let at = JsonPointer(vec![PathChunk::Index(2)]);
    let errors = validator.validate(&instance, &at);
    assert_eq!(errors.len(), 1);
    assert_eq!(errors[0].kind, ValidationErrorKind::TypeMismatch { expected: PrimitiveType::String });
    assert_eq!(errors[0].schema_path.render(), "/type");
    assert_eq!(errors[0].instance_path.render(), "/2");
    assert_eq!(errors[0].instance, instance);
    assert!(validator.validate(&document(r#""x""#), &at).is_empty());
    assert!(validator.apply(&document(r#""x""#), &at).is_valid());
    assert!(!validator.apply(&instance, &at).is_valid());
    assert_eq!(validator.render(), "type: string");
}

#[test]
fn length_counts_characters() {
    let validator = MaxLengthValidator::new(3, place("maxLength"));
    assert!(validator.is_valid(&document(r#""""#)));
    assert!(validator.is_valid(&document(r#""abc""#)));
    assert!(!validator.is_valid(&document(r#""abcd""#)));
    // Three characters of more than one byte each.
    assert!(validator.is_valid(&document(r#""äöü""#)));
    assert!(!validator.is_valid(&document(r#""äöüß""#)));
    // What is no string is not measured.
    assert!(validator.is_valid(&document("12345")));
    assert!(validator.is_valid(&document(r#"["abcd"]"#)));
    let errors = validator.validate(&document(r#""abcd""#), &root());
    assert_eq!(errors.len(), 1);
    assert_eq!(errors[0].kind, ValidationErrorKind::MaxLength { limit: 3 });
    assert_eq!(errors[0].schema_path.render(), "/maxLength");
    assert!(validator.validate(&document(r#""abc""#), &root()).is_empty());
    assert_eq!(validator.render(), "maxLength: 3");
    assert!(MaxLengthValidator::new(0, root()).is_valid(&document(r#""""#)));
    assert!(!MaxLengthValidator::new(0, root()).is_valid(&document(r#""a""#)));
}

#[test]
fn required_members_must_be_there() {
    let validator = RequiredValidator::new(vec!["a".to_string(), "b".to_string()], place("required"));
    assert!(validator.is_valid(&document(r#"{"a": 1, "b": null}"#)));
    assert!(validator.is_valid(&document(r#"{"a": 1, "b": 2, "c": 3}"#)));
    assert!(!validator.is_valid(&document(r#"{"a": 1}"#)));
    assert!(!validator.is_valid(&document(r#"{"b": 1}"#)));
    assert!(!validator.is_valid(&document("{}")));
    assert!(validator.is_valid(&document(r#"["a", "b"]"#)));
    assert!(validator.is_valid(&document("1")));
    let errors = validator.validate(&document("{}"), &root());
    assert_eq!(errors.len(), 1);
    assert_eq!(errors[0].kind, ValidationErrorKind::Required);
    assert_eq!(errors[0].schema_path.render(), "/required");
    assert!(validator.validate(&document(r#"{"a": 1, "b": null}"#), &root()).is_empty());
    assert_eq!(validator.render(), "required: [a, b]");
    assert!(RequiredValidator::new(Vec::new(), root()).is_valid(&document("{}")));
}

#[test]
fn node_wants_every_keyword() {
    let both = string_of_at_most(2);
    assert!(both.is_valid(&document(r#""ab""#)));
    assert!(!both.is_valid(&document(r#""abc""#)));
    assert!(!both.is_valid(&document("7")));
    assert!(both.validate(&document(r#""ab""#), &root()).is_empty());
    let errors = both.validate(&document(r#""abc""#), &root());
    assert_eq!(errors.len(), 1);
    assert_eq!(errors[0].kind, ValidationErrorKind::MaxLength { limit: 2 });
    let none = node(Vec::new());
    assert!(none.is_valid(&document("7")));
    assert!(none.validate(&document("7"), &root()).is_empty());
    assert_eq!(none.render(), "{}");
    assert_eq!(both.render(), "{type: string, maxLength: 2}");
    assert_eq!(both.schema_path.render(), "/node");
    assert_eq!(both.validators().len(), 2);
}

#[test]
fn node_reports_keyword_after_keyword() {
    let validators = vec![
        ("type".to_string(), Assertion::Type(TypeValidator::new(PrimitiveType::Array, place("type")))),
        ("maxLength".to_string(), Assertion::MaxLength(MaxLengthValidator::new(1, place("maxLength")))),
        ("required".to_string(), Assertion::Required(RequiredValidator::new(vec!["a".to_string()], place("required")))),
    ];
    let all = node(validators);
    let kinds = |text: &str| -> Vec<ValidationErrorKind> {
        all.validate(&document(text), &root()).iter().map(|error| error.kind).collect()
    };
    assert_eq!(
        kinds(r#""ab""#),
        vec![
            ValidationErrorKind::TypeMismatch { expected: PrimitiveType::Array },
            ValidationErrorKind::MaxLength { limit: 1 }
        ]
    );
    assert_eq!(
        kinds("{}"),
        vec![
            ValidationErrorKind::TypeMismatch { expected: PrimitiveType::Array },
            ValidationErrorKind::Required
        ]
    );
    assert_eq!(kinds("[]"), Vec::new());
}

#[test]
fn node_adds_up_its_keywords() {
    let both = string_of_at_most(2);
    let at = JsonPointer(vec![PathChunk::Property("x".to_string())]);
    match both.apply_rooted(&document("7"), &at) {
        BasicOutput::Invalid(units) => {
            assert_eq!(units.len(), 1);
            assert_eq!(units[0].keyword_location.render(), "/node/type");
            assert_eq!(units[0].instance_location.render(), "/x");
            assert_eq!(units[0].description, "not of type string");
        },
        BasicOutput::Valid(_) => panic!("a number is no string"),
    }
    match both.apply_rooted(&document(r#""a""#), &at) {
        BasicOutput::Valid(units) => assert!(units.is_empty()),
        BasicOutput::Invalid(_) => panic!("the string is short"),
    }
    match both.apply(&document(r#""abc""#), &at) {
        PartialApplication::Invalid { errors, child_results } => {
            assert!(errors.is_empty());
            assert_eq!(child_results.len(), 1);
            assert_eq!(child_results[0].keyword_location.render(), "/node/maxLength");
            assert_eq!(child_results[0].description, "longer than 2 characters");
        },
        PartialApplication::Valid { .. } => panic!("the string is long"),
    }
}

#[test]
fn checks_of_leaves_and_nodes_agree() {
    let nodes = [string_of_at_most(2), node(Vec::new())];
    for text in ["null", "7", "7.5", r#""""#, r#""abc""#, "[]", "{}"] {
        let instance = document(text);
        for checked in &nodes {
            let valid = checked.is_valid(&instance);
            assert_eq!(valid, checked.validate(&instance, &root()).is_empty());
            assert_eq!(valid, checked.apply(&instance, &root()).is_valid());
            assert_eq!(valid, checked.apply_rooted(&instance, &root()).is_valid());
        }
    }
}
