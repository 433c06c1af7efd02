//! Validation of JSON documents against compiled `oneOf` combinators, with
//! keyed dispatch through an optional discriminator.

pub mod compilation;
pub mod error;
pub mod index;
pub mod json;
pub mod keywords;
pub mod output;
pub mod paths;
pub mod primitive_type;
pub mod resolver;
pub mod schema_node;
pub mod schemas;
pub mod text;
pub mod validator;
pub mod views;
