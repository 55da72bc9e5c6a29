//! Compiled JSON schemas, as `jsonschema` builds and applies them.
//!
//! Building a validator and applying it are left to `jsonschema`. What it
//! decides depends on the schema document and on the validated document
//! alone (it is built without the features that fetch referenced schemas),
//! so both decisions are named here as functions of the two compact texts.

use vstd::prelude::*;
use crate::json::{json_document, json_text, parse_json};

verus! {

/// `jsonschema::ValidationError`, as an opaque type.
#[verifier::external_type_specification]
#[verifier::external_body]
pub struct ExValidationError<'a>(jsonschema::ValidationError<'a>);

/// A schema that `jsonschema` has compiled into a validator. It holds a
/// `jsonschema::Validator`, of which nothing is known here but what the
/// functions below say.
#[verifier::external_body]
pub struct CompiledSchema {
    validator: jsonschema::Validator,
}

/// The compact text of the schema document that a compiled schema was built
/// from.
pub uninterp spec fn schema_document(schema: CompiledSchema) -> Seq<char>;

/// Whether `jsonschema` builds a validator from the schema document `schema`.
pub uninterp spec fn schema_compiles(schema: Seq<char>) -> bool;

/// Whether the validator built from the schema document `schema` finds no
/// error in the document `instance`.
pub uninterp spec fn schema_accepts(schema: Seq<char>, instance: Seq<char>) -> bool;

/// Calls `jsonschema::validator_for`. It is taken to depend on the schema
/// document alone: whether it builds a validator is left to
/// [`schema_compiles`], and the validator that it builds is the one of that
/// document.
#[verifier::external_body]
pub(crate) fn build_validator(schema: &serde_json::Value) -> (r: Result<
    CompiledSchema,
    jsonschema::ValidationError<'static>,
>)
    ensures
        r is Ok <==> schema_compiles(json_text(*schema)),
        r matches Ok(compiled) ==> schema_document(compiled) == json_text(*schema),
{
    Ok(CompiledSchema { validator: jsonschema::validator_for(schema)? })
}

/// Calls `Validator::validate` and tells whether it found no error. That is
/// taken to depend on the schema document and on the validated document
/// alone, and is left to [`schema_accepts`].
#[verifier::external_body]
pub(crate) fn validator_accepts(schema: &CompiledSchema, instance: &serde_json::Value) -> (r: bool)
    ensures
        r == schema_accepts(schema_document(*schema), json_text(*instance)),
{
    schema.validator.validate(instance).is_ok()
}

/// Why a text could not be compiled into a schema.
#[derive(Debug, Clone, Copy, PartialEq, Eq, Structural)]
pub enum SchemaError {
    /// The text is no JSON document.
    InvalidJson,
    /// The document is no valid schema.
    InvalidSchema,
}

impl View for CompiledSchema {
    type V = Seq<char>;

    /// The compact text of the schema document.
    open spec fn view(&self) -> Seq<char> {
        schema_document(*self)
    }
}

impl CompiledSchema {
    /// Compiles the schema that the text `text` holds.
    pub fn compile(text: &str) -> (r: Result<CompiledSchema, SchemaError>)
        ensures
            match r {
                Ok(schema) => json_document(text@) == Some(schema@) && schema_compiles(schema@),
                Err(SchemaError::InvalidJson) => json_document(text@) is None,
                Err(SchemaError::InvalidSchema) => json_document(text@) matches Some(document)
                    && !schema_compiles(document),
            },
    {
        match parse_json(text) {
            Err(_) => Err(SchemaError::InvalidJson),
            Ok(document) => match build_validator(&document) {
                Ok(schema) => Ok(schema),
                Err(_) => Err(SchemaError::InvalidSchema),
            },
        }
    }
}

} // verus!
