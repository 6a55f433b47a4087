//! JSON Schema checks, made by the `jsonschema` crate: whether a schema
//! obeys its meta-schema, and how many errors a document has against a
//! schema. The crate is used without its remote and file resolvers, so
//! both answers depend on the documents alone.
use crate::json::Json;
use crate::json::JsonValue;
use crate::text::opt_view;
use vstd::prelude::*;

verus! {

#[verifier::external_type_specification]
#[verifier::external_body]
pub struct ExJsonDocument(serde_json::Value);

/// The `serde_json` form of a document, which the calls below hand to
/// `jsonschema`: member by member, a later member overriding an earlier
/// one with the same key, so that it depends on the document's meaning
/// alone. A number whose text is not a JSON number becomes `null`. Nothing
/// is stated of it: it is read only by the bodies of the calls below.
#[verifier::external_body]
fn to_document(v: &JsonValue) -> serde_json::Value {
    match v {
        JsonValue::Null => serde_json::Value::Null,
        JsonValue::Bool(b) => serde_json::Value::Bool(*b),
        JsonValue::Number(n) => n.parse::<serde_json::Number>().map(serde_json::Value::Number).unwrap_or(serde_json::Value::Null),
        JsonValue::String(s) => serde_json::Value::String(s.clone()),
        JsonValue::Array(items) => serde_json::Value::Array(items.iter().map(to_document).collect()),
        JsonValue::Object(members) => serde_json::Value::Object(
            members.iter().map(|(k, x)| (k.clone(), to_document(x))).collect(),
        ),
    }
}

/// What `jsonschema::meta::validate` says of a schema: the text of the
/// first error it reports against the schema's meta-schema, or `None`
/// when the schema obeys it.
pub uninterp spec fn meta_schema_error_of(schema: Json) -> Option<Seq<char>>;

/// How many errors `jsonschema` reports for `instance` against `schema`
/// (`validator_for`, then `iter_errors`), or `None` when `schema` does not
/// compile.
pub uninterp spec fn schema_error_count_of(schema: Json, instance: Json) -> Option<nat>;

/// Calls `jsonschema::meta::validate` on a schema. Claims only that the
/// result is the named one: the first error's text, or `None`.
#[verifier::external_body]
pub(crate) fn meta_schema_error(schema: &JsonValue) -> (r: Option<String>)
    ensures
        opt_view(r) == meta_schema_error_of(schema@),
{
    match jsonschema::meta::validate(&to_document(schema)) {
        Ok(()) => None,
        Err(e) => Some(e.to_string()),
    }
}

/// Compiles a schema with `jsonschema::validator_for` and counts the
/// errors `iter_errors` reports for a document. Claims only that the
/// result is the named one.
#[verifier::external_body]
pub(crate) fn schema_error_count(schema: &JsonValue, instance: &JsonValue) -> (r: Option<usize>)
    ensures
        match r {
            Some(n) => schema_error_count_of(schema@, instance@) == Some(n as nat),
            None => schema_error_count_of(schema@, instance@) is None,
        },
{
    match jsonschema::validator_for(&to_document(schema)) {
        Ok(validator) => Some(validator.iter_errors(&to_document(instance)).count()),
        Err(_) => None,
    }
}

} // verus!
