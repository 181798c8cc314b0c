//! JSON Schema, as the `jsonschema` crate decides it.

use crate::json::{document, to_serde};
use crate::pipeline::record::text_view;
use crate::text::{join, joined, texts};
use crate::value::{Data, Json};
use vstd::prelude::*;

verus! {

/// Why a schema is refused.
pub enum Refusal {
    /// It refers to a document that is not part of it.
    Unretrievable,
    /// It fits its meta-schema and is refused all the same.
    Uncompilable,
    /// It does not fit its meta-schema, or a reference in it leads nowhere; the
    /// message says where.
    Invalid(String),
}

/// The model of a [`Refusal`].
pub enum RefusalView {
    Unretrievable,
    Uncompilable,
    Invalid(Seq<char>),
}

impl Refusal {
    pub open spec fn view(&self) -> RefusalView {
        match self {
            Refusal::Unretrievable => RefusalView::Unretrievable,
            Refusal::Uncompilable => RefusalView::Uncompilable,
            Refusal::Invalid(message) => RefusalView::Invalid(message@),
        }
    }
}

pub open spec fn refusal_view(r: Option<Refusal>) -> Option<RefusalView> {
    match r {
        Some(refusal) => Some(refusal@),
        None => None,
    }
}

/// How `jsonschema::validator_for` refuses a schema, if it does.
pub uninterp spec fn schema_refusal(schema: Json) -> Option<RefusalView>;

/// What is said of a refusal.
pub open spec fn refusal_text(r: RefusalView) -> Seq<char> {
    match r {
        RefusalView::Unretrievable => "it refers to a document that is not part of it"@,
        RefusalView::Uncompilable => "it cannot be compiled"@,
        RefusalView::Invalid(message) => message,
    }
}

/// Why a value is no JSON Schema, if it is none.
pub open spec fn schema_fault(schema: Json) -> Option<Seq<char>> {
    match schema_refusal(schema) {
        Some(refusal) => Some(refusal_text(refusal)),
        None => None,
    }
}

/// The messages of the errors that `jsonschema::Validator::iter_errors` gives
/// for a value under a schema, in order.
pub uninterp spec fn schema_errors(schema: Json, value: Json) -> Seq<Seq<char>>;

/// `jsonschema::validator_for`, its error by kind. Without its default features
/// the crate retrieves nothing, so the schema alone decides. The message is not
/// given where a reference cannot be retrieved, nor where the crate reports an
/// error of no keyword: it names one of several candidates, and which one is
/// left to the order of a hash set. With such a message a problem that a document
/// had all along would look new after an edit of it.
#[verifier::external_body]
fn compile_schema(schema: &serde_json::Value) -> (r: Option<Refusal>)
    ensures
        refusal_view(r) == schema_refusal(document(*schema)),
{
    match jsonschema::validator_for(schema) {
        Ok(_) => None,
        Err(e) => Some(match e.kind() {
            jsonschema::error::ValidationErrorKind::Referencing(
                jsonschema::ReferencingError::Unretrievable { .. },
            ) => Refusal::Unretrievable,
            jsonschema::error::ValidationErrorKind::Custom { .. } => Refusal::Uncompilable,
            _ => Refusal::Invalid(e.to_string()),
        }),
    }
}

/// `jsonschema::Validator::iter_errors` of the schema's validator on a value,
/// each error as text; nothing where the schema has no validator.
#[verifier::external_body]
fn list_errors(schema: &serde_json::Value, value: &serde_json::Value) -> (r: Option<Vec<String>>)
    ensures
        match r {
            Some(errors) => schema_refusal(document(*schema)) is None && texts(errors@)
                == schema_errors(document(*schema), document(*value)),
            None => schema_refusal(document(*schema)) is Some,
        },
{
    match jsonschema::validator_for(schema) {
        Ok(validator) => Some(validator.iter_errors(value).map(|e| e.to_string()).collect()),
        Err(_) => None,
    }
}

/// Why a value is no JSON Schema, if it is none.
pub fn schema_problem(schema: &Data) -> (r: Option<String>)
    ensures
        text_view(r) == schema_fault(schema@),
{
    match compile_schema(&to_serde(schema)) {
        Some(refusal) => Some(describe_refusal(refusal)),
        None => None,
    }
}

/// Says why a schema is refused.
pub fn describe_refusal(refusal: Refusal) -> (r: String)
    ensures
        r@ == refusal_text(refusal@),
{
    match refusal {
        Refusal::Unretrievable => "it refers to a document that is not part of it".to_owned(),
        Refusal::Uncompilable => "it cannot be compiled".to_owned(),
        Refusal::Invalid(message) => message,
    }
}

/// What is wrong with a value under a schema; nothing where the schema is no
/// JSON Schema.
pub fn value_problems(schema: &Data, value: &Data) -> (r: Option<Vec<String>>)
    ensures
        match r {
            Some(errors) => schema_fault(schema@) is None && texts(errors@) == schema_errors(
                schema@,
                value@,
            ),
            None => schema_fault(schema@) is Some,
        },
{
    list_errors(&to_serde(schema), &to_serde(value))
}

/// The joined errors of a value under a schema, given those errors.
pub open spec fn mismatch_text(errors: Seq<Seq<char>>) -> Option<Seq<char>> {
    if errors.len() > 0 {
        Some(joined(errors, "; "@))
    } else {
        None
    }
}

/// The joined errors of a value under a schema, where it has some.
pub open spec fn mismatch(value: Json, schema: Json) -> Option<Seq<char>> {
    if schema_fault(schema) is Some {
        None
    } else {
        mismatch_text(schema_errors(schema, value))
    }
}

/// Joins the errors of a value, where it has some.
pub fn report_errors(errors: &Vec<String>) -> (r: Option<String>)
    ensures
        text_view(r) == mismatch_text(texts(errors@)),
{
    if errors.len() > 0 {
        Some(join(errors, "; "))
    } else {
        None
    }
}

/// Schema-checks a value, returning the joined errors when it fails.
pub fn schema_mismatch(value: &Data, schema: &Data) -> (r: Option<String>)
    ensures
        text_view(r) == mismatch(value@, schema@),
{
    match value_problems(schema, value) {
        Some(errors) => report_errors(&errors),
        None => None,
    }
}

} // verus!
