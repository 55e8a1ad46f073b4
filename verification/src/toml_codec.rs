//! The external structured-text collaborator: TOML, reached through a few
//! trusted wrappers.
//!
//! Decoding and encoding are functions of their argument alone, so each is
//! given a name (`toml_doc_of`, `toml_text_of`) that the wrappers' contracts
//! and their callers' contracts speak of; nothing else is assumed of them.

use vstd::prelude::*;
use crate::doc::DocValue;
use crate::doc::DocNode;
use crate::doc::doc_encodable;

verus! {

#[verifier::external_type_specification]
#[verifier::external_body]
pub struct ExTomlValue(toml::Value);

/// What the TOML decoder yields on a given text: the document as a generic
/// node, or nothing when the text is not well-formed TOML.
pub uninterp spec fn toml_doc_of(s: Seq<char>) -> Option<DocNode>;

/// What the TOML encoder yields on a given document of sections.
pub uninterp spec fn toml_text_of(d: DocNode) -> Seq<char>;

/// Carries a TOML value over to the library's own document node, one arm
/// per variant, tables recursing; scalars the schema has no use for (numbers,
/// dates, arrays, floats) all land on `Other`.
#[verifier::external_body]
fn value_to_doc(v: toml::Value) -> DocValue {
    match v {
        toml::Value::String(s) => DocValue::Str(s),
        toml::Value::Boolean(b) => DocValue::Bool(b),
        toml::Value::Table(t) => DocValue::Table(
            t.into_iter().map(|(k, inner)| (k, value_to_doc(inner))).collect(),
        ),
        _ => DocValue::Other,
    }
}

/// Carries a document node back to a TOML value, one arm per variant.  The
/// `Other` arm is never reached from an encodable document.
#[verifier::external_body]
fn doc_to_value(d: &DocValue) -> toml::Value {
    match d {
        DocValue::Str(s) => toml::Value::String(s.clone()),
        DocValue::Bool(b) => toml::Value::Boolean(*b),
        DocValue::Table(entries) => toml::Value::Table(
            entries.iter().map(|p| (p.0.clone(), doc_to_value(&p.1))).collect(),
        ),
        DocValue::Other => toml::Value::Boolean(false),
    }
}

/// Relies on `toml::from_str`: decoding a text to a generic value is a
/// function of the text alone, and a text that is not well-formed TOML is
/// rejected with the decoder's message.
#[verifier::external_body]
pub(crate) fn toml_decode(text: &str) -> (r: Result<DocValue, String>)
    ensures
        match r {
            Result::Ok(d) => toml_doc_of(text@) == Option::Some(d@),
            Result::Err(_) => toml_doc_of(text@) is None,
        },
{
    match toml::from_str::<toml::Value>(text) {
        Ok(v) => Ok(value_to_doc(v)),
        Err(e) => Err(e.to_string()),
    }
}

/// Relies on `toml::to_string`: encoding is a function of the value alone,
/// and a table of sub-tables holding only strings and booleans always
/// encodes, so the error arm is never taken for an encodable document.
#[verifier::external_body]
pub(crate) fn toml_encode(d: &DocValue) -> (r: String)
    requires
        doc_encodable(d@),
    ensures
        r@ == toml_text_of(d@),
{
    match toml::to_string(&doc_to_value(d)) {
        Ok(s) => s,
        Err(_) => String::new(),
    }
}

} // verus!
