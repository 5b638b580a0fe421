//! Reading the hook's JSON input through `serde_json`.
//!
//! The parse and the two lookups are calls into `serde_json`; what they
//! return is named by uninterpreted functions of the input text, so that the
//! verified code above them can state exactly what it does with the results.
use vstd::prelude::*;
use crate::text::view_opt;

verus! {

/// `serde_json::Value`, the dynamically typed JSON value.
#[verifier::external_type_specification]
#[verifier::external_body]
pub struct ExJsonValue(serde_json::Value);

/// `serde_json::Error`, the error of a failed parse.
#[verifier::external_type_specification]
#[verifier::external_body]
pub struct ExJsonError(serde_json::Error);

/// Whether serde_json reads `text` as a JSON document.
pub uninterp spec fn json_parses(text: Seq<char>) -> bool;

/// The string held by member `key` of the JSON document `text` when that
/// document is an object with such a member and the member is a string.
pub uninterp spec fn json_member_str(text: Seq<char>, key: Seq<char>) -> Option<Seq<char>>;

/// The string that the JSON pointer `pointer` designates in the JSON document
/// `text`, when it designates a value and that value is a string.
pub uninterp spec fn json_pointer_str(text: Seq<char>, pointer: Seq<char>) -> Option<Seq<char>>;

/// A parsed JSON document, with the text it was read from.
pub struct JsonDoc {
    value: serde_json::Value,
    source: Ghost<Seq<char>>,
}

impl JsonDoc {
    /// The text the document was read from.
    pub closed spec fn source(&self) -> Seq<char> {
        self.source@
    }
}

/// Calls `serde_json::from_str::<serde_json::Value>`. Claimed: the call
/// succeeds exactly on the texts that `json_parses` names (the result depends
/// on the text alone), and the document keeps the text it was read from.
#[verifier::external_body]
pub(crate) fn parse_json(text: &str) -> (r: Result<JsonDoc, serde_json::Error>)
    ensures
        r is Ok <==> json_parses(text@),
        r matches Ok(doc) ==> doc.source() == text@,
{
    match serde_json::from_str::<serde_json::Value>(text) {
        Ok(value) => Ok(JsonDoc { value, source: Ghost(text@) }),
        Err(e) => Err(e),
    }
}

/// Calls `serde_json::Value::get` with a string key, then
/// `serde_json::Value::as_str` on the member found. Claimed: the string
/// returned is the one that `json_member_str` names for the document's text
/// and the key (the lookup depends on the document and the key alone).
#[verifier::external_body]
pub(crate) fn member_string(doc: &JsonDoc, key: &str) -> (r: Option<String>)
    ensures
        view_opt(r) == json_member_str(doc.source(), key@),
{
    match doc.value.get(key).and_then(serde_json::Value::as_str) {
        Some(s) => Some(s.to_string()),
        None => None,
    }
}

/// Calls `serde_json::Value::pointer`, then `serde_json::Value::as_str` on the
/// value found. Claimed: the string returned is the one that
/// `json_pointer_str` names for the document's text and the pointer (the
/// lookup depends on the document and the pointer alone).
#[verifier::external_body]
pub(crate) fn pointer_string(doc: &JsonDoc, pointer: &str) -> (r: Option<String>)
    ensures
        view_opt(r) == json_pointer_str(doc.source(), pointer@),
{
    match doc.value.pointer(pointer).and_then(serde_json::Value::as_str) {
        Some(s) => Some(s.to_string()),
        None => None,
    }
}

} // verus!
