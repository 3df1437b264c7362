//! Responses of the remote backend. Every endpoint answers with a JSON
//! object from which one field is read; a body that is not valid JSON, or
//! lacks the field, or has it with a non-string type, is a protocol error.

use vstd::prelude::*;

use crate::errors::RagError;

verus! {

/// What the JSON string-field lookup returns for a given body and field
/// name: `Some` exactly when the body is valid JSON whose top-level value
/// carries `key` as a field holding a string, and then the string itself.
pub uninterp spec fn string_field_of(body: Seq<char>, key: Seq<char>) -> Option<Seq<char>>;

/// Relies on `serde_json::from_str::<Value>`, `serde_json::Value::get` and
/// `serde_json::Value::as_str`: parses `body` and looks the string field
/// `key` up; the result is a function of the two texts alone.
#[verifier::external_body]
fn json_string_field(body: &str, key: &str) -> (r: Option<String>)
    ensures
        r is Some <==> string_field_of(body@, key@) is Some,
        r is Some ==> r.unwrap()@ == string_field_of(body@, key@).unwrap(),
{
    match serde_json::from_str::<serde_json::Value>(body) {
        Ok(v) => match v.get(key) {
            Some(f) => match f.as_str() {
                Some(s) => Some(s.to_string()),
                None => None,
            },
            None => None,
        },
        Err(_) => None,
    }
}

/// Reads the `text` field of an extraction-endpoint response body. An empty
/// extracted text is not an error: it is returned as the empty string and
/// the caller decides whether to warn.
pub fn parse_text_response(body: &str) -> (r: Result<String, RagError>)
    ensures
        r is Ok <==> string_field_of(body@, "text"@) is Some,
        r is Ok ==> r.unwrap()@ == string_field_of(body@, "text"@).unwrap(),
        r is Err ==> r.unwrap_err() == RagError::Protocol,
{
    match json_string_field(body, "text") {
        Some(s) => Ok(s),
        None => Err(RagError::Protocol),
    }
}

/// Reads the `result` field of a query-endpoint response body.
pub fn parse_query_response(body: &str) -> (r: Result<String, RagError>)
    ensures
        r is Ok <==> string_field_of(body@, "result"@) is Some,
        r is Ok ==> r.unwrap()@ == string_field_of(body@, "result"@).unwrap(),
        r is Err ==> r.unwrap_err() == RagError::Protocol,
{
    match json_string_field(body, "result") {
        Some(s) => Ok(s),
        None => Err(RagError::Protocol),
    }
}

} // verus!
