//! Errors as answers.

use vstd::prelude::*;
use vstd::string::*;

use crate::error;
use crate::error::Error;
use crate::json;
use crate::json::Json;

verus! {

/// An answer that reports an error.
#[derive(Debug)]
pub struct ErrorResponse {
    pub status: u16,
    pub body: Json,
    /// The fault is the engine's own and is worth a line in its log.
    pub is_internal: bool,
}

/// The body of an answer that reports an error.
pub open spec fn error_body(e: Error) -> json::JsonModel {
    json::JsonModel::Object(
        Map::empty().insert("error"@, json::JsonModel::Text(error::code_of(e))).insert(
            "message"@,
            json::JsonModel::Text(error::message_of(e)),
        ),
    )
}

/// The answer that reports an error. It is never a success.
pub fn into_response(e: &Error) -> (r: ErrorResponse)
    ensures
        r.status == error::status_of(*e),
        400 <= r.status < 600,
        r.body@ == error_body(*e),
        r.is_internal == (r.status >= 500),
{
    let status: u16 = e.http_status();
    let mut m: Vec<(String, Json)> = json::no_members();
    json::put(&mut m, "error", Json::Text(e.code().to_owned()));
    json::put(&mut m, "message", Json::Text(e.message()));
    ErrorResponse { status, body: Json::Object(m), is_internal: status >= 500 }
}

proof fn lemma_error_keys()
    ensures
        "error"@ != "message"@,
{
    reveal_strlit("error");
    assert("error"@.len() == 5);
    reveal_strlit("message");
    assert("message"@.len() == 7);
}

/// An answer that reports an error has its code and its sentence, and nothing else.
pub proof fn law_error_members(e: Error)
    ensures
        ({
            let j = error_body(e);
            &&& json::member(j, "error"@) == Some(json::JsonModel::Text(error::code_of(e)))
            &&& json::member(j, "message"@) == Some(json::JsonModel::Text(error::message_of(e)))
            &&& json::has_only(j, set!["error"@, "message"@])
        }),
{
    lemma_error_keys();
}

} // verus!
