//! The closed error taxonomy and its responder: each failure kind maps to
//! exactly one HTTP status code and a JSON body with the single field
//! `error`.

use vstd::prelude::*;

use crate::json::{JsonField, JsonObject, JsonValue};

verus! {

/// The application-level failure kinds. The set is closed: the responder's
/// mapping below is total over exactly these variants.
pub enum ApiError {
    NotFound,
    InvalidInput(String),
    InternalError,
}

/// A transport-free HTTP response: a status code and a JSON object body.
pub struct HttpResponse {
    pub status: u16,
    pub body: JsonObject,
}

/// The status code owed to each failure kind.
pub open spec fn error_status(e: ApiError) -> u16 {
    match e {
        ApiError::NotFound => 404,
        ApiError::InvalidInput(_) => 400,
        ApiError::InternalError => 500,
    }
}

/// The user-visible message owed to each failure kind: fixed strings for
/// `NotFound` and `InternalError`, the carried message verbatim for
/// `InvalidInput`.
pub open spec fn error_message(e: ApiError) -> Seq<char> {
    match e {
        ApiError::NotFound => "Data not found"@,
        ApiError::InvalidInput(m) => m@,
        ApiError::InternalError => "internal server error"@,
    }
}

/// The body is exactly the one-member object `{"error": msg}`.
pub open spec fn error_body(obj: JsonObject, msg: Seq<char>) -> bool {
    &&& obj.fields@.len() == 1
    &&& obj.fields@[0].key@ == "error"@
    &&& obj.fields@[0].value matches JsonValue::Text(s) && s@ == msg
}

impl ApiError {
    /// Turns a failure into its wire response: the status from the fixed
    /// table, and a JSON body holding the single field `error` with the
    /// kind's message.
    pub fn into_response(self) -> (r: HttpResponse)
        ensures
            r.status == error_status(self),
            error_body(r.body, error_message(self)),
    {
        let (status, message): (u16, String) = match self {
            ApiError::NotFound => (404, "Data not found".to_owned()),
            ApiError::InvalidInput(msg) => (400, msg),
            ApiError::InternalError => (500, "internal server error".to_owned()),
        };
        let mut fields: Vec<JsonField> = Vec::new();
        fields.push(JsonField { key: "error".to_owned(), value: JsonValue::Text(message) });
        HttpResponse { status, body: JsonObject { fields } }
    }
}

} // verus!
