//! The three route handlers. Each is a pure function from its input to a
//! success body or an `ApiError`; no handler reads or writes any state.

use vstd::prelude::*;

use crate::error::ApiError;
use crate::json::{JsonField, JsonObject, JsonValue};

verus! {

/// The health body is exactly `{"status": "ok", "message": "server is running"}`.
pub open spec fn health_body(obj: JsonObject) -> bool {
    &&& obj.fields@.len() == 2
    &&& obj.fields@[0].key@ == "status"@
    &&& obj.fields@[0].value matches JsonValue::Text(s) && s@ == "ok"@
    &&& obj.fields@[1].key@ == "message"@
    &&& obj.fields@[1].value matches JsonValue::Text(s) && s@ == "server is running"@
}

/// The fabricated user record is exactly `{"id": id, "name": "user"}`.
pub open spec fn user_body(obj: JsonObject, id: u32) -> bool {
    &&& obj.fields@.len() == 2
    &&& obj.fields@[0].key@ == "id"@
    &&& obj.fields@[0].value matches JsonValue::Number(n) && n == id
    &&& obj.fields@[1].key@ == "name"@
    &&& obj.fields@[1].value matches JsonValue::Text(s) && s@ == "user"@
}

/// `GET /health`: always succeeds with the fixed status body.
pub fn health_check() -> (r: JsonObject)
    ensures
        health_body(r),
{
    let mut fields: Vec<JsonField> = Vec::new();
    fields.push(JsonField { key: "status".to_owned(), value: JsonValue::Text("ok".to_owned()) });
    fields.push(JsonField {
        key: "message".to_owned(),
        value: JsonValue::Text("server is running".to_owned()),
    });
    JsonObject { fields }
}

/// `GET /users`: a deliberate stub that always fails with `InternalError`;
/// a real listing capability was never implemented behind it.
pub fn list_users() -> (r: Result<JsonObject, ApiError>)
    ensures
        r matches Err(e) && e is InternalError,
{
    Err(ApiError::InternalError)
}

/// `GET /users/{id}`: rejects ids above 100 with `NotFound` and fabricates
/// a record for every other id. The guard is an upper bound only: there is
/// no store to consult, and id 0 succeeds.
pub fn get_user(id: u32) -> (r: Result<JsonObject, ApiError>)
    ensures
        id > 100 ==> (r matches Err(e) && e is NotFound),
        id <= 100 ==> (r matches Ok(obj) && user_body(obj, id)),
{
    if id > 100 {
        return Err(ApiError::NotFound);
    }
    let mut fields: Vec<JsonField> = Vec::new();
    fields.push(JsonField { key: "id".to_owned(), value: JsonValue::Number(id) });
    fields.push(JsonField { key: "name".to_owned(), value: JsonValue::Text("user".to_owned()) });
    Ok(JsonObject { fields })
}

} // verus!
