//! The service's laws, each proved from the dispatch specification alone.
//! `dispatches_to` depends only on the method and the path, so every law
//! holds of each request independently of any other: the service keeps no
//! state between requests.

use vstd::prelude::*;

use crate::error::{error_body, HttpResponse};
use crate::handlers::{health_body, user_body};
use crate::json::has_key;
use crate::router::{
    digits_value, dispatches_to, is_user_path, parses_to_u32, user_path_segment, RouteOutcome,
};

verus! {

/// `GET /health` always yields 200 with `{"status": "ok", "message": "server
/// is running"}`, whatever happened before: the outcome is a function of the
/// request alone.
pub proof fn lemma_health_always_ok(method: Seq<char>, path: Seq<char>, r: RouteOutcome)
    requires
        method == "GET"@,
        path == "/health"@,
        dispatches_to(method, path, r),
    ensures
        r matches RouteOutcome::Routed(resp) && resp.status == 200 && health_body(resp.body),
{
}

/// `GET /users` always yields 500 with `{"error": "internal server error"}`.
pub proof fn lemma_list_users_always_fails(method: Seq<char>, path: Seq<char>, r: RouteOutcome)
    requires
        method == "GET"@,
        path == "/users"@,
        dispatches_to(method, path, r),
    ensures
        r matches RouteOutcome::Routed(resp) && resp.status == 500 && error_body(
            resp.body,
            "internal server error"@,
        ),
{
    reveal_strlit("/health");
    reveal_strlit("/users");
    assert("/health"@.len() == 7);
    assert("/users"@.len() == 6);
    assert(path != "/health"@);
}

/// For every id up to 100, `GET /users/{id}` yields 200 with
/// `{"id": id, "name": "user"}` — the bound is inclusive and there is no
/// lower bound.
pub proof fn lemma_user_found(method: Seq<char>, path: Seq<char>, r: RouteOutcome, id: u32)
    requires
        method == "GET"@,
        is_user_path(path),
        parses_to_u32(user_path_segment(path)),
        digits_value(user_path_segment(path)) == id,
        id <= 100,
        dispatches_to(method, path, r),
    ensures
        r matches RouteOutcome::Routed(resp) && resp.status == 200 && user_body(resp.body, id),
{
    reveal_strlit("/health");
    reveal_strlit("/users");
    assert(path != "/health"@);
    assert(path != "/users"@);
}

/// For every id above 100 that still denotes a `u32`, `GET /users/{id}`
/// yields 404 with `{"error": "Data not found"}`. A numeral beyond `u32`
/// never reaches the handler: the path parameter is rejected first.
pub proof fn lemma_user_not_found(method: Seq<char>, path: Seq<char>, r: RouteOutcome, id: u32)
    requires
        method == "GET"@,
        is_user_path(path),
        parses_to_u32(user_path_segment(path)),
        digits_value(user_path_segment(path)) == id,
        id > 100,
        dispatches_to(method, path, r),
    ensures
        r matches RouteOutcome::Routed(resp) && resp.status == 404 && error_body(
            resp.body,
            "Data not found"@,
        ),
{
    reveal_strlit("/health");
    reveal_strlit("/users");
    assert(path != "/health"@);
    assert(path != "/users"@);
}

/// Every routed error response carries exactly the single field `error`, and
/// every routed success response carries no `error` field at all.
pub proof fn lemma_error_field_discipline(
    method: Seq<char>,
    path: Seq<char>,
    r: RouteOutcome,
    resp: HttpResponse,
)
    requires
        dispatches_to(method, path, r),
        r == RouteOutcome::Routed(resp),
    ensures
        resp.status != 200 ==> resp.body.fields@.len() == 1 && resp.body.fields@[0].key@
            == "error"@,
        resp.status == 200 ==> !has_key(resp.body, "error"@),
{
    reveal_strlit("error");
    reveal_strlit("status");
    reveal_strlit("message");
    reveal_strlit("id");
    reveal_strlit("name");
    if resp.status == 200 {
        let fs = resp.body.fields@;
        assert forall|i: int| 0 <= i < fs.len() implies fs[i].key@ != "error"@ by {
            assert("error"@.len() == 5);
            if path == "/health"@ {
                assert(health_body(resp.body));
                assert("status"@.len() == 6);
                assert("message"@.len() == 7);
            } else if is_user_path(path) {
                let seg = user_path_segment(path);
                assert(user_body(resp.body, digits_value(seg) as u32));
                assert("id"@.len() == 2);
                assert("name"@.len() == 4);
            }
        }
        assert(!has_key(resp.body, "error"@));
    }
}

} // verus!
