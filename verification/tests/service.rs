use user_service::error::ApiError;
use user_service::json::render_object;
use user_service::router::{create_app, RouteOutcome};

fn routed(outcome: RouteOutcome) -> (u16, String) {
    match outcome {
        RouteOutcome::Routed(resp) => (resp.status, render_object(&resp.body)),
        RouteOutcome::BadParameter => panic!("path parameter rejected"),
        RouteOutcome::WrongMethod => panic!("method rejected"),
        RouteOutcome::UnknownRoute => panic!("no route matched"),
    }
}

#[test]
fn test_health_check() {
    let app = create_app();
    let (status, body) = routed(app.handle("GET", "/health"));
    assert_eq!(status, 200);
    let json: serde_json::Value = serde_json::from_str(&body).unwrap();
    assert_eq!(json["status"], "ok");
    assert_eq!(json["message"], "server is running");
}

#[test]
fn health_exact_body() {
    let app = create_app();
    let (status, body) = routed(app.handle("GET", "/health"));
    assert_eq!(status, 200);
    assert_eq!(body, "{\"status\":\"ok\",\"message\":\"server is running\"}");
}

#[test]
fn get_user_in_range() {
    let app = create_app();
    let (status, body) = routed(app.handle("GET", "/users/5"));
    assert_eq!(status, 200);
    assert_eq!(body, "{\"id\":5,\"name\":\"user\"}");
}

#[test]
fn get_user_boundary_inclusive() {
    let app = create_app();
    let (status, body) = routed(app.handle("GET", "/users/100"));
    assert_eq!(status, 200);
    assert_eq!(body, "{\"id\":100,\"name\":\"user\"}");
}

#[test]
fn get_user_zero_succeeds() {
    let app = create_app();
    let (status, body) = routed(app.handle("GET", "/users/0"));
    assert_eq!(status, 200);
    assert_eq!(body, "{\"id\":0,\"name\":\"user\"}");
}

#[test]
fn get_user_beyond_bound() {
    let app = create_app();
    let (status, body) = routed(app.handle("GET", "/users/101"));
    assert_eq!(status, 404);
    assert_eq!(body, "{\"error\":\"Data not found\"}");
}

#[test]
fn get_user_largest_id_is_not_found() {
    let app = create_app();
    let (status, body) = routed(app.handle("GET", "/users/4294967295"));
    assert_eq!(status, 404);
    assert_eq!(body, "{\"error\":\"Data not found\"}");
}

#[test]
fn get_user_id_beyond_u32_is_rejected_before_the_handler() {
    let app = create_app();
    assert!(matches!(
        app.handle("GET", "/users/4294967296"),
        RouteOutcome::BadParameter
    ));
}

#[test]
fn get_user_non_numeric_id_is_rejected() {
    let app = create_app();
    assert!(matches!(app.handle("GET", "/users/abc"), RouteOutcome::BadParameter));
    assert!(matches!(app.handle("GET", "/users/-1"), RouteOutcome::BadParameter));
    assert!(matches!(app.handle("GET", "/users/1x"), RouteOutcome::BadParameter));
}

#[test]
fn get_user_leading_zeros_parse() {
    let app = create_app();
    let (status, body) = routed(app.handle("GET", "/users/007"));
    assert_eq!(status, 200);
    assert_eq!(body, "{\"id\":7,\"name\":\"user\"}");
}

#[test]
fn list_users_always_internal_error() {
    let app = create_app();
    let (status, body) = routed(app.handle("GET", "/users"));
    assert_eq!(status, 500);
    assert_eq!(body, "{\"error\":\"internal server error\"}");
}

#[test]
fn health_is_idempotent() {
    let app = create_app();
    let (first_status, first_body) = routed(app.handle("GET", "/health"));
    let _ = routed(app.handle("GET", "/users"));
    let _ = app.handle("GET", "/users/101");
    let (second_status, second_body) = routed(app.handle("GET", "/health"));
    assert_eq!(first_status, second_status);
    assert_eq!(first_body, second_body);
}

#[test]
fn unknown_paths_are_not_routed() {
    let app = create_app();
    assert!(matches!(app.handle("GET", "/nope"), RouteOutcome::UnknownRoute));
    assert!(matches!(app.handle("GET", "/users/"), RouteOutcome::UnknownRoute));
    assert!(matches!(app.handle("GET", "/users/5/posts"), RouteOutcome::UnknownRoute));
    assert!(matches!(app.handle("GET", ""), RouteOutcome::UnknownRoute));
}

#[test]
fn known_paths_reject_other_methods() {
    let app = create_app();
    assert!(matches!(app.handle("POST", "/health"), RouteOutcome::WrongMethod));
    assert!(matches!(app.handle("PUT", "/users"), RouteOutcome::WrongMethod));
    assert!(matches!(app.handle("DELETE", "/users/5"), RouteOutcome::WrongMethod));
}

#[test]
fn responder_maps_every_error_kind() {
    let resp = ApiError::NotFound.into_response();
    assert_eq!(resp.status, 404);
    assert_eq!(render_object(&resp.body), "{\"error\":\"Data not found\"}");

    let resp = ApiError::InternalError.into_response();
    assert_eq!(resp.status, 500);
    assert_eq!(render_object(&resp.body), "{\"error\":\"internal server error\"}");

    let resp = ApiError::InvalidInput("bad id".to_string()).into_response();
    assert_eq!(resp.status, 400);
    assert_eq!(render_object(&resp.body), "{\"error\":\"bad id\"}");
}

#[test]
fn responder_carries_the_message_verbatim_and_escapes_it() {
    let resp = ApiError::InvalidInput("say \"hi\"\\\n".to_string()).into_response();
    assert_eq!(resp.status, 400);
    let body = render_object(&resp.body);
    assert_eq!(body, "{\"error\":\"say \\\"hi\\\"\\\\\\u000a\"}");
    let json: serde_json::Value = serde_json::from_str(&body).unwrap();
    assert_eq!(json["error"], "say \"hi\"\\\n");
}

#[test]
fn error_bodies_have_exactly_the_error_field() {
    let app = create_app();
    for path in ["/users", "/users/101"] {
        let (_, body) = routed(app.handle("GET", path));
        let json: serde_json::Value = serde_json::from_str(&body).unwrap();
        let obj = json.as_object().unwrap();
        assert_eq!(obj.len(), 1);
        assert!(obj.contains_key("error"));
    }
}

#[test]
fn success_bodies_have_no_error_field() {
    let app = create_app();
    for path in ["/health", "/users/17"] {
        let (status, body) = routed(app.handle("GET", path));
        assert_eq!(status, 200);
        let json: serde_json::Value = serde_json::from_str(&body).unwrap();
        assert!(!json.as_object().unwrap().contains_key("error"));
    }
}
