use http_server::dogstore::{new_shared_store, DogStoreGetHandler, DogStorePostHandler};
use http_server::handlers::{HandlerCallErrorReason, HandlerEntry, HandlerRegistry};
use http_server::http1_1::parse_req;
use http_server::request::Request;
use http_server::response::format_http1_x;

fn dog_registry() -> HandlerRegistry {
    let store = new_shared_store();
    HandlerRegistry::new(vec![
        HandlerEntry::new(Box::new(DogStoreGetHandler::new(store.clone()))),
        HandlerEntry::new(Box::new(DogStorePostHandler::new(store.clone()))),
    ])
    .expect("the two dog handlers register")
}

fn get_dogs(registry: &HandlerRegistry) -> http_server::response::Response {
    let head = parse_req("GET /dogs HTTP/1.1\r\nHost: x\r\n\r\n").expect("the head parses");
    registry
        .dispatch(Request::new(head, Vec::new()))
        .expect("a GET /dogs handler is registered")
}

fn post_dog(registry: &HandlerRegistry, body: &str) -> http_server::response::Response {
    let head_text = format!(
        "POST /dogs HTTP/1.1\r\nHost: x\r\nContent-Type: application/json\r\nContent-Length: {}\r\n\r\n",
        body.len()
    );
    let head = parse_req(&head_text).expect("the head parses");
    registry
        .dispatch(Request::new(head, body.as_bytes().to_vec()))
        .expect("a POST /dogs handler is registered")
}

#[test]
fn get_dogs_empty_store() {
    let registry = dog_registry();
    let res = get_dogs(&registry);
    assert_eq!(res.status().to_code(), 200);
    assert_eq!(
        res.get_header("Content-Type".to_string()),
        Some("application/json; charset=UTF-8".to_string())
    );
    assert_eq!(
        res.get_header("Content-Length".to_string()),
        Some("12".to_string())
    );
    assert_eq!(res.body(), "{\"names\":[]}");
    let wire = format_http1_x(&res);
    assert!(wire.starts_with("HTTP/1.1 200 OK\r\n"));
    assert!(wire.ends_with("\r\n\r\n{\"names\":[]}"));
}

#[test]
fn post_then_get_round_trip() {
    let registry = dog_registry();

    let first = post_dog(&registry, "{\"name\":\"Alfred\"}");
    assert_eq!(
        first.status().to_code(),
        201,
        "A new dog is created: {}",
        first.body()
    );

    let listed = get_dogs(&registry);
    assert_eq!(listed.body(), "{\"names\":[\"Alfred\"]}");

    let second = post_dog(&registry, "{\"name\":\"Alfred\"}");
    assert_eq!(second.status().to_code(), 409, "A duplicate dog conflicts");

    let listed_again = get_dogs(&registry);
    assert_eq!(
        listed_again.body(),
        "{\"names\":[\"Alfred\"]}",
        "Alfred should still be in the store exactly once"
    );
}

#[test]
fn post_without_a_name_is_a_bad_request() {
    let registry = dog_registry();
    let res = post_dog(&registry, "{\"breed\":\"corgi\"}");
    assert_eq!(res.status().to_code(), 400);
}

#[test]
fn unknown_route_is_not_found() {
    let registry = dog_registry();
    let head = parse_req("GET /unknown HTTP/1.1\r\nHost: x\r\n\r\n").expect("the head parses");
    let err = registry
        .dispatch(Request::new(head, Vec::new()))
        .expect_err("nothing serves /unknown");
    assert!(matches!(
        err.reason,
        HandlerCallErrorReason::NoCompatibleHandler(_, _)
    ));
    let res = err
        .into_response()
        .build()
        .expect("the error response builds");
    assert_eq!(res.status().to_code(), 404);
    let wire = format_http1_x(&res);
    assert!(wire.starts_with("HTTP/1.1 404 Not Found\r\n"));
}

#[test]
fn asterisk_target_is_unroutable() {
    let registry = dog_registry();
    let head = parse_req("OPTIONS * HTTP/1.1\r\nHost: x\r\n\r\n").expect("the head parses");
    let err = registry
        .dispatch(Request::new(head, Vec::new()))
        .expect_err("the asterisk form cannot be routed");
    assert!(matches!(
        err.reason,
        HandlerCallErrorReason::UnhandlablePath(_)
    ));
    assert_eq!(
        err.as_status_code().to_code(),
        400,
        "an unroutable path maps to Bad Request"
    );
    let res = err
        .into_response()
        .build()
        .expect("the error response builds");
    assert_eq!(res.status().to_code(), 400);
}

#[test]
fn absolute_form_routes_by_its_path() {
    let registry = dog_registry();
    let head = parse_req("GET http://example.com/dogs HTTP/1.1\r\nHost: x\r\n\r\n")
        .expect("the head parses");
    let res = registry
        .dispatch(Request::new(head, Vec::new()))
        .expect("the absolute form strips to /dogs");
    assert_eq!(res.status().to_code(), 200);
}
