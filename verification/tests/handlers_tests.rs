use http_server::handlers::{
    FixedResponseHandler, HandlerEntry, HandlerPath, HandlerRegistry, HandlerRegistryAddError,
};
use http_server::request::HTTPMethod;
use http_server::status::ResponseStatus;

fn entry(method: HTTPMethod, path: &str) -> HandlerEntry {
    HandlerEntry::new(Box::new(FixedResponseHandler::new(
        method,
        HandlerPath::new(path),
        ResponseStatus::OK,
        "ok".to_string(),
    )))
}

#[test]
fn add_handler() {
    let mut registry: HandlerRegistry = HandlerRegistry::default();

    registry
        .add(entry(HTTPMethod::Get, "/"))
        .expect("Adding a GET handler for / should succeed");

    let handler = registry
        .get(HTTPMethod::Get, HandlerPath::new("/"))
        .expect("A GET handler for / should be found");
    assert_eq!(*handler.get_method(), HTTPMethod::Get);
    assert_eq!(*handler.get_path(), HandlerPath::new("/"))
}

#[test]
fn add_unhandlable() {
    let mut registry = HandlerRegistry::default();
    registry
        .add(entry(HTTPMethod::Connect, "/"))
        .expect_err("Adding a handler for CONNECT should fail");

    registry
        .add(entry(HTTPMethod::Trace, "/"))
        .expect_err("Adding a handler for TRACE should fail");

    registry
        .add(entry(HTTPMethod::Options, "/"))
        .expect_err("Adding a handler for OPTIONS should fail");
}

#[test]
fn add_duplicate_fails_on_the_second() {
    let mut registry = HandlerRegistry::default();
    registry
        .add(entry(HTTPMethod::Get, "/pets"))
        .expect("The first handler for a route goes in");
    let err = registry
        .add(entry(HTTPMethod::Get, "/pets"))
        .expect_err("The second handler for the same route is refused");
    assert!(matches!(err, HandlerRegistryAddError::DuplicateKey(_, _)));

    registry
        .add(entry(HTTPMethod::Post, "/pets"))
        .expect("The same path under another method is its own route");
}

#[test]
fn unhandlable_error_names_the_method() {
    let mut registry = HandlerRegistry::default();
    let err = registry
        .add(entry(HTTPMethod::Trace, "/x"))
        .expect_err("TRACE cannot be registered");
    assert!(matches!(
        err,
        HandlerRegistryAddError::UnhandlableMethod(HTTPMethod::Trace)
    ));
}

#[test]
fn handler_paths_are_canonical() {
    assert_eq!(HandlerPath::new("/dogs/"), HandlerPath::new("/dogs"));
    assert_eq!(HandlerPath::new("/"), HandlerPath::new("/"));
    assert_ne!(HandlerPath::new("/dogs"), HandlerPath::new("/cats"));
    assert_ne!(
        HandlerPath::new("/a//"),
        HandlerPath::new("/a"),
        "Exactly one trailing slash is stripped"
    );
}

#[test]
fn routes_match_canonical_paths() {
    let mut registry = HandlerRegistry::default();
    registry
        .add(entry(HTTPMethod::Get, "/dogs/"))
        .expect("A trailing slash canonicalizes away");
    assert!(registry
        .get(HTTPMethod::Get, HandlerPath::new("/dogs"))
        .is_some());
    assert!(registry
        .get(HTTPMethod::Post, HandlerPath::new("/dogs"))
        .is_none());
}

#[test]
fn constructor_refuses_unhandlable_methods() {
    let err = match HandlerRegistry::new(vec![
        entry(HTTPMethod::Get, "/a"),
        entry(HTTPMethod::Options, "/b"),
    ]) {
        Ok(_) => panic!("an OPTIONS entry must fail the whole construction"),
        Err(e) => e,
    };
    assert!(matches!(
        err,
        HandlerRegistryAddError::UnhandlableMethod(HTTPMethod::Options)
    ));
}

#[test]
fn constructor_refuses_duplicate_routes() {
    let err = match HandlerRegistry::new(vec![
        entry(HTTPMethod::Get, "/a"),
        entry(HTTPMethod::Get, "/a"),
    ]) {
        Ok(_) => panic!("two entries on one route must fail the construction"),
        Err(e) => e,
    };
    assert!(matches!(err, HandlerRegistryAddError::DuplicateKey(_, _)));
}

#[test]
fn constructor_accepts_distinct_routes() {
    let registry = HandlerRegistry::new(vec![
        entry(HTTPMethod::Get, "/a"),
        entry(HTTPMethod::Post, "/a"),
        entry(HTTPMethod::Get, "/b"),
    ])
    .expect("distinct routes register");
    assert!(registry
        .get(HTTPMethod::Post, HandlerPath::new("/a"))
        .is_some());
}
