use http_server::simple_http::{HTTPMethod, HTTPVersion, Request, RequestParseError};

#[test]
fn request_http_version_parse_1_1() {
    let result = HTTPVersion::from_str("HTTP/1.1").expect("Parsing HTTP/1.1 should succeed");
    assert_eq!(
        HTTPVersion::V1_1,
        result,
        "Expected HTTP V1, parsed {result:?}"
    );
}

#[test]
fn http_version_parse_2_1() {
    let result = HTTPVersion::from_str("HTTP/2.2").expect("Parsing HTTP/2.2 should succeed");
    assert_eq!(
        HTTPVersion::V2_2,
        result,
        "Expected HTTP V2, parsed {result:?}"
    );
}

#[test]
fn request_http_version_parse_empty() {
    HTTPVersion::from_str("").expect_err("Parsing empty strings should fail");
}

#[test]
fn request_http_version_parse_wrong_protocol() {
    let err = HTTPVersion::from_str("TCP/3").expect_err("Parsing other protocols should fail");
    assert!(
        matches!(err, RequestParseError::NotHTTP),
        "Parsing non-HTTP strings should fail"
    );
}

#[test]
fn request_http_version_parse_bad_version() {
    let err = HTTPVersion::from_str("HTTP/1.0").expect_err("Parsing bad versions should fail");
    assert!(
        matches!(err, RequestParseError::UnsupportedVersion(_)),
        "Parsing unsupported methods should fail"
    );
}

#[test]
fn request_http_version_parse_no_version() {
    HTTPVersion::from_str("HTTP/").expect_err("Parsing strings without versions should fail");
}

#[test]
fn http_request_parse_no_headers() {
    let request =
        Request::from_str("GET / HTTP/1.1").expect("Parsing request with no headers should succeed");
    assert_eq!(HTTPMethod::Get, request.method);
    assert_eq!("/", request.path);
    assert_eq!(HTTPVersion::V1_1, request.http_version);
}

#[test]
fn header_pass_refuses_named_headers() {
    let err = Request::from_str("GET / HTTP/1.1\nHost: x")
        .expect_err("the rudimentary header pass refuses a named header");
    assert!(matches!(err, RequestParseError::MalformedHeaders));
}
