use http_server::http1_1::parse_req;
use http_server::request::{HTTPMethod, HTTPVersion, Path, RequestParseError};

#[test]
fn http_request_v0_9() {
    let request = parse_req("GET /\n").expect("Parsing an HTTP/0.9 request should succeed");
    assert_eq!(HTTPMethod::Get, request.method);
    assert_eq!(Path::OriginForm("/".to_string()), request.path);
    assert_eq!(HTTPVersion::V0_9, request.version);
}

#[test]
fn http_request_v1_0() {
    let request =
        parse_req("GET / HTTP/1.0\n").expect("Parsing an HTTP/1.0 request should succeed");
    assert_eq!(HTTPMethod::Get, request.method);
    assert_eq!(Path::OriginForm("/".to_string()), request.path);
    assert_eq!(HTTPVersion::V1_0, request.version);
}

#[test]
fn http_request_with_host() {
    let request = parse_req("GET / HTTP/1.1\nHost: example.com\n")
        .expect("Parsing a request with an origin-form path should succeed");
    assert_eq!(HTTPMethod::Get, request.method);
    assert_eq!(
        Path::OriginForm("/".to_string()),
        request.path,
        "Should be origin form, got {0:?}",
        request.path
    );
    assert_eq!(HTTPVersion::V1_1, request.version);

    let request2 = parse_req("CONNECT cheese.com:80 HTTP/1.1\nHost: example.com\n")
        .expect("Parsing a CONNECT request with an authority-form path should succeed");
    assert_eq!(HTTPMethod::Connect, request2.method);
    assert_eq!(
        Path::AuthorityForm("cheese.com".to_string(), 80),
        request2.path,
        "Should be authority form, got {0:?}",
        request2.path
    );
    assert_eq!(HTTPVersion::V1_1, request2.version);

    let request3 = parse_req("GET http://example.com HTTP/1.1\nHost: example.com\n")
        .expect("Parsing a request with an absolute-form path should succeed");
    assert_eq!(HTTPMethod::Get, request3.method);
    assert_eq!(
        Path::AbsoluteForm("http://example.com".to_string()),
        request3.path,
        "Should be absolute form, got {0:?}",
        request3.path
    );
    assert_eq!(HTTPVersion::V1_1, request.version);

    let request4 = parse_req("OPTIONS * HTTP/1.1\nHost: example.com\n")
        .expect("Parsing an OPTIONS request with an asterisk path should succeed");
    assert_eq!(HTTPMethod::Options, request4.method);
    assert_eq!(
        Path::Asterisk,
        request4.path,
        "Should be asterisk form, got {0:?}",
        request4.path
    );
    assert_eq!(HTTPVersion::V1_1, request4.version);
}

#[test]
fn http_request_parse_newlines() {
    let request = parse_req("GET / HTTP/1.1\nHost: cheese.com\n")
        .expect("Parsing a request containing LFs should succeed");
    assert_eq!(HTTPMethod::Get, request.method);
    assert_eq!(Path::OriginForm("/".to_string()), request.path);
    assert_eq!(HTTPVersion::V1_1, request.version);
}

#[test]
fn http_request_parse_carriage_returns() {
    let request = parse_req("GET / HTTP/1.1\r\nHost: cheese.com\n")
        .expect("Parsing a request containing carriage returns should succeed");
    assert_eq!(HTTPMethod::Get, request.method);
    assert_eq!(Path::OriginForm("/".to_string()), request.path);
    assert_eq!(HTTPVersion::V1_1, request.version);
}

#[test]
fn full_head_origin_form() {
    let head = parse_req("GET / HTTP/1.1\r\nHost: x\r\n\r\n")
        .expect("A complete origin-form head should parse");
    assert_eq!(HTTPMethod::Get, head.method);
    assert_eq!(Path::OriginForm("/".to_string()), head.path);
    assert_eq!(HTTPVersion::V1_1, head.version);
    assert!(head.headers.has("host"), "The host header should be kept");
    assert_eq!(head.headers.get("host").expect("host is kept"), " x");
}

#[test]
fn full_head_authority_form() {
    let head = parse_req("CONNECT cheese.com:80 HTTP/1.1\r\nHost: x\r\n\r\n")
        .expect("A complete authority-form head should parse");
    assert_eq!(Path::AuthorityForm("cheese.com".to_string(), 80), head.path);
}

#[test]
fn full_head_asterisk_form() {
    let head = parse_req("OPTIONS * HTTP/1.1\r\nHost: x\r\n\r\n")
        .expect("A complete asterisk-form head should parse");
    assert_eq!(Path::Asterisk, head.path);
}

#[test]
fn missing_host_is_refused() {
    let err = parse_req("GET / HTTP/1.1\r\n\r\n")
        .expect_err("An HTTP/1.1 head without a host should fail");
    assert!(
        matches!(err, RequestParseError::MissingHostHeader),
        "The failure should name the missing host"
    );
}

#[test]
fn header_without_colon_is_refused() {
    let err = parse_req("GET / HTTP/1.1\r\nnocolonhere\r\n\r\n")
        .expect_err("A header line without a colon should fail");
    assert!(matches!(err, RequestParseError::InvalidHeader(_)));
}

#[test]
fn bad_start_lines_are_refused() {
    let err = parse_req("GET\r\n\r\n").expect_err("A one-token start line should fail");
    assert!(matches!(err, RequestParseError::InvalidStartLine("Too few segments")));

    let err = parse_req("GET / HTTP/1.1 extra\r\n\r\n")
        .expect_err("A four-token start line should fail");
    assert!(matches!(err, RequestParseError::InvalidStartLine("Too many segments")));

    let err = parse_req("YELL / HTTP/1.1\r\nHost: x\r\n\r\n")
        .expect_err("An unknown method should fail");
    assert!(matches!(err, RequestParseError::InvalidStartLine("Invalid method")));

    let err = parse_req("GET / HTTP/7.7\r\nHost: x\r\n\r\n")
        .expect_err("An unknown version should fail");
    assert!(matches!(err, RequestParseError::InvalidStartLine("Invalid HTTP version")));

    let err = parse_req("GET nonsense HTTP/1.1\r\nHost: x\r\n\r\n")
        .expect_err("An unclassifiable target should fail");
    assert!(matches!(err, RequestParseError::InvalidStartLine("Invalid path")));
}

#[test]
fn last_header_wins() {
    let head = parse_req("GET / HTTP/1.0\r\nA: one\r\nA: two\r\n\r\n")
        .expect("Duplicate headers should collapse");
    assert_eq!(head.headers.get("a").expect("the header is kept"), " two");
}

#[test]
fn request_reads_framed_text_body() {
    let head = parse_req(
        "POST /notes HTTP/1.1\r\nHost: x\r\nContent-Type: text/plain\r\nContent-Length: 5\r\n\r\n",
    )
    .expect("the head parses");
    let req = http_server::request::Request::new(head, b"hello".to_vec());
    assert_eq!(
        req.read_body_text().expect("a framed text body reads"),
        "hello"
    );
}

#[test]
fn request_body_without_length_fails() {
    let head = parse_req("POST /notes HTTP/1.1\r\nHost: x\r\nContent-Type: text/plain\r\n\r\n")
        .expect("the head parses");
    let req = http_server::request::Request::new(head, b"hello".to_vec());
    let err = req
        .read_body_text()
        .expect_err("no advertised length, no body");
    assert!(matches!(err, RequestParseError::BodyParseError(_)));
}

#[test]
fn request_reads_framed_json_body() {
    let body = "{\"name\":\"Rex\"}";
    let head_text = format!(
        "POST /dogs HTTP/1.1\r\nHost: x\r\nContent-Type: application/json\r\nContent-Length: {}\r\n\r\n",
        body.len()
    );
    let head = parse_req(&head_text).expect("the head parses");
    let req = http_server::request::Request::new(head, body.as_bytes().to_vec());
    let value = req.read_body_json().expect("a framed JSON body reads");
    assert_eq!(value["name"], "Rex");
}
