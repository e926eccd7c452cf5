use http_server::request::HTTPVersion;
use http_server::response::{format_http0_9, format_http1_x, ResponseBuilder};
use http_server::status::ResponseStatus;

#[test]
fn test_format_http_0_9() {
    let res = ResponseBuilder::default()
        .version(HTTPVersion::V0_9)
        .ok()
        .body("OK".to_string())
        .build()
        .expect("An HTTP 0.9 response should be constructed");

    let result = format_http0_9(&res);
    assert_eq!(result, "OK", "An HTTP 0.9 response is just the body");
}

#[test]
fn test_format_http_1_0_no_body() {
    let res = ResponseBuilder::default()
        .version(HTTPVersion::V1_0)
        .ok()
        .build()
        .expect("An HTTP 1.0 response should be constructed");
    let result = format_http1_x(&res);

    let mut result_lines = result.lines();

    let status_line: String = result_lines.by_ref().take(1).collect();
    assert!(!status_line.is_empty());
    assert_eq!(
        status_line, "HTTP/1.0 200 OK",
        "The status line should be well-formed and have the correct HTTP version"
    );
    assert!(
        result_lines.collect::<String>().is_empty(),
        "No body or headers should be added to an HTTP 1.0 response"
    );
}

#[test]
fn test_format_http_1_0_with_body() {
    let res = ResponseBuilder::default()
        .version(HTTPVersion::V1_0)
        .ok()
        .body("Hello world".to_string())
        .build()
        .expect("An HTTP 1.0 response should be constructed");
    let result = format_http1_x(&res);

    let mut result_lines = result.lines();

    let status_line: String = result_lines.by_ref().take(1).collect();
    assert!(!status_line.is_empty());
    assert_eq!(
        status_line, "HTTP/1.0 200 OK",
        "The status line should be well-formed and have the correct HTTP version"
    );

    let headers: Vec<&str> = result_lines
        .by_ref()
        .take_while(|line| line.contains(':'))
        .collect();
    assert_eq!(headers.len(), 1);
    assert_eq!(headers[0], "Content-Length: 11");

    assert_eq!(result_lines.collect::<String>(), "Hello world");
}

#[test]
fn test_format_http_1_0_multiple_headers() {
    let res = ResponseBuilder::default()
        .version(HTTPVersion::V1_0)
        .ok()
        .body("Hello world".to_string())
        .header("Age", "12")
        .header("Cache-Control", "max-age=3600")
        .header("Content-Security-Policy", "default-src 'self'")
        .header("Retry-After", "Fri, 07 Nov 2014 23:59:59 GMT")
        .build()
        .expect("An HTTP 1.0 response should be constructed");
    let result = format_http1_x(&res);

    let mut result_lines = result.lines();
    let mut tail = result_lines.by_ref().skip(1);

    let headers: Vec<&str> = tail
        .by_ref()
        .take_while(|line| line.contains(':'))
        .collect();
    assert_eq!(
        headers.len(),
        5,
        "There should be exactly 5 headers. Headers: {headers:?}"
    );

    assert_eq!(
        tail.collect::<String>(),
        "Hello world",
        "The body should be correct"
    );
}

#[test]
fn test_manage_headers() {
    let mut res = ResponseBuilder::default()
        .version(HTTPVersion::V1_1)
        .ok()
        .build()
        .expect("An empty OK request should be constructed");

    assert_eq!(
        res.headers().len(),
        0,
        "The headers should be empty initially"
    );

    res.set_header("Delta-Base".to_string(), "abc".to_string());
    assert_eq!(
        res.get_header("Delta-Base".to_string()),
        Some("abc".to_string()),
        "Should get the newly-inserted header Delta-Base. Headers: {0:?}",
        res.headers()
    );

    assert_eq!(
        res.get_header("Delta-Base".to_string()),
        Some("abc".to_string()),
        "get_header should be case-insensitive. Headers: {0:?}",
        res.headers()
    );

    res.insert_if_absent("Date".to_string(), "42".to_string());
    assert_eq!(
        res.get_header("Date".to_string()),
        Some("42".to_string()),
        "insert_if_absent should add the header when it doesn't exist. Headers: {0:?}",
        res.headers()
    );
    res.insert_if_absent("Date".to_string(), "-42".to_string());
    assert_eq!(
        res.get_header("Date".to_string()),
        Some("42".to_string()),
        "insert_if_absent should not add the header when it's present. Headers: {0:?}",
        res.headers()
    );
}

#[test]
fn charset_injected_for_text_html() {
    let res = ResponseBuilder::default()
        .version(HTTPVersion::V1_1)
        .ok()
        .header("Content-Type", "text/html")
        .body("<p>hi</p>".to_string())
        .build()
        .expect("The response should build");
    assert_eq!(
        res.get_header("Content-Type".to_string()),
        Some("text/html; charset=UTF-8".to_string()),
        "A content type without a charset gains one"
    );
    assert!(
        format_http1_x(&res).contains("Content-Type: text/html; charset=UTF-8\r\n"),
        "The wire form carries the amended content type"
    );
}

#[test]
fn charset_kept_when_present() {
    let res = ResponseBuilder::default()
        .version(HTTPVersion::V1_1)
        .ok()
        .header("Content-Type", "text/html; charset=latin-1")
        .body("<p>hi</p>".to_string())
        .build()
        .expect("The response should build");
    assert_eq!(
        res.get_header("Content-Type".to_string()),
        Some("text/html; charset=latin-1".to_string()),
        "A present charset is left as set"
    );
}

#[test]
fn content_length_matches_body_bytes() {
    let res = ResponseBuilder::default()
        .version(HTTPVersion::V1_1)
        .ok()
        .body("Hello world".to_string())
        .build()
        .expect("The response should build");
    assert_eq!(
        res.get_header("Content-Length".to_string()),
        Some("11".to_string())
    );
    assert!(format_http1_x(&res).contains("Content-Length: 11\r\n"));
}

#[test]
fn header_keys_are_stored_lower_case() {
    let res = ResponseBuilder::default()
        .version(HTTPVersion::V1_1)
        .ok()
        .header("X-LOUD-HEADER", "yes")
        .body("x".to_string())
        .build()
        .expect("The response should build");
    let headers = res.headers();
    for i in 0..headers.len() {
        let (k, _) = headers.pair_at(i);
        assert_eq!(
            k.to_lowercase(),
            *k,
            "Every stored key is already lower-case"
        );
    }
    assert!(
        format_http1_x(&res).contains("X-Loud-Header: yes\r\n"),
        "On the wire the name is title-cased"
    );
}

#[test]
fn reason_phrases_are_spaced() {
    assert_eq!(ResponseStatus::OK.reason_phrase(), "OK");
    assert_eq!(ResponseStatus::NotFound.reason_phrase(), "Not Found");
    assert_eq!(
        ResponseStatus::NonAuthoritativeInformation.reason_phrase(),
        "Non-Authoritative Information"
    );
    assert_eq!(ResponseStatus::MultiStatus.reason_phrase(), "Multi-Status");
    assert_eq!(ResponseStatus::Imateapot.reason_phrase(), "I'm A Teapot");
    assert_eq!(
        ResponseStatus::NetworkAuthenticationRequired.reason_phrase(),
        "Network Authentication Required"
    );
    assert_eq!(
        ResponseStatus::NonStandard(521, "Web Server Is Down".to_string()).reason_phrase(),
        "521 Web Server Is Down"
    );
}

#[test]
fn status_codes_match_the_standard() {
    assert_eq!(ResponseStatus::Continue.to_code(), 100);
    assert_eq!(ResponseStatus::OK.to_code(), 200);
    assert_eq!(ResponseStatus::Created.to_code(), 201);
    assert_eq!(ResponseStatus::Conflict.to_code(), 409);
    assert_eq!(ResponseStatus::Imateapot.to_code(), 418);
    assert_eq!(ResponseStatus::NotFound.to_code(), 404);
    assert_eq!(ResponseStatus::InternalServerError.to_code(), 500);
    assert_eq!(
        ResponseStatus::NonStandard(521, "Web Server Is Down".to_string()).to_code(),
        521
    );
    assert!(ResponseStatus::OK.is_ok());
    assert!(!ResponseStatus::NotFound.is_ok());
}

#[test]
fn build_without_version_or_status_fails() {
    let err = ResponseBuilder::default()
        .ok()
        .build()
        .expect_err("No version means no response");
    assert_eq!(err, "Can't construct a Response without a version");

    let err = ResponseBuilder::default()
        .version(HTTPVersion::V1_1)
        .build()
        .expect_err("No status means no response");
    assert_eq!(err, "Can't construct a Response without a status");
}
