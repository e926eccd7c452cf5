use http_server::request::{HTTPMethod, HTTPVersion, Path, RequestParseError};

#[test]
fn types_http_version_parse_1_1() {
    let result = HTTPVersion::from_str("HTTP/1.1").expect("Parsing HTTP/1.1 should succeed");
    assert_eq!(
        HTTPVersion::V1_1,
        result,
        "Expected HTTP V1, parsed {result:?}"
    );
}

#[test]
fn types_http_version_parse_empty() {
    HTTPVersion::from_str("").expect_err("Parsing empty strings should fail");
}

#[test]
fn types_http_version_parse_wrong_protocol() {
    HTTPVersion::from_str("TCP/1.1").expect_err("Parsing other protocols should fail");
}

#[test]
fn http_version_parse_future_version() {
    let err = HTTPVersion::from_str("HTTP/4.0").expect_err("Parsing future versions should fail");
    assert!(
        matches!(err, RequestParseError::UnsupportedVersion(_)),
        "Parsing unsupported methods should fail"
    );
}

#[test]
fn types_http_version_parse_bad_version() {
    HTTPVersion::from_str("HTTP/0.0").expect_err("Parsing 0.0 should fail");
    HTTPVersion::from_str("HTTP/1.5").expect_err("Parsing 1.5 should fail");
    HTTPVersion::from_str("HTTP/-420.0").expect_err("Parsing -420 should fail");
}

#[test]
fn types_http_version_parse_no_version() {
    HTTPVersion::from_str("HTTP/").expect_err("Parsing strings without versions should fail");
}

#[test]
fn path_parse_origin_form() {
    assert_eq!(
        Path::OriginForm("/".to_string()),
        Path::from_str("/").expect("Parsing / should succeed")
    );

    assert_eq!(
        Path::OriginForm("/echo/falls/spring".to_string()),
        Path::from_str("/echo/falls/spring")
            .expect("Parsing a nested origin-form path should succeed")
    );
}

#[test]
fn path_parse_origin_form_file_extension() {
    assert_eq!(
        Path::OriginForm("/spring.html".to_string()),
        Path::from_str("/spring.html")
            .expect("Parsing an origin-form path with a file extension should succeed")
    );
}

#[test]
fn path_parse_empty() {
    Path::from_str("").expect_err("Parsing an empty string should fail");
}

#[test]
fn path_parse_absolute_form() {
    assert_eq!(
        Path::AbsoluteForm("http://example.com".to_string()),
        Path::from_str("http://example.com").expect("Parsing http://example.com should succeed")
    );
}

#[test]
fn path_parse_absolute_form_with_path() {
    assert_eq!(
        Path::AbsoluteForm("http://example.com/about".to_string()),
        Path::from_str("http://example.com/about")
            .expect("Parsing an absolute-form host with a path should succeed")
    );

    assert_eq!(
        Path::AbsoluteForm("http://example.com/about/my/entire/life-story".to_string()),
        Path::from_str("http://example.com/about/my/entire/life-story")
            .expect("Parsing an absolute-form host with a deeply-nested path should succeed")
    );
}

#[test]
fn path_parse_authority_form() {
    assert_eq!(
        Path::AuthorityForm("mozilla.org".to_string(), 80),
        Path::from_str("mozilla.org:80")
            .expect("Parsing mozilla.org:80 as the authority should succeed")
    );
}

#[test]
fn path_parse_authority_form_with_subdomain() {
    assert_eq!(
        Path::AuthorityForm("developer.mozilla.org".to_string(), 80),
        Path::from_str("developer.mozilla.org:80")
            .expect("Parsing developer.mozilla.org:80 as the authority should succeed")
    );

    assert_eq!(
        Path::AuthorityForm("highly.specific.place.in.a.domain.org".to_string(), 80),
        Path::from_str("highly.specific.place.in.a.domain.org:80")
            .expect("Parsing a deeply-nested domain as the authority should succeed")
    );
}

#[test]
fn path_parse_asterisk_form() {
    assert_eq!(
        Path::Asterisk,
        Path::from_str("*").expect("Parsing * should succeed")
    );
}

#[test]
fn path_parse_garbage() {
    Path::from_str("aghajgaajagkajakaj").expect_err("Parsing garbage strings should fail");
}

#[test]
fn method_parse() {
    assert_eq!(
        HTTPMethod::Get,
        HTTPMethod::from_str("GET").expect("Parsing GET should succeed")
    );

    assert_eq!(
        HTTPMethod::Post,
        HTTPMethod::from_str("POST").expect("Parsing POST should succeed")
    );

    assert_eq!(
        HTTPMethod::Put,
        HTTPMethod::from_str("PUT").expect("Parsing PUT should succeed")
    );

    assert_eq!(
        HTTPMethod::Patch,
        HTTPMethod::from_str("PATCH").expect("Parsing PATCH should succeed")
    );

    assert_eq!(
        HTTPMethod::Delete,
        HTTPMethod::from_str("DELETE").expect("Parsing DELETE should succeed")
    );

    assert_eq!(
        HTTPMethod::Connect,
        HTTPMethod::from_str("CONNECT").expect("Parsing CONNECT should succeed")
    );

    assert_eq!(
        HTTPMethod::Options,
        HTTPMethod::from_str("OPTIONS").expect("Parsing OPTIONS should succeed")
    );

    assert_eq!(
        HTTPMethod::Trace,
        HTTPMethod::from_str("TRACE").expect("Parsing TRACE should succeed")
    );

    assert_eq!(
        HTTPMethod::Head,
        HTTPMethod::from_str("HEAD").expect("Parsing HEAD should succeed")
    );
}

#[test]
fn method_round_trip() {
    for token in ["GET", "POST", "PUT", "PATCH", "DELETE", "CONNECT", "OPTIONS", "TRACE", "HEAD"] {
        let m = HTTPMethod::from_str(token).expect("Every token of the closed set should parse");
        assert_eq!(m.render(), token, "Rendering should give the token back");
    }
}

#[test]
fn version_round_trip() {
    for token in ["HTTP/0.9", "HTTP/1.0", "HTTP/1.1"] {
        let v = HTTPVersion::from_str(token).expect("Every wire version should parse");
        assert_eq!(v.render(), token, "Rendering should give the token back");
    }
}

#[test]
fn error_message_names_the_version() {
    let err = HTTPVersion::from_str("HTTP/9.9").expect_err("Future versions should fail");
    assert_eq!(
        err.message(),
        "Failed to parse request.\n=>Unsupported version \"HTTP/9.9\""
    );
}
