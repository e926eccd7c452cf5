use http_server::body::{parse_body_json, parse_body_text};
use http_server::content_type::MimeParseInfo;
use http_server::mime::{MainMimeType, MimeType, SubMimeType};

fn json_info(length: u64) -> MimeParseInfo {
    MimeParseInfo {
        content_type: MimeType {
            main_type: MainMimeType::Application,
            sub_type: SubMimeType::JSON,
            original: "application/json".to_string(),
        },
        length,
        boundary: None,
        charset: None,
        encoding: vec![],
    }
}

#[test]
fn body_parse_json_plaintext() {
    let mime_info = json_info(13u64);
    let body = r#"{"foo":"bar"}"#;
    parse_body_json(&mime_info, body.as_bytes()).expect("Parsing the body should succeed");
}

#[test]
fn body_parse_multiline_json() {
    let mime_info = json_info(34u64);
    let body = r#"{
  "foo": "bar",
  "baz": "qux"
}"#;
    parse_body_json(&mime_info, body.as_bytes())
        .expect("Parsing a multiline JSON body should succeed");
}

#[test]
fn body_parse_json_incorrect_length() {
    let mime_info = json_info(10u64);
    let body = r#"{"foo":"bar"}"#;
    parse_body_json(&mime_info, body.as_bytes())
        .expect_err("An error should be thrown when the Content-Length is wrong");
}

#[test]
fn body_parse_json_not_json() {
    let incorrect_mime_info = MimeParseInfo {
        content_type: MimeType {
            main_type: MainMimeType::Font,
            sub_type: SubMimeType::TTF,
            original: "font/ttf".to_string(),
        },
        length: 3u64,
        boundary: None,
        charset: None,
        encoding: vec![],
    };

    parse_body_json(&incorrect_mime_info, "lol".as_bytes())
        .expect_err("Calling parse_body_json when the MIME type is not JSON should fail");

    let correct_mime_info = json_info(10u64);
    parse_body_json(&correct_mime_info, r#"not a json"#.as_bytes())
        .expect_err("Parsing a body that is not JSON as JSON should fail");
}

#[test]
fn body_parse_empty_json() {
    let mime_info = json_info(0u64);
    parse_body_json(&mime_info, r#""#.as_bytes())
        .expect_err("Parsing an empty body as JSON should fail");
}

#[test]
fn body_parse_html() {
    let mime_info = MimeParseInfo {
        content_type: MimeType {
            main_type: MainMimeType::Text,
            sub_type: SubMimeType::HTM,
            original: "text/html".to_string(),
        },
        length: 31u64,
        boundary: None,
        charset: None,
        encoding: vec![],
    };
    let body = r#"<!doctype html><title>a</title>"#;

    let result = parse_body_text(&mime_info, body.as_bytes())
        .expect("Parsing a basic HTML document should succeed");
    assert_eq!(result, "<!doctype html><title>a</title>".to_string());
}

#[test]
fn body_parse_empty_text() {
    let mime_info = MimeParseInfo {
        content_type: MimeType {
            main_type: MainMimeType::Text,
            sub_type: SubMimeType::HTM,
            original: "text/html".to_string(),
        },
        length: 0u64,
        boundary: None,
        charset: None,
        encoding: vec![],
    };
    let body = r#""#;

    let result = parse_body_text(&mime_info, body.as_bytes())
        .expect("Parsing an empty HTML document should succeed");
    assert_eq!(result, "".to_string());
}

#[test]
fn body_parse_nontext() {
    let mime_info = MimeParseInfo {
        content_type: MimeType {
            main_type: MainMimeType::Audio,
            sub_type: SubMimeType::MP3,
            original: "audio/mp3".to_string(),
        },
        length: 31u64,
        boundary: None,
        charset: None,
        encoding: vec![],
    };
    let body = r#"IDK what an MP3 file looks like"#;

    parse_body_text(&mime_info, body.as_bytes())
        .expect_err("Parsing a non-text document should fail");
}

#[test]
fn body_parse_invalid_utf8() {
    let mime_info = MimeParseInfo {
        content_type: MimeType {
            main_type: MainMimeType::Text,
            sub_type: SubMimeType::TXT,
            original: "text/plain".to_string(),
        },
        length: 2u64,
        boundary: None,
        charset: None,
        encoding: vec![],
    };
    let bytes: [u8; 2] = [0xff, 0xfe];
    parse_body_text(&mime_info, &bytes).expect_err("Bytes that are not UTF-8 should fail");
}

#[test]
fn body_short_read_is_named() {
    let mime_info = json_info(99u64);
    let err = parse_body_json(&mime_info, "{}".as_bytes())
        .expect_err("A short body should fail");
    assert_eq!(
        err,
        "Content-Length (99) is greater than the actual length (2)"
    );
}
