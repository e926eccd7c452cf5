use http_server::dogstore::{dogs_json, DogStore};
use http_server::mime::{MainMimeType, MimeType, SubMimeType};

#[test]
fn mime_table_lookups() {
    let m = MimeType::from_str("application/json").expect("a known token parses");
    assert_eq!(m.main_type, MainMimeType::Application);
    assert_eq!(m.sub_type, SubMimeType::JSON);
    assert_eq!(m.original, "application/json");

    let m = MimeType::from_str("text/html").expect("a known token parses");
    assert_eq!(m.main_type, MainMimeType::Text);
    assert_eq!(m.sub_type, SubMimeType::HTM);

    let m = MimeType::from_str("application/x-gzip").expect("an alias parses");
    assert_eq!(m.sub_type, SubMimeType::GZ);

    let m = MimeType::from_str("multipart/form-data").expect("multipart parses");
    assert_eq!(m.main_type, MainMimeType::Multipart);

    MimeType::from_str("application/made-up").expect_err("an unknown token is refused");
    MimeType::from_str("").expect_err("the empty token is refused");
}

#[test]
fn dog_store_keeps_names_in_order() {
    let mut store = DogStore::default();
    assert!(store.names.is_empty());
    store.add("Alfred");
    store.add("Biscuit");
    assert!(store.has_name("Alfred"));
    assert!(store.has_name("Biscuit"));
    assert!(!store.has_name("Cerberus"));
    assert_eq!(store.names, vec!["Alfred", "Biscuit"]);
}

#[test]
fn dogs_serialize_with_escapes() {
    let names: Vec<String> = vec![];
    assert_eq!(dogs_json(&names), "{\"names\":[]}");

    let names = vec!["Alfred".to_string(), "Bis\"cuit\\".to_string()];
    assert_eq!(
        dogs_json(&names),
        "{\"names\":[\"Alfred\",\"Bis\\\"cuit\\\\\"]}"
    );

    let parsed: serde_json::Value =
        serde_json::from_str(&dogs_json(&names)).expect("the serialized store is valid JSON");
    assert_eq!(parsed["names"][1], "Bis\"cuit\\");

    let names = vec!["a\nb\tc\u{1}d".to_string()];
    assert_eq!(
        dogs_json(&names),
        "{\"names\":[\"a\\nb\\tc\\u0001d\"]}",
        "control characters are escaped"
    );
    let parsed: serde_json::Value =
        serde_json::from_str(&dogs_json(&names)).expect("control characters stay valid JSON");
    assert_eq!(parsed["names"][0], "a\nb\tc\u{1}d");
}
