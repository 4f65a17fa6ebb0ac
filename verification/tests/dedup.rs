use valorant_watcher::dedup::marker;
use valorant_watcher::dedup::marker_of;
use valorant_watcher::dedup::Deduper;
use valorant_watcher::dedup::Marker;
use valorant_watcher::encoding::sha256_hex;
use valorant_watcher::json;

#[test]
fn field_marker_is_the_field() {
    let body = r#"{"a": {"b": [1, {"c": "x"}]}, "v": 7}"#;
    assert_eq!(marker(body, &Marker::Field("v")), "7");
    assert_eq!(marker(body, &Marker::Field("a/b")), r#"[1,{"c":"x"}]"#);
}

#[test]
fn field_marker_falls_back_to_the_digest() {
    let body = r#"{"a": 1}"#;
    assert_eq!(marker(body, &Marker::Field("b")), sha256_hex(body));
    assert_eq!(marker(body, &Marker::Field("a/b")), sha256_hex(body));
    assert_eq!(marker(body, &Marker::Field("")), sha256_hex(body));
    assert_eq!(marker("no json", &Marker::Field("a")), sha256_hex("no json"));
}

#[test]
fn hash_marker_is_the_digest_of_the_body() {
    assert_eq!(
        marker("abc", &Marker::Hash),
        "ba7816bf8f01cfea414140de5dae2223b00361a396177a9cb410ff61f20015ad"
    );
}

#[test]
fn excluded_fields_do_not_count() {
    let kind = Marker::HashExcluding(&["Version", "LastUpdated"]);
    let first = marker(r#"{"Version":1,"Phase":"select","LastUpdated":"now"}"#, &kind);
    let second = marker(r#"{ "Phase": "select", "Version": 2 }"#, &kind);
    let third = marker(r#"{"Version":1,"Phase":"locked"}"#, &kind);
    assert_eq!(
        first,
        "129f7d1925eeca56feeefd3b2d4b7f0bcdd9eb9f35f4d560b5ff185249fb8f71"
    );
    assert_eq!(first, second);
    assert_ne!(first, third);
    assert_eq!(marker("[1, 2]", &kind), sha256_hex("[1,2]"));
    assert_eq!(marker("no json", &kind), sha256_hex("no json"));
}

#[test]
fn marker_of_a_parsed_body() {
    let body = r#"{"a":1}"#;
    assert_eq!(marker_of(body, json::parse(body), &Marker::Field("a")), "1");
    assert_eq!(marker_of(body, None, &Marker::Field("a")), sha256_hex(body));
}

#[test]
fn changes_are_noticed_per_key() {
    let mut deduper = Deduper::new();
    assert!(deduper.changed("a", "1".to_string()));
    assert!(!deduper.changed("a", "1".to_string()));
    assert!(deduper.changed("b", "1".to_string()));
    assert!(deduper.changed("a", "2".to_string()));
    assert!(deduper.changed("a", "1".to_string()));
    assert!(!deduper.changed("b", "1".to_string()));
    let mut other = Deduper::default();
    assert!(other.changed("a", "1".to_string()));
}
