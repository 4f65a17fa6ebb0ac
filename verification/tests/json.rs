use valorant_watcher::json;
use valorant_watcher::json::Json;

#[test]
fn values_are_parsed_and_printed() {
    let text = r#"{ "b": [true, null, 1.50, "x\n"], "a": {"k": -3}, "b2": {} }"#;
    let value = json::parse(text).unwrap();
    assert_eq!(
        value.into_text(),
        r#"{"a":{"k":-3},"b":[true,null,1.5,"x\n"],"b2":{}}"#
    );
    assert!(json::parse("{").is_none());
    assert!(json::parse("").is_none());
}

#[test]
fn bytes_are_parsed_as_text_is() {
    assert_eq!(json::parse_bytes(b"[1,2]").unwrap().into_text(), "[1,2]");
    assert!(json::parse_bytes(b"[1,").is_none());
    assert!(json::parse_bytes(b"\"\xff\"").is_none());
}

#[test]
fn members_and_items_are_found() {
    let value = json::parse(r#"[0, {"name": "v", "n": 1}]"#).unwrap();
    let object = value.item(1).unwrap();
    assert_eq!(object.member_text("name"), Some("v"));
    assert_eq!(object.member_text("n"), None);
    assert_eq!(object.member_text("other"), None);
    assert!(object.member("n").is_some());
    assert!(object.item(0).is_none());
    assert!(value.item(2).is_none());
    assert!(value.member("name").is_none());
    assert_eq!(value.items().unwrap().len(), 2);
    assert!(object.items().is_none());
    assert_eq!(object.member("name").unwrap().as_text(), Some("v"));
}

#[test]
fn the_last_of_two_members_of_one_name_counts() {
    let value = json::parse(r#"{"a":1,"a":2}"#).unwrap();
    assert_eq!(value.into_text(), r#"{"a":2}"#);
}

#[test]
fn objects_are_built_and_taken_apart() {
    let value = Json::object()
        .with_text("z", "last")
        .with_integer("n", u64::MAX)
        .with("inner", Json::object().with_text("k", "\"v\""))
        .with_text("z", "new");
    assert_eq!(
        value.into_text(),
        r#"{"inner":{"k":"\"v\""},"n":18446744073709551615,"z":"new"}"#
    );
    let value = json::parse(r#"{"a":1,"b":2,"c":3}"#).unwrap().without("b").without("x");
    assert_eq!(value.into_text(), r#"{"a":1,"c":3}"#);
    let value = json::parse("[1]").unwrap().without("b");
    assert_eq!(value.into_text(), "[1]");
    let value = json::parse(r#"{"a":[7]}"#).unwrap().into_member("a").unwrap();
    assert_eq!(value.into_text(), "[7]");
    assert!(json::parse("{}").unwrap().into_member("a").is_none());
}

#[test]
fn scalars_survive() {
    for text in ["null", "true", "false", "0", "-1", "1e100", "\"\"", "\"\u{1f600}\"", "[]", "{}"] {
        let printed = json::parse(text).unwrap().into_text();
        assert_eq!(json::parse(&printed).unwrap().into_text(), printed);
    }
    assert_eq!(json::parse("\"\\u00e9\"").unwrap().into_text(), "\"\u{e9}\"");
}

#[test]
fn copies_are_equal() {
    let value = json::parse(r#"{"a":[1.5,{"b":null}],"c":"x","d":true}"#).unwrap();
    let copy = value.clone();
    assert_eq!(copy.into_text(), r#"{"a":[1.5,{"b":null}],"c":"x","d":true}"#);
    assert_eq!(value.into_text(), r#"{"a":[1.5,{"b":null}],"c":"x","d":true}"#);
}
