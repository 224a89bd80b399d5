use xingdu::json::{parse, print, read_value, with, write_value, Json};

fn same_document(text: &str) {
    let value: serde_json::Value = serde_json::from_str(text).unwrap();
    let doc = parse(text).ok().unwrap();
    assert_eq!(write_value(&doc), value);
    assert_eq!(print(&doc), value.to_string());
    assert_eq!(write_value(&doc.clone()), value);
    assert_eq!(write_value(&read_value(&value)), value);
}

#[test]
fn documents_are_kept() {
    same_document("null");
    same_document("true");
    same_document("-17");
    same_document("18446744073709551615");
    same_document("0.7");
    same_document("-1.5e300");
    same_document("\"a \\\"quoted\\\" \\u661f\"");
    same_document("[]");
    same_document("[1, [2, [3, {}]], null]");
    same_document("{\"b\": 1, \"a\": {\"z\": [true, false], \"y\": \"\"}}");
}

#[test]
fn later_members_win() {
    let doc = parse("{\"a\": 1, \"b\": 2, \"a\": 3}").ok().unwrap();
    assert_eq!(print(&doc), "{\"a\":3,\"b\":2}");
    let members = with(
        with(Vec::new(), "k", Json::text("old")),
        "k",
        Json::text("new"),
    );
    let built = Json::Object(members);
    assert_eq!(built.get("k").unwrap().as_str(), Some("new"));
    assert_eq!(print(&built), "{\"k\":\"new\"}");
    let mut members = Vec::new();
    for (key, n) in [("a", 1), ("b", 2), ("a", 3), ("c", 4), ("b", 5), ("a", 6)] {
        members = with(members, key, Json::count(n));
    }
    assert_eq!(print(&Json::Object(members)), "{\"a\":6,\"b\":5,\"c\":4}");
}

#[test]
fn what_is_no_document_is_refused() {
    for text in ["", "{", "nul", "[1,]", "{} {}", "'x'"] {
        let expected = serde_json::from_str::<serde_json::Value>(text)
            .unwrap_err()
            .to_string();
        assert_eq!(parse(text).err(), Some(expected));
    }
}

#[test]
fn parts_of_documents() {
    let doc = parse("{\"list\": [\"x\", 2], \"text\": \"t\", \"none\": null}").ok().unwrap();
    assert_eq!(doc.get("text").unwrap().as_str(), Some("t"));
    assert!(doc.get("missing").is_none());
    assert!(doc.get("none").is_some());
    assert!(doc.get("none").unwrap().as_str().is_none());
    let list = doc.get("list").unwrap();
    assert_eq!(list.as_array().unwrap().len(), 2);
    assert_eq!(list.first().unwrap().as_str(), Some("x"));
    assert!(list.get("x").is_none());
    assert!(doc.as_array().is_none());
    assert!(doc.first().is_none());
    assert!(parse("[]").ok().unwrap().first().is_none());
}

#[test]
fn numbers_print_as_digits() {
    assert_eq!(print(&Json::count(0)), "0");
    assert_eq!(print(&Json::count(503)), "503");
    assert_eq!(print(&Json::count(u64::MAX)), "18446744073709551615");
}
