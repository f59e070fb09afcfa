use omni::fields::precedes;
use omni::json::Json;

#[test]
fn values_are_read_and_written() {
    let text = r#"{"a":[1,-2,1.5,true,null,"x\né"],"b":{}}"#;
    let value = Json::parse(text).expect("JSON");
    assert_eq!(value.to_text(), "{\"a\":[1,-2,1.5,true,null,\"x\\né\"],\"b\":{}}");
    let items = value.get("a").and_then(|a| a.as_array()).expect("array");
    assert_eq!(items.len(), 6);
    assert_eq!(items[0].as_i64(), Some(1));
    assert_eq!(items[1].as_i64(), Some(-2));
    assert_eq!(items[2].as_i64(), None);
    assert_eq!(items[3].as_bool(), Some(true));
    assert_eq!(items[5].as_str(), Some("x\né"));
    assert!(value.get("c").is_none());
    assert!(items[0].get("a").is_none());
}

#[test]
fn the_last_of_two_fields_with_one_name_counts() {
    let value = Json::parse(r#"{"k":1,"k":2}"#).expect("JSON");
    assert_eq!(value.to_text(), r#"{"k":2}"#);
}

#[test]
fn values_are_made() {
    let value = Json::object()
        .with("z", Json::number(u64::MAX))
        .with("a", Json::text_or_null(None))
        .with("m", Json::text_or_null(Some("t")))
        .with("z", Json::Bool(false));
    assert_eq!(value.to_text(), r#"{"a":null,"m":"t","z":false}"#);
    assert_eq!(
        value.to_pretty(),
        "{\n  \"a\": null,\n  \"m\": \"t\",\n  \"z\": false\n}"
    );
    assert_eq!(Json::number(u64::MAX).to_text(), "18446744073709551615");
    assert_eq!(Json::number(u64::MAX).as_i64(), None);
    assert_eq!(Json::number(5).as_i64(), Some(5));
}

#[test]
fn what_is_no_json_is_refused() {
    assert_eq!(
        Json::parse("{\"a\":}").err().expect("no JSON"),
        "expected value at line 1 column 6"
    );
    assert_eq!(
        Json::parse("").err().expect("no JSON"),
        "EOF while parsing a value at line 1 column 0"
    );
}

#[test]
fn names_are_ordered_as_std_orders_them() {
    let names = ["", "a", "aa", "ab", "b", "B", "é", "z", "\u{ffff}", "\u{10000}"];
    for a in names {
        for b in names {
            assert_eq!(precedes(a, b), a < b, "{a:?} {b:?}");
        }
    }
}
