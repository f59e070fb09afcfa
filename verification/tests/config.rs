use omni::config::{
    config_path, default_config, get_value_by_key, json_to_toml_value, key_parts, load_config,
    merge_config, parse_set_value, save_config, set_value_by_key, unset_value_by_key, ConfigValue,
    DateTime, UtcOffset,
};
use omni::json::Json;

fn text_at<'a>(config: &'a ConfigValue, key: &str) -> Option<&'a str> {
    get_value_by_key(config, key).and_then(|value| value.as_str())
}

#[test]
fn set_get_unset_works_with_dot_keys() {
    let mut config = default_config();

    set_value_by_key(
        &mut config,
        "event.hooks.transcribe.stop_copy",
        ConfigValue::Array(vec![ConfigValue::String("copy".into())]),
    )
    .expect("set should work");

    let value = get_value_by_key(&config, "event.hooks.transcribe.stop_copy")
        .expect("value should exist");
    assert!(matches!(value, ConfigValue::Array(_)));

    let removed = unset_value_by_key(&mut config, "event.hooks.transcribe.stop_copy")
        .expect("unset should succeed");
    assert!(removed);

    assert!(get_value_by_key(&config, "event.hooks.transcribe.stop_copy").is_none());
}

#[test]
fn parse_set_value_json_value_parses_arrays() {
    let value = parse_set_value("[\"hide_ui\",\"copy\"]", true).expect("json parse should work");
    match value {
        ConfigValue::Array(items) => {
            assert_eq!(items.len(), 2);
            assert_eq!(items[0].as_str(), Some("hide_ui"));
            assert_eq!(items[1].as_str(), Some("copy"));
        }
        _ => panic!("expected array value"),
    }
}

#[test]
fn parse_set_value_string_is_literal_without_json_flag() {
    let value = parse_set_value("true", false).expect("literal set should work");
    assert_eq!(value.as_str(), Some("true"));
}

#[test]
fn saved_config_can_be_loaded_back() {
    let mut config = default_config();
    set_value_by_key(
        &mut config,
        "server.baseUrl",
        ConfigValue::String("http://100.101.223.8:1237/v1".into()),
    )
    .expect("set should work");

    let text = save_config(&config).expect("save should work");
    let loaded = load_config("/tmp/config.toml", Some(text.as_str())).expect("load should work");

    assert_eq!(
        text_at(&loaded, "server.baseUrl"),
        Some("http://100.101.223.8:1237/v1")
    );
}

#[test]
fn saving_and_loading_keeps_every_kind_of_plain_value() {
    let mut config = ConfigValue::table();
    for (key, value) in [
        ("a.text", ConfigValue::text("line\n\"quoted\" \\ é\u{7f}\u{1}")),
        ("a.empty", ConfigValue::text("")),
        ("a.\"odd key\"", ConfigValue::Integer(i64::MIN)),
        ("b.c.d", ConfigValue::Boolean(true)),
        ("list", ConfigValue::Array(vec![
            ConfigValue::Integer(1),
            ConfigValue::Array(vec![]),
            ConfigValue::table().with("k", ConfigValue::text("v")),
        ])),
    ] {
        set_value_by_key(&mut config, key, value).expect("set should work");
    }
    let text = save_config(&config).expect("save should work");
    let loaded = load_config("c", Some(text.as_str())).expect("load should work");
    assert_eq!(loaded.show(), config.show());
    assert_eq!(text_at(&loaded, "a.text"), Some("line\n\"quoted\" \\ é\u{7f}\u{1}"));
    assert_eq!(
        get_value_by_key(&loaded, "a.\"odd key\"").and_then(|value| value.as_integer()),
        Some(i64::MIN)
    );
}

#[test]
fn a_file_that_is_missing_means_the_default() {
    let loaded = load_config("c", None).expect("default");
    assert_eq!(text_at(&loaded, "server.llmApi"), Some("openai-realtime"));
    assert_eq!(text_at(&loaded, "server.model"), Some("voxtral"));
    assert_eq!(text_at(&loaded, "audio.device"), Some("default"));
    assert_eq!(
        get_value_by_key(&loaded, "audio.sample_rate").and_then(|value| value.as_integer()),
        Some(16_000)
    );
    match get_value_by_key(&loaded, "event.hooks.transcribe.stop_insert") {
        Some(ConfigValue::Array(items)) => {
            let actions: Vec<&str> = items.iter().filter_map(|item| item.as_str()).collect();
            assert_eq!(
                actions,
                vec!["hide_ui", "stash", "copy", "paste", "sleep 120", "unstash"]
            );
        }
        _ => panic!("expected hooks"),
    }
}

#[test]
fn a_file_that_is_no_document_is_refused() {
    let error = load_config("/x/config.toml", Some("a = ")).err().expect("no document");
    assert_eq!(error.message, "failed parsing TOML config: /x/config.toml");
    assert!(error.cause.is_some());
}

#[test]
fn keys_are_cut_at_their_dots() {
    assert_eq!(key_parts(" a . b..c ").expect("names"), vec!["a", "b", "c"]);
    assert_eq!(
        key_parts(" . ").expect_err("no name").message,
        "config key cannot be empty"
    );
    let mut config = default_config();
    assert!(set_value_by_key(&mut config, "..", ConfigValue::Boolean(true)).is_err());
    assert!(unset_value_by_key(&mut config, "").is_err());
    assert!(get_value_by_key(&config, "").is_none());
}

#[test]
fn setting_below_a_value_makes_a_table_of_it() {
    let mut config = default_config();
    set_value_by_key(&mut config, "server.model.name", ConfigValue::text("x")).expect("set");
    assert_eq!(text_at(&config, "server.model.name"), Some("x"));
    assert_eq!(text_at(&config, "server.llmApi"), Some("openai-realtime"));
}

#[test]
fn what_was_set_is_what_is_there() {
    let mut config = default_config();
    set_value_by_key(&mut config, "x.y", ConfigValue::Integer(3)).expect("set");
    set_value_by_key(&mut config, "x.z", ConfigValue::Integer(4)).expect("set");
    let read = |config: &ConfigValue, key: &str| {
        get_value_by_key(config, key).and_then(|value| value.as_integer())
    };
    assert_eq!(read(&config, "x.y"), Some(3));
    assert_eq!(read(&config, "x.z"), Some(4));
    set_value_by_key(&mut config, "x.y", ConfigValue::Integer(5)).expect("set");
    assert_eq!(read(&config, "x.y"), Some(5));
    assert!(unset_value_by_key(&mut config, "x.y").expect("unset"));
    assert_eq!(read(&config, "x.y"), None);
    assert_eq!(read(&config, "x.z"), Some(4));
    assert!(!unset_value_by_key(&mut config, "x.y").expect("unset"));
}

#[test]
fn values_from_json() {
    assert_eq!(parse_set_value("7", true).expect("number").as_integer(), Some(7));
    assert!(matches!(
        parse_set_value("false", true).expect("truth value"),
        ConfigValue::Boolean(false)
    ));
    assert_eq!(parse_set_value("1.5", true).expect("number").show(), "1.5");
    assert_eq!(
        parse_set_value("18446744073709551615", true).expect("number").show(),
        "18446744073709552000.0"
    );
    match parse_set_value(r#"{"b":1,"a":"x"}"#, true).expect("object") {
        ConfigValue::Table(entries) => {
            assert_eq!(entries[0].0, "a");
            assert_eq!(entries[1].1.as_integer(), Some(1));
        }
        _ => panic!("expected a table"),
    }
}

#[test]
fn values_that_json_cannot_give() {
    let error = parse_set_value("[null]", true).err().expect("null");
    assert_eq!(error.message, "null is not representable in TOML");
    let error = parse_set_value("{", true).err().expect("no JSON");
    assert!(error.cause.is_some());
    assert!(json_to_toml_value(&Json::Null).is_err());
}

#[test]
fn where_the_configuration_lies() {
    assert_eq!(
        config_path(Some(" /x/c.toml "), Some("/xdg"), Some("/home/u")).expect("path"),
        "/x/c.toml"
    );
    assert_eq!(
        config_path(Some("  "), Some("/xdg"), Some("/home/u")).expect("path"),
        "/xdg/omni/config.toml"
    );
    assert_eq!(
        config_path(None, None, Some("/home/u")).expect("path"),
        "/home/u/.config/omni/config.toml"
    );
    assert_eq!(
        config_path(None, Some(""), None).expect_err("no home").message,
        "failed to resolve home directory"
    );
}

#[test]
fn values_as_json_text() {
    let value = ConfigValue::table()
        .with("b", ConfigValue::Boolean(true))
        .with("a", ConfigValue::Integer(1));
    assert_eq!(
        value.to_json(),
        "{\n  \"a\": 1,\n  \"b\": true\n}"
    );
}

#[test]
fn unusual_values_are_read_back() {
    let json = r#"{
        "": "no name",
        "quote \"": "a \"b\" 'c' \\ \n line \u0001 end \r\n",
        "empty table": {},
        "empty array": [],
        "deep": {"a": {"b": {"c": [[], [[1]], {"d": {}}]}}},
        "tables": [{"x": 1, "in": [{"y": {}}, {}]}, {}, {"z": {"w": []}}],
        "mixed": [1, "two", true, {"three": 3}, [4]],
        "small": -9223372036854775808,
        "dotted.key": {"a.b": 1},
        "umlaut": "ä😀",
        "triple": "\"\"\" ''' \n \"\"\"",
        "z value after tables": 1
    }"#;
    let config = parse_set_value(json, true).expect("object");
    let text = save_config(&config).expect("saved");
    let loaded = load_config("c", Some(text.as_str())).expect("loaded");
    assert_eq!(loaded.to_json(), config.to_json());
}

#[test]
fn numbers_and_dates_are_read_back() {
    let document = "half = 0.5\nlarge = 1e300\nzero = -0.0\nendless = -inf\n\
        third = 0.3333333333333333\nday = 1979-05-27\nnoon = 12:00:00.25\n\
        local = 2024-02-29T23:59:60.000000001\nzulu = 1979-05-27T07:32:00Z\n\
        west = 1979-05-27T07:32:00-00:30\n[t]\nlist = [1.5, 1979-05-27]\n\
        days = [1979-05-27, 1979-05-28]\nmixed = [1979-05-27, { a = 0.5 }, [12:00:00]]\n\
        [[u]]\nv = 1979-05-27\n[[u]]\nw = [{ x = 12:00:00 }]\n";
    let config = load_config("c", Some(document)).expect("document");
    let text = save_config(&config).expect("saved");
    let loaded = load_config("c", Some(text.as_str())).expect("loaded");
    assert_eq!(loaded.show(), config.show());
    for (key, shown) in [
        ("half", "0.5"),
        ("zero", "-0.0"),
        ("endless", "-inf"),
        ("third", "0.3333333333333333"),
        ("noon", "12:00:00.25"),
        ("local", "2024-02-29T23:59:60.000000001"),
        ("west", "1979-05-27T07:32:00-00:30"),
        ("t.list", "[1.5, 1979-05-27]"),
    ] {
        assert_eq!(get_value_by_key(&loaded, key).expect("value").show(), shown);
    }
    match get_value_by_key(&loaded, "west") {
        Some(ConfigValue::Date(date)) => {
            assert_eq!(date.date, Some((1979, 5, 27)));
            assert_eq!(date.time, Some((7, 32, 0, 0)));
            assert!(matches!(date.offset, Some(UtcOffset::Minutes(-30))));
        }
        _ => panic!("expected a date"),
    }
}

#[test]
fn a_date_is_put_together() {
    let date = ConfigValue::Date(DateTime {
        date: Some((2000, 1, 2)),
        time: Some((3, 4, 5, 600_000_000)),
        offset: Some(UtcOffset::Zulu),
    });
    assert_eq!(date.show(), "2000-01-02T03:04:05.6Z");
}

#[test]
fn values_stand_over_the_defaults() {
    let config = load_config("c", Some("a = [3]\n[t]\nx = 1\n[u.v]\ny = 2\n")).expect("document");
    let defaults = load_config("c", Some("a = [1, 2]\nt = 5\n[u]\nw = 1\n[u.v]\ny = 0\nz = 0\n"))
        .expect("document");
    let merged = merge_config(defaults, config);
    assert_eq!(
        merged.show(),
        "{ a = [3], t = { x = 1 }, u = { v = { y = 2, z = 0 }, w = 1 } }"
    );
    assert_eq!(merge_config(default_config(), default_config()).show(), default_config().show());
}

#[test]
fn nesting_is_kept_as_deep_as_it_is_read() {
    let read_back = |config: &ConfigValue| {
        let text = save_config(config).expect("saved");
        load_config("c", Some(text.as_str())).map(|loaded| loaded.to_json())
    };
    let tables = |depth: usize| {
        let mut config = ConfigValue::table();
        let key = vec!["k"; depth].join(".");
        set_value_by_key(&mut config, &key, ConfigValue::table()).expect("set");
        config
    };
    let arrays = |depth: usize| {
        let mut value = ConfigValue::Array(vec![ConfigValue::Integer(1)]);
        for _ in 1..depth {
            value = ConfigValue::Array(vec![value]);
        }
        ConfigValue::table().with("k", value)
    };
    let mixed = |depth: usize| {
        let mut value = ConfigValue::Integer(1);
        for level in 0..depth {
            value = if level % 2 == 0 {
                ConfigValue::Array(vec![value, ConfigValue::Integer(1)])
            } else {
                ConfigValue::table().with("k", value)
            };
        }
        ConfigValue::table().with("k", value)
    };
    for config in [tables(80), arrays(80), mixed(80)] {
        assert_eq!(read_back(&config).expect("read back"), config.to_json());
    }
    for config in [tables(81), arrays(81)] {
        assert!(read_back(&config).is_err());
    }
}
