use omni::cli::ConfigCommand;
use omni::commands::handle_config_command;
use omni::config::{default_config, get_value_by_key, load_config};

#[test]
fn the_path_is_printed() {
    let outcome = handle_config_command(&ConfigCommand::Path, false, "/c.toml", None).expect("path");
    assert!(outcome.save.is_none());
    assert_eq!(outcome.output, "/c.toml");
    let outcome = handle_config_command(&ConfigCommand::Path, true, "/c.toml", None).expect("path");
    assert_eq!(outcome.output, "{\n  \"path\": \"/c.toml\"\n}");
}

#[test]
fn the_configuration_is_shown_over_the_defaults() {
    let file = "[audio]\ndevice = \"Mic B\"\n\n[more]\na = 1\n";
    let outcome = handle_config_command(&ConfigCommand::Show, false, "c", Some(file))
        .expect("shown");
    assert!(outcome.save.is_none());
    let shown = load_config("c", Some(outcome.output.as_str())).expect("document");
    let text = |key: &str| get_value_by_key(&shown, key).and_then(|value| value.as_str());
    let number = |key: &str| get_value_by_key(&shown, key).and_then(|value| value.as_integer());
    assert_eq!(text("audio.device"), Some("Mic B"));
    assert_eq!(number("audio.sample_rate"), Some(16_000));
    assert_eq!(number("audio.channels"), Some(1));
    assert_eq!(text("server.model"), Some("voxtral"));
    assert_eq!(number("more.a"), Some(1));
    assert!(get_value_by_key(&shown, "event.hooks.transcribe.stop_insert").is_some());
    let outcome = handle_config_command(&ConfigCommand::Show, true, "c", Some(file))
        .expect("shown");
    assert_eq!(outcome.output, shown.to_json());
}

#[test]
fn what_is_shown_is_shown_exactly() {
    let file = "server = 1\nevent = 2\n[audio]\nchannels = 2\n";
    let outcome = handle_config_command(&ConfigCommand::Show, false, "c", Some(file))
        .expect("shown");
    assert_eq!(
        outcome.output,
        "event = 2\nserver = 1\n\n[audio]\nchannels = 2\ndevice = \"default\"\n\
         sample_rate = 16000\n"
    );
    let outcome = handle_config_command(&ConfigCommand::Show, true, "c", None).expect("shown");
    assert_eq!(outcome.output, default_config().to_json());
}

#[test]
fn a_value_is_printed() {
    let get = |key: &str, json: bool| {
        let command = ConfigCommand::Get { key: key.into() };
        handle_config_command(&command, json, "c", Some("a = \"x\"\nb = [1, 2]\n"))
    };
    assert_eq!(get("a", false).expect("text").output, "x");
    assert_eq!(get("a", true).expect("text").output, "\"x\"");
    assert_eq!(get("b", false).expect("array").output, "[1, 2]");
    assert_eq!(
        get("c", false).expect_err("missing").message,
        "config key not found: c"
    );
}

#[test]
fn a_value_is_set_and_removed() {
    let command = ConfigCommand::SetValue {
        key: "server.model".into(),
        value: "m".into(),
        json_value: false,
    };
    let outcome = handle_config_command(&command, false, "/c.toml", None).expect("set");
    assert_eq!(outcome.output, "updated server.model in /c.toml");
    let text = outcome.save.expect("saved");
    let loaded = load_config("/c.toml", Some(text.as_str())).expect("loaded");
    assert_eq!(
        get_value_by_key(&loaded, "server.model").and_then(|value| value.as_str()),
        Some("m")
    );

    let command = ConfigCommand::Unset {
        key: "server.model".into(),
    };
    let outcome =
        handle_config_command(&command, true, "/c.toml", Some(text.as_str())).expect("removed");
    assert_eq!(
        outcome.output,
        "{\n  \"action\": \"unset\",\n  \"key\": \"server.model\",\n  \"ok\": true,\n  \
         \"path\": \"/c.toml\"\n}"
    );
    let text = outcome.save.expect("saved");
    let loaded = load_config("/c.toml", Some(text.as_str())).expect("loaded");
    assert!(get_value_by_key(&loaded, "server.model").is_none());
    assert_eq!(
        handle_config_command(&command, false, "/c.toml", Some(text.as_str()))
            .expect_err("missing")
            .message,
        "config key not found: server.model"
    );
}

#[test]
fn commands_that_fail() {
    let command = ConfigCommand::SetValue {
        key: " . ".into(),
        value: "m".into(),
        json_value: false,
    };
    assert_eq!(
        handle_config_command(&command, false, "c", None).expect_err("no key").message,
        "config key cannot be empty"
    );
    let command = ConfigCommand::SetValue {
        key: "a".into(),
        value: "{".into(),
        json_value: true,
    };
    assert_eq!(
        handle_config_command(&command, false, "c", None).expect_err("no JSON").message,
        "invalid JSON for --json-value: {"
    );
    assert_eq!(
        handle_config_command(&ConfigCommand::Show, false, "c", Some("="))
            .expect_err("no document")
            .message,
        "failed parsing TOML config: c"
    );
}
