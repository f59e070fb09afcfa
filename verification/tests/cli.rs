use omni::cli::{Cli, CliStop, Command, ConfigCommand, InputCommand, TranscribeCommand};

fn words(words: &[&str]) -> Vec<String> {
    words.iter().map(|word| word.to_string()).collect()
}

fn parse(line: &[&str]) -> Cli {
    Cli::parse_from(&words(line)).expect("command line should parse")
}

fn stop(line: &[&str]) -> CliStop {
    Cli::parse_from(&words(line)).expect_err("command line should not parse")
}

#[test]
fn parses_input_show() {
    let cli = parse(&["omni", "input", "show"]);
    match cli.command {
        Command::Input {
            command: InputCommand::Show,
        } => {}
        other => panic!("unexpected command: {other:?}"),
    }
}

#[test]
fn parses_input_list() {
    let cli = parse(&["omni", "input", "list"]);
    match cli.command {
        Command::Input {
            command: InputCommand::List,
        } => {}
        other => panic!("unexpected command: {other:?}"),
    }
}

#[test]
fn parses_input_set() {
    let cli = parse(&["omni", "input", "set", "3"]);
    match cli.command {
        Command::Input {
            command: InputCommand::SetDevice { id, name },
        } => {
            assert_eq!(id.as_deref(), Some("3"));
            assert!(name.is_none());
        }
        other => panic!("unexpected command: {other:?}"),
    }
}

#[test]
fn parses_input_set_by_name() {
    let cli = parse(&["omni", "input", "set", "--name", "Logitech BRIO"]);
    match cli.command {
        Command::Input {
            command: InputCommand::SetDevice { id, name },
        } => {
            assert!(id.is_none());
            assert_eq!(name.as_deref(), Some("Logitech BRIO"));
        }
        other => panic!("unexpected command: {other:?}"),
    }
}

#[test]
fn parses_transcribe_start_default_live() {
    let cli = parse(&["omni", "transcribe", "start"]);
    match cli.command {
        Command::Transcribe {
            command:
                TranscribeCommand::Start {
                    background,
                    debug,
                    debug_json,
                },
        } => {
            assert!(!background);
            assert!(!debug);
            assert!(!debug_json);
        }
        other => panic!("unexpected command: {other:?}"),
    }
}

#[test]
fn parses_transcribe_start_background_aliases() {
    let cli = parse(&["omni", "transcribe", "start", "--background"]);
    match cli.command {
        Command::Transcribe {
            command: TranscribeCommand::Start { background, .. },
        } => assert!(background),
        other => panic!("unexpected command: {other:?}"),
    }

    let cli = parse(&["omni", "transcribe", "start", "--bg"]);
    match cli.command {
        Command::Transcribe {
            command: TranscribeCommand::Start { background, .. },
        } => assert!(background),
        other => panic!("unexpected command: {other:?}"),
    }
}

#[test]
fn parses_transcribe_start_debug_flags() {
    let cli = parse(&["omni", "transcribe", "start", "--debug", "--debug-json"]);
    match cli.command {
        Command::Transcribe {
            command:
                TranscribeCommand::Start {
                    debug, debug_json, ..
                },
        } => {
            assert!(debug);
            assert!(debug_json);
        }
        other => panic!("unexpected command: {other:?}"),
    }
}

#[test]
fn parses_transcribe_stop_without_mode() {
    let cli = parse(&["omni", "transcribe", "stop"]);
    match cli.command {
        Command::Transcribe {
            command: TranscribeCommand::Stop { mode },
        } => assert!(mode.is_none()),
        other => panic!("unexpected command: {other:?}"),
    }
}

#[test]
fn parses_transcribe_stop_with_mode() {
    let cli = parse(&["omni", "transcribe", "stop", "insert"]);
    match cli.command {
        Command::Transcribe {
            command: TranscribeCommand::Stop { mode },
        } => assert_eq!(mode.as_deref(), Some("insert")),
        other => panic!("unexpected command: {other:?}"),
    }
}

#[test]
fn parses_transcribe_status() {
    let cli = parse(&["omni", "transcribe", "status"]);
    match cli.command {
        Command::Transcribe {
            command: TranscribeCommand::Status,
        } => {}
        other => panic!("unexpected command: {other:?}"),
    }
}

#[test]
fn parses_config_set_with_json_value() {
    let cli = parse(&[
        "omni",
        "config",
        "set",
        "event.hooks.transcribe.stop",
        "[\"hide_ui\",\"copy\"]",
        "--json-value",
    ]);

    match cli.command {
        Command::Config {
            command:
                ConfigCommand::SetValue {
                    key,
                    value,
                    json_value,
                },
        } => {
            assert_eq!(key, "event.hooks.transcribe.stop");
            assert_eq!(value, "[\"hide_ui\",\"copy\"]");
            assert!(json_value);
        }
        other => panic!("unexpected command: {other:?}"),
    }
}

#[test]
fn flags_for_all_commands_stand_anywhere() {
    let cli = parse(&["omni", "--json", "status"]);
    assert!(cli.json);
    assert!(!cli.profile);
    assert!(matches!(cli.command, Command::Status));
    let cli = parse(&["omni", "transcribe", "stop", "copy", "--json"]);
    assert!(cli.json);
    let cli = parse(&["omni", "--profile", "start"]);
    assert!(cli.profile);
}

#[test]
fn plain_commands() {
    assert!(matches!(parse(&["omni", "start"]).command, Command::Start));
    assert!(matches!(parse(&["omni", "stop"]).command, Command::Stop));
    assert!(matches!(parse(&["omni", "doctor"]).command, Command::Doctor));
    assert!(matches!(parse(&["omni", "reload"]).command, Command::Reload));
    assert!(matches!(
        parse(&["omni", "config", "path"]).command,
        Command::Config {
            command: ConfigCommand::Path
        }
    ));
    assert!(matches!(
        parse(&["omni", "config", "show"]).command,
        Command::Config {
            command: ConfigCommand::Show
        }
    ));
    match parse(&["omni", "config", "get", "a.b"]).command {
        Command::Config {
            command: ConfigCommand::Get { key },
        } => assert_eq!(key, "a.b"),
        other => panic!("unexpected command: {other:?}"),
    }
    match parse(&["omni", "config", "unset", "a.b"]).command {
        Command::Config {
            command: ConfigCommand::Unset { key },
        } => assert_eq!(key, "a.b"),
        other => panic!("unexpected command: {other:?}"),
    }
}

#[test]
fn options_take_their_value_behind_an_equals_sign() {
    match parse(&["omni", "input", "set", "--name=Mic=1"]).command {
        Command::Input {
            command: InputCommand::SetDevice { id, name },
        } => {
            assert!(id.is_none());
            assert_eq!(name.as_deref(), Some("Mic=1"));
        }
        other => panic!("unexpected command: {other:?}"),
    }
}

#[test]
fn after_two_dashes_every_word_is_an_argument() {
    match parse(&["omni", "config", "set", "--", "--key", "--json-value"]).command {
        Command::Config {
            command:
                ConfigCommand::SetValue {
                    key,
                    value,
                    json_value,
                },
        } => {
            assert_eq!(key, "--key");
            assert_eq!(value, "--json-value");
            assert!(!json_value);
        }
        other => panic!("unexpected command: {other:?}"),
    }
}

#[test]
fn command_lines_that_lead_nowhere() {
    assert_eq!(stop(&["omni", "--help"]), CliStop::Help);
    assert_eq!(stop(&["omni", "--version"]), CliStop::Version);
    assert_eq!(stop(&["omni", "wrong"]), CliStop::UnknownCommand);
    assert_eq!(stop(&["omni", "start", "now"]), CliStop::UnexpectedArgument);
    assert_eq!(stop(&["omni", "start", "--wrong"]), CliStop::UnexpectedArgument);
    assert_eq!(stop(&["omni", "--json=yes", "start"]), CliStop::UnexpectedValue);
    assert_eq!(stop(&["omni", "--json", "--json", "start"]), CliStop::Repeated);
    assert_eq!(stop(&["omni", "input", "set", "--name"]), CliStop::MissingValue);
    assert_eq!(stop(&["omni", "config", "get"]), CliStop::MissingArgument);
    assert_eq!(stop(&["omni", "config", "set", "a"]), CliStop::MissingArgument);
    assert_eq!(
        stop(&["omni", "input", "set", "1", "--name", "x"]),
        CliStop::Conflict
    );
}
