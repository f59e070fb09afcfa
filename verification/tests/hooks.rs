use omni::clipboard::ClipboardRequest;
use omni::config::{default_config, set_value_by_key, ConfigValue};
use omni::hooks::{
    await_command, hook_actions_for_event, log_line, parse_sleep_action, plan_ui_launch,
    run_stop_hooks_with_transcript, run_transcribe_start_hooks_with_transcript, ui_launch_failed,
    validate_hook_config, CommandState, HookRun, HookStep, UiLaunchPlan, WaitStep,
};

fn with_hooks(event: &str, actions: &[&str]) -> ConfigValue {
    let mut config = default_config();
    let items = actions.iter().map(|action| ConfigValue::text(action)).collect();
    set_value_by_key(
        &mut config,
        &format!("event.hooks.transcribe.{event}"),
        ConfigValue::Array(items),
    )
    .expect("set should work");
    config
}

fn one_action(action: &str) -> HookRun {
    run_stop_hooks_with_transcript(&with_hooks("stop", &[action]), None, "text", "T")
        .expect("hooks should be right")
}

#[test]
fn validate_hook_config_accepts_string_or_string_array() {
    let mut config = default_config();
    set_value_by_key(
        &mut config,
        "event.hooks.transcribe.stop_copy",
        ConfigValue::Array(vec![ConfigValue::String("copy".into())]),
    )
    .expect("set should work");

    validate_hook_config(&config).expect("hook config should validate");
}

#[test]
fn validate_hook_config_rejects_non_string_actions() {
    let mut config = default_config();
    set_value_by_key(
        &mut config,
        "event.hooks.transcribe.stop_copy",
        ConfigValue::Array(vec![ConfigValue::Integer(1)]),
    )
    .expect("set should work");

    assert!(validate_hook_config(&config).is_err());
}

#[test]
fn validate_hook_config_rejects_flat_legacy_event_keys() {
    let mut config = default_config();
    set_value_by_key(
        &mut config,
        "event.hooks.stop_copy",
        ConfigValue::Array(vec![ConfigValue::String("copy".into())]),
    )
    .expect("set should work");

    assert!(validate_hook_config(&config).is_err());
}

#[test]
fn parse_sleep_action_supports_builtin_sleep() {
    let duration = parse_sleep_action("sleep 120")
        .expect("sleep action should parse")
        .expect("sleep action should be recognized");

    assert_eq!(duration, 120);
}

#[test]
fn parse_sleep_action_ignores_non_sleep_actions() {
    assert!(
        parse_sleep_action("copy")
            .expect("copy should not fail")
            .is_none()
    );
}

#[test]
fn parse_sleep_action_rejects_missing_or_invalid_values() {
    assert!(parse_sleep_action("sleep").is_err());
    assert!(parse_sleep_action("sleep nope").is_err());
    assert!(parse_sleep_action("sleep 10 extra").is_err());
}

#[test]
fn why_sleep_is_refused() {
    assert_eq!(
        parse_sleep_action("sleep").expect_err("no number").message,
        "builtin action 'sleep' requires milliseconds (e.g. \"sleep 120\")"
    );
    assert_eq!(
        parse_sleep_action("sleep 1 2").expect_err("too much").message,
        "builtin action 'sleep' accepts exactly one millisecond value"
    );
    assert_eq!(
        parse_sleep_action("sleep x").expect_err("no number").chain(),
        "invalid millisecond value for 'sleep': x: invalid digit found in string"
    );
    assert_eq!(
        parse_sleep_action("sleep 99999999999999999999").expect_err("too large").chain(),
        "invalid millisecond value for 'sleep': 99999999999999999999: \
         number too large to fit in target type"
    );
}

#[test]
fn right_hooks_have_their_actions() {
    let mut config = default_config();
    validate_hook_config(&config).expect("the default is right");
    assert_eq!(
        hook_actions_for_event(&config, "transcribe", "stop").expect("right"),
        vec!["hide_ui", "copy"]
    );
    assert!(hook_actions_for_event(&config, "transcribe", "stop_slack")
        .expect("right")
        .is_empty());
    set_value_by_key(&mut config, "event.hooks.transcribe.stop", ConfigValue::text("copy"))
        .expect("set");
    assert_eq!(
        hook_actions_for_event(&config, "transcribe", "stop").expect("right"),
        vec!["copy"]
    );
    set_value_by_key(&mut config, "event.hooks.transcribe.stop", ConfigValue::Integer(1))
        .expect("set");
    assert_eq!(
        hook_actions_for_event(&config, "transcribe", "stop").expect_err("wrong").message,
        "hook value for transcribe.stop must be a string or array of strings"
    );
}

#[test]
fn the_start_shows_the_interface() {
    let mut run = run_transcribe_start_hooks_with_transcript(&default_config(), "", "T")
        .expect("right");
    match run.execute_action() {
        Ok(HookStep::ShowUi(payload)) => {
            assert_eq!(payload.to_text(), r#"{"event":"transcribe.start","mode":null}"#)
        }
        _ => panic!("expected to show the interface"),
    }
    run.carried_out(true);
    assert!(matches!(run.execute_action(), Ok(HookStep::Finished)));
    let (result, line, report) = run.finish().expect("through");
    assert_eq!(result.event, "transcribe.start");
    assert_eq!(result.actions_ran, vec!["show_ui"]);
    assert_eq!(line, "ran 1 hook action(s) for transcribe.start");
    assert_eq!(
        report.to_text(),
        r#"{"actionsRan":["show_ui"],"event":"transcribe.start","ok":true}"#
    );
}

#[test]
fn the_clipboard_is_given_back_after_an_insert() {
    let mut run =
        run_stop_hooks_with_transcript(&default_config(), Some("insert"), "words", "T")
            .expect("right");
    match run.execute_action() {
        Ok(HookStep::HideUi(payload)) => assert_eq!(
            payload.to_text(),
            r#"{"event":"transcribe.stop_insert","mode":"insert"}"#
        ),
        _ => panic!("expected to hide the interface"),
    }
    run.carried_out(true);
    assert!(matches!(
        run.execute_action(),
        Ok(HookStep::Clipboard(ClipboardRequest::Read))
    ));
    run.stash("before".into());
    run.carried_out(true);
    assert!(matches!(
        run.execute_action(),
        Ok(HookStep::Clipboard(ClipboardRequest::Write(text))) if text == "words"
    ));
    run.carried_out(true);
    assert!(matches!(
        run.execute_action(),
        Ok(HookStep::Clipboard(ClipboardRequest::Paste))
    ));
    run.carried_out(true);
    assert!(matches!(run.execute_action(), Ok(HookStep::Sleep(120))));
    run.carried_out(true);
    assert!(matches!(
        run.execute_action(),
        Ok(HookStep::Clipboard(ClipboardRequest::Write(text))) if text == "before"
    ));
    run.carried_out(true);
    assert!(matches!(run.execute_action(), Ok(HookStep::Finished)));
    assert!(run.finish().is_some());
}

#[test]
fn unstash_clears_the_stash_once_it_succeeded() {
    let actions = ["stash", "unstash", "unstash"];
    let mut run =
        run_stop_hooks_with_transcript(&with_hooks("stop", &actions), None, "text", "T")
            .expect("right");
    assert!(run.execute_action().is_ok());
    run.stash("before".into());
    run.carried_out(true);
    assert!(run.execute_action().is_ok());
    run.carried_out(true);
    assert!(matches!(
        run.execute_action(),
        Ok(HookStep::Clipboard(ClipboardRequest::Nothing))
    ));
}

#[test]
fn no_action_follows_one_that_failed() {
    let mut run =
        run_stop_hooks_with_transcript(&with_hooks("stop", &["copy", "paste"]), None, "t", "T")
            .expect("right");
    assert!(run.execute_action().is_ok());
    run.carried_out(false);
    assert!(matches!(run.execute_action(), Ok(HookStep::Finished)));
    assert!(run.finish().is_none());

    let mut run =
        run_stop_hooks_with_transcript(&with_hooks("stop", &["restore", "paste"]), None, "t", "T")
            .expect("right");
    assert!(run.execute_action().is_err());
    assert!(matches!(run.execute_action(), Ok(HookStep::Finished)));
    assert!(run.finish().is_none());
}

#[test]
fn a_mode_without_hooks_does_nothing() {
    let run = run_stop_hooks_with_transcript(&default_config(), Some("slack"), "w", "T")
        .expect("right");
    assert!(run.is_empty());
    let (_, line, report) = run.finish().expect("through");
    assert_eq!(line, "no hooks configured for transcribe.stop_slack");
    assert_eq!(
        report.to_text(),
        r#"{"actionsRan":[],"event":"transcribe.stop_slack","message":"no hooks configured","ok":true}"#
    );
}

#[test]
fn commands_are_split_as_a_shell_does() {
    let mut run = one_action("./send.sh 'two words' \"a b\" c\\ d");
    match run.execute_action() {
        Ok(HookStep::Run(command)) => {
            assert_eq!(command.argv, vec!["./send.sh", "two words", "a b", "c d"]);
            assert_eq!(command.action, "./send.sh 'two words' \"a b\" c\\ d");
            assert_eq!(command.event, "transcribe.stop");
            assert_eq!(command.mode, "");
            assert_eq!(command.transcript, "text");
            assert_eq!(command.timestamp, "T");
        }
        _ => panic!("expected a command"),
    }
    let error = one_action("echo 'open").execute_action().err().expect("open quote");
    assert_eq!(error.chain(), "failed parsing hook command: echo 'open: missing closing quote");
    let error = one_action("  ").execute_action().err().expect("empty");
    assert_eq!(error.message, "hook command is empty");
    let error = one_action("restore").execute_action().err().expect("renamed");
    assert_eq!(error.message, "builtin action 'restore' was renamed to 'unstash'");
    assert!(one_action("sleep x").execute_action().is_err());
}

#[test]
fn commands_have_two_seconds() {
    assert!(matches!(
        await_command("x", CommandState::Running, 1_999),
        WaitStep::Wait
    ));
    assert!(matches!(
        await_command("x", CommandState::Succeeded, 9_999),
        WaitStep::Done
    ));
    match await_command("x", CommandState::Running, 2_000) {
        WaitStep::Kill(error) => assert_eq!(error.message, "hook command timed out after 2s: x"),
        other => panic!("unexpected step: {other:?}"),
    }
    match await_command("x", CommandState::Failed("exit status: 1".into()), 0) {
        WaitStep::Fail(error) => assert_eq!(
            error.message,
            "hook command failed (x) with status exit status: 1"
        ),
        other => panic!("unexpected step: {other:?}"),
    }
}

#[test]
fn lines_of_the_log() {
    assert_eq!(log_line(12, "hello"), "[12] hello");
}

#[test]
fn ways_to_start_the_interface() {
    assert!(matches!(
        plan_ui_launch(true, Some("x"), None, None),
        UiLaunchPlan::Running
    ));
    assert!(matches!(
        plan_ui_launch(false, Some(" /bin/ui "), None, None),
        UiLaunchPlan::Replacement(program) if program == "/bin/ui"
    ));
    match plan_ui_launch(false, Some(" "), Some("/opt/ui"), Some("/src")) {
        UiLaunchPlan::Attempts(ways) => {
            assert_eq!(ways.len(), 3);
            assert_eq!(ways[0].program, "/opt/ui");
            assert_eq!(ways[1].program, "omni-transcribe-ui");
            assert_eq!(ways[2].program, "cargo");
            assert_eq!(ways[2].args, vec!["run", "--bin", "omni-transcribe-ui", "--"]);
            assert_eq!(ways[2].directory.as_deref(), Some("/src"));
            let reasons = vec!["a".to_string(), "b".to_string(), "c".to_string()];
            assert_eq!(
                ui_launch_failed(&ways, &reasons).message,
                "ui client launch attempts failed: /opt/ui (a); omni-transcribe-ui (b); \
                 cargo run --bin omni-transcribe-ui (c)"
            );
        }
        other => panic!("unexpected plan: {other:?}"),
    }
}

#[test]
fn hooks_of_modes_are_independent() {
    let actions = |config: &ConfigValue, event: &str| {
        hook_actions_for_event(config, "transcribe", event).expect("actions")
    };
    let mut config = default_config();
    let plain = actions(&config, "stop");
    let moded = actions(&config, "stop_insert");
    set_value_by_key(
        &mut config,
        "event.hooks.transcribe.stop",
        ConfigValue::String("paste".into()),
    )
    .expect("set should work");
    assert_eq!(actions(&config, "stop"), ["paste"]);
    assert_eq!(actions(&config, "stop_insert"), moded);
    let mut config = default_config();
    set_value_by_key(
        &mut config,
        "event.hooks.transcribe.stop_a.b",
        ConfigValue::String("paste".into()),
    )
    .expect("set should work");
    assert_eq!(actions(&config, "stop"), plain);
    assert_eq!(actions(&config, "stop_a.b"), ["paste"]);
}
