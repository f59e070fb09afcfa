use omni::client::{
    accepted, await_ui_client, is_running, live_debug_events, live_preview, may_poll, message_or,
    print_start_result, print_stop_result, reload_without_daemon, render_preview_delta, start,
    status, status_snapshot, stop, stop_ui_client, transcribe_start, transcribe_status,
    transcribe_status_without_daemon, transcribe_stop, transcribe_stop_without_daemon, Stage,
    StartDaemonStep, StopDaemonStep, UiStopStep,
};
use omni::config::{default_config, set_value_by_key, ConfigValue};
use omni::daemon::{
    failure_answer, handle_status, handle_transcribe_status, ActiveRecording, DaemonResponse,
    DaemonState,
};
use omni::error::Error;
use omni::json::Json;
use omni::progress::{progress_note_event, RealtimeProgress};

fn recording() -> DaemonResponse {
    let state = DaemonState {
        recording: Some(ActiveRecording::Synthetic {
            transcript: "hello".into(),
            duration_ms: 12,
            started_at_ms: 0,
        }),
    };
    handle_status(4, &state, None, 0, 0)
}

#[test]
fn a_daemon_that_answers_runs() {
    assert!(is_running(&Some(recording())));
    assert!(!is_running(&None));
    let refused = failure_answer(&DaemonState::default(), 4, &Error::new("no"));
    assert!(!is_running(&Some(refused)));
}

#[test]
fn a_daemon_that_does_not_answer_is_stopped() {
    let r = status_snapshot(None, Some(" 42\n"));
    assert!(r.ok && !r.running);
    assert_eq!(r.pid, Some(42));
    assert_eq!(status_snapshot(None, Some("x")).pid, None);
    assert_eq!(status(&r), "stopped");
    assert_eq!(status_snapshot(Some(recording()), None).pid, Some(4));
}

#[test]
fn refusals_of_the_daemon_are_failures() {
    assert!(accepted(recording(), "x").is_ok());
    let refused = failure_answer(&DaemonState::default(), 4, &Error::new("no"));
    assert_eq!(accepted(refused, "x").expect_err("refused").message, "no");
    let mut refused = failure_answer(&DaemonState::default(), 4, &Error::new("no"));
    refused.error = None;
    assert_eq!(accepted(refused, "x").expect_err("refused").message, "x");
}

#[test]
fn starting_and_stopping_the_daemon() {
    assert_eq!(
        start(Stage::Looked, true).expect("runs"),
        StartDaemonStep::Report { already_running: true }
    );
    assert_eq!(start(Stage::Looked, false).expect("starts"), StartDaemonStep::Spawn);
    assert_eq!(
        start(Stage::Waited, true).expect("started"),
        StartDaemonStep::Report { already_running: false }
    );
    assert_eq!(
        start(Stage::Waited, false).expect_err("too slow").message,
        "daemon did not start within timeout"
    );
    assert_eq!(stop(Stage::Looked, true).expect("stops"), StopDaemonStep::SendStop);
    assert_eq!(
        stop(Stage::Looked, false).expect("is stopped"),
        StopDaemonStep::Report { already_stopped: true }
    );
    assert_eq!(
        stop(Stage::Waited, false).expect("stopped"),
        StopDaemonStep::Report { already_stopped: false }
    );
    assert_eq!(
        stop(Stage::Waited, true).expect_err("too slow").message,
        "daemon did not stop within timeout"
    );
    assert!(may_poll(2_000, 2_000));
    assert!(!may_poll(2_001, 2_000));
}

#[test]
fn what_start_and_stop_print() {
    assert_eq!(
        print_start_result(false, 7, false),
        "daemon started (pid=7)"
    );
    assert_eq!(
        print_start_result(false, 7, true),
        "daemon already running (pid=7)"
    );
    assert_eq!(
        print_start_result(true, 7, true),
        "{\n  \"alreadyRunning\": true,\n  \"ok\": true,\n  \"pid\": 7,\n  \
         \"recording\": false,\n  \"running\": true\n}"
    );
    assert_eq!(print_stop_result(false, true), "daemon already stopped");
    assert_eq!(
        print_stop_result(true, false),
        "{\n  \"message\": \"daemon stopped\",\n  \"ok\": true,\n  \
         \"recording\": false,\n  \"running\": false\n}"
    );
}

#[test]
fn what_status_prints() {
    assert_eq!(
        status(&recording()),
        "running (pid=4) recording=true duration_ms=12 transcript_preview=hello"
    );
    assert_eq!(
        status(&handle_status(4, &DaemonState::default(), None, 0, 0)),
        "running (pid=4)"
    );
    assert_eq!(
        transcribe_status(&recording()),
        "recording=true duration_ms=12 transcript_preview=hello"
    );
    assert_eq!(
        transcribe_status(&transcribe_status_without_daemon()),
        "recording=false duration_ms=0"
    );
    let idle = handle_transcribe_status(4, &DaemonState::default(), None, 0, 0);
    assert_eq!(message_or(&idle, "x"), "recording idle");
    assert_eq!(message_or(&recording(), "x"), "x");
}

#[test]
fn what_stop_of_a_transcription_prints() {
    let mut r = transcribe_stop_without_daemon();
    assert_eq!(
        transcribe_stop(&r),
        vec!["recording not active (daemon not running)"]
    );
    r.transcript = Some("words".into());
    assert_eq!(
        transcribe_stop(&r),
        vec!["recording not active (daemon not running)", "words"]
    );
}

#[test]
fn reloading_without_a_daemon_looks_at_the_configuration() {
    assert_eq!(
        reload_without_daemon(false, &default_config()).expect("fine"),
        "runtime config validated (daemon not running)"
    );
    let mut config = default_config();
    set_value_by_key(&mut config, "audio.sample_rate", ConfigValue::Integer(0)).expect("set");
    assert!(reload_without_daemon(false, &config).is_err());
}

#[test]
fn debugging_needs_the_live_mode() {
    assert!(transcribe_start(false, true, false, false).expect("live"));
    assert!(!transcribe_start(true, false, false, false).expect("background"));
    assert!(!transcribe_start(false, false, false, true).expect("JSON"));
    assert_eq!(
        transcribe_start(true, false, true, false).expect_err("refused").message,
        "--debug/--debug-json require attached live mode (omit --background/--json)"
    );
    assert!(transcribe_start(false, true, false, true).is_err());
}

#[test]
fn a_growing_preview_is_printed_once() {
    let mut last = String::new();
    let mut out = String::new();
    for next in ["he", "hello", "hello wörld"] {
        out.push_str(&render_preview_delta(&mut last, next));
    }
    assert_eq!(out, "hello wörld");
    assert_eq!(render_preview_delta(&mut last, "other"), "\nother");
    assert_eq!(last, "other");
}

#[test]
fn the_live_preview_goes_on_while_the_recording_does() {
    let mut last = "he".to_string();
    let step = live_preview(&recording(), &mut last);
    assert_eq!(step.print, "llo");
    assert!(step.more);
    assert_eq!(last, "hello");
    let step = live_preview(&transcribe_status_without_daemon(), &mut last);
    assert_eq!(step.print, "");
    assert!(!step.more);
    assert_eq!(last, "hello");
}

#[test]
fn events_are_printed_one_time() {
    let mut progress = RealtimeProgress::default();
    let event = Json::parse(r#"{"type":"error","code":"c"}"#).expect("JSON");
    progress_note_event(&mut progress, &event, 3);
    progress_note_event(&mut progress, &Json::object(), 4);
    let mut last = 0;
    let printed = live_debug_events(&progress.debug, &mut last);
    assert_eq!(printed.len(), 2);
    assert_eq!(last, 2);
    assert_eq!(
        printed[1].to_text(),
        r#"{"at_ms":4,"kind":"realtime_event","seq":2,"type":"<unknown>"}"#
    );
    assert_eq!(printed[0].get_str("error_code"), Some("c"));
    assert!(live_debug_events(&progress.debug, &mut last).is_empty());
    progress_note_event(&mut progress, &Json::object(), 5);
    assert_eq!(live_debug_events(&progress.debug, &mut last).len(), 1);
}

#[test]
fn ending_the_interface() {
    assert_eq!(stop_ui_client(None, true), UiStopStep::RemoveFile);
    assert_eq!(stop_ui_client(Some(1), false), UiStopStep::RemoveFile);
    assert_eq!(stop_ui_client(Some(1), true), UiStopStep::Terminate);
    assert_eq!(await_ui_client(false, false, 10), UiStopStep::RemoveFile);
    assert_eq!(await_ui_client(false, true, 10), UiStopStep::Wait(30));
    assert_eq!(await_ui_client(false, true, 701), UiStopStep::Kill);
    assert_eq!(await_ui_client(true, true, 10), UiStopStep::Wait(20));
    assert_eq!(await_ui_client(true, false, 10), UiStopStep::RemoveFile);
    assert_eq!(await_ui_client(true, true, 251), UiStopStep::GiveUp);
}
