use omni::json::Json;
use omni::ui_client::{
    acquire_instance_lock, apply_event, apply_message, apply_snapshot, estimated_transcript_lines,
    is_active_ui_instance, lock_path, position_file_path, query_daemon_snapshot, read_lock_pid,
    resolve_daemon_socket_path, resolve_ui_position_dir, resolve_ui_socket_path, runtime_config,
    set_transcript, settles_opaque, snapshot_request, tick, visible_transcript_lines, Cli,
    DaemonSnapshot, InboundMessage, LockAttempt, LockStep, TickAction, UiState, DEFAULT_HIDE_MS,
    DEFAULT_IDLE_MS, DEFAULT_RETRY_MS,
};
use omni::ui_ipc::{
    broadcast_line, clear_global_publisher, emit_event, install_global_publisher, PublisherSlot,
    UiEventEnvelope, UiEventPublisher,
};
use omni::ui_tail::{connect_to_socket, emit_line, retry_delay, take_line, LineRead, TailStep};

fn event(event_type: &str, payload: &str) -> UiEventEnvelope {
    UiEventEnvelope {
        v: 1,
        seq: 1,
        at_ms: 1,
        event_type: event_type.to_string(),
        payload: Json::parse(payload).expect("text should be JSON"),
    }
}

#[test]
fn resolve_ui_socket_path_prefers_explicit_path() {
    let explicit = "/tmp/omni-ui.sock";
    let resolved = resolve_ui_socket_path(Some(explicit), None, None, None)
        .expect("path should resolve");
    assert_eq!(resolved, explicit);
}

#[test]
fn removes_window_after_idle_deadline() {
    let now = 1_000;
    let mut state = UiState::new(now, 500);
    state.visibility.visible = false;
    state.visibility.hide_deadline = None;
    state.visibility.idle_deadline = Some(now + 100);
    state.last_frame = now;

    let action = tick(&mut state, now + 120, 500);
    assert_eq!(action, TickAction::RemoveWindow);
}

#[test]
fn snapshot_with_recording_sets_visibility_and_preview() {
    let now = 1_000;
    let mut state = UiState::new(now, 5_000);

    apply_snapshot(
        &mut state,
        DaemonSnapshot {
            running: true,
            recording: true,
            transcript_preview: Some(" hello world ".to_string()),
        },
        now,
    );

    assert!(state.visibility.visible);
    assert_eq!(state.transcript.text, "hello world");
    assert!(state.transcript.should_scroll_to_bottom);
}

#[test]
fn hide_event_hides_immediately() {
    let now = 1_000;
    let mut state = UiState::new(now, 5_000);
    let hide_linger = 250;
    state.visibility.visible = true;
    state.visibility.panel_opacity = 1.0f32.to_bits();

    apply_message(
        &mut state,
        InboundMessage::UiEvent(event("ui.hide", r#"{"transcript": "done"}"#)),
        now,
        hide_linger,
    );

    assert!(!state.visibility.visible);
    assert_eq!(state.transcript.text, "done");
    assert_eq!(state.visibility.hide_deadline, Some(now));
    assert_eq!(f32::from_bits(state.visibility.panel_opacity), 0.0);
}

#[test]
fn transcript_delta_appends_and_bolds_new_segment() {
    let now = 1_000;
    let mut state = UiState::new(now, 5_000);
    state.transcript.text = "hello".to_string();

    apply_event(
        &mut state,
        event("transcript.delta", r#"{"delta": " world"}"#),
        now,
        250,
    );

    assert_eq!(state.transcript.text, "hello world");
    assert_eq!(state.transcript.bold_from, 5);
    assert!(state.visibility.visible);
}

#[test]
fn query_daemon_snapshot_reads_expected_fields() {
    assert!(snapshot_request().contains("transcribe_status"));
    assert_eq!(snapshot_request(), "{\"cmd\":\"transcribe_status\",\"mode\":null}\n");

    let snapshot = query_daemon_snapshot(
        "{\"ok\":true,\"running\":true,\"recording\":true,\"transcript_preview\":\"hello\"}\n",
    )
    .expect("snapshot query should succeed");
    assert!(snapshot.running);
    assert!(snapshot.recording);
    assert_eq!(snapshot.transcript_preview.as_deref(), Some("hello"));

    let snapshot = query_daemon_snapshot("{}").expect("snapshot query should succeed");
    assert!(!snapshot.running && !snapshot.recording && snapshot.transcript_preview.is_none());
    assert_eq!(
        query_daemon_snapshot("x").expect_err("no JSON").chain(),
        "invalid daemon snapshot JSON: expected value at line 1 column 1"
    );
}

#[test]
fn parse_lock_pid_reads_valid_numbers() {
    assert_eq!(read_lock_pid("12345\n"), Some(12345));
    assert_eq!(read_lock_pid("not-a-pid"), None);
}

#[test]
fn one_interface_at_a_time() {
    let path = lock_path("/run/omni");
    assert_eq!(path, "/run/omni/transcribe-ui.pid");
    match acquire_instance_lock(&path, LockAttempt::Created, false) {
        Ok(LockStep::Hold(lock)) => assert_eq!(lock.path, path),
        _ => panic!("expected to hold the lock"),
    }
    assert!(matches!(
        acquire_instance_lock(&path, LockAttempt::Exists, true),
        Ok(LockStep::Leave)
    ));
    assert!(matches!(
        acquire_instance_lock(&path, LockAttempt::Exists, false),
        Ok(LockStep::Reclaim)
    ));
    assert_eq!(
        acquire_instance_lock(&path, LockAttempt::Failed("denied".into()), false)
            .expect_err("failed")
            .message,
        "failed acquiring ui instance lock /run/omni/transcribe-ui.pid: denied"
    );
    assert!(is_active_ui_instance(Some("S /x/omni-transcribe-ui"), false));
    assert!(!is_active_ui_instance(Some("Z omni-transcribe-ui"), true));
    assert!(!is_active_ui_instance(Some("S other"), true));
    assert!(!is_active_ui_instance(Some(" "), true));
    assert!(is_active_ui_instance(None, true));
}

#[test]
fn settings_of_the_interface() {
    let mut cli = Cli {
        socket: None,
        daemon_socket: Some("/d.sock".into()),
        idle_ms: DEFAULT_IDLE_MS,
        hide_ms: DEFAULT_HIDE_MS,
        retry_ms: DEFAULT_RETRY_MS,
    };
    let config = runtime_config(&cli, Some("/r"), None, None).expect("settings");
    assert_eq!(config.ui_socket, "/r/ui.sock");
    assert_eq!(config.daemon_socket, "/d.sock");
    assert_eq!(config.idle_linger, 30_000);
    assert_eq!(config.hide_linger, 250);
    assert_eq!(config.reconnect_delay, 220);
    cli.idle_ms = 1;
    cli.hide_ms = 1;
    cli.retry_ms = 1;
    let config = runtime_config(&cli, Some("/r"), None, None).expect("settings");
    assert_eq!(config.idle_linger, 200);
    assert_eq!(config.hide_linger, 50);
    assert_eq!(config.reconnect_delay, 20);
    assert!(runtime_config(&cli, None, None, None).is_err());
    assert_eq!(
        resolve_daemon_socket_path(None, None, Some("/x"), None).expect("path"),
        "/x/omni/daemon.sock"
    );
}

#[test]
fn where_the_position_is_kept() {
    assert_eq!(
        resolve_ui_position_dir(Some(" /p "), Some("/data"), None).expect("dir"),
        "/p"
    );
    assert_eq!(
        resolve_ui_position_dir(Some(""), Some("/data"), None).expect("dir"),
        "/data/omni"
    );
    assert_eq!(
        resolve_ui_position_dir(None, None, Some("/home/u")).expect("dir"),
        "/home/u/.local/share/omni"
    );
    assert!(resolve_ui_position_dir(None, None, None).is_err());
    assert_eq!(position_file_path("/p"), "/p/transcribe-ui-position.json");
}

#[test]
fn events_change_what_is_shown() {
    let mut state = UiState::new(0, 500);
    assert_eq!(state.visibility.idle_deadline, Some(500));
    apply_event(&mut state, event("ui.show", "{}"), 10, 250);
    assert!(state.visibility.visible);
    assert!(state.visibility.idle_deadline.is_none());
    assert_eq!(state.last_frame, 10);

    apply_event(
        &mut state,
        event("audio.energy", r#"{"rms":0.5,"peak":1,"silent":false}"#),
        11,
        250,
    );
    assert!(!state.audio.silent);
    assert_eq!(state.audio.rms.as_ref().and_then(|n| n.as_f64()), Some(0.5));
    assert_eq!(state.audio.peak.as_ref().and_then(|n| n.as_f64()), Some(1.0));
    apply_event(&mut state, event("audio.energy", r#"{"rms":"x"}"#), 11, 250);
    assert!(state.audio.silent);
    assert!(state.audio.rms.is_none());

    apply_event(
        &mut state,
        event("transcript.delta", r#"{"delta":"x","preview":" ü "}"#),
        12,
        250,
    );
    assert_eq!(state.transcript.text, "ü");
    assert_eq!(state.transcript.bold_from, 0);
    apply_event(&mut state, event("transcript.snapshot", r#"{"text":"über"}"#), 13, 250);
    assert_eq!(state.transcript.text, "über");
    assert_eq!(state.transcript.bold_from, 2);
    apply_event(&mut state, event("transcript.snapshot", r#"{"text":"  "}"#), 14, 250);
    assert_eq!(state.transcript.text, "über");
    apply_event(&mut state, event("something.else", "{}"), 15, 250);
    assert_eq!(state.last_frame, 13);
    set_transcript(&mut state, "new");
    assert_eq!(state.transcript.bold_from, 0);
}

#[test]
fn what_is_set_off_begins_with_a_character() {
    let mut state = UiState::new(0, 500);
    for (kind, payload) in [
        ("transcript.delta", r#"{"delta":"ü "}"#),
        ("transcript.delta", r#"{"delta":"日本"}"#),
        ("transcript.snapshot", r#"{"text":"ü 日本語"}"#),
        ("transcript.delta", r#"{"preview":"é"}"#),
        ("transcribe.stopped", r#"{"transcript":"é😀"}"#),
    ] {
        apply_event(&mut state, event(kind, payload), 1, 250);
        let transcript = &state.transcript;
        assert!(transcript.text.is_char_boundary(transcript.bold_from));
    }
    assert_eq!(state.transcript.bold_from, 2);
}

#[test]
fn snapshots_of_an_idle_daemon_show_nothing() {
    let mut state = UiState::new(0, 500);
    for (running, recording) in [(false, true), (true, false)] {
        let snapshot = DaemonSnapshot {
            running,
            recording,
            transcript_preview: Some("x".into()),
        };
        apply_message(&mut state, InboundMessage::Snapshot(snapshot), 1, 250);
    }
    assert!(!state.visibility.visible);
    assert!(state.transcript.text.is_empty());
}

#[test]
fn a_hidden_interface_goes_in_time() {
    let mut state = UiState::new(0, 500);
    apply_event(&mut state, event("transcribe.started", "{}"), 10, 250);
    assert_eq!(tick(&mut state, 100_000, 500), TickAction::Keep);
    assert!(settles_opaque(&state));
    apply_event(&mut state, event("transcribe.stopped", "{}"), 100_001, 250);
    assert!(settles_opaque(&state));
    assert_eq!(tick(&mut state, 100_016, 500), TickAction::Keep);
    assert!(!settles_opaque(&state));
    assert_eq!(state.visibility.idle_deadline, Some(100_516));
    assert_eq!(tick(&mut state, 100_515, 500), TickAction::Keep);
    assert_eq!(tick(&mut state, 100_516, 500), TickAction::RemoveWindow);
}

#[test]
fn lines_of_the_transcript() {
    let mut state = UiState::new(0, 500);
    assert_eq!(estimated_transcript_lines(&state, 10), 1);
    assert_eq!(visible_transcript_lines(&state, 10, 4), None);
    for (text, rows) in [
        ("short", 1),
        ("1234567890", 1),
        ("12345678901", 2),
        ("line one\nline two\nline three", 3),
        ("a\r\n\r\nb", 3),
        ("1234567890\r\nb", 2),
        (" ä\u{a0}\n", 1),
        ("a\n\n\n\n\nb", 6),
    ] {
        state.transcript.text = text.to_string();
        let expected = text
            .trim()
            .lines()
            .map(|line| line.chars().count().div_ceil(10).max(1))
            .sum::<usize>();
        assert_eq!(rows, expected);
        assert_eq!(estimated_transcript_lines(&state, 10), rows, "{text:?}");
        assert_eq!(visible_transcript_lines(&state, 10, 4), Some(rows.min(4)));
    }
}

#[test]
fn events_are_numbered_while_a_publisher_is_there() {
    let mut slot = PublisherSlot::default();
    assert!(emit_event(&mut slot, "ui.show", Json::Null, 1).is_none());
    install_global_publisher(&mut slot, UiEventPublisher::new());
    assert!(!slot.is_used_up());
    let first = emit_event(&mut slot, "ui.show", Json::Null, 5).expect("published");
    assert_eq!((first.v, first.seq, first.at_ms), (1, 1, 5));
    assert_eq!(first.event_type, "ui.show");
    let second = emit_event(&mut slot, "ui.hide", Json::Null, 6).expect("published");
    assert_eq!(second.seq, 2);
    clear_global_publisher(&mut slot);
    assert!(emit_event(&mut slot, "ui.show", Json::Null, 7).is_none());
}

#[test]
fn broken_clients_are_dropped() {
    let mut clients = vec![1, 2, 3, 4, 5];
    let works = |client: u64| client % 2 == 1;
    let mut written = Vec::new();
    let mut i = 0;
    while i < clients.len() {
        written.push(clients[i]);
        let delivered = works(clients[i]);
        i = broadcast_line(&mut clients, i, delivered);
    }
    clients.sort();
    assert_eq!(clients, vec![1, 3, 5]);
    written.sort();
    assert_eq!(written, vec![1, 2, 3, 4, 5]);
}

#[test]
fn what_the_viewer_prints() {
    assert_eq!(emit_line("{\"a\":1}\n", false).as_deref(), Some("{\"a\":1}"));
    assert_eq!(emit_line("{\"a\":1}\n", true).as_deref(), Some("{\n  \"a\": 1\n}"));
    assert_eq!(emit_line("no json \n", true).as_deref(), Some("no json"));
    assert_eq!(emit_line(" \n", true), None);
}

#[test]
fn what_the_viewer_does() {
    assert_eq!(retry_delay(1), 10);
    assert_eq!(retry_delay(250), 250);
    assert!(matches!(
        connect_to_socket("/u.sock", None, false),
        TailStep::Read(None)
    ));
    match connect_to_socket("/u.sock", Some("refused"), true) {
        TailStep::Reconnect(notice) => {
            assert_eq!(notice, "waiting for ui socket /u.sock (refused)...")
        }
        other => panic!("unexpected step: {other:?}"),
    }
    match connect_to_socket("/u.sock", Some("refused"), false) {
        TailStep::Fail(error) => {
            assert_eq!(error.message, "failed connecting ui socket /u.sock: refused")
        }
        other => panic!("unexpected step: {other:?}"),
    }
    assert!(matches!(
        take_line("/u.sock", LineRead::Line("x\n".into()), false, false),
        TailStep::Read(Some(text)) if text == "x"
    ));
    assert!(matches!(
        take_line("/u.sock", LineRead::End, false, false),
        TailStep::Finish
    ));
    assert!(matches!(
        take_line("/u.sock", LineRead::End, true, false),
        TailStep::Reconnect(_)
    ));
    match take_line("/u.sock", LineRead::Failed("reset".into()), true, false) {
        TailStep::Fail(error) => assert_eq!(error.chain(), "failed reading from /u.sock: reset"),
        other => panic!("unexpected step: {other:?}"),
    }
}
