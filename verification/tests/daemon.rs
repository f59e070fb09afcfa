use omni::backend::{OpenAiRealtimeBackend, RealtimeTransport};
use omni::config::{default_config, set_value_by_key, ConfigValue};
use omni::daemon::{
    apply_stop_transcript_resolution_debug, dispatch_command, failure_answer, handle_reload,
    handle_status, handle_transcribe_start, handle_transcribe_status, handle_transcribe_stop,
    prepare_realtime, realtime_started, recording_config_from_config, resolve_batch_reply,
    resolve_transcript_on_stop, runtime_paths, started_report, stop_duration, stopped_report,
    validate_runtime_config, ActiveRecording, DaemonRequest, DaemonState, DaemonStep, StartStep,
    StopDecision, StopStep, StopTranscriptResolution, TranscriptResolutionSource,
};
use omni::error::Error;
use omni::progress::{RealtimeDebugInfo, RealtimeProgress};
use omni::recording::FinishedRecording;

fn backend() -> OpenAiRealtimeBackend {
    OpenAiRealtimeBackend {
        llm_api: "openai-realtime".into(),
        base_url: "http://127.0.0.1:9/v1".into(),
        api_key: String::new(),
        model: "voxtral-realtime".into(),
    }
}

fn synthetic(transcript: &str, duration_ms: u64) -> DaemonState {
    DaemonState {
        recording: Some(ActiveRecording::Synthetic {
            transcript: transcript.into(),
            duration_ms,
            started_at_ms: 1_000,
        }),
    }
}

fn resolved(decision: StopDecision) -> StopTranscriptResolution {
    match decision {
        StopDecision::Resolved(resolution) => resolution,
        StopDecision::Batch(_) => panic!("expected a transcript"),
    }
}

#[test]
fn recording_config_uses_defaults_and_validates_positive_numbers() {
    let config = default_config();
    let parsed = recording_config_from_config(&config).expect("config should parse");

    assert_eq!(parsed.sample_rate, 16_000);
    assert_eq!(parsed.channels, 1);

    let mut invalid = default_config();
    set_value_by_key(&mut invalid, "audio.sample_rate", ConfigValue::Integer(0))
        .expect("set should work");
    assert!(recording_config_from_config(&invalid).is_err());
}

#[test]
fn recording_config_takes_what_fits() {
    let mut config = default_config();
    set_value_by_key(&mut config, "audio.sample_rate", ConfigValue::Integer(48_000)).expect("set");
    set_value_by_key(&mut config, "audio.channels", ConfigValue::Integer(70_000)).expect("set");
    set_value_by_key(&mut config, "audio.device", ConfigValue::text(" Mic ")).expect("set");
    let parsed = recording_config_from_config(&config).expect("config should parse");
    assert_eq!(parsed.sample_rate, 48_000);
    assert_eq!(parsed.channels, 1);
    assert_eq!(parsed.device_name.as_deref(), Some("Mic"));
    set_value_by_key(&mut config, "audio.channels", ConfigValue::Integer(0)).expect("set");
    assert_eq!(
        recording_config_from_config(&config).expect_err("no channel").message,
        "audio.channels must be > 0"
    );
}

#[test]
fn synthetic_transcribe_start_activates_recording_state() {
    let mut state = DaemonState::default();
    let step = handle_transcribe_start(1234, &mut state, Some("hello from test".into()), 5);
    assert!(matches!(step, StartStep::Synthetic));
    let (event, response) = started_report(1234, None);

    assert!(response.ok);
    assert!(response.recording);
    assert!(state.recording.is_some());
    assert_eq!(event.event_type, "transcribe.started");
    assert_eq!(event.payload.to_text(), r#"{"synthetic":true}"#);
    assert_eq!(
        response.message.as_deref(),
        Some("recording started (synthetic test mode)")
    );
}

#[test]
fn synthetic_transcribe_stop_returns_transcript_and_clears_state() {
    let mut state = synthetic("synthetic transcript", 42);

    let (resolution, duration_ms) = match handle_transcribe_stop(1234, &mut state, 1_000) {
        StopStep::Resolved(resolution, duration_ms) => (resolution, duration_ms),
        _ => panic!("transcribe stop should succeed"),
    };
    let (_, response) = stopped_report(1234, None, resolution, duration_ms, None);

    assert!(response.ok);
    assert_eq!(response.transcript.as_deref(), Some("synthetic transcript"));
    assert_eq!(response.duration_ms, Some(42));
    assert_eq!(
        response.message.as_deref(),
        Some("recording stopped (source=synthetic, fallback_used=false)")
    );
    assert!(state.recording.is_none());
}

#[test]
fn transcribe_status_reflects_active_synthetic_recording() {
    let state = synthetic("active", 7);

    let response = handle_transcribe_status(1234, &state, None, 1_000, 77);
    assert!(response.ok);
    assert!(response.recording);
    assert!(response.duration_ms.unwrap_or_default() >= 7);
    assert_eq!(response.transcript_preview.as_deref(), Some("active"));
    assert!(response.transcript_updated_at_ms.is_some());
    assert_eq!(response.message.as_deref(), Some("recording active"));
}

#[test]
fn daemon_status_includes_recording_runtime_fields() {
    let state = synthetic("status preview", 4);

    let response = handle_status(1234, &state, None, 1_000, 77);
    assert!(response.ok);
    assert!(response.recording);
    assert_eq!(response.message, None);
    assert_eq!(
        response.transcript_preview.as_deref(),
        Some("status preview")
    );
    assert!(response.duration_ms.unwrap_or_default() >= 4);
}

#[test]
fn the_clock_counts_where_it_says_more() {
    let state = synthetic("x", 7);
    assert_eq!(handle_status(1, &state, None, 1_500, 0).duration_ms, Some(500));
    assert_eq!(handle_status(1, &state, None, 900, 0).duration_ms, Some(7));
    assert_eq!(
        handle_status(1, &state, None, 900, 321).transcript_updated_at_ms,
        Some(321)
    );
    assert!(handle_status(1, &state, None, 900, 0).debug.is_some());
    assert!(handle_status(1, &synthetic("", 7), None, 900, 0)
        .transcript_preview
        .is_none());
}

#[test]
fn transcribe_stop_is_noop_when_not_active() {
    let mut state = DaemonState::default();
    let response = match handle_transcribe_stop(1234, &mut state, 0) {
        StopStep::Respond(response) => response,
        _ => panic!("transcribe stop should no-op successfully"),
    };

    assert!(response.ok);
    assert!(!response.recording);
    assert_eq!(response.message.as_deref(), Some("recording not active"));
    assert_eq!(response.transcript.as_deref(), Some(""));
    assert_eq!(response.duration_ms, Some(0));
}

#[test]
fn apply_stop_resolution_debug_sets_resolution_fields() {
    let mut debug = RealtimeDebugInfo::default();
    let resolution = StopTranscriptResolution {
        transcript: "hello".into(),
        source: TranscriptResolutionSource::Batch,
        fallback_attempted: true,
        fallback_used: true,
        fallback_error: None,
    };

    apply_stop_transcript_resolution_debug(&mut debug, &resolution);

    assert_eq!(debug.transcript_source.as_deref(), Some("batch"));
    assert!(debug.transcript_fallback_attempted);
    assert!(debug.transcript_fallback_used);
    assert!(debug.transcript_fallback_error.is_none());
}

#[test]
fn resolve_transcript_prefers_realtime_text() {
    let finished = FinishedRecording {
        samples: vec![1, 2, 3],
        sample_rate: 16_000,
        channels: 1,
        duration_ms: 1,
    };

    let resolved = resolved(resolve_transcript_on_stop(
        &finished,
        "  realtime text  ",
        Some("progress fallback"),
        &backend(),
    ));

    assert_eq!(resolved.transcript, "realtime text");
    assert_eq!(resolved.source, TranscriptResolutionSource::Realtime);
    assert!(!resolved.fallback_attempted);
    assert!(!resolved.fallback_used);
    assert!(resolved.fallback_error.is_none());
}

#[test]
fn resolve_transcript_uses_progress_when_realtime_empty() {
    let finished = FinishedRecording {
        samples: vec![1, 2, 3],
        sample_rate: 16_000,
        channels: 1,
        duration_ms: 1,
    };

    let resolved = resolved(resolve_transcript_on_stop(
        &finished,
        "",
        Some("progress fallback"),
        &backend(),
    ));

    assert_eq!(resolved.transcript, "progress fallback");
    assert_eq!(resolved.source, TranscriptResolutionSource::Progress);
    assert!(!resolved.fallback_attempted);
    assert!(!resolved.fallback_used);
    assert!(resolved.fallback_error.is_none());
}

#[test]
fn resolve_transcript_is_empty_when_no_samples() {
    let finished = FinishedRecording {
        samples: vec![],
        sample_rate: 16_000,
        channels: 1,
        duration_ms: 0,
    };

    let resolved = resolved(resolve_transcript_on_stop(
        &finished,
        "",
        Some("progress"),
        &backend(),
    ));

    assert!(resolved.transcript.is_empty());
    assert_eq!(resolved.source, TranscriptResolutionSource::EmptyNoAudio);
    assert!(!resolved.fallback_attempted);
    assert!(!resolved.fallback_used);
    assert!(resolved.fallback_error.is_none());
}

#[test]
fn resolve_transcript_marks_fallback_error_when_wav_build_fails() {
    let finished = FinishedRecording {
        samples: vec![1, 2, 3],
        sample_rate: 16_000,
        channels: 0,
        duration_ms: 1,
    };

    let resolved = resolved(resolve_transcript_on_stop(&finished, "", None, &backend()));

    assert!(resolved.transcript.is_empty());
    assert_eq!(resolved.source, TranscriptResolutionSource::Empty);
    assert!(resolved.fallback_attempted);
    assert!(!resolved.fallback_used);
    assert!(resolved.fallback_error.is_some());
}

#[test]
fn without_text_the_server_is_asked_for_the_whole_recording() {
    let finished = FinishedRecording {
        samples: vec![1, 2, 3],
        sample_rate: 16_000,
        channels: 1,
        duration_ms: 1,
    };
    match resolve_transcript_on_stop(&finished, " ", Some(" \n"), &backend()) {
        StopDecision::Batch(request) => {
            assert_eq!(request.url, "http://127.0.0.1:9/v1/audio/transcriptions");
            assert_eq!(request.model, "voxtral-realtime");
            assert!(request.bearer.is_none());
            assert_eq!(request.wav.len(), 44 + 6);
        }
        StopDecision::Resolved(_) => panic!("expected a request"),
    }
}

#[test]
fn the_reply_for_the_whole_recording_decides() {
    let r = resolve_batch_reply(Ok(" hi ".into()));
    assert_eq!(r.transcript, "hi");
    assert_eq!(r.source, TranscriptResolutionSource::Batch);
    assert!(r.fallback_attempted && r.fallback_used && r.fallback_error.is_none());
    let r = resolve_batch_reply(Ok("  ".into()));
    assert_eq!(r.source, TranscriptResolutionSource::Empty);
    assert_eq!(
        r.fallback_error.as_deref(),
        Some("batch transcription returned empty text")
    );
    let r = resolve_batch_reply(Err(Error::caused("a", "b".into())));
    assert_eq!(r.fallback_error.as_deref(), Some("a"));
    assert!(r.fallback_attempted && !r.fallback_used);
}

#[test]
fn names_of_sources() {
    assert_eq!(TranscriptResolutionSource::Realtime.as_str(), "realtime");
    assert_eq!(TranscriptResolutionSource::Progress.as_str(), "progress");
    assert_eq!(TranscriptResolutionSource::Batch.as_str(), "batch");
    assert_eq!(TranscriptResolutionSource::EmptyNoAudio.as_str(), "empty_no_audio");
    assert_eq!(TranscriptResolutionSource::Empty.as_str(), "empty");
    assert_eq!(TranscriptResolutionSource::Synthetic.as_str(), "synthetic");
}

#[test]
fn a_second_start_changes_nothing() {
    let mut state = synthetic("x", 1);
    match handle_transcribe_start(9, &mut state, Some("other".into()), 7) {
        StartStep::Respond(response) => {
            assert_eq!(response.message.as_deref(), Some("recording already active"));
            assert!(response.recording);
        }
        _ => panic!("expected an answer"),
    }
    match state.recording {
        Some(ActiveRecording::Synthetic { transcript, .. }) => assert_eq!(transcript, "x"),
        _ => panic!("the recording should stay"),
    }
}

#[test]
fn a_recording_that_goes_to_the_server() {
    let mut state = DaemonState::default();
    assert!(matches!(
        handle_transcribe_start(9, &mut state, None, 7),
        StartStep::Realtime
    ));
    assert!(state.recording.is_none());
    let setup = prepare_realtime(&default_config()).expect("config should do");
    assert_eq!(setup.backend.model, "voxtral");
    assert_eq!(setup.recording.sample_rate, 16_000);
    assert_eq!(
        setup.transport.endpoint(),
        "ws://127.0.0.1:8000/v1/realtime?model=voxtral"
    );
    realtime_started(&mut state, setup.backend, 100);
    let progress = RealtimeProgress::default();
    let response = handle_transcribe_status(9, &state, Some(&progress), 350, 0);
    assert_eq!(response.duration_ms, Some(250));
    assert!(response.transcript_preview.is_none());
    assert!(response.debug.is_some());
    let (event, response) = started_report(9, Some("openai-realtime"));
    assert_eq!(
        event.payload.to_text(),
        r#"{"llm_api":"openai-realtime","synthetic":false}"#
    );
    assert_eq!(
        response.message.as_deref(),
        Some("recording started (llmApi=openai-realtime)")
    );
    match handle_transcribe_stop(9, &mut state, 400) {
        StopStep::Finish(backend, started_at_ms) => {
            assert_eq!(backend.model, "voxtral");
            assert_eq!(started_at_ms, 100);
        }
        _ => panic!("expected to finish"),
    }
    assert!(state.recording.is_none());
}

#[test]
fn the_report_on_a_stop() {
    let (event, response) = stopped_report(
        3,
        Some("copy"),
        resolve_batch_reply(Ok("hi".into())),
        2_086,
        Some(RealtimeDebugInfo::default()),
    );
    assert_eq!(event.event_type, "transcribe.stopped");
    assert_eq!(
        event.payload.to_text(),
        r#"{"duration_ms":2086,"fallback_used":true,"mode":"copy","source":"batch","transcript":"hi"}"#
    );
    assert_eq!(
        response.message.as_deref(),
        Some("recording stopped (mode=copy, source=batch, fallback_used=true)")
    );
    assert!(response.debug.is_some());
    assert!(!response.recording);
}

#[test]
fn a_recording_lasts_as_long_as_the_longer_measure() {
    let finished = FinishedRecording {
        samples: vec![],
        sample_rate: 1,
        channels: 1,
        duration_ms: 30,
    };
    assert_eq!(stop_duration(&finished, 10, 50), 40);
    assert_eq!(stop_duration(&finished, 10, 20), 30);
    assert_eq!(stop_duration(&finished, 10, 5), 30);
}

fn ask(cmd: &str, state: &mut DaemonState, should_stop: &mut bool) -> Result<DaemonStep, Error> {
    let request = DaemonRequest {
        cmd: cmd.into(),
        mode: None,
    };
    dispatch_command(&request, 5, should_stop, state, None, 1_000, 0)
}

#[test]
fn requests_are_told_apart() {
    let mut state = synthetic("x", 1);
    let mut should_stop = false;
    match ask("ping", &mut state, &mut should_stop) {
        Ok(DaemonStep::Respond(response)) => {
            assert!(response.ok && response.running && response.recording);
            assert_eq!(response.pid, Some(5));
            assert!(response.duration_ms.is_none());
        }
        _ => panic!("expected an answer"),
    }
    assert!(matches!(
        ask("status", &mut state, &mut should_stop),
        Ok(DaemonStep::Respond(_))
    ));
    assert!(matches!(
        ask("transcribe_status", &mut state, &mut should_stop),
        Ok(DaemonStep::Respond(_))
    ));
    assert!(matches!(
        ask("transcribe_start", &mut state, &mut should_stop),
        Ok(DaemonStep::Start)
    ));
    assert!(matches!(
        ask("transcribe_stop", &mut state, &mut should_stop),
        Ok(DaemonStep::Stop)
    ));
    assert!(matches!(
        ask("reload", &mut state, &mut should_stop),
        Ok(DaemonStep::Reload)
    ));
    let error = ask("dance", &mut state, &mut should_stop)
        .err()
        .expect("unknown");
    assert_eq!(error.message, "unknown command: dance");
    let answer = failure_answer(&state, 5, &error);
    assert!(!answer.ok && answer.running && answer.recording);
    assert_eq!(answer.error.as_deref(), Some("unknown command: dance"));
    assert!(!should_stop);
    match ask("stop", &mut state, &mut should_stop) {
        Ok(DaemonStep::Shutdown(response, active)) => {
            assert!(!response.running);
            assert_eq!(response.message.as_deref(), Some("stopping"));
            assert!(active.is_some());
        }
        _ => panic!("expected to stop"),
    }
    assert!(should_stop);
    assert!(state.recording.is_none());
}

#[test]
fn reloading_looks_at_the_configuration() {
    let state = DaemonState::default();
    let response = handle_reload(5, &state, &default_config()).expect("fine");
    assert_eq!(response.message.as_deref(), Some("runtime config reloaded"));
    let mut config = default_config();
    set_value_by_key(&mut config, "event.hooks.transcribe.stop", ConfigValue::Integer(1))
        .expect("set");
    assert!(handle_reload(5, &state, &config).is_err());
    assert!(validate_runtime_config(&config).is_err());
    set_value_by_key(&mut config, "audio.channels", ConfigValue::Integer(0)).expect("set");
    assert_eq!(
        validate_runtime_config(&config).expect_err("audio comes first").message,
        "audio.channels must be > 0"
    );
    set_value_by_key(&mut config, "server.llmApi", ConfigValue::text("x")).expect("set");
    assert!(validate_runtime_config(&config)
        .expect_err("the server comes first")
        .message
        .contains("only supports openai-realtime"));
}

#[test]
fn where_the_files_of_the_daemon_lie() {
    let paths = runtime_paths(Some(" /run/o "), Some("/run/u"), None).expect("custom");
    assert_eq!(paths.runtime_dir, "/run/o");
    assert_eq!(paths.socket_path, "/run/o/daemon.sock");
    assert_eq!(paths.ui_socket_path, "/run/o/ui.sock");
    assert_eq!(paths.pid_path, "/run/o/daemon.pid");
    let paths = runtime_paths(Some(""), Some("/run/u"), None).expect("runtime");
    assert_eq!(paths.runtime_dir, "/run/u/omni");
    let paths = runtime_paths(None, None, Some("/home/u")).expect("home");
    assert_eq!(paths.runtime_dir, "/home/u/.local/state/omni");
    assert!(runtime_paths(None, None, None).is_err());
}
