use omni::json::Json;
use omni::progress::{
    best_progress_transcript, progress_note_chunk, progress_note_commit, progress_note_event,
    progress_snapshot, set_progress_snapshot, AudioLevels, RealtimeAudioDebugInfo,
    RealtimeProgress, EVENT_BUFFER, SILENCE_THRESHOLD_BITS,
};

const REALTIME_AUDIO_SILENCE_THRESHOLD: f32 = 0.008;

fn json(text: &str) -> Json {
    Json::parse(text).expect("text should be JSON")
}

/// The levels of a chunk, as the program measures them.
fn levels(audio: &RealtimeAudioDebugInfo, chunk: &[i16]) -> AudioLevels {
    let mut sum = 0.0f64;
    let mut peak = 0.0f32;
    for sample in chunk {
        let normalized = *sample as f32 / i16::MAX as f32;
        sum += (normalized as f64) * (normalized as f64);
        peak = peak.max(normalized.abs());
    }
    let rms = (sum / chunk.len() as f64).sqrt() as f32;
    let observed = audio.chunks_observed as f32;
    let avg = (f32::from_bits(audio.avg_rms) * observed + rms) / (observed + 1.0);
    AudioLevels {
        rms: rms.to_bits(),
        peak: peak.to_bits(),
        avg_rms: avg.to_bits(),
    }
}

#[test]
fn progress_snapshot_reports_latest_fragment() {
    let mut progress = RealtimeProgress::default();

    set_progress_snapshot(&mut progress, "hello", 1);
    set_progress_snapshot(&mut progress, "hello world", 2);

    let (preview, updated_at_ms, _debug) = progress_snapshot(&progress);
    assert_eq!(preview.as_deref(), Some("hello world"));
    assert!(updated_at_ms.is_some());
}

#[test]
fn progress_snapshot_preserves_last_non_empty_when_final_update_empty() {
    let mut progress = RealtimeProgress::default();

    set_progress_snapshot(&mut progress, "hello from realtime", 1);
    set_progress_snapshot(&mut progress, "", 2);

    let (preview, _, _) = progress_snapshot(&progress);
    assert_eq!(preview.as_deref(), Some("hello from realtime"));

    let best = best_progress_transcript(&progress);
    assert_eq!(best.as_deref(), Some("hello from realtime"));
}

#[test]
fn progress_note_chunk_tracks_audio_levels_and_silence() {
    let mut progress = RealtimeProgress::default();

    for chunk in [[0i16, 0, 0, 0], [10_000, -10_000, 8_000, -8_000]] {
        let measured = levels(&progress.debug.audio, &chunk);
        progress_note_chunk(&mut progress, chunk.len(), measured);
    }

    let (_, _, debug) = progress_snapshot(&progress);

    assert_eq!(debug.chunks_sent, 2);
    assert_eq!(debug.audio.chunks_observed, 2);
    assert_eq!(debug.audio.samples_observed, 8);
    assert!(debug.audio.silent_chunks >= 1);
    assert!(f32::from_bits(debug.audio.last_peak) > 0.2);
    assert!(f32::from_bits(debug.audio.last_rms) > 0.2);
    assert!(f32::from_bits(debug.audio.max_peak) >= f32::from_bits(debug.audio.last_peak));
    assert_eq!(
        f32::from_bits(debug.audio.silence_threshold),
        REALTIME_AUDIO_SILENCE_THRESHOLD
    );
}

#[test]
fn the_bits_of_the_threshold() {
    assert_eq!(
        REALTIME_AUDIO_SILENCE_THRESHOLD.to_bits(),
        SILENCE_THRESHOLD_BITS
    );
}

#[test]
fn an_empty_chunk_is_not_noted() {
    let mut progress = RealtimeProgress::default();
    let silent = AudioLevels {
        rms: 1,
        peak: 1,
        avg_rms: 1,
    };
    progress_note_chunk(&mut progress, 0, silent);
    assert_eq!(progress.debug.chunks_sent, 0);
    assert_eq!(progress.debug.audio.last_rms, 0);
}

#[test]
fn commits_are_counted() {
    let mut progress = RealtimeProgress::default();
    progress_note_commit(&mut progress);
    progress_note_commit(&mut progress);
    assert_eq!(progress.debug.commits_sent, 2);
}

#[test]
fn progress_note_event_captures_recent_events() {
    let mut progress = RealtimeProgress::default();

    progress_note_event(&mut progress, &json(r#"{"type": "transcription.delta"}"#), 1);
    progress_note_event(
        &mut progress,
        &json(
            r#"{"type": "error", "error": {"code": "invalid_request_error",
                "message": "bad request", "event_id": "evt_123"}}"#,
        ),
        2,
    );

    let (_, _, debug) = progress_snapshot(&progress);

    assert_eq!(debug.events_received, 2);
    assert_eq!(debug.errors_received, 1);
    assert_eq!(debug.last_event_type.as_deref(), Some("error"));
    assert_eq!(
        debug.last_error_code.as_deref(),
        Some("invalid_request_error")
    );
    assert_eq!(debug.last_error_message.as_deref(), Some("bad request"));
    assert_eq!(debug.last_error_event_id.as_deref(), Some("evt_123"));
    assert_eq!(debug.recent_events.len(), 2);
    assert_eq!(debug.recent_events[0].seq, 1);
    assert_eq!(debug.recent_events[0].event_type, "transcription.delta");
    assert_eq!(debug.recent_events[1].seq, 2);
    assert_eq!(debug.recent_events[1].event_type, "error");
    assert_eq!(
        debug.recent_events[1].error_code.as_deref(),
        Some("invalid_request_error")
    );
}

#[test]
fn an_error_at_the_top_of_an_event_is_noted() {
    let mut progress = RealtimeProgress::default();
    progress_note_event(
        &mut progress,
        &json(
            r#"{"type":"error","code":"unknown_event","event_id":"evt_unknown_001",
                "message":"Unknown event type: response.create"}"#,
        ),
        9,
    );
    let debug = progress.debug;
    assert_eq!(debug.errors_received, 1);
    assert_eq!(debug.last_error_code.as_deref(), Some("unknown_event"));
    assert_eq!(
        debug.last_error_message.as_deref(),
        Some("Unknown event type: response.create")
    );
    assert_eq!(debug.last_error_event_id.as_deref(), Some("evt_unknown_001"));
    let last = debug.recent_events.last().expect("an event");
    assert!(last.raw_excerpt.as_deref().unwrap_or_default().contains("unknown_event"));
    assert_eq!(debug.last_event_at_ms, Some(9));
}

#[test]
fn only_the_last_events_are_kept() {
    let mut progress = RealtimeProgress::default();
    let event = json("{}");
    for at in 0..(EVENT_BUFFER as u64 + 10) {
        progress_note_event(&mut progress, &event, at);
    }
    let events = &progress.debug.recent_events;
    assert_eq!(events.len(), EVENT_BUFFER);
    assert_eq!(events[0].seq, 11);
    assert_eq!(events[EVENT_BUFFER - 1].seq, EVENT_BUFFER as u64 + 10);
    assert_eq!(events[0].event_type, "<unknown>");
}

#[test]
fn events_and_errors_are_counted() {
    let mut progress = RealtimeProgress::default();
    let plain = json(r#"{"type":"a"}"#);
    let error = json(r#"{"type":"error","error":{"message":"m"}}"#);
    for event in [&plain, &error, &plain, &error, &plain] {
        progress_note_event(&mut progress, event, 7);
    }
    let debug = &progress.debug;
    assert_eq!((debug.events_received, debug.errors_received), (5, 2));
    assert_eq!(debug.last_event_type.as_deref(), Some("a"));
    let notes: Vec<(u64, &str)> = debug
        .recent_events
        .iter()
        .map(|note| (note.seq, note.event_type.as_str()))
        .collect();
    assert_eq!(notes, vec![(1, "a"), (2, "error"), (3, "a"), (4, "error"), (5, "a")]);
}
