use omni::json::Json;
use omni::transcript::{
    apply_transcript_update, emit_transcript_update_for_ui, event_error_metadata,
    event_indicates_completion, event_raw_excerpt, event_text_fragment, merge_transcript_snapshot,
    shorten, text_from_value, transcript_update_from_event, TranscriptUpdate,
};

fn json(text: &str) -> Json {
    Json::parse(text).expect("text should be JSON")
}

fn fragment(event: &Json) -> Option<String> {
    transcript_update_from_event(event).map(|update| match update {
        TranscriptUpdate::Delta(value) | TranscriptUpdate::Snapshot(value) => value,
    })
}

#[test]
fn transcript_fragment_from_event_handles_supported_shapes() {
    let delta = json(r#"{"type": "response.output_text.delta", "delta": "hel"}"#);
    assert_eq!(fragment(&delta).as_deref(), Some("hel"));

    let completed = json(
        r#"{"type": "conversation.item.input_audio_transcription.completed", "transcript": "hello"}"#,
    );
    assert_eq!(fragment(&completed).as_deref(), Some("hello"));

    let transcription_delta = json(r#"{"type": "transcription.delta", "delta": " there"}"#);
    assert_eq!(fragment(&transcription_delta).as_deref(), Some(" there"));

    let content_part = json(
        r#"{"type": "response.content_part.added", "part": {"type": "output_text", "text": " world"}}"#,
    );
    assert_eq!(fragment(&content_part).as_deref(), Some(" world"));

    let output_item_done = json(
        r#"{"type": "response.output_item.done",
            "item": {"content": [{"type": "output_text", "text": "!"}]}}"#,
    );
    assert_eq!(fragment(&output_item_done).as_deref(), Some("!"));

    let response_done = json(
        r#"{"type": "response.done",
            "response": {"output": [{"content": [{"type": "output_text", "text": " done"}]}]}}"#,
    );
    assert_eq!(fragment(&response_done).as_deref(), Some(" done"));
}

#[test]
fn completion_detector_recognizes_terminal_events() {
    let terminal = json(r#"{"type": "response.done"}"#);
    let output_item_terminal = json(r#"{"type": "response.output_item.done"}"#);
    let transcription_terminal = json(r#"{"type": "transcription.done"}"#);
    let status_terminal =
        json(r#"{"type": "response.in_progress", "response": {"status": "completed"}}"#);
    let non_terminal = json(r#"{"type": "response.output_text.delta"}"#);

    assert!(event_indicates_completion(&terminal));
    assert!(event_indicates_completion(&output_item_terminal));
    assert!(event_indicates_completion(&transcription_terminal));
    assert!(event_indicates_completion(&status_terminal));
    assert!(!event_indicates_completion(&non_terminal));
}

#[test]
fn transcript_updates_merge_delta_and_snapshots() {
    let mut transcript = String::new();

    apply_transcript_update(&mut transcript, &TranscriptUpdate::Delta("Hello".into()));
    apply_transcript_update(&mut transcript, &TranscriptUpdate::Delta(", ".into()));
    apply_transcript_update(&mut transcript, &TranscriptUpdate::Delta("Victor".into()));
    apply_transcript_update(
        &mut transcript,
        &TranscriptUpdate::Snapshot("Hello, Victor".into()),
    );
    apply_transcript_update(
        &mut transcript,
        &TranscriptUpdate::Snapshot("software engineer".into()),
    );

    assert_eq!(transcript, "Hello, Victor software engineer");
}

fn replay(events: &[&str]) -> (String, usize, bool) {
    let mut transcript = String::new();
    let mut updates = 0;
    let mut saw_completion = false;
    for event in events {
        let event = json(event);
        if let Some(update) = transcript_update_from_event(&event) {
            apply_transcript_update(&mut transcript, &update);
            updates += 1;
        }
        if event_indicates_completion(&event) {
            saw_completion = true;
        }
    }
    (transcript.trim().to_string(), updates, saw_completion)
}

#[test]
fn a_stream_without_text_stays_empty() {
    let (transcript, updates, completed) = replay(&[
        r#"{"type":"transcription.delta","delta":""}"#,
        r#"{"type":"transcription.delta","delta":""}"#,
        r#"{"type":"transcription.done","text":""}"#,
    ]);
    assert_eq!(updates, 0);
    assert!(transcript.is_empty());
    assert!(completed);
}

#[test]
fn a_snapshot_of_the_deltas_adds_nothing() {
    let (transcript, updates, completed) = replay(&[
        r#"{"type":"transcription.delta","delta":"hello"}"#,
        r#"{"type":"transcription.delta","delta":" world"}"#,
        r#"{"type":"transcription.done","text":"hello world"}"#,
    ]);
    assert_eq!(updates, 3);
    assert_eq!(transcript, "hello world");
    assert!(completed);
}

#[test]
fn snapshots_take_their_place() {
    let mut t = "hello".to_string();
    merge_transcript_snapshot(&mut t, "hello world");
    assert_eq!(t, "hello world");
    merge_transcript_snapshot(&mut t, "world");
    assert_eq!(t, "hello world");
    merge_transcript_snapshot(&mut t, "  ");
    assert_eq!(t, "hello world");
    merge_transcript_snapshot(&mut t, "again");
    assert_eq!(t, "hello world again");
    merge_transcript_snapshot(&mut t, "again");
    assert_eq!(t, "hello world again");
    let mut t = "a ".to_string();
    merge_transcript_snapshot(&mut t, "b");
    assert_eq!(t, "a b");
    let mut t = String::new();
    merge_transcript_snapshot(&mut t, "first");
    assert_eq!(t, "first");
}

#[test]
fn text_is_found_where_servers_put_it() {
    assert_eq!(text_from_value(&json(r#""plain""#)).as_deref(), Some("plain"));
    assert_eq!(text_from_value(&json(r#"["a", "", "b"]"#)).as_deref(), Some("ab"));
    assert_eq!(
        text_from_value(&json(r#"{"content": [{"text": "x"}, {"transcript": "y"}]}"#)).as_deref(),
        Some("xy")
    );
    assert_eq!(text_from_value(&json("3")), None);
    assert_eq!(text_from_value(&json(r#"{"other": 1}"#)), None);
}

#[test]
fn updates_come_in_two_kinds() {
    assert!(matches!(
        transcript_update_from_event(&json(r#"{"type":"response.text.delta","delta":"x"}"#)),
        Some(TranscriptUpdate::Delta(_))
    ));
    assert!(matches!(
        transcript_update_from_event(&json(r#"{"type":"response.completed","text":"x"}"#)),
        Some(TranscriptUpdate::Snapshot(_))
    ));
    assert!(transcript_update_from_event(&json(r#"{"type":"session.created"}"#)).is_none());
}

#[test]
fn the_interface_is_told_of_updates() {
    let message = emit_transcript_update_for_ui(&TranscriptUpdate::Delta(" b".into()), " a b ")
        .expect("told");
    assert_eq!(message.event_type, "transcript.delta");
    assert_eq!(message.payload.to_text(), r#"{"delta":" b","preview":"a b"}"#);
    let message = emit_transcript_update_for_ui(&TranscriptUpdate::Snapshot("x".into()), "a x")
        .expect("told");
    assert_eq!(message.event_type, "transcript.snapshot");
    assert_eq!(message.payload.to_text(), r#"{"text":"a x"}"#);
    assert!(emit_transcript_update_for_ui(&TranscriptUpdate::Delta("".into()), "a").is_none());
    assert!(emit_transcript_update_for_ui(&TranscriptUpdate::Delta(" ".into()), "  ").is_none());
    assert!(emit_transcript_update_for_ui(&TranscriptUpdate::Snapshot(" ".into()), "a").is_none());
}

#[test]
fn long_texts_are_shortened() {
    assert_eq!(shorten("  abc ", 3), "abc");
    assert_eq!(shorten("abcd", 3), "abc…");
    assert_eq!(shorten("äöüß", 2), "äö…");
}

#[test]
fn what_is_noted_of_events() {
    let event = json(r#"{"type":"transcription.delta","delta":"  hi "}"#);
    assert_eq!(event_text_fragment(&event).as_deref(), Some("hi"));
    let error = json(r#"{"type":"error","code":"c","message":"m","event_id":"e"}"#);
    let noted = event_error_metadata(&error);
    assert_eq!(noted.code.as_deref(), Some("c"));
    assert_eq!(noted.message.as_deref(), Some("m"));
    assert_eq!(noted.event_id.as_deref(), Some("e"));
    let excerpt = event_raw_excerpt(&error, "error").expect("errors are kept");
    assert!(excerpt.contains("\"code\":\"c\""));
    let nested = json(r#"{"error":{"code":"c2"}}"#);
    assert_eq!(event_error_metadata(&nested).code.as_deref(), Some("c2"));
}

#[test]
fn merging_keeps_what_was_there() {
    for (transcript, snapshot) in [
        ("one two", "two"),
        ("one two", "one two three"),
        ("one two ", "three"),
        ("", "one"),
        ("one", "  "),
    ] {
        let mut merged = transcript.to_string();
        merge_transcript_snapshot(&mut merged, snapshot);
        assert!(merged.trim().starts_with(transcript.trim()));
        assert!(merged.trim().ends_with(snapshot.trim()));
    }
}
