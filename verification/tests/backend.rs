use omni::backend::{
    extract_transcription_text, pcm16_bytes, transcription_reply, OpenAiRealtimeBackend,
    RealtimeTransport, SocketEvent, SocketRead, TranscriptionReply,
};
use omni::config::{default_config, set_value_by_key, ConfigValue};
use omni::json::Json;

fn json(text: &str) -> Json {
    Json::parse(text).expect("text should be JSON")
}

fn default_backend() -> OpenAiRealtimeBackend {
    OpenAiRealtimeBackend::from_config(&default_config()).expect("config should parse")
}

#[test]
fn rejects_non_openai_realtime_llm_api() {
    let mut config = default_config();
    set_value_by_key(
        &mut config,
        "server.llmApi",
        ConfigValue::String("anthropic".into()),
    )
    .expect("set should work");

    let error = OpenAiRealtimeBackend::from_config(&config)
        .expect_err("non-openai-realtime llmApi should fail");

    assert!(error.message.contains("only supports openai-realtime"));
}

#[test]
fn ws_url_uses_ws_scheme_and_model_query() {
    let config = default_config();
    let backend = OpenAiRealtimeBackend::from_config(&config).expect("config should parse");

    assert_eq!(
        backend.ws_url(),
        "ws://127.0.0.1:8000/v1/realtime?model=voxtral"
    );
}

#[test]
fn transport_send_requires_prior_connection() {
    let config = default_config();
    let backend = OpenAiRealtimeBackend::from_config(&config).expect("config should parse");
    let transport = backend.build_transport();

    assert_eq!(
        transport.endpoint(),
        "ws://127.0.0.1:8000/v1/realtime?model=voxtral"
    );
    assert!(transport.send_audio_chunk(&[1, 2, 3]).is_err());
}

#[test]
fn extracts_transcription_text_from_supported_shapes() {
    let a = json(r#"{"text": "hello"}"#);
    assert_eq!(
        extract_transcription_text(&a).expect("should parse"),
        "hello"
    );

    let b = json(r#"{"transcript": "world"}"#);
    assert_eq!(
        extract_transcription_text(&b).expect("should parse"),
        "world"
    );

    let c = json(r#"{"result": {"text": "nested"}}"#);
    assert_eq!(
        extract_transcription_text(&c).expect("should parse"),
        "nested"
    );
}

#[test]
fn extracting_fails_without_text() {
    let error = extract_transcription_text(&json(r#"{"text": 3}"#)).expect_err("should fail");
    assert_eq!(
        error.message,
        "transcription response did not include text/transcript field"
    );
}

#[test]
fn secure_addresses_stay_secure() {
    let backend = OpenAiRealtimeBackend {
        llm_api: "openai-realtime".into(),
        base_url: "https://api.openai.com/v1/".into(),
        api_key: "key".into(),
        model: "m".into(),
    };
    assert_eq!(backend.ws_url(), "wss://api.openai.com/v1/realtime?model=m");
    assert_eq!(
        backend.transcription_url(),
        "https://api.openai.com/v1/audio/transcriptions"
    );
    assert_eq!(backend.models_url(), "https://api.openai.com/v1/models");
    assert_eq!(backend.bearer().as_deref(), Some("key"));
}

#[test]
fn slashes_at_the_end_of_the_address_do_not_matter() {
    let mut backend = default_backend();
    let plain = backend.ws_url();
    backend.base_url.push_str("//");
    assert_eq!(backend.ws_url(), plain);
}

#[test]
fn no_key_means_no_header() {
    let backend = default_backend();
    assert!(backend.bearer().is_none());
    let request = backend.build_transport().connect().expect("not open yet");
    assert_eq!(request.url, "ws://127.0.0.1:8000/v1/realtime?model=voxtral");
    assert_eq!(request.beta, "realtime=v1");
    assert!(request.authorization.is_none());
}

#[test]
fn the_key_goes_into_the_header() {
    let mut backend = default_backend();
    backend.api_key = "secret".into();
    let request = backend.build_transport().connect().expect("not open yet");
    assert_eq!(request.authorization.as_deref(), Some("Bearer secret"));
}

#[test]
fn keys_that_are_no_text_are_refused() {
    for key in ["server.llmApi", "server.baseUrl", "server.apiKey", "server.model"] {
        let mut config = default_config();
        set_value_by_key(&mut config, key, ConfigValue::Integer(1)).expect("set should work");
        let error = OpenAiRealtimeBackend::from_config(&config).expect_err("should fail");
        assert!(error.message.contains(key), "{}", error.message);
    }
}

#[test]
fn messages_of_an_open_connection() {
    let mut transport = default_backend().build_transport();
    transport.opened();
    assert!(transport.connect().is_none());
    assert_eq!(
        transport.send_session_update_model("m").expect("open"),
        r#"{"model":"m","session":{"model":"m"},"type":"session.update"}"#
    );
    assert_eq!(
        transport.send_commit().expect("open"),
        r#"{"type":"input_audio_buffer.commit"}"#
    );
    assert_eq!(
        transport.send_commit_with_final(true).expect("open"),
        r#"{"final":true,"type":"input_audio_buffer.commit"}"#
    );
    assert!(transport.close());
    assert!(!transport.close());
    assert_eq!(
        transport.send_commit().expect_err("closed").message,
        "transport is not connected"
    );
}

#[test]
fn audio_goes_out_in_base64() {
    let mut transport = default_backend().build_transport();
    transport.opened();
    // The bytes are 01 00 02 00 FF FF.
    assert_eq!(
        transport.send_audio_chunk(&[1, 2, -1]).expect("open"),
        r#"{"audio":"AQACAP//","type":"input_audio_buffer.append"}"#
    );
    // One sample leaves one place to fill.
    assert_eq!(
        transport.send_audio_chunk(&[256]).expect("open"),
        r#"{"audio":"AAE=","type":"input_audio_buffer.append"}"#
    );
    // Two samples leave two.
    assert_eq!(
        transport.send_audio_chunk(&[-2, 32767]).expect("open"),
        r#"{"audio":"/v//fw==","type":"input_audio_buffer.append"}"#
    );
    assert_eq!(
        transport.send_audio_chunk(&[]).expect_err("empty").message,
        "audio chunk cannot be empty"
    );
}

#[test]
fn samples_become_bytes_lower_first() {
    assert_eq!(pcm16_bytes(&[0x1234, -2]), vec![0x34, 0x12, 0xfe, 0xff]);
    assert!(pcm16_bytes(&[]).is_empty());
}

#[test]
fn what_came_from_the_socket() {
    let mut transport = default_backend().build_transport();
    assert!(transport.read_event_with_timeout(SocketRead::TimedOut).is_err());
    transport.opened();
    match transport.read_event_with_timeout(SocketRead::Text(r#"{"type":"x"}"#.into())) {
        Ok(SocketEvent::Event(event)) => assert_eq!(event.get_str("type"), Some("x")),
        _ => panic!("expected an event"),
    }
    assert!(matches!(
        transport.read_event_with_timeout(SocketRead::Ping),
        Ok(SocketEvent::AnswerPing)
    ));
    assert!(matches!(
        transport.read_event_with_timeout(SocketRead::Closed),
        Ok(SocketEvent::Nothing)
    ));
    let error = transport
        .read_event_with_timeout(SocketRead::Text("{".into()))
        .err()
        .expect("no JSON");
    assert_eq!(error.message, "failed parsing realtime websocket JSON event");
    assert_eq!(
        error.cause.as_deref(),
        Some("EOF while parsing an object at line 1 column 1")
    );
    let error = transport
        .read_event_with_timeout(SocketRead::Failed("gone".into()))
        .err()
        .expect("failed");
    assert_eq!(error.chain(), "failed reading websocket event: gone");
}

#[test]
fn a_whole_recording_is_asked_for() {
    let mut backend = default_backend();
    backend.api_key = "k".into();
    let request = backend.transcribe_wav_bytes(vec![1, 2]);
    assert_eq!(
        request.url,
        "http://127.0.0.1:8000/v1/audio/transcriptions"
    );
    assert_eq!(request.model, "voxtral");
    assert_eq!(request.bearer.as_deref(), Some("k"));
    assert_eq!(request.file_name, "recording.wav");
    assert_eq!(request.mime, "audio/wav");
    assert_eq!(request.wav, vec![1, 2]);
}

#[test]
fn replies_to_a_whole_recording() {
    let received = |body: &[u8]| transcription_reply(&TranscriptionReply::Received(body.to_vec()));
    let refused = |status: &str, body: Option<&str>| {
        transcription_reply(&TranscriptionReply::Refused {
            status: status.into(),
            body: body.map(str::to_string),
        })
    };
    assert_eq!(received(br#"{"text":"hi"}"#).expect("should work"), "hi");
    assert_eq!(
        refused("500 Internal Server Error", Some("no")).expect_err("failed").message,
        "transcription request failed: 500 Internal Server Error no"
    );
    assert_eq!(
        refused("502 Bad Gateway", None).expect_err("failed").message,
        "transcription request failed: 502 Bad Gateway <failed reading error body>"
    );
    assert_eq!(
        received(b"x").expect_err("no JSON").chain(),
        "failed decoding transcription response JSON: error decoding response body: \
         expected value at line 1 column 1"
    );
    assert_eq!(
        received(b"{\"text\":\"\xff\"}").expect_err("no UTF-8").chain(),
        "failed decoding transcription response JSON: error decoding response body: \
         invalid unicode code point at line 1 column 10"
    );
    assert_eq!(
        transcription_reply(&TranscriptionReply::Unreadable("broken".into()))
            .expect_err("unreadable")
            .chain(),
        "failed decoding transcription response JSON: broken"
    );
    assert_eq!(
        received(b"{}").expect_err("no text").message,
        "transcription response did not include text/transcript field"
    );
}
