use omni::client::status_snapshot;
use omni::config::{default_config, set_value_by_key, ConfigValue};
use omni::daemon::{handle_status, DaemonState};
use omni::doctor::{
    audio_probe_config_from_config, configured_model_loaded, model_ids_from_payload, run,
    show_report, summarize_model_ids, AudioProbeResult, DoctorFacts, ModelsReply, ProbeCounters,
    ToolFacts,
};
use omni::json::Json;

fn texts(items: &[&str]) -> Vec<String> {
    items.iter().map(|item| item.to_string()).collect()
}

#[test]
fn configured_model_loaded_detects_model_present() {
    let body = r#"{"object":"list","data":[{"id":"voxtral-realtime"},{"id":"other-model"}]}"#;

    let (loaded, ids) =
        configured_model_loaded(body, "voxtral-realtime").expect("models payload should parse");

    assert!(loaded);
    assert_eq!(ids[0], "voxtral-realtime");
}

#[test]
fn configured_model_loaded_detects_model_missing() {
    let body = r#"{"models":[{"id":"a"},{"id":"b"}]}"#;

    let (loaded, ids) =
        configured_model_loaded(body, "voxtral-realtime").expect("models payload should parse");

    assert!(!loaded);
    assert_eq!(ids, vec!["a".to_string(), "b".to_string()]);
}

#[test]
fn model_ids_from_payload_handles_array_shape() {
    let payload = Json::parse(r#"[{"id": "x"}, {"id": "y"}]"#).expect("text should be JSON");

    assert_eq!(
        model_ids_from_payload(&payload),
        vec!["x".to_string(), "y".to_string()]
    );
}

#[test]
fn audio_probe_config_defaults_are_valid() {
    let config = audio_probe_config_from_config(None).expect("defaults should parse");
    assert_eq!(config.sample_rate, 16_000);
    assert_eq!(config.channels, 1);
    assert!(config.device_name.is_none());
    assert!(config.duration_ms > 0);
}

#[test]
fn audio_probe_config_rejects_zero_sample_rate() {
    let mut config = default_config();
    set_value_by_key(&mut config, "audio.sample_rate", ConfigValue::Integer(0))
        .expect("set should work");

    assert!(audio_probe_config_from_config(Some(&config)).is_err());
}

#[test]
fn the_probe_counts_chunks() {
    let mut counters = ProbeCounters {
        chunks: 0,
        samples: 0,
        silent_chunks: 0,
    };
    counters.count(4, 0.008f32.to_bits());
    counters.count(4, 0.009f32.to_bits());
    assert_eq!(
        counters,
        ProbeCounters {
            chunks: 2,
            samples: 8,
            silent_chunks: 1,
        }
    );
    counters.samples = u64::MAX;
    counters.count(4, 0.009f32.to_bits());
    assert_eq!(counters.samples, u64::MAX);
}

#[test]
fn lists_of_models_that_say_nothing() {
    assert!(configured_model_loaded("{", "m").is_err());
    assert!(configured_model_loaded("{}", "m").is_err());
}

#[test]
fn models_are_summed_up() {
    assert_eq!(summarize_model_ids(&texts(&["a", "b"])), "a, b");
    assert_eq!(
        summarize_model_ids(&texts(&["a", "b", "c", "d", "e", "f", "g"])),
        "a, b, c, d, e, ... +2 more"
    );
}

fn healthy() -> DoctorFacts {
    DoctorFacts {
        config_path: Ok("/c.toml".into()),
        config: Ok(default_config()),
        status: Ok(handle_status(7, &DaemonState::default(), None, 0, 0)),
        models: Some(ModelsReply::Replied {
            code: 200,
            success: true,
            status: "200 OK".into(),
            body: r#"{"data":[{"id":"voxtral"}]}"#.into(),
        }),
        probe: Some(Ok(AudioProbeResult {
            device_name: "Mic".into(),
            sample_rate: 48_000,
            channels: 2,
            duration_ms: 1_500,
            chunks: 3,
            samples: 30,
            peak: 0.5f32.to_bits(),
            level_detail: "loud".into(),
        })),
        tools: ToolFacts::Linux {
            wl_paste: true,
            wl_copy: true,
            xclip: false,
            wtype: false,
            xdotool: true,
        },
    }
}

#[test]
fn all_is_well() {
    let report = run(&healthy());
    assert!(report.ok);
    assert_eq!(
        show_report(&report),
        texts(&[
            "doctor: ok",
            "✓ config.path — /c.toml",
            "✓ config.parse — loaded config successfully",
            "✓ server.llmApi — openai-realtime",
            "✓ daemon.status — running pid=7 recording=false",
            "✓ server.reachability — http://127.0.0.1:8000/v1/models -> HTTP 200 OK",
            "✓ server.model.loaded — configured model voxtral found in /models (voxtral)",
            "✓ audio.probe.config — device=default sample_rate=16000 channels=1 duration_ms=1500 silence_threshold=0.008",
            "✓ audio.input_device — Mic (sample_rate=48000 channels=2)",
            "✓ audio.probe.capture — captured 3 chunks / 30 samples over 1500ms",
            "✓ audio.probe.level — loud",
            "✓ tool.clipboard.read — need wl-paste or xclip (wl-paste: found, xclip: missing)",
            "✓ tool.clipboard.write — need wl-copy or xclip (wl-copy: found, xclip: missing)",
            "✓ tool.clipboard.paste — need wtype (Wayland) or xdotool (X11) (wtype: missing, xdotool: found)",
        ])
    );
}

#[test]
fn issues_are_found() {
    let facts = DoctorFacts {
        config_path: Err("no home".into()),
        config: Err("no file".into()),
        status: Ok(status_snapshot(None, None)),
        models: None,
        probe: Some(Err("no device".into())),
        tools: ToolFacts::Mac {
            pbcopy: true,
            pbpaste: false,
            osascript: true,
        },
    };
    let report = run(&facts);
    assert!(!report.ok);
    assert_eq!(
        show_report(&report),
        texts(&[
            "doctor: issues found",
            "✗ config.path — no home",
            "✗ config.parse — no file",
            "✗ daemon.status — stopped",
            "✓ audio.probe.config — device=default sample_rate=16000 channels=1 duration_ms=1500 silence_threshold=0.008",
            "✗ audio.input_device — requested=default (no device)",
            "✗ audio.probe.capture — no device",
            "✓ tool.pbcopy — found",
            "✗ tool.pbpaste — missing from PATH",
            "✓ tool.osascript — found",
        ])
    );
}

#[test]
fn a_server_that_wants_a_key_is_reachable() {
    let mut facts = healthy();
    facts.models = Some(ModelsReply::Replied {
        code: 401,
        success: false,
        status: "401 Unauthorized".into(),
        body: String::new(),
    });
    let report = run(&facts);
    assert!(!report.ok);
    assert!(report.checks[4].ok);
    assert!(!report.checks[5].ok);
    assert_eq!(
        report.checks[5].detail,
        "cannot verify configured model voxtral because /models returned HTTP 401 Unauthorized"
    );
    facts.models = Some(ModelsReply::Failed("refused".into()));
    let report = run(&facts);
    assert!(!report.checks[4].ok);
    assert_eq!(
        report.checks[5].detail,
        "cannot verify configured model voxtral: refused"
    );
}

#[test]
fn a_stopped_daemon_is_an_issue() {
    let mut facts = healthy();
    facts.status = Ok(status_snapshot(None, None));
    assert!(!run(&facts).ok);
}

#[test]
fn a_low_level_is_an_issue() {
    let mut facts = healthy();
    if let Some(Ok(probe)) = &mut facts.probe {
        probe.peak = 0.008f32.to_bits();
    }
    let report = run(&facts);
    assert!(!report.ok);
    let level = &report.checks[9];
    assert_eq!(level.name, "audio.probe.level");
    assert_eq!(
        level.detail,
        "loud; low input level detected (try speaking during doctor run)"
    );
}
