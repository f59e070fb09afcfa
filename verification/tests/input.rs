use omni::config::{default_config, get_value_by_key, set_value_by_key, ConfigValue};
use omni::input::{
    configured_device_name, enumerate_input_devices, input_target, list, resolve_active_device,
    resolve_device_name_by_id, resolve_device_name_by_name, set_answer, show,
    InputDeviceEntry, InputTarget,
};

fn names(names: &[&str]) -> Vec<Option<String>> {
    names.iter().map(|name| Some(name.to_string())).collect()
}

#[test]
fn configured_device_name_treats_default_as_unset() {
    let mut config = default_config();
    set_value_by_key(
        &mut config,
        "audio.device",
        ConfigValue::String("default".into()),
    )
    .expect("set should work");

    assert!(configured_device_name(&config).is_none());
}

#[test]
fn resolve_active_device_prefers_configured_name() {
    let devices = vec![
        InputDeviceEntry {
            id: "0".into(),
            name: "Mic A".into(),
            is_default: true,
            is_selected: false,
        },
        InputDeviceEntry {
            id: "1".into(),
            name: "Mic B".into(),
            is_default: false,
            is_selected: true,
        },
    ];

    let active = resolve_active_device(&devices, Some("Mic B")).expect("active should exist");
    assert_eq!(active.name, "Mic B");
}

#[test]
fn resolve_active_device_uses_default_when_config_is_default() {
    let devices = vec![
        InputDeviceEntry {
            id: "0".into(),
            name: "Mic A".into(),
            is_default: true,
            is_selected: true,
        },
        InputDeviceEntry {
            id: "1".into(),
            name: "Mic B".into(),
            is_default: false,
            is_selected: false,
        },
    ];

    let active = resolve_active_device(&devices, None).expect("default should resolve");
    assert_eq!(active.name, "Mic A");
}

#[test]
fn resolve_active_device_returns_none_when_configured_device_missing() {
    let devices = vec![InputDeviceEntry {
        id: "0".into(),
        name: "Mic A".into(),
        is_default: true,
        is_selected: false,
    }];

    assert!(resolve_active_device(&devices, Some("Missing Mic")).is_none());
}

#[test]
fn resolve_device_name_by_name_returns_matching_name() {
    let devices = vec![
        InputDeviceEntry {
            id: "0".into(),
            name: "Mic A".into(),
            is_default: true,
            is_selected: true,
        },
        InputDeviceEntry {
            id: "1".into(),
            name: "Mic B".into(),
            is_default: false,
            is_selected: false,
        },
    ];

    let selected = resolve_device_name_by_name(&devices, "Mic B").expect("name should resolve");
    assert_eq!(selected, "Mic B");
    assert!(resolve_device_name_by_name(&devices, "Missing").is_err());
}

#[test]
fn resolve_device_name_by_id_returns_matching_name() {
    let devices = vec![
        InputDeviceEntry {
            id: "0".into(),
            name: "Mic A".into(),
            is_default: true,
            is_selected: true,
        },
        InputDeviceEntry {
            id: "1".into(),
            name: "Mic B".into(),
            is_default: false,
            is_selected: false,
        },
    ];

    let selected = resolve_device_name_by_id(&devices, "1").expect("id should resolve");
    assert_eq!(selected, "Mic B");
}

#[test]
fn resolve_device_name_by_id_rejects_invalid_id() {
    let devices = vec![InputDeviceEntry {
        id: "0".into(),
        name: "Mic A".into(),
        is_default: true,
        is_selected: true,
    }];

    assert!(resolve_device_name_by_id(&devices, "abc").is_err());
    assert!(resolve_device_name_by_id(&devices, "7").is_err());
}

#[test]
fn why_a_device_is_not_found() {
    let (devices, _) =
        enumerate_input_devices(&names(&["A", "B"]), None, None).expect("devices");
    assert_eq!(
        resolve_device_name_by_id(&devices, "7").expect_err("too large").message,
        "input device id 7 not found (available ids: 0, 1)"
    );
    assert_eq!(
        resolve_device_name_by_id(&devices, "abc").expect_err("no number").chain(),
        "invalid input device id: abc: invalid digit found in string"
    );
    assert_eq!(
        resolve_device_name_by_name(&devices, "C").expect_err("no such name").message,
        "input device 'C' not found (available devices: A, B)"
    );
}

#[test]
fn devices_are_listed_with_their_marks() {
    let all = vec![Some("A".to_string()), None];
    let (devices, available) =
        enumerate_input_devices(&all, Some("A"), Some("<unknown>")).expect("devices");
    assert!(available);
    assert!(devices[0].is_default && !devices[0].is_selected);
    assert_eq!(devices[1].name, "<unknown>");
    assert!(devices[1].is_selected);
    assert_eq!(devices[1].id, "1");
    let (_, available) = enumerate_input_devices(&all, Some("A"), Some("B")).expect("devices");
    assert!(!available);
    assert_eq!(
        enumerate_input_devices(&vec![], None, None).expect_err("none").message,
        "no input audio devices available"
    );
}

#[test]
fn the_list_of_devices() {
    let mut config = default_config();
    let (response, lines) = list(&config, &names(&["A", "B"]), Some("A")).expect("devices");
    assert_eq!(response.configured_device, "default");
    assert!(response.configured_device_available);
    assert_eq!(
        lines,
        vec![
            "configured input: default (system default input device)",
            "available input devices:",
            "  [0] A (selected, default)",
            "  [1] B",
        ]
    );
    set_value_by_key(&mut config, "audio.device", ConfigValue::text("C")).expect("set");
    let (response, lines) = list(&config, &names(&["A", "B"]), Some("B")).expect("devices");
    assert!(!response.configured_device_available);
    assert_eq!(
        lines,
        vec![
            "configured input: C",
            "warning: configured input device is not currently available",
            "available input devices:",
            "  [0] A",
            "  [1] B (default)",
        ]
    );
}

#[test]
fn the_configured_device_is_shown() {
    let mut config = default_config();
    let (response, lines) = show(&config, &names(&["A", "B"]), Some("B")).expect("devices");
    assert_eq!(response.active_device.as_deref(), Some("B"));
    assert_eq!(response.active_id.as_deref(), Some("1"));
    assert!(response.active_is_default);
    assert_eq!(
        lines,
        vec![
            "configured input: default",
            "configured available: yes",
            "active input: B [1] (default)",
            "default input: B",
        ]
    );
    set_value_by_key(&mut config, "audio.device", ConfigValue::text("C")).expect("set");
    let (response, lines) = show(&config, &names(&["A"]), None).expect("devices");
    assert!(response.active_device.is_none());
    assert_eq!(
        lines,
        vec![
            "configured input: C",
            "configured available: no",
            "active input: unavailable",
            "hint: run `omni input list` then `omni input set <id>`",
        ]
    );
}

#[test]
fn what_input_set_is_asked_for() {
    assert!(matches!(
        input_target(Some("default".into()), None),
        Ok(InputTarget::Default)
    ));
    assert!(matches!(input_target(Some("3".into()), None), Ok(InputTarget::Id(id)) if id == "3"));
    assert!(matches!(
        input_target(None, Some(" Mic ".into())),
        Ok(InputTarget::Name(name)) if name == "Mic"
    ));
    assert!(matches!(
        input_target(None, Some("default".into())),
        Ok(InputTarget::Default)
    ));
    assert_eq!(
        input_target(None, Some("  ".into())).expect_err("empty").message,
        "input device name cannot be empty"
    );
    assert_eq!(
        input_target(None, None).expect_err("nothing").message,
        "provide either <id> or --name <device>"
    );
    assert_eq!(
        input_target(Some("1".into()), Some("x".into())).expect_err("both").message,
        "provide either <id> or --name <device>, not both"
    );
}

#[test]
fn a_device_is_set() {
    let mut config = default_config();
    let selected = omni::input::set(&mut config, &InputTarget::Id("1".into()), &names(&["A", "B"]))
        .expect("found");
    assert_eq!(selected.device, "B");
    assert_eq!(selected.id.as_deref(), Some("1"));
    assert!(selected.name.is_none());
    assert_eq!(configured_device_name(&config).as_deref(), Some("B"));
    let (response, lines) = set_answer(selected, "/c.toml", true);
    assert!(response.ok && response.daemon_reloaded);
    assert_eq!(response.key, "audio.device");
    assert_eq!(response.message, "input device saved and daemon reloaded");
    assert_eq!(
        lines,
        vec![
            "updated audio.device in /c.toml",
            "audio.device=B",
            "daemon runtime config reloaded",
        ]
    );

    let selected = omni::input::set(&mut config, &InputTarget::Name("A".into()), &names(&["A", "B"]))
        .expect("found");
    assert_eq!(selected.name.as_deref(), Some("A"));
    assert!(selected.id.is_none());

    assert!(omni::input::set(&mut config, &InputTarget::Name("C".into()), &names(&["A"])).is_err());
    assert_eq!(configured_device_name(&config).as_deref(), Some("A"));
    assert_eq!(
        omni::input::set(&mut config, &InputTarget::Id("0".into()), &vec![]).expect_err("none").message,
        "no input audio devices available"
    );

    let selected = omni::input::set(&mut config, &InputTarget::Default, &vec![]).expect("default");
    assert_eq!(
        get_value_by_key(&config, "audio.device").and_then(|value| value.as_str()),
        Some("default")
    );
    let (response, lines) = set_answer(selected, "/c.toml", false);
    assert_eq!(response.message, "input device saved (daemon not running)");
    assert_eq!(lines[2], "daemon not running; config applies on next start");
}
