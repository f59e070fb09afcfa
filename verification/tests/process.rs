use omni::process::{
    is_alive, is_ui_client_process, parse_pid, parse_process_row, resolve_runtime_dir,
    ui_client_pid_path,
};

#[test]
fn numbers_of_processes() {
    assert_eq!(parse_pid(" 12\n"), Some(12));
    assert_eq!(parse_pid("+12"), Some(12));
    assert_eq!(parse_pid("4294967295"), Some(u32::MAX));
    assert_eq!(parse_pid("4294967296"), None);
    assert_eq!(parse_pid("-1"), None);
    assert_eq!(parse_pid(""), None);
}

#[test]
fn rows_of_the_process_table() {
    let p = parse_process_row("  Ss  /usr/bin/omni-transcribe-ui   --x\n").expect("a row");
    assert_eq!(p.state, "Ss");
    assert_eq!(p.command, "/usr/bin/omni-transcribe-ui --x");
    assert!(parse_process_row("  \n").is_none());
}

#[test]
fn which_process_is_the_interface() {
    let row = |text: &str| parse_process_row(text);
    assert!(is_ui_client_process(&row("S /x/omni-transcribe-ui"), None));
    assert!(!is_ui_client_process(&row("Z omni-transcribe-ui"), None));
    assert!(!is_ui_client_process(&row("S other"), None));
    assert!(is_ui_client_process(&row("S /x/fake.sh"), Some("fake.sh")));
    assert!(!is_ui_client_process(&row("S /x/fake.sh"), Some("")));
    assert!(!is_ui_client_process(&None, None));
}

#[test]
fn which_process_is_alive() {
    assert!(is_alive(&parse_process_row("S x"), false));
    assert!(!is_alive(&parse_process_row("Z+ x"), true));
    assert!(is_alive(&None, true));
    assert!(!is_alive(&None, false));
}

#[test]
fn paths_at_run_time() {
    assert_eq!(
        resolve_runtime_dir(None, Some(" /run/user/1 "), None).expect("dir"),
        "/run/user/1/omni"
    );
    assert_eq!(ui_client_pid_path("/r"), "/r/transcribe-ui.pid");
    assert_eq!(ui_client_pid_path("/r/"), "/r/transcribe-ui.pid");
}
