use omni::clipboard::{
    capture_failure, clipboard_tools, next_tool, ClipboardRequest, ClipboardSession,
    ClipboardTask, CommandAttempt, ToolStep,
};

#[test]
fn what_actions_ask_of_the_clipboard() {
    let mut session = ClipboardSession::default();
    assert!(matches!(
        session.execute_builtin("unstash", "t"),
        Ok(ClipboardRequest::Nothing)
    ));
    assert!(matches!(
        session.execute_builtin("stash", "t"),
        Ok(ClipboardRequest::Read)
    ));
    session.stash("before".into());
    assert!(matches!(
        session.execute_builtin("copy", "t"),
        Ok(ClipboardRequest::Write(text)) if text == "t"
    ));
    assert!(matches!(
        session.execute_builtin("paste", "t"),
        Ok(ClipboardRequest::Paste)
    ));
    session.carried_out("copy", true);
    session.carried_out("unstash", false);
    assert!(matches!(
        session.execute_builtin("unstash", "t"),
        Ok(ClipboardRequest::Write(text)) if text == "before"
    ));
    session.carried_out("unstash", true);
    assert!(matches!(
        session.execute_builtin("unstash", "t"),
        Ok(ClipboardRequest::Nothing)
    ));
    assert_eq!(
        session.execute_builtin("cut", "t").expect_err("unknown").message,
        "unsupported clipboard builtin: cut"
    );
}

#[test]
fn the_tools_and_their_order() {
    let read = clipboard_tools(ClipboardTask::Read, false, false);
    assert_eq!(read[0].program, "wl-paste");
    assert_eq!(read[0].args, vec!["--no-newline"]);
    assert_eq!(read[1].program, "xclip");
    assert_eq!(read[1].args, vec!["-selection", "clipboard", "-o"]);
    let write = clipboard_tools(ClipboardTask::Write, false, false);
    assert_eq!(write[0].program, "wl-copy");
    assert!(write[0].args.is_empty());
    assert_eq!(write[1].args, vec!["-selection", "clipboard"]);
    let paste = clipboard_tools(ClipboardTask::Paste, true, true);
    assert_eq!(paste[0].program, "wtype");
    assert_eq!(paste[0].args, vec!["-M", "ctrl", "-k", "v", "-m", "ctrl"]);
    let paste = clipboard_tools(ClipboardTask::Paste, false, true);
    assert_eq!(paste[0].program, "xdotool");
    assert_eq!(paste[0].args, vec!["key", "--clearmodifiers", "ctrl+v"]);
    assert_eq!(
        clipboard_tools(ClipboardTask::Paste, false, false)[0].program,
        "wtype"
    );
}

#[test]
fn tools_are_tried_in_turn() {
    let tools = clipboard_tools(ClipboardTask::Write, false, false);
    assert!(matches!(
        next_tool(ClipboardTask::Write, &tools, &vec![]),
        ToolStep::Run(0)
    ));
    assert!(matches!(
        next_tool(ClipboardTask::Write, &tools, &vec![CommandAttempt::NotFound]),
        ToolStep::Run(1)
    ));
    assert!(matches!(
        next_tool(
            ClipboardTask::Write,
            &tools,
            &vec![CommandAttempt::NotFound, CommandAttempt::Done]
        ),
        ToolStep::Done
    ));
    match next_tool(
        ClipboardTask::Write,
        &tools,
        &vec![CommandAttempt::NotFound, CommandAttempt::NotFound],
    ) {
        ToolStep::GiveUp(error) => assert_eq!(
            error.message,
            "clipboard copy/unstash requires wl-copy or xclip in PATH"
        ),
        other => panic!("unexpected step: {other:?}"),
    }
    match next_tool(
        ClipboardTask::Write,
        &tools,
        &vec![
            CommandAttempt::Failed("a".into()),
            CommandAttempt::Failed("b".into()),
        ],
    ) {
        ToolStep::GiveUp(error) => assert_eq!(
            error.message,
            "failed writing clipboard via Linux providers: wl-copy: a; xclip: b"
        ),
        other => panic!("unexpected step: {other:?}"),
    }
}

#[test]
fn why_a_tool_failed() {
    assert!(matches!(
        capture_failure("exit status: 1", " no display \n"),
        CommandAttempt::Failed(message) if message == "status exit status: 1 (no display)"
    ));
}
