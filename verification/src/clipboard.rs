//! The clipboard: what the actions on it ask for, and the tools that are tried in turn.
use vstd::prelude::*;

use crate::cli::option_view;
use crate::error::{fails_with, Error};
use crate::text::{
    holds_text, join, joined, joined_holds_each, same, stands_at, trim, trimmed, views,
};

verus! {

/// The clipboard over one run of hooks: what was put aside, where anything was.
#[derive(Debug)]
pub struct ClipboardSession {
    stashed: Option<String>,
}

/// What an action asks of the clipboard.
#[derive(Debug)]
pub enum ClipboardRequest {
    /// Read it, to put its contents aside.
    Read,
    /// Write this to it.
    Write(String),
    /// Paste it into the active window.
    Paste,
    Nothing,
}

impl Default for ClipboardSession {
    fn default() -> (r: Self)
        ensures
            r.aside() is None,
    {
        ClipboardSession { stashed: None }
    }
}

/// What is aside after an attempt at an action other than `stash`: `unstash` clears it once it has
/// succeeded.
pub open spec fn aside_after(
    aside: Option<Seq<char>>,
    action: Seq<char>,
    succeeded: bool,
) -> Option<Seq<char>> {
    if succeeded && action == "unstash"@ {
        None
    } else {
        aside
    }
}

/// What an action asks of the clipboard, apart from how its text is held.
pub enum Asked {
    Read,
    Write(Seq<char>),
    Paste,
    Nothing,
}

impl View for ClipboardRequest {
    type V = Asked;

    open spec fn view(&self) -> Asked {
        match self {
            ClipboardRequest::Read => Asked::Read,
            ClipboardRequest::Write(text) => Asked::Write(text@),
            ClipboardRequest::Paste => Asked::Paste,
            ClipboardRequest::Nothing => Asked::Nothing,
        }
    }
}

/// Whether an action is one on the clipboard.
pub open spec fn is_clipboard_action(action: Seq<char>) -> bool {
    action == "stash"@ || action == "copy"@ || action == "paste"@ || action == "unstash"@
}

/// What an action on the clipboard asks of it, with this aside.
pub open spec fn asked(aside: Option<Seq<char>>, action: Seq<char>, transcript: Seq<char>) -> Asked {
    if action == "stash"@ {
        Asked::Read
    } else if action == "copy"@ {
        Asked::Write(transcript)
    } else if action == "paste"@ {
        Asked::Paste
    } else {
        match aside {
            Some(previous) => Asked::Write(previous),
            None => Asked::Nothing,
        }
    }
}

impl ClipboardSession {
    /// What was put aside.
    pub closed spec fn aside(self) -> Option<Seq<char>> {
        option_view(self.stashed)
    }

    /// What a builtin action asks of the clipboard. `unstash` asks for what was put aside, which
    /// stays aside until that has succeeded.
    pub fn execute_builtin(&self, action: &str, transcript: &str) -> (r: Result<
        ClipboardRequest,
        Error,
    >)
        ensures
            if is_clipboard_action(action@) {
                r is Ok && r->Ok_0@ == asked(self.aside(), action@, transcript@)
            } else {
                fails_with(r, "unsupported clipboard builtin: "@ + action@)
            },
    {
        proof {
            actions_differ();
        }
        if same(action, "stash") {
            Ok(ClipboardRequest::Read)
        } else if same(action, "copy") {
            Ok(ClipboardRequest::Write(transcript.to_string()))
        } else if same(action, "paste") {
            Ok(ClipboardRequest::Paste)
        } else if same(action, "unstash") {
            match &self.stashed {
                Some(previous) => Ok(ClipboardRequest::Write(previous.clone())),
                None => Ok(ClipboardRequest::Nothing),
            }
        } else {
            let mut message = "unsupported clipboard builtin: ".to_string();
            message.append(action);
            Err(Error { message, cause: None })
        }
    }

    /// Takes in how an action came out: an `unstash` that succeeded leaves nothing aside.
    pub fn carried_out(&mut self, action: &str, succeeded: bool)
        ensures
            final(self).aside() == aside_after(old(self).aside(), action@, succeeded),
    {
        if succeeded && same(action, "unstash") {
            self.stashed = None;
        }
    }

    /// Puts aside what the clipboard held.
    pub fn stash(&mut self, contents: String)
        ensures
            final(self).aside() == Some(contents@),
    {
        self.stashed = Some(contents);
    }
}

// ---------------------------------------------------------------------------------------------
// The tools
// ---------------------------------------------------------------------------------------------

/// A tool and its arguments.
#[derive(Debug)]
pub struct ToolCommand {
    pub program: String,
    pub args: Vec<String>,
}

/// What the tools are wanted for.
#[derive(Debug, Clone, Copy, PartialEq, Eq, Structural)]
pub enum ClipboardTask {
    Read,
    Write,
    Paste,
}

/// How running a tool came out.
#[derive(Debug)]
pub enum CommandAttempt {
    Done,
    /// The tool is not there.
    NotFound,
    /// The tool failed, with this message.
    Failed(String),
}

/// A tool and its arguments, apart from how they are held.
pub open spec fn tool_view(t: ToolCommand) -> (Seq<char>, Seq<Seq<char>>) {
    (t.program@, views(t.args@))
}

/// The tools that paste under Wayland.
pub open spec fn wtype() -> (Seq<char>, Seq<Seq<char>>) {
    ("wtype"@, seq!["-M"@, "ctrl"@, "-k"@, "v"@, "-m"@, "ctrl"@])
}

/// The tool that pastes under X11.
pub open spec fn xdotool() -> (Seq<char>, Seq<Seq<char>>) {
    ("xdotool"@, seq!["key"@, "--clearmodifiers"@, "ctrl+v"@])
}

/// The tools for a task, in the order in which they are tried.
pub open spec fn tools_for(task: ClipboardTask, wayland: bool, x11: bool) -> Seq<
    (Seq<char>, Seq<Seq<char>>),
> {
    match task {
        ClipboardTask::Read => seq![
            ("wl-paste"@, seq!["--no-newline"@]),
            ("xclip"@, seq!["-selection"@, "clipboard"@, "-o"@]),
        ],
        ClipboardTask::Write => seq![
            ("wl-copy"@, Seq::empty()),
            ("xclip"@, seq!["-selection"@, "clipboard"@]),
        ],
        ClipboardTask::Paste => if !wayland && x11 {
            seq![xdotool(), wtype()]
        } else {
            seq![wtype(), xdotool()]
        },
    }
}

fn tool(program: &str, args: Vec<String>) -> (r: ToolCommand)
    ensures
        tool_view(r) == (program@, views(args@)),
{
    ToolCommand { program: program.to_string(), args }
}

fn wtype_tool() -> (r: ToolCommand)
    ensures
        tool_view(r) == wtype(),
{
    let args: Vec<String> = vec![
        "-M".to_string(),
        "ctrl".to_string(),
        "-k".to_string(),
        "v".to_string(),
        "-m".to_string(),
        "ctrl".to_string(),
    ];
    assert(views(args@) =~= wtype().1);
    tool("wtype", args)
}

fn xdotool_tool() -> (r: ToolCommand)
    ensures
        tool_view(r) == xdotool(),
{
    let args: Vec<String> = vec![
        "key".to_string(),
        "--clearmodifiers".to_string(),
        "ctrl+v".to_string(),
    ];
    assert(views(args@) =~= xdotool().1);
    tool("xdotool", args)
}

/// The tools for a task, in the order in which they are tried: `wayland` and `x11` say which
/// display there is.
pub fn clipboard_tools(task: ClipboardTask, wayland: bool, x11: bool) -> (r: Vec<ToolCommand>)
    ensures
        r@.len() == tools_for(task, wayland, x11).len(),
        forall|i: int|
            0 <= i < r@.len() ==> tool_view(#[trigger] r@[i]) == tools_for(task, wayland, x11)[i],
{
    match task {
        ClipboardTask::Read => {
            let first: Vec<String> = vec!["--no-newline".to_string()];
            assert(views(first@) =~= seq!["--no-newline"@]);
            let second: Vec<String> = vec![
                "-selection".to_string(),
                "clipboard".to_string(),
                "-o".to_string(),
            ];
            assert(views(second@) =~= seq!["-selection"@, "clipboard"@, "-o"@]);
            vec![tool("wl-paste", first), tool("xclip", second)]
        },
        ClipboardTask::Write => {
            let first: Vec<String> = Vec::new();
            assert(views(first@) =~= Seq::empty());
            let second: Vec<String> = vec!["-selection".to_string(), "clipboard".to_string()];
            assert(views(second@) =~= seq!["-selection"@, "clipboard"@]);
            vec![tool("wl-copy", first), tool("xclip", second)]
        },
        ClipboardTask::Paste => {
            if !wayland && x11 {
                vec![xdotool_tool(), wtype_tool()]
            } else {
                vec![wtype_tool(), xdotool_tool()]
            }
        },
    }
}

/// What is said where no tool for the task is there.
pub open spec fn no_tool_message(task: ClipboardTask) -> Seq<char> {
    match task {
        ClipboardTask::Read => "clipboard stash requires wl-paste or xclip in PATH"@,
        ClipboardTask::Write => "clipboard copy/unstash requires wl-copy or xclip in PATH"@,
        ClipboardTask::Paste => "clipboard paste requires wtype (Wayland) or xdotool (X11) in PATH"@,
    }
}

/// What is said where every tool that is there failed.
pub open spec fn tools_failed_message(task: ClipboardTask, failures: Seq<Seq<char>>) -> Seq<char> {
    (match task {
        ClipboardTask::Read => "failed reading clipboard via Linux providers: "@,
        ClipboardTask::Write => "failed writing clipboard via Linux providers: "@,
        ClipboardTask::Paste => "failed issuing Linux paste keystroke: "@,
    }) + joined(failures, "; "@)
}

/// The failures among the tools that were tried, each with the name of its tool.
pub open spec fn failures_of(tools: Seq<ToolCommand>, tried: Seq<CommandAttempt>) -> Seq<Seq<char>>
    decreases tried.len(),
{
    if tried.len() == 0 {
        Seq::empty()
    } else {
        let before = failures_of(tools, tried.drop_last());
        match tried.last() {
            CommandAttempt::Failed(message) => before.push(
                tools[tried.len() - 1].program@ + ": "@ + message@,
            ),
            _ => before,
        }
    }
}

/// What comes of the tools: all of them were tried and none did the task.
pub fn tools_exhausted(
    task: ClipboardTask,
    tools: &Vec<ToolCommand>,
    tried: &Vec<CommandAttempt>,
) -> (e: Error)
    requires
        tried@.len() <= tools@.len(),
    ensures
        e.cause is None,
        e.message@ == if failures_of(tools@, tried@).len() == 0 {
            no_tool_message(task)
        } else {
            tools_failed_message(task, failures_of(tools@, tried@))
        },
{
    let mut failures: Vec<String> = Vec::new();
    let mut i: usize = 0;
    assert(tried@.take(0) =~= Seq::empty());
    assert(views(failures@) =~= failures_of(tools@, tried@.take(0)));
    while i < tried.len()
        invariant
            tried@.len() <= tools@.len(),
            i <= tried@.len(),
            views(failures@) == failures_of(tools@, tried@.take(i as int)),
        decreases tried@.len() - i,
    {
        assert(tried@.take(i + 1).drop_last() =~= tried@.take(i as int));
        let ghost before = views(failures@);
        if let CommandAttempt::Failed(message) = &tried[i] {
            let mut line = tools[i].program.clone();
            line.append(": ");
            line.append(message.as_str());
            failures.push(line);
            assert(views(failures@) =~= before.push(line@));
        }
        i = i + 1;
    }
    assert(tried@.take(i as int) =~= tried@);
    if failures.len() == 0 {
        match task {
            ClipboardTask::Read => Error::new("clipboard stash requires wl-paste or xclip in PATH"),
            ClipboardTask::Write => Error::new(
                "clipboard copy/unstash requires wl-copy or xclip in PATH",
            ),
            ClipboardTask::Paste => Error::new(
                "clipboard paste requires wtype (Wayland) or xdotool (X11) in PATH",
            ),
        }
    } else {
        let mut message = match task {
            ClipboardTask::Read => "failed reading clipboard via Linux providers: ".to_string(),
            ClipboardTask::Write => "failed writing clipboard via Linux providers: ".to_string(),
            ClipboardTask::Paste => "failed issuing Linux paste keystroke: ".to_string(),
        };
        message.append(join(&failures, "; ").as_str());
        Error { message, cause: None }
    }
}

/// What comes next in trying tools.
#[derive(Debug)]
pub enum ToolStep {
    /// The task is done.
    Done,
    /// Run the tool at this position.
    Run(usize),
    /// None of the tools did the task.
    GiveUp(Error),
}

/// Whether the last tool that was tried did the task.
pub open spec fn task_done(tried: Seq<CommandAttempt>) -> bool {
    tried.len() > 0 && tried.last() is Done
}

/// What comes next once these tools were tried: nothing more where the last did the task, else the
/// next tool where there is one.
pub fn next_tool(
    task: ClipboardTask,
    tools: &Vec<ToolCommand>,
    tried: &Vec<CommandAttempt>,
) -> (r: ToolStep)
    requires
        tried@.len() <= tools@.len(),
    ensures
        if task_done(tried@) {
            r is Done
        } else if tried@.len() < tools@.len() {
            r == ToolStep::Run(tried@.len() as usize)
        } else {
            r is GiveUp && r->GiveUp_0.cause is None && r->GiveUp_0.message@ == if failures_of(
                tools@,
                tried@,
            ).len() == 0 {
                no_tool_message(task)
            } else {
                tools_failed_message(task, failures_of(tools@, tried@))
            }
        },
{
    if tried.len() > 0 {
        if let CommandAttempt::Done = &tried[tried.len() - 1] {
            return ToolStep::Done;
        }
    }
    if tried.len() < tools.len() {
        return ToolStep::Run(tried.len());
    }
    ToolStep::GiveUp(tools_exhausted(task, tools, tried))
}

/// What a tool that reads the clipboard came to: its output where it succeeded.
pub fn capture_failure(status: &str, stderr: &str) -> (r: CommandAttempt)
    ensures
        r is Failed,
        r->Failed_0@ == "status "@ + status@ + " ("@ + trimmed(stderr@) + ")"@,
{
    let mut message = "status ".to_string();
    message.append(status);
    message.append(" (");
    message.append(trim(stderr));
    message.append(")");
    CommandAttempt::Failed(message)
}

/// The clipboard and what was put aside.
pub struct Clipboard {
    pub contents: Seq<char>,
    pub aside: Option<Seq<char>>,
}

/// The clipboard after an action that was carried out: what was read is put aside, and what was
/// written is held. An action that is not one on the clipboard leaves both alone.
pub open spec fn carried_out(c: Clipboard, action: Seq<char>, transcript: Seq<char>) -> Clipboard {
    if !is_clipboard_action(action) {
        c
    } else {
        match asked(c.aside, action, transcript) {
            Asked::Read => Clipboard { aside: Some(c.contents), ..c },
            Asked::Write(text) => Clipboard {
                contents: text,
                aside: aside_after(c.aside, action, true),
            },
            _ => Clipboard { aside: aside_after(c.aside, action, true), ..c },
        }
    }
}

/// An attempt at an action.
pub struct Attempt {
    pub action: Seq<char>,
    /// What the clipboard holds since the attempt failed; nothing where it was carried out.
    pub left: Option<Seq<char>>,
}

/// The clipboard after an attempt. One that failed may have left anything in it.
pub open spec fn attempted(c: Clipboard, attempt: Attempt, transcript: Seq<char>) -> Clipboard {
    match attempt.left {
        None => carried_out(c, attempt.action, transcript),
        Some(left) => Clipboard {
            contents: left,
            aside: aside_after(c.aside, attempt.action, false),
        },
    }
}

/// The clipboard after a sequence of attempts.
pub open spec fn all_attempted(
    c: Clipboard,
    attempts: Seq<Attempt>,
    transcript: Seq<char>,
) -> Clipboard
    decreases attempts.len(),
{
    if attempts.len() == 0 {
        c
    } else {
        attempted(all_attempted(c, attempts.drop_last(), transcript), attempts.last(), transcript)
    }
}

/// Whether an attempt leaves what was put aside: it failed, or is at an action other than `stash`
/// and `unstash`.
pub open spec fn leaves_aside(attempt: Attempt) -> bool {
    attempt.left is Some || (attempt.action != "stash"@ && attempt.action != "unstash"@)
}

/// The actions on the clipboard are different ones.
proof fn actions_differ()
    ensures
        "stash"@ != "unstash"@,
        "stash"@ != "copy"@,
        "stash"@ != "paste"@,
        "copy"@ != "unstash"@,
        "copy"@ != "paste"@,
        "paste"@ != "unstash"@,
{
    reveal_strlit("unstash");
    reveal_strlit("stash");
    reveal_strlit("copy");
    reveal_strlit("paste");
    assert("stash"@[0] == 's' && "paste"@[0] == 'p' && "copy"@[0] == 'c' && "unstash"@[0] == 'u');
}

/// What is put aside stays so over all attempts but a `stash` and an `unstash` that were carried
/// out.
pub proof fn stash_is_kept(c: Clipboard, attempts: Seq<Attempt>, transcript: Seq<char>)
    requires
        forall|i: int| 0 <= i < attempts.len() ==> leaves_aside(#[trigger] attempts[i]),
    ensures
        all_attempted(c, attempts, transcript).aside == c.aside,
    decreases attempts.len(),
{
    if attempts.len() > 0 {
        let before = attempts.drop_last();
        assert forall|i: int| 0 <= i < before.len() implies leaves_aside(#[trigger] before[i]) by {
            assert(before[i] == attempts[i]);
        }
        assert(attempts.last() == attempts[attempts.len() - 1]);
        stash_is_kept(c, before, transcript);
    }
}

/// Whatever is attempted between `stash` and `unstash`, the clipboard holds afterwards what it held
/// before, and nothing is aside.
pub proof fn unstash_restores_the_clipboard(
    c: Clipboard,
    attempts: Seq<Attempt>,
    transcript: Seq<char>,
)
    requires
        forall|i: int| 0 <= i < attempts.len() ==> leaves_aside(#[trigger] attempts[i]),
    ensures
        carried_out(
            all_attempted(carried_out(c, "stash"@, transcript), attempts, transcript),
            "unstash"@,
            transcript,
        ) == (Clipboard { contents: c.contents, aside: None }),
{
    actions_differ();
    let put_aside = carried_out(c, "stash"@, transcript);
    stash_is_kept(put_aside, attempts, transcript);
}

/// An `unstash` that failed leaves what was put aside, whatever it left in the clipboard, and a
/// later one asks for the same to be written and restores it.
pub proof fn failed_unstash_keeps_the_stash(
    c: Clipboard,
    previous: Seq<char>,
    left: Seq<char>,
    transcript: Seq<char>,
)
    requires
        c.aside == Some(previous),
    ensures
        ({
            let after = attempted(
                c,
                Attempt { action: "unstash"@, left: Some(left) },
                transcript,
            );
            &&& after.aside == Some(previous)
            &&& asked(after.aside, "unstash"@, transcript) == Asked::Write(previous)
            &&& carried_out(after, "unstash"@, transcript) == (Clipboard {
                contents: previous,
                aside: None,
            })
        }),
{
    actions_differ();
}

/// `unstash` without anything aside changes nothing.
pub proof fn unstash_of_nothing_changes_nothing(c: Clipboard, transcript: Seq<char>)
    requires
        c.aside is None,
    ensures
        carried_out(c, "unstash"@, transcript) == c,
{
    actions_differ();
}

// ---------------------------------------------------------------------------------------------
// Laws of the actions and the tools
// ---------------------------------------------------------------------------------------------

/// `copy` asks for exactly the transcript to be written, whatever is aside.
pub proof fn copy_asks_for_the_transcript(
    session: &ClipboardSession,
    action: &str,
    transcript: &str,
    r: Result<ClipboardRequest, Error>,
)
    requires
        call_ensures(ClipboardSession::execute_builtin, (session, action, transcript), r),
        action@ == "copy"@,
    ensures
        r is Ok,
        r->Ok_0 is Write,
        r->Ok_0->Write_0@ == transcript@,
{
    actions_differ();
}

/// After a `copy` that was carried out the clipboard holds exactly the transcript, whatever it held
/// and whatever is aside, and the same is aside as before.
pub proof fn copy_leaves_the_transcript(c: Clipboard, transcript: Seq<char>)
    ensures
        carried_out(c, "copy"@, transcript).contents == transcript,
        carried_out(c, "copy"@, transcript).aside == c.aside,
{
    actions_differ();
}

/// What a request that was carried out leaves in a clipboard that held `before`: what was written,
/// or what was there.
pub open spec fn left_by(request: ClipboardRequest, before: Seq<char>) -> Seq<char> {
    match request {
        ClipboardRequest::Write(text) => text@,
        _ => before,
    }
}

/// After what `copy` asks for was carried out the clipboard holds exactly the transcript, and that
/// is what a `paste` after it finds: `paste` writes nothing.
pub proof fn paste_finds_the_transcript(
    session: &ClipboardSession,
    copy: &str,
    later: &ClipboardSession,
    paste: &str,
    transcript: &str,
    copied: Result<ClipboardRequest, Error>,
    pasted: Result<ClipboardRequest, Error>,
    before: Seq<char>,
)
    requires
        call_ensures(ClipboardSession::execute_builtin, (session, copy, transcript), copied),
        copy@ == "copy"@,
        call_ensures(ClipboardSession::execute_builtin, (later, paste, transcript), pasted),
        paste@ == "paste"@,
    ensures
        copied is Ok,
        left_by(copied->Ok_0, before) == transcript@,
        pasted is Ok,
        pasted->Ok_0 is Paste,
        left_by(pasted->Ok_0, left_by(copied->Ok_0, before)) == transcript@,
{
    actions_differ();
}

/// `stash` asks for the clipboard to be read, and writes nothing to it.
pub proof fn stash_asks_for_the_contents(
    session: &ClipboardSession,
    action: &str,
    transcript: &str,
    r: Result<ClipboardRequest, Error>,
)
    requires
        call_ensures(ClipboardSession::execute_builtin, (session, action, transcript), r),
        action@ == "stash"@,
    ensures
        r is Ok,
        r->Ok_0 is Read,
{
    actions_differ();
}

/// What was stashed is, to the character, what `unstash` asks to be written, whatever was aside
/// before and whatever the transcript is.
pub proof fn unstash_asks_for_what_was_stashed(
    session: &mut ClipboardSession,
    contents: String,
    after: &ClipboardSession,
    action: &str,
    transcript: &str,
    r: Result<ClipboardRequest, Error>,
)
    requires
        call_ensures(ClipboardSession::stash, (session, contents), ()),
        *after == *final(session),
        call_ensures(ClipboardSession::execute_builtin, (after, action, transcript), r),
        action@ == "unstash"@,
    ensures
        r is Ok,
        r->Ok_0 is Write,
        r->Ok_0->Write_0@ == contents@,
{
    actions_differ();
}

/// An attempt that failed, or one at `copy`, `paste` or `stash`, leaves what is aside: a later
/// `unstash` asks for the same as one before it.
pub proof fn other_attempts_leave_the_stash(
    session: &mut ClipboardSession,
    action: &str,
    succeeded: bool,
    before: &ClipboardSession,
    after: &ClipboardSession,
    unstash: &str,
    transcript: &str,
    first: Result<ClipboardRequest, Error>,
    second: Result<ClipboardRequest, Error>,
)
    requires
        *before == *old(session),
        call_ensures(ClipboardSession::carried_out, (session, action, succeeded), ()),
        *after == *final(session),
        !succeeded || action@ == "copy"@ || action@ == "paste"@ || action@ == "stash"@,
        unstash@ == "unstash"@,
        call_ensures(ClipboardSession::execute_builtin, (before, unstash, transcript), first),
        call_ensures(ClipboardSession::execute_builtin, (after, unstash, transcript), second),
    ensures
        first is Ok && second is Ok,
        first->Ok_0 is Write <==> second->Ok_0 is Write,
        first->Ok_0 is Write ==> first->Ok_0->Write_0@ == second->Ok_0->Write_0@,
        first->Ok_0 is Nothing <==> second->Ok_0 is Nothing,
{
    actions_differ();
}

/// Once an `unstash` has succeeded nothing is aside any more: another one asks for nothing.
pub proof fn unstash_uses_up_the_stash(
    session: &mut ClipboardSession,
    action: &str,
    after: &ClipboardSession,
    transcript: &str,
    r: Result<ClipboardRequest, Error>,
)
    requires
        action@ == "unstash"@,
        call_ensures(ClipboardSession::carried_out, (session, action, true), ()),
        *after == *final(session),
        call_ensures(ClipboardSession::execute_builtin, (after, action, transcript), r),
    ensures
        r is Ok,
        r->Ok_0 is Nothing,
{
    actions_differ();
}

/// Any other action is refused, and named.
pub proof fn other_actions_are_refused(
    session: &ClipboardSession,
    action: &str,
    transcript: &str,
    r: Result<ClipboardRequest, Error>,
)
    requires
        call_ensures(ClipboardSession::execute_builtin, (session, action, transcript), r),
        action@ != "stash"@,
        action@ != "copy"@,
        action@ != "paste"@,
        action@ != "unstash"@,
    ensures
        r is Err,
        r->Err_0.message@ == "unsupported clipboard builtin: "@ + action@,
{
}

/// Each task has two tools. Those that read and write take the clipboard selection itself, and
/// writing hands them no text as an argument; the tool of the display that is there pastes first.
pub proof fn tools_of_the_tasks(
    task: ClipboardTask,
    wayland: bool,
    x11: bool,
    r: Vec<ToolCommand>,
)
    requires
        call_ensures(clipboard_tools, (task, wayland, x11), r),
    ensures
        r@.len() == 2,
        task is Read ==> {
            &&& r@[0].program@ == "wl-paste"@
            &&& views(r@[0].args@) == seq!["--no-newline"@]
            &&& r@[1].program@ == "xclip"@
            &&& views(r@[1].args@) == seq!["-selection"@, "clipboard"@, "-o"@]
        },
        task is Write ==> {
            &&& r@[0].program@ == "wl-copy"@
            &&& r@[0].args@.len() == 0
            &&& r@[1].program@ == "xclip"@
            &&& views(r@[1].args@) == seq!["-selection"@, "clipboard"@]
        },
        task is Paste && x11 && !wayland ==> r@[0].program@ == "xdotool"@ && r@[1].program@
            == "wtype"@,
        task is Paste && (wayland || !x11) ==> r@[0].program@ == "wtype"@ && r@[1].program@
            == "xdotool"@,
        forall|i: int|
            0 <= i < 2 && (#[trigger] r@[i]).program@ == "xdotool"@ ==> views(r@[i].args@) == seq![
                "key"@,
                "--clearmodifiers"@,
                "ctrl+v"@,
            ],
        forall|i: int|
            0 <= i < 2 && (#[trigger] r@[i]).program@ == "wtype"@ ==> views(r@[i].args@) == seq![
                "-M"@,
                "ctrl"@,
                "-k"@,
                "v"@,
                "-m"@,
                "ctrl"@,
            ],
{
    reveal_strlit("wtype");
    reveal_strlit("xdotool");
    reveal_strlit("wl-paste");
    reveal_strlit("wl-copy");
    reveal_strlit("xclip");
    assert(tool_view(r@[0]) == tools_for(task, wayland, x11)[0]);
    assert(tool_view(r@[1]) == tools_for(task, wayland, x11)[1]);
    assert(views(r@[0].args@).len() == r@[0].args@.len());
    assert("wtype"@[0] == 'w' && "xdotool"@[0] == 'x' && "xclip"@[1] == 'c');
    assert("xdotool"@[1] == 'd' && "wl-paste"@[1] == 'l' && "wl-copy"@[1] == 'l');
    assert("wtype"@[1] == 't');
}

/// The tools are tried in turn until one does the task: the next is run where the last did not, no
/// more is run where it did, and it is given up only once all were tried.
pub proof fn tools_are_tried_in_turn(
    task: ClipboardTask,
    tools: &Vec<ToolCommand>,
    tried: &Vec<CommandAttempt>,
    r: ToolStep,
)
    requires
        tried@.len() <= tools@.len(),
        call_ensures(next_tool, (task, tools, tried), r),
    ensures
        r is Done <==> tried@.len() > 0 && tried@[tried@.len() - 1] is Done,
        r is Run ==> r->Run_0 == tried@.len() && r->Run_0 < tools@.len(),
        r is GiveUp ==> tried@.len() == tools@.len(),
{
    assert(tried@.len() == tried.len());
}

/// Where no tool did the task, every tool that failed is named with what it said.
pub proof fn failures_are_told(
    task: ClipboardTask,
    tools: &Vec<ToolCommand>,
    tried: &Vec<CommandAttempt>,
    r: ToolStep,
    i: int,
)
    requires
        tried@.len() <= tools@.len(),
        call_ensures(next_tool, (task, tools, tried), r),
        r is GiveUp,
        0 <= i < tried@.len(),
        tried@[i] is Failed,
    ensures
        holds_text(
            r->GiveUp_0.message@,
            tools@[i].program@ + ": "@ + tried@[i]->Failed_0@,
        ),
{
    let failures = failures_of(tools@, tried@);
    let line = tools@[i].program@ + ": "@ + tried@[i]->Failed_0@;
    failure_is_listed(tools@, tried@, i);
    let n = choose|n: int| 0 <= n < failures.len() && #[trigger] failures[n] == line;
    joined_holds_each(failures, "; "@, n);
    let all = joined(failures, "; "@);
    let at = choose|at: int| stands_at(all, line, at);
    let message = r->GiveUp_0.message@;
    let skipped = message.len() - all.len();
    assert(message.subrange(skipped + at, skipped + at + line.len()) =~= all.subrange(
        at,
        at + line.len(),
    ));
    assert(stands_at(message, line, skipped + at));
}

proof fn failure_is_listed(tools: Seq<ToolCommand>, tried: Seq<CommandAttempt>, i: int)
    requires
        0 <= i < tried.len(),
        tried[i] is Failed,
    ensures
        exists|n: int|
            0 <= n < failures_of(tools, tried).len() && #[trigger] failures_of(tools, tried)[n]
                == tools[i].program@ + ": "@ + tried[i]->Failed_0@,
    decreases tried.len(),
{
    let line = tools[i].program@ + ": "@ + tried[i]->Failed_0@;
    let all = failures_of(tools, tried);
    let front = failures_of(tools, tried.drop_last());
    if i < tried.len() - 1 {
        assert(tried.drop_last()[i] == tried[i]);
        failure_is_listed(tools, tried.drop_last(), i);
        let n = choose|n: int| 0 <= n < front.len() && #[trigger] front[n] == line;
        assert(all[n] == front[n]);
    } else {
        assert(all[all.len() - 1] == line);
    }
}

/// Where no tool is there, those that would do are named.
pub proof fn missing_tools_are_named(
    task: ClipboardTask,
    tools: &Vec<ToolCommand>,
    tried: &Vec<CommandAttempt>,
    e: Error,
)
    requires
        call_ensures(tools_exhausted, (task, tools, tried), e),
        forall|i: int| 0 <= i < tried@.len() ==> !((#[trigger] tried@[i]) is Failed),
    ensures
        task is Read ==> e.message@ == "clipboard stash requires wl-paste or xclip in PATH"@,
        task is Write ==> e.message@ == "clipboard copy/unstash requires wl-copy or xclip in PATH"@,
        task is Paste ==> e.message@
            == "clipboard paste requires wtype (Wayland) or xdotool (X11) in PATH"@,
{
    nothing_failed(tools@, tried@);
}

proof fn nothing_failed(tools: Seq<ToolCommand>, tried: Seq<CommandAttempt>)
    requires
        forall|i: int| 0 <= i < tried.len() ==> !((#[trigger] tried[i]) is Failed),
    ensures
        failures_of(tools, tried).len() == 0,
    decreases tried.len(),
{
    if tried.len() > 0 {
        let front = tried.drop_last();
        assert forall|i: int| 0 <= i < front.len() implies !((#[trigger] front[i]) is Failed) by {
            assert(front[i] == tried[i]);
        }
        nothing_failed(tools, front);
        assert(!(tried[tried.len() - 1] is Failed));
    }
}

/// What a tool that failed said is told with its status, without the white space around it.
pub proof fn failed_reading_is_told(status: &str, stderr: &str, r: CommandAttempt, ink: Seq<char>)
    requires
        call_ensures(capture_failure, (status, stderr), r),
        crate::text::is_ink_of(ink, stderr@),
    ensures
        r is Failed,
        r->Failed_0@ == "status "@ + status@ + " ("@ + ink + ")"@,
{
    crate::text::ink_is_unique(ink, stderr@);
}

} // verus!
