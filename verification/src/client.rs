//! The commands that talk to the daemon: what they ask, decide and print.
use vstd::prelude::*;

use crate::config::ConfigValue;
use crate::daemon::{
    brief, runtime_problem, truth, truth_text, validate_runtime_config, Answer, DaemonResponse,
};
use crate::error::{fails_with, Error};
use crate::fields::{lookup, lookups_after_put, put};
use crate::json::{json_pretty, no_fields, number_of, tidy, Json, JsonTree};
use crate::process::parse_pid;
use crate::progress::{RealtimeDebugEvent, RealtimeDebugInfo};
use crate::text::{
    begins_with, chars_of, decimal, decimal_text, ink_is_unique, is_ink_of, number_is_parsed,
    parsed_unsigned, starts_with, trimmed, views,
};

verus! {

/// How long the daemon may take to start or to stop, in milliseconds.
pub const STARTUP_TIMEOUT_MS: u64 = 2_000;

pub const SHUTDOWN_TIMEOUT_MS: u64 = 2_000;

/// How long to wait before looking again.
pub const POLL_INTERVAL_MS: u64 = 50;

/// Whether the daemon runs, by its answer to a ping.
pub fn is_running(reply: &Option<DaemonResponse>) -> (r: bool)
    ensures
        r == match reply {
            Some(response) => response.ok && response.running,
            None => false,
        },
{
    match reply {
        Some(response) => response.ok && response.running,
        None => false,
    }
}

/// What is known of a daemon that does not answer: it is stopped, and its file may name a process.
pub open spec fn stopped_status(pid: Option<u32>) -> Answer {
    Answer { running: false, ..brief(false, pid, None) }
}

/// The state of the daemon: its answer, or that it is stopped where it gave none.
pub fn status_snapshot(reply: Option<DaemonResponse>, pid_file: Option<&str>) -> (r: DaemonResponse)
    ensures
        match reply {
            Some(response) => r == response,
            None => r.debug is None && match pid_file {
                Some(raw) => match parsed_unsigned(trimmed(raw@), u32::MAX as int) {
                    Some(pid) => r@ == stopped_status(Some(pid as u32)),
                    None => r@ == stopped_status(None),
                },
                None => r@ == stopped_status(None),
            },
        },
{
    match reply {
        Some(response) => response,
        None => {
            let pid = match pid_file {
                Some(raw) => parse_pid(raw),
                None => None,
            };
            DaemonResponse {
                ok: true,
                running: false,
                recording: false,
                pid,
                message: None,
                transcript: None,
                transcript_preview: None,
                transcript_updated_at_ms: None,
                duration_ms: None,
                debug: None,
                error: None,
            }
        },
    }
}

/// The answer of the daemon, or the failure that it tells: `otherwise` where it tells none.
pub fn accepted(response: DaemonResponse, otherwise: &str) -> (r: Result<DaemonResponse, Error>)
    ensures
        if response.ok {
            r == Ok::<DaemonResponse, Error>(response)
        } else {
            fails_with(
                r,
                match response.error {
                    Some(error) => error@,
                    None => otherwise@,
                },
            )
        },
{
    if response.ok {
        return Ok(response);
    }
    match response.error {
        Some(error) => Err(Error { message: error, cause: None }),
        None => Err(Error::new(otherwise)),
    }
}

/// Whether it is still time to look whether the daemon has started or stopped.
pub fn may_poll(elapsed_ms: u64, timeout_ms: u64) -> (r: bool)
    ensures
        r == (elapsed_ms <= timeout_ms),
{
    elapsed_ms <= timeout_ms
}

// ---------------------------------------------------------------------------------------------
// Starting and stopping the daemon
// ---------------------------------------------------------------------------------------------

/// How far `start` or `stop` has come.
#[derive(Debug, Clone, Copy, PartialEq, Eq, Structural)]
pub enum Stage {
    /// It was looked whether the daemon runs.
    Looked,
    /// The daemon was given its time.
    Waited,
}

/// What `start` does next.
#[derive(Debug, Clone, Copy, PartialEq, Eq, Structural)]
pub enum StartDaemonStep {
    /// Start the daemon, and give it its time.
    Spawn,
    /// Report that it runs; it did so already, or not.
    Report { already_running: bool },
}

/// What `start` does next: a daemon that runs is left alone, one that does not is started.
pub fn start(stage: Stage, running: bool) -> (r: Result<StartDaemonStep, Error>)
    ensures
        match stage {
            Stage::Looked => r == Ok::<StartDaemonStep, Error>(
                if running {
                    StartDaemonStep::Report { already_running: true }
                } else {
                    StartDaemonStep::Spawn
                },
            ),
            Stage::Waited => if running {
                r == Ok::<StartDaemonStep, Error>(
                    StartDaemonStep::Report { already_running: false },
                )
            } else {
                fails_with(r, "daemon did not start within timeout"@)
            },
        },
{
    match stage {
        Stage::Looked => {
            if running {
                Ok(StartDaemonStep::Report { already_running: true })
            } else {
                Ok(StartDaemonStep::Spawn)
            }
        },
        Stage::Waited => {
            if running {
                Ok(StartDaemonStep::Report { already_running: false })
            } else {
                Err(Error::new("daemon did not start within timeout"))
            }
        },
    }
}

/// The report of `start` as JSON.
pub open spec fn start_report(pid: u32, already_running: bool) -> JsonTree {
    JsonTree::Object(
        put(
            put(
                put(
                    put(
                        put(no_fields(), "ok"@, JsonTree::Bool(true)),
                        "running"@,
                        JsonTree::Bool(true),
                    ),
                    "recording"@,
                    JsonTree::Bool(false),
                ),
                "pid"@,
                JsonTree::Number(number_of(pid as u64)),
            ),
            "alreadyRunning"@,
            JsonTree::Bool(already_running),
        ),
    )
}

/// What `start` prints.
pub fn print_start_result(json_output: bool, pid: u32, already_running: bool) -> (r: String)
    ensures
        r@ == if json_output {
            json_pretty(start_report(pid, already_running))
        } else {
            (if already_running {
                "daemon already running (pid="@
            } else {
                "daemon started (pid="@
            }) + decimal(pid as nat) + ")"@
        },
{
    if json_output {
        let report = Json::object().with("ok", Json::Bool(true)).with(
            "running",
            Json::Bool(true),
        ).with("recording", Json::Bool(false)).with("pid", Json::number(pid as u64)).with(
            "alreadyRunning",
            Json::Bool(already_running),
        );
        return report.to_pretty();
    }
    let mut line = if already_running {
        "daemon already running (pid=".to_string()
    } else {
        "daemon started (pid=".to_string()
    };
    line.append(decimal_text(pid as u64).as_str());
    line.append(")");
    line
}

/// What `stop` does next.
#[derive(Debug, Clone, Copy, PartialEq, Eq, Structural)]
pub enum StopDaemonStep {
    /// Tell the daemon to stop, and give it its time.
    SendStop,
    /// End the user interface, and report; the daemon was stopped already, or not.
    Report { already_stopped: bool },
}

/// What `stop` does next: a daemon that does not run is left alone, one that runs is stopped.
pub fn stop(stage: Stage, running: bool) -> (r: Result<StopDaemonStep, Error>)
    ensures
        match stage {
            Stage::Looked => r == Ok::<StopDaemonStep, Error>(
                if running {
                    StopDaemonStep::SendStop
                } else {
                    StopDaemonStep::Report { already_stopped: true }
                },
            ),
            Stage::Waited => if running {
                fails_with(r, "daemon did not stop within timeout"@)
            } else {
                r == Ok::<StopDaemonStep, Error>(
                    StopDaemonStep::Report { already_stopped: false },
                )
            },
        },
{
    match stage {
        Stage::Looked => {
            if running {
                Ok(StopDaemonStep::SendStop)
            } else {
                Ok(StopDaemonStep::Report { already_stopped: true })
            }
        },
        Stage::Waited => {
            if running {
                Err(Error::new("daemon did not stop within timeout"))
            } else {
                Ok(StopDaemonStep::Report { already_stopped: false })
            }
        },
    }
}

/// A report that the daemon does not run, as JSON.
pub open spec fn not_running_report(message: Seq<char>) -> JsonTree {
    JsonTree::Object(
        put(
            put(
                put(
                    put(no_fields(), "ok"@, JsonTree::Bool(true)),
                    "running"@,
                    JsonTree::Bool(false),
                ),
                "recording"@,
                JsonTree::Bool(false),
            ),
            "message"@,
            JsonTree::Text(message),
        ),
    )
}

fn report_not_running(json_output: bool, message: &str) -> (r: String)
    ensures
        r@ == if json_output {
            json_pretty(not_running_report(message@))
        } else {
            message@
        },
{
    if json_output {
        let report = Json::object().with("ok", Json::Bool(true)).with(
            "running",
            Json::Bool(false),
        ).with("recording", Json::Bool(false)).with("message", Json::text(message));
        return report.to_pretty();
    }
    message.to_string()
}

/// What `stop` prints.
pub fn print_stop_result(json_output: bool, already_stopped: bool) -> (r: String)
    ensures
        ({
            let message = if already_stopped {
                "daemon already stopped"@
            } else {
                "daemon stopped"@
            };
            r@ == if json_output {
                json_pretty(not_running_report(message))
            } else {
                message
            }
        }),
{
    if already_stopped {
        report_not_running(json_output, "daemon already stopped")
    } else {
        report_not_running(json_output, "daemon stopped")
    }
}

// ---------------------------------------------------------------------------------------------
// Status and reload
// ---------------------------------------------------------------------------------------------

/// The number of a process, or zero where it is not known.
pub open spec fn pid_or_zero(pid: Option<u32>) -> nat {
    match pid {
        Some(pid) => pid as nat,
        None => 0,
    }
}

/// A duration, or zero where it is not known.
pub open spec fn duration_or_zero(duration: Option<u64>) -> nat {
    match duration {
        Some(duration) => duration as nat,
        None => 0,
    }
}

/// The line that `status` prints.
pub open spec fn status_line(a: Answer) -> Seq<char> {
    if !a.running {
        "stopped"@
    } else {
        let first = "running (pid="@ + decimal(pid_or_zero(a.pid)) + ")"@;
        if !a.recording {
            first
        } else {
            let second = first + " recording=true duration_ms="@ + decimal(
                duration_or_zero(a.duration_ms),
            );
            match a.transcript_preview {
                Some(preview) => second + " transcript_preview="@ + preview,
                None => second,
            }
        }
    }
}

/// The line that `status` prints.
pub fn status(response: &DaemonResponse) -> (r: String)
    ensures
        r@ == status_line(response@),
{
    if !response.running {
        return "stopped".to_string();
    }
    let pid: u32 = match response.pid {
        Some(pid) => pid,
        None => 0,
    };
    let mut line = "running (pid=".to_string();
    line.append(decimal_text(pid as u64).as_str());
    line.append(")");
    if !response.recording {
        return line;
    }
    let duration: u64 = match response.duration_ms {
        Some(duration) => duration,
        None => 0,
    };
    line.append(" recording=true duration_ms=");
    line.append(decimal_text(duration).as_str());
    if let Some(preview) = &response.transcript_preview {
        line.append(" transcript_preview=");
        line.append(preview.as_str());
    }
    line
}

/// The message of an answer, or `otherwise` where it has none.
pub fn message_or(response: &DaemonResponse, otherwise: &str) -> (r: String)
    ensures
        r@ == match response@.message {
            Some(message) => message,
            None => otherwise@,
        },
{
    match &response.message {
        Some(message) => message.clone(),
        None => otherwise.to_string(),
    }
}

/// What `reload` prints where the daemon does not run: the configuration is looked at all the same.
pub fn reload_without_daemon(json_output: bool, config: &ConfigValue) -> (r: Result<String, Error>)
    ensures
        match runtime_problem(config@) {
            Some(message) => fails_with(r, message),
            None => r is Ok && r->Ok_0@ == if json_output {
                json_pretty(not_running_report("runtime config validated (daemon not running)"@))
            } else {
                "runtime config validated (daemon not running)"@
            },
        },
{
    match validate_runtime_config(config) {
        Err(e) => Err(e),
        Ok(_) => Ok(
            report_not_running(json_output, "runtime config validated (daemon not running)"),
        ),
    }
}

// ---------------------------------------------------------------------------------------------
// Transcription
// ---------------------------------------------------------------------------------------------

/// The answer that stands for one of the daemon where it does not run.
pub open spec fn absent_answer(message: Seq<char>, transcript: Option<Seq<char>>) -> Answer {
    Answer {
        running: false,
        transcript,
        duration_ms: Some(0),
        ..brief(false, None, Some(message))
    }
}

/// The answer to `transcribe status` where the daemon does not run.
pub fn transcribe_status_without_daemon() -> (r: DaemonResponse)
    ensures
        r@ == absent_answer("daemon is not running"@, None),
        r.debug is None,
{
    DaemonResponse {
        ok: true,
        running: false,
        recording: false,
        pid: None,
        message: Some("daemon is not running".to_string()),
        transcript: None,
        transcript_preview: None,
        transcript_updated_at_ms: None,
        duration_ms: Some(0),
        debug: None,
        error: None,
    }
}

/// The answer to `transcribe stop` where the daemon does not run.
pub fn transcribe_stop_without_daemon() -> (r: DaemonResponse)
    ensures
        r@ == absent_answer(
            "recording not active (daemon not running)"@,
            Some(Seq::<char>::empty()),
        ),
        r.debug is None,
{
    DaemonResponse {
        ok: true,
        running: false,
        recording: false,
        pid: None,
        message: Some("recording not active (daemon not running)".to_string()),
        transcript: Some(String::new()),
        transcript_preview: None,
        transcript_updated_at_ms: None,
        duration_ms: Some(0),
        debug: None,
        error: None,
    }
}

/// The line that `transcribe status` prints.
pub open spec fn transcribe_status_line(a: Answer) -> Seq<char> {
    let first = "recording="@ + truth(a.recording) + " duration_ms="@ + decimal(
        duration_or_zero(a.duration_ms),
    );
    match a.transcript_preview {
        Some(preview) => first + " transcript_preview="@ + preview,
        None => first,
    }
}

/// The line that `transcribe status` prints.
pub fn transcribe_status(response: &DaemonResponse) -> (r: String)
    ensures
        r@ == transcribe_status_line(response@),
{
    let duration: u64 = match response.duration_ms {
        Some(duration) => duration,
        None => 0,
    };
    let mut line = "recording=".to_string();
    line.append(truth_text(response.recording));
    line.append(" duration_ms=");
    line.append(decimal_text(duration).as_str());
    if let Some(preview) = &response.transcript_preview {
        line.append(" transcript_preview=");
        line.append(preview.as_str());
    }
    line
}

/// Whether `transcribe start` stays to show the transcript as it grows; debugging needs that.
pub fn transcribe_start(background: bool, debug: bool, debug_json: bool, json_output: bool) -> (r:
    Result<bool, Error>)
    ensures
        if (debug || debug_json) && (background || json_output) {
            fails_with(
                r,
                "--debug/--debug-json require attached live mode (omit --background/--json)"@,
            )
        } else {
            r == Ok::<bool, Error>(!background && !json_output)
        },
{
    if (debug || debug_json) && (background || json_output) {
        return Err(
            Error::new("--debug/--debug-json require attached live mode (omit --background/--json)"),
        );
    }
    Ok(!background && !json_output)
}

/// The lines that `transcribe stop` prints.
pub open spec fn transcribe_stop_lines(a: Answer) -> Seq<Seq<char>> {
    let first = match a.message {
        Some(message) => seq![message],
        None => Seq::empty(),
    };
    match a.transcript {
        Some(transcript) => if transcript.len() > 0 {
            first.push(transcript)
        } else {
            first
        },
        None => first,
    }
}

/// The lines that `transcribe stop` prints.
pub fn transcribe_stop(response: &DaemonResponse) -> (r: Vec<String>)
    ensures
        views(r@) == transcribe_stop_lines(response@),
{
    let mut lines: Vec<String> = Vec::new();
    if let Some(message) = &response.message {
        lines.push(message.clone());
    }
    if let Some(transcript) = &response.transcript {
        if !transcript.as_str().is_empty() {
            lines.push(transcript.clone());
        }
    }
    assert(views(lines@) =~= transcribe_stop_lines(response@));
    lines
}

// ---------------------------------------------------------------------------------------------
// The live preview
// ---------------------------------------------------------------------------------------------

/// What is printed where a preview takes the place of another: what it adds, or all of it on a new
/// line where it does not begin with the other.
pub open spec fn preview_delta(last: Seq<char>, next: Seq<char>) -> Seq<char> {
    if begins_with(next, last) {
        next.skip(last.len() as int)
    } else if last.len() > 0 {
        "\n"@ + next
    } else {
        next
    }
}

/// What is printed for the next preview, which then takes the place of the last one.
pub fn render_preview_delta(last_preview: &mut String, next_preview: &str) -> (r: String)
    ensures
        r@ == preview_delta(old(last_preview)@, next_preview@),
        final(last_preview)@ == next_preview@,
{
    let ghost before = last_preview@;
    let shown: usize = chars_of(last_preview.as_str()).len();
    let total: usize = chars_of(next_preview).len();
    let out = if starts_with(next_preview, last_preview.as_str()) {
        let delta = next_preview.substring_char(shown, total);
        assert(delta@ =~= next_preview@.skip(before.len() as int));
        delta.to_string()
    } else if shown > 0 {
        let mut out = "\n".to_string();
        out.append(next_preview);
        out
    } else {
        next_preview.to_string()
    };
    *last_preview = next_preview.to_string();
    out
}

/// What the live preview does with an answer on the state.
#[derive(Debug)]
pub struct LiveStep {
    /// What it prints.
    pub print: String,
    /// Whether it goes on.
    pub more: bool,
}

/// What the live preview does with an answer on the state: it prints what the preview adds, and
/// goes on for as long as the recording does.
pub fn live_preview(response: &DaemonResponse, last_preview: &mut String) -> (r: LiveStep)
    ensures
        r.more == response.recording,
        match response@.transcript_preview {
            Some(preview) => {
                &&& r.print@ == preview_delta(old(last_preview)@, preview)
                &&& final(last_preview)@ == preview
            },
            None => r.print@.len() == 0 && final(last_preview)@ == old(last_preview)@,
        },
{
    let print = match &response.transcript_preview {
        Some(preview) => render_preview_delta(last_preview, preview.as_str()),
        None => String::new(),
    };
    LiveStep { print, more: response.recording }
}

/// What was printed for a preview that grows is the preview.
pub proof fn growing_preview_is_printed_whole(last: Seq<char>, next: Seq<char>)
    requires
        begins_with(next, last),
    ensures
        last + preview_delta(last, next) == next,
{
    assert(next.subrange(0, last.len() as int) + next.skip(last.len() as int) =~= next);
}

/// A field that is there only where its text is.
pub open spec fn with_text(
    s: Seq<(Seq<char>, JsonTree)>,
    k: Seq<char>,
    v: Option<String>,
) -> Seq<(Seq<char>, JsonTree)> {
    match v {
        Some(v) => put(s, k, JsonTree::Text(v@)),
        None => s,
    }
}

/// An event as debugging prints it.
pub open spec fn debug_event(e: RealtimeDebugEvent) -> JsonTree {
    let base = put(
        put(
            put(
                put(no_fields(), "kind"@, JsonTree::Text("realtime_event"@)),
                "seq"@,
                JsonTree::Number(number_of(e.seq)),
            ),
            "type"@,
            JsonTree::Text(e.event_type@),
        ),
        "at_ms"@,
        JsonTree::Number(number_of(e.at_ms)),
    );
    JsonTree::Object(
        with_text(
            with_text(
                with_text(
                    with_text(
                        with_text(base, "text_fragment"@, e.text_fragment),
                        "error_code"@,
                        e.error_code,
                    ),
                    "error_message"@,
                    e.error_message,
                ),
                "error_event_id"@,
                e.error_event_id,
            ),
            "raw_excerpt"@,
            e.raw_excerpt,
        ),
    )
}

fn add_text(j: Json, k: &str, v: &Option<String>) -> (r: Json)
    requires
        j@ is Object,
        tidy(j@),
    ensures
        r@ == JsonTree::Object(with_text(j@->Object_0, k@, *v)),
        tidy(r@),
{
    match v {
        Some(v) => j.with(k, Json::text(v.as_str())),
        None => j,
    }
}

fn event_report(e: &RealtimeDebugEvent) -> (r: Json)
    ensures
        r@ == debug_event(*e),
        tidy(r@),
{
    let base = Json::object().with("kind", Json::text("realtime_event")).with(
        "seq",
        Json::number(e.seq),
    ).with("type", Json::text(e.event_type.as_str())).with("at_ms", Json::number(e.at_ms));
    let a = add_text(base, "text_fragment", &e.text_fragment);
    let b = add_text(a, "error_code", &e.error_code);
    let c = add_text(b, "error_message", &e.error_message);
    let d = add_text(c, "error_event_id", &e.error_event_id);
    add_text(d, "raw_excerpt", &e.raw_excerpt)
}

/// The events that have not been printed yet: those whose number is above that of every one before
/// them and above `last`.
pub open spec fn fresh_events(events: Seq<RealtimeDebugEvent>, last: u64) -> Seq<JsonTree>
    decreases events.len(),
{
    if events.len() == 0 {
        Seq::empty()
    } else {
        let before = fresh_events(events.drop_last(), last);
        if events.last().seq > last_printed(events.drop_last(), last) {
            before.push(debug_event(events.last()))
        } else {
            before
        }
    }
}

/// The number of the last event that was printed.
pub open spec fn last_printed(events: Seq<RealtimeDebugEvent>, last: u64) -> u64
    decreases events.len(),
{
    if events.len() == 0 {
        last
    } else {
        let before = last_printed(events.drop_last(), last);
        if events.last().seq > before {
            events.last().seq
        } else {
            before
        }
    }
}

/// The trees of values.
pub open spec fn trees(s: Seq<Json>) -> Seq<JsonTree> {
    Seq::new(s.len(), |i: int| s[i]@)
}

/// The events that debugging prints now: those that have not been printed yet.
pub fn live_debug_events(debug: &RealtimeDebugInfo, last_event_seq: &mut u64) -> (r: Vec<Json>)
    ensures
        trees(r@) == fresh_events(debug.recent_events@, *old(last_event_seq)),
        *final(last_event_seq) == last_printed(debug.recent_events@, *old(last_event_seq)),
        forall|i: int| 0 <= i < r@.len() ==> tidy((#[trigger] r@[i])@),
{
    let ghost start = *last_event_seq;
    let ghost events = debug.recent_events@;
    let mut out: Vec<Json> = Vec::new();
    let mut i: usize = 0;
    assert(events.take(0) =~= Seq::empty());
    assert(trees(out@) =~= fresh_events(events.take(0), start));
    while i < debug.recent_events.len()
        invariant
            events == debug.recent_events@,
            i <= events.len(),
            trees(out@) == fresh_events(events.take(i as int), start),
            *last_event_seq == last_printed(events.take(i as int), start),
            forall|n: int| 0 <= n < out@.len() ==> tidy((#[trigger] out@[n])@),
        decreases events.len() - i,
    {
        assert(events.take(i + 1).drop_last() =~= events.take(i as int));
        let ghost before = trees(out@);
        if debug.recent_events[i].seq > *last_event_seq {
            let report = event_report(&debug.recent_events[i]);
            *last_event_seq = debug.recent_events[i].seq;
            out.push(report);
            assert(trees(out@) =~= before.push(report@));
        }
        i = i + 1;
    }
    assert(events.take(i as int) =~= events);
    out
}

/// No event is printed twice: once the events have been printed, none of them is printed again.
pub proof fn events_are_printed_once(events: Seq<RealtimeDebugEvent>, last: u64)
    ensures
        fresh_events(events, last_printed(events, last)).len() == 0,
        last_printed(events, last_printed(events, last)) == last_printed(events, last),
{
    nothing_new(events, last_printed(events, last), last);
}

proof fn nothing_new(events: Seq<RealtimeDebugEvent>, top: u64, last: u64)
    requires
        top >= last_printed(events, last),
    ensures
        fresh_events(events, top).len() == 0,
        last_printed(events, top) == top,
    decreases events.len(),
{
    if events.len() > 0 {
        nothing_new(events.drop_last(), top, last);
    }
}

// ---------------------------------------------------------------------------------------------
// Ending the user interface
// ---------------------------------------------------------------------------------------------

/// How long the user interface may take to end, first by itself and then by force.
pub const UI_SHUTDOWN_GRACE_MS: u64 = 700;

pub const UI_KILL_GRACE_MS: u64 = 250;

/// What is done next to end the user interface.
#[derive(Debug, Clone, Copy, PartialEq, Eq, Structural)]
pub enum UiStopStep {
    /// It does not run: remove the file that names its process.
    RemoveFile,
    /// Ask it to end.
    Terminate,
    /// Look again after this many milliseconds.
    Wait(u64),
    /// End it by force.
    Kill,
    /// Leave it.
    GiveUp,
}

/// How the ending of the user interface begins, by whether its process is known and is its own.
pub fn stop_ui_client(pid: Option<u32>, is_ui_client: bool) -> (r: UiStopStep)
    ensures
        r == if pid is Some && is_ui_client {
            UiStopStep::Terminate
        } else {
            UiStopStep::RemoveFile
        },
{
    if pid.is_some() && is_ui_client {
        UiStopStep::Terminate
    } else {
        UiStopStep::RemoveFile
    }
}

/// How it goes on: `forced` says that it was ended by force, and `elapsed_ms` how long ago it was
/// asked or forced to end.
pub fn await_ui_client(forced: bool, alive: bool, elapsed_ms: u64) -> (r: UiStopStep)
    ensures
        r == if forced {
            if elapsed_ms > UI_KILL_GRACE_MS {
                UiStopStep::GiveUp
            } else if !alive {
                UiStopStep::RemoveFile
            } else {
                UiStopStep::Wait(20)
            }
        } else {
            if elapsed_ms > UI_SHUTDOWN_GRACE_MS {
                UiStopStep::Kill
            } else if !alive {
                UiStopStep::RemoveFile
            } else {
                UiStopStep::Wait(30)
            }
        },
{
    if forced {
        if elapsed_ms > UI_KILL_GRACE_MS {
            UiStopStep::GiveUp
        } else if !alive {
            UiStopStep::RemoveFile
        } else {
            UiStopStep::Wait(20)
        }
    } else {
        if elapsed_ms > UI_SHUTDOWN_GRACE_MS {
            UiStopStep::Kill
        } else if !alive {
            UiStopStep::RemoveFile
        } else {
            UiStopStep::Wait(30)
        }
    }
}

// ---------------------------------------------------------------------------------------------
// Laws of what is printed
// ---------------------------------------------------------------------------------------------

/// The line of `status` for a recording that is going on ends with the whole preview; the process
/// and the duration stand before it.
pub proof fn status_shows_the_preview(response: &DaemonResponse, r: String)
    requires
        call_ensures(status, (response,), r),
    ensures
        !response.running ==> r@ == "stopped"@,
        response.running && response.pid is Some && !response.recording ==> r@ == "running (pid="@
            + decimal(response.pid->0 as nat) + ")"@,
        response.running && response.pid is Some && response.recording
            && response.duration_ms is Some && response.transcript_preview is Some ==> r@
            == "running (pid="@ + decimal(response.pid->0 as nat) + ")"@
            + " recording=true duration_ms="@ + decimal(response.duration_ms->0 as nat)
            + " transcript_preview="@ + response.transcript_preview->0@,
        response.running && response.pid is Some && response.recording
            && response.duration_ms is Some && response.transcript_preview is None ==> r@
            == "running (pid="@ + decimal(response.pid->0 as nat) + ")"@
            + " recording=true duration_ms="@ + decimal(response.duration_ms->0 as nat),
{
}

/// The line of `transcribe status` says whether a recording is going on and how long it has been,
/// and ends with the whole preview where there is one.
pub proof fn transcribe_status_shows_the_preview(response: &DaemonResponse, r: String)
    requires
        call_ensures(transcribe_status, (response,), r),
        response.duration_ms is Some,
    ensures
        response.recording && response.transcript_preview is Some ==> r@ == "recording="@ + "true"@
            + " duration_ms="@ + decimal(response.duration_ms->0 as nat) + " transcript_preview="@
            + response.transcript_preview->0@,
        response.recording && response.transcript_preview is None ==> r@ == "recording="@ + "true"@
            + " duration_ms="@ + decimal(response.duration_ms->0 as nat),
        !response.recording && response.transcript_preview is None ==> r@ == "recording="@
            + "false"@ + " duration_ms="@ + decimal(response.duration_ms->0 as nat),
{
}

/// `transcribe stop` prints the message and then the whole transcript, on a line of its own.
pub proof fn stop_prints_the_transcript(response: &DaemonResponse, r: Vec<String>)
    requires
        call_ensures(transcribe_stop, (response,), r),
    ensures
        response.transcript is Some && response.transcript->0@.len() > 0 ==> r@.len() > 0
            && r@.last()@ == response.transcript->0@,
        response.message is Some ==> r@.len() > 0 && r@[0]@ == response.message->0@,
        r@.len() == (if response.message is Some {
            1int
        } else {
            0
        }) + (if response.transcript is Some && response.transcript->0@.len() > 0 {
            1int
        } else {
            0
        }),
{
    let lines = views(r@);
    assert(lines.len() == r@.len());
    if r@.len() > 0 {
        assert(lines[0] == r@[0]@);
        assert(lines.last() == r@.last()@);
    }
}

/// The live preview of a transcript that grows prints what was added, so that all that was printed
/// is the transcript; one that changed is printed whole on a new line; and it goes on for as long
/// as the recording does.
pub proof fn live_preview_prints_what_is_new(
    response: &DaemonResponse,
    last_preview: &mut String,
    r: LiveStep,
    added: Seq<char>,
)
    requires
        call_ensures(live_preview, (response, last_preview), r),
    ensures
        r.more == response.recording,
        response.transcript_preview is None ==> r.print@.len() == 0
            && final(last_preview)@ == old(last_preview)@,
        response.transcript_preview is Some ==> final(last_preview)@
            == response.transcript_preview->0@,
        response.transcript_preview is Some
            && response.transcript_preview->0@ == old(last_preview)@ + added ==> r.print@ == added,
        response.transcript_preview is Some && old(last_preview)@.len() > 0 && !begins_with(
            response.transcript_preview->0@,
            old(last_preview)@,
        ) ==> r.print@ == "\n"@ + response.transcript_preview->0@,
        response.transcript_preview is Some && old(last_preview)@.len() == 0 ==> r.print@
            == response.transcript_preview->0@,
{
    if response.transcript_preview is Some {
        let last = old(last_preview)@;
        let next = response.transcript_preview->0@;
        if next == last + added {
            assert(next.subrange(0, last.len() as int) =~= last);
            assert(next.skip(last.len() as int) =~= added);
        }
        if last.len() == 0 {
            assert(next.subrange(0, 0) =~= last);
            assert(next.skip(0) =~= next);
        }
    }
}

/// Whether the steps of the live preview follow each other over these previews, each of which
/// begins with the one before: `shown` is what was shown before the first and after each of them.
pub open spec fn shown_in_turn(
    previews: Seq<Seq<char>>,
    prints: Seq<Seq<char>>,
    shown: Seq<Seq<char>>,
) -> bool {
    &&& prints.len() == previews.len()
    &&& shown.len() == previews.len() + 1
    &&& shown[0].len() == 0
    &&& forall|i: int|
        #![trigger previews[i]]
        0 <= i < previews.len() ==> {
            &&& begins_with(previews[i], shown[i])
            &&& prints[i] == preview_delta(shown[i], previews[i])
            &&& shown[i + 1] == previews[i]
        }
}

/// All that the live preview printed of a transcript that grew is the transcript.
pub proof fn all_prints_are_the_transcript(
    previews: Seq<Seq<char>>,
    prints: Seq<Seq<char>>,
    shown: Seq<Seq<char>>,
)
    requires
        shown_in_turn(previews, prints, shown),
        previews.len() > 0,
    ensures
        prints.flatten_alt() == previews.last(),
    decreases previews.len(),
{
    let n = previews.len() - 1;
    let front = prints.drop_last();
    assert(previews[n] == previews.last());
    growing_preview_is_printed_whole(shown[n], previews[n]);
    if n == 0 {
        assert(front =~= Seq::empty());
        assert(front.flatten_alt() =~= Seq::empty());
        assert(shown[0] =~= Seq::empty());
        assert(prints.flatten_alt() =~= previews.last());
    } else {
        let earlier = previews.drop_last();
        assert forall|i: int|
            #![trigger earlier[i]]
            0 <= i < earlier.len() implies {
            &&& begins_with(earlier[i], shown.drop_last()[i])
            &&& front[i] == preview_delta(shown.drop_last()[i], earlier[i])
            &&& shown.drop_last()[i + 1] == earlier[i]
        } by {
            assert(earlier[i] == previews[i]);
        }
        all_prints_are_the_transcript(earlier, front, shown.drop_last());
        assert(earlier.last() == previews[n - 1]);
        assert(shown[n] == previews[n - 1]);
    }
}

/// Of events whose numbers grow, debugging prints those that are new, all of them and in their
/// order, each with its number, its type and its text; and the number of the last is kept.
pub proof fn new_events_are_printed(
    debug: &RealtimeDebugInfo,
    last_event_seq: &mut u64,
    r: Vec<Json>,
    known: int,
)
    requires
        call_ensures(live_debug_events, (debug, last_event_seq), r),
        0 <= known <= debug.recent_events@.len(),
        forall|i: int|
            0 <= i < known ==> (#[trigger] debug.recent_events@[i]).seq <= *old(last_event_seq),
        forall|i: int|
            known <= i < debug.recent_events@.len() ==> (#[trigger] debug.recent_events@[i]).seq
                > *old(last_event_seq),
        forall|i: int, j: int|
            known <= i < j < debug.recent_events@.len() ==> (
            #[trigger] debug.recent_events@[i]).seq < (#[trigger] debug.recent_events@[j]).seq,
    ensures
        r@.len() == debug.recent_events@.len() - known,
        forall|i: int|
            #![trigger r@[i]]
            0 <= i < r@.len() ==> prints_event(r@[i]@, debug.recent_events@[known + i]),
        known < debug.recent_events@.len() ==> *final(last_event_seq)
            == debug.recent_events@.last().seq,
        known == debug.recent_events@.len() ==> *final(last_event_seq) == *old(last_event_seq),
{
    let events = debug.recent_events@;
    let last = *old(last_event_seq);
    fresh_are_the_new(events, last, known);
    let printed = trees(r@);
    assert(printed.len() == r@.len());
    assert forall|i: int|
        #![trigger r@[i]]
        0 <= i < r@.len() implies prints_event(r@[i]@, events[known + i]) by {
        assert(printed[i] == r@[i]@);
        assert(fresh_events(events, last)[i] == debug_event(events[known + i]));
        event_is_printed(events[known + i]);
    }
}

proof fn fresh_are_the_new(events: Seq<RealtimeDebugEvent>, last: u64, known: int)
    requires
        0 <= known <= events.len(),
        forall|i: int| 0 <= i < known ==> (#[trigger] events[i]).seq <= last,
        forall|i: int| known <= i < events.len() ==> (#[trigger] events[i]).seq > last,
        forall|i: int, j: int|
            known <= i < j < events.len() ==> (#[trigger] events[i]).seq < (
            #[trigger] events[j]).seq,
    ensures
        fresh_events(events, last).len() == events.len() - known,
        forall|i: int|
            0 <= i < events.len() - known ==> #[trigger] fresh_events(events, last)[i]
                == debug_event(events[known + i]),
        last_printed(events, last) == if known < events.len() {
            events.last().seq
        } else {
            last
        },
    decreases events.len(),
{
    if events.len() > 0 {
        let front = events.drop_last();
        let n = events.len() - 1;
        let fewer = if known <= n {
            known
        } else {
            n
        };
        assert forall|i: int| 0 <= i < fewer implies (#[trigger] front[i]).seq <= last by {
            assert(front[i] == events[i]);
        }
        assert forall|i: int| fewer <= i < front.len() implies (#[trigger] front[i]).seq > last by {
            assert(front[i] == events[i]);
        }
        assert forall|i: int, j: int| fewer <= i < j < front.len() implies (#[trigger] front[i]).seq
            < (#[trigger] front[j]).seq by {
            assert(front[i] == events[i] && front[j] == events[j]);
        }
        fresh_are_the_new(front, last, fewer);
        assert(events.last() == events[n]);
        if fewer < n {
            assert(front.last() == events[n - 1]);
        }
        let all = fresh_events(events, last);
        let before = fresh_events(front, last);
        assert forall|i: int| 0 <= i < events.len() - known implies #[trigger] all[i]
            == debug_event(events[known + i]) by {
            if i < before.len() {
                assert(all[i] == before[i]);
                assert(front[fewer + i] == events[known + i]);
            }
        }
    }
}

/// Whether a value is what debugging prints of an event.
pub open spec fn prints_event(t: JsonTree, e: RealtimeDebugEvent) -> bool {
    &&& t is Object
    &&& lookup(t->Object_0, "kind"@) == Some(JsonTree::Text("realtime_event"@))
    &&& lookup(t->Object_0, "seq"@) == Some(JsonTree::Number(number_of(e.seq)))
    &&& lookup(t->Object_0, "type"@) == Some(JsonTree::Text(e.event_type@))
    &&& lookup(t->Object_0, "at_ms"@) == Some(JsonTree::Number(number_of(e.at_ms)))
    &&& prints_text(t, "text_fragment"@, e.text_fragment)
    &&& prints_text(t, "error_code"@, e.error_code)
    &&& prints_text(t, "error_message"@, e.error_message)
    &&& prints_text(t, "error_event_id"@, e.error_event_id)
    &&& prints_text(t, "raw_excerpt"@, e.raw_excerpt)
}

/// Whether a text stands under a name where there is one, and nothing where there is none.
pub open spec fn prints_text(t: JsonTree, name: Seq<char>, text: Option<String>) -> bool {
    lookup(t->Object_0, name) == match text {
        Some(text) => Some(JsonTree::Text(text@)),
        None => None,
    }
}

proof fn lookups_with_text(s: Seq<(Seq<char>, JsonTree)>, k: Seq<char>, v: Option<String>)
    ensures
        v is Some ==> lookup(with_text(s, k, v), k) == Some(JsonTree::Text(v->0@)),
        v is None ==> lookup(with_text(s, k, v), k) == lookup(s, k),
        forall|other: Seq<char>|
            other != k ==> #[trigger] lookup(with_text(s, k, v), other) == lookup(s, other),
{
    if v is Some {
        lookups_after_put(s, k, JsonTree::Text(v->0@));
    }
}

proof fn event_is_printed(e: RealtimeDebugEvent)
    ensures
        prints_event(debug_event(e), e),
{
    reveal_strlit("kind");
    reveal_strlit("seq");
    reveal_strlit("type");
    reveal_strlit("at_ms");
    reveal_strlit("text_fragment");
    reveal_strlit("error_code");
    reveal_strlit("error_message");
    reveal_strlit("error_event_id");
    reveal_strlit("raw_excerpt");
    assert("kind"@.len() == 4 && "seq"@.len() == 3 && "type"@.len() == 4 && "at_ms"@.len() == 5);
    assert("kind"@[0] == 'k' && "type"@[0] == 't');
    assert("text_fragment"@.len() == 13 && "error_code"@.len() == 10);
    assert("error_message"@.len() == 13 && "error_event_id"@.len() == 14);
    assert("raw_excerpt"@.len() == 11);
    assert("text_fragment"@[0] == 't' && "error_message"@[0] == 'e');
    let none = no_fields();
    let a = put(none, "kind"@, JsonTree::Text("realtime_event"@));
    let b = put(a, "seq"@, JsonTree::Number(number_of(e.seq)));
    let c = put(b, "type"@, JsonTree::Text(e.event_type@));
    let d = put(c, "at_ms"@, JsonTree::Number(number_of(e.at_ms)));
    lookups_after_put(none, "kind"@, JsonTree::Text("realtime_event"@));
    lookups_after_put(a, "seq"@, JsonTree::Number(number_of(e.seq)));
    lookups_after_put(b, "type"@, JsonTree::Text(e.event_type@));
    lookups_after_put(c, "at_ms"@, JsonTree::Number(number_of(e.at_ms)));
    let f = with_text(d, "text_fragment"@, e.text_fragment);
    let g = with_text(f, "error_code"@, e.error_code);
    let h = with_text(g, "error_message"@, e.error_message);
    let i = with_text(h, "error_event_id"@, e.error_event_id);
    lookups_with_text(d, "text_fragment"@, e.text_fragment);
    lookups_with_text(f, "error_code"@, e.error_code);
    lookups_with_text(g, "error_message"@, e.error_message);
    lookups_with_text(h, "error_event_id"@, e.error_event_id);
    lookups_with_text(i, "raw_excerpt"@, e.raw_excerpt);
}

// ---------------------------------------------------------------------------------------------
// Laws of the answers and the steps
// ---------------------------------------------------------------------------------------------

/// An answer of success is passed on unchanged, and one of failure fails with what it tells.
pub proof fn answers_are_passed_on(
    response: DaemonResponse,
    otherwise: &str,
    r: Result<DaemonResponse, Error>,
)
    requires
        call_ensures(accepted, (response, otherwise), r),
    ensures
        response.ok ==> r is Ok && r->Ok_0 == response,
        !response.ok ==> r is Err,
        !response.ok && response.error is Some ==> r->Err_0.message@ == response.error->0@,
        !response.ok && response.error is None ==> r->Err_0.message@ == otherwise@,
{
}

/// An answer of the daemon is its state; one that does not answer is stopped, with the process that
/// its file names.
pub proof fn state_is_what_was_answered(
    reply: Option<DaemonResponse>,
    pid_file: Option<&str>,
    r: DaemonResponse,
    pid: u32,
)
    requires
        call_ensures(status_snapshot, (reply, pid_file), r),
    ensures
        reply is Some ==> r == reply->0,
        reply is None ==> r.ok && !r.running && !r.recording && r.transcript is None
            && r.transcript_preview is None,
        reply is None && pid_file is None ==> r.pid is None,
        reply is None && pid_file is Some && is_ink_of(decimal(pid as nat), pid_file->0@) ==> r.pid
            == Some(pid),
{
    if pid_file is Some && is_ink_of(decimal(pid as nat), pid_file->0@) {
        ink_is_unique(decimal(pid as nat), pid_file->0@);
        number_is_parsed(pid as nat, u32::MAX as int);
    }
}

/// The daemon runs exactly where it answered a ping and said so.
pub proof fn running_is_what_was_answered(reply: &Option<DaemonResponse>, r: bool)
    requires
        call_ensures(is_running, (reply,), r),
    ensures
        r <==> *reply is Some && (*reply)->0.ok && (*reply)->0.running,
{
}

/// `start` starts a daemon only where none runs, and reports success only where one runs; `stop`
/// stops one only where it runs, and reports success only where none runs any more.
pub proof fn start_and_stop_do_what_is_needed(
    stage: Stage,
    running: bool,
    up: Result<StartDaemonStep, Error>,
    down: Result<StopDaemonStep, Error>,
)
    requires
        call_ensures(start, (stage, running), up),
        call_ensures(stop, (stage, running), down),
    ensures
        up is Ok && up->Ok_0 is Spawn <==> stage is Looked && !running,
        up is Ok && up->Ok_0 is Report <==> running,
        up is Ok && up->Ok_0 is Report ==> up->Ok_0->already_running == (stage is Looked),
        up is Err <==> stage is Waited && !running,
        down is Ok && down->Ok_0 is SendStop <==> stage is Looked && running,
        down is Ok && down->Ok_0 is Report <==> !running,
        down is Ok && down->Ok_0 is Report ==> down->Ok_0->already_stopped == (stage is Looked),
        down is Err <==> stage is Waited && running,
{
}

/// `transcribe start` stays to show the transcript unless it is sent to the background or asked for
/// JSON; debugging is refused where it does not stay.
pub proof fn start_stays_to_show(
    background: bool,
    debug: bool,
    debug_json: bool,
    json_output: bool,
    r: Result<bool, Error>,
)
    requires
        call_ensures(transcribe_start, (background, debug, debug_json, json_output), r),
    ensures
        r is Err <==> (debug || debug_json) && (background || json_output),
        r is Ok ==> (r->Ok_0 <==> !background && !json_output),
{
}

/// Without a daemon nothing is recorded: the answers say so, and the transcript is empty.
pub proof fn nothing_is_recorded_without_a_daemon(state: DaemonResponse, end: DaemonResponse)
    requires
        call_ensures(transcribe_status_without_daemon, (), state),
        call_ensures(transcribe_stop_without_daemon, (), end),
    ensures
        state.ok && !state.running && !state.recording,
        state.transcript is None && state.transcript_preview is None,
        end.ok && !end.running && !end.recording,
        end.transcript is Some && end.transcript->0@.len() == 0,
{
}

/// The user interface is ended only where the process is its own; it is asked first, has 700
/// milliseconds, and is ended by force only then, which is given 250 milliseconds.
pub proof fn interface_is_ended_gently(
    pid: Option<u32>,
    is_ui_client: bool,
    first: UiStopStep,
    forced: bool,
    alive: bool,
    elapsed_ms: u64,
    next: UiStopStep,
)
    requires
        call_ensures(stop_ui_client, (pid, is_ui_client), first),
        call_ensures(await_ui_client, (forced, alive, elapsed_ms), next),
    ensures
        first is Terminate <==> pid is Some && is_ui_client,
        first is Terminate || first is RemoveFile,
        next is Kill <==> !forced && elapsed_ms > 700,
        next is GiveUp <==> forced && elapsed_ms > 250,
        next is Wait ==> alive,
        next is RemoveFile ==> !alive,
        !forced && alive && elapsed_ms <= 700 ==> next is Wait,
        forced && alive && elapsed_ms <= 250 ==> next is Wait,
        !(next is Terminate),
{
}

/// What `start` and `stop` print in words.
pub proof fn start_and_stop_are_told(
    pid: u32,
    already: bool,
    started: String,
    stopped: String,
)
    requires
        call_ensures(print_start_result, (false, pid, already), started),
        call_ensures(print_stop_result, (false, already), stopped),
    ensures
        already ==> started@ == "daemon already running (pid="@ + decimal(pid as nat) + ")"@,
        !already ==> started@ == "daemon started (pid="@ + decimal(pid as nat) + ")"@,
        already ==> stopped@ == "daemon already stopped"@,
        !already ==> stopped@ == "daemon stopped"@,
{
}

/// What `start` prints as JSON: that the daemon runs, its process, and whether it did so already.
pub proof fn start_is_told_as_json(
    pid: u32,
    already: bool,
    r: String,
) -> (fields: Seq<(Seq<char>, JsonTree)>)
    requires
        call_ensures(print_start_result, (true, pid, already), r),
    ensures
        r@ == json_pretty(JsonTree::Object(fields)),
        lookup(fields, "ok"@) == Some(JsonTree::Bool(true)),
        lookup(fields, "running"@) == Some(JsonTree::Bool(true)),
        lookup(fields, "recording"@) == Some(JsonTree::Bool(false)),
        lookup(fields, "pid"@) == Some(JsonTree::Number(number_of(pid as u64))),
        lookup(fields, "alreadyRunning"@) == Some(JsonTree::Bool(already)),
{
    reveal_strlit("ok");
    reveal_strlit("running");
    reveal_strlit("recording");
    reveal_strlit("pid");
    reveal_strlit("alreadyRunning");
    assert("ok"@.len() == 2 && "running"@.len() == 7 && "recording"@.len() == 9);
    assert("pid"@.len() == 3 && "alreadyRunning"@.len() == 14);
    let a = put(no_fields(), "ok"@, JsonTree::Bool(true));
    let b = put(a, "running"@, JsonTree::Bool(true));
    let c = put(b, "recording"@, JsonTree::Bool(false));
    let d = put(c, "pid"@, JsonTree::Number(number_of(pid as u64)));
    lookups_after_put(no_fields(), "ok"@, JsonTree::Bool(true));
    lookups_after_put(a, "running"@, JsonTree::Bool(true));
    lookups_after_put(b, "recording"@, JsonTree::Bool(false));
    lookups_after_put(c, "pid"@, JsonTree::Number(number_of(pid as u64)));
    lookups_after_put(d, "alreadyRunning"@, JsonTree::Bool(already));
    put(d, "alreadyRunning"@, JsonTree::Bool(already))
}

/// What `stop` prints as JSON: that the daemon does not run, and the same message as in words.
pub proof fn stop_is_told_as_json(
    already: bool,
    r: String,
    words: String,
) -> (fields: Seq<(Seq<char>, JsonTree)>)
    requires
        call_ensures(print_stop_result, (true, already), r),
        call_ensures(print_stop_result, (false, already), words),
    ensures
        r@ == json_pretty(JsonTree::Object(fields)),
        lookup(fields, "ok"@) == Some(JsonTree::Bool(true)),
        lookup(fields, "running"@) == Some(JsonTree::Bool(false)),
        lookup(fields, "recording"@) == Some(JsonTree::Bool(false)),
        lookup(fields, "message"@) == Some(JsonTree::Text(words@)),
{
    reveal_strlit("ok");
    reveal_strlit("running");
    reveal_strlit("recording");
    reveal_strlit("message");
    assert("ok"@.len() == 2 && "running"@.len() == 7 && "recording"@.len() == 9);
    assert("message"@.len() == 7 && "message"@[0] == 'm' && "running"@[0] == 'r');
    let a = put(no_fields(), "ok"@, JsonTree::Bool(true));
    let b = put(a, "running"@, JsonTree::Bool(false));
    let c = put(b, "recording"@, JsonTree::Bool(false));
    lookups_after_put(no_fields(), "ok"@, JsonTree::Bool(true));
    lookups_after_put(a, "running"@, JsonTree::Bool(false));
    lookups_after_put(b, "recording"@, JsonTree::Bool(false));
    lookups_after_put(c, "message"@, JsonTree::Text(words@));
    put(c, "message"@, JsonTree::Text(words@))
}

/// Where the daemon does not run, `reload` still looks at the configuration: it fails exactly where
/// the configuration is wrong, with what is wrong.
pub proof fn reload_looks_without_a_daemon(
    json_output: bool,
    config: &ConfigValue,
    r: Result<String, Error>,
    valid: Result<(), Error>,
)
    requires
        call_ensures(reload_without_daemon, (json_output, config), r),
        call_ensures(validate_runtime_config, (config,), valid),
    ensures
        r is Ok <==> valid is Ok,
        r is Err ==> r->Err_0.message@ == valid->Err_0.message@,
        r is Ok && !json_output ==> r->Ok_0@ == "runtime config validated (daemon not running)"@,
{
}

/// The message of an answer is printed as it is, and the other text only where it has none; looking
/// again goes on up to the limit and no longer.
pub proof fn messages_are_printed(
    response: &DaemonResponse,
    otherwise: &str,
    r: String,
    elapsed_ms: u64,
    timeout_ms: u64,
    again: bool,
)
    requires
        call_ensures(message_or, (response, otherwise), r),
        call_ensures(may_poll, (elapsed_ms, timeout_ms), again),
    ensures
        response.message is Some ==> r@ == response.message->0@,
        response.message is None ==> r@ == otherwise@,
        again <==> elapsed_ms <= timeout_ms,
        STARTUP_TIMEOUT_MS == 2_000 && SHUTDOWN_TIMEOUT_MS == 2_000 && POLL_INTERVAL_MS == 50,
{
}

} // verus!
