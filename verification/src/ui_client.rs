//! The user interface: where its files lie, what it shows, and how it changes with the events that
//! come to it.
use vstd::prelude::*;

use crate::cli::option_view;
use crate::error::{fails_from, fails_with, Error};
use crate::fields::{lookup, put};
use crate::json::{
    field, json_parsed, json_problem, json_text, no_fields, text_field, Json, JsonTree,
};
use crate::process::{parse_pid, parse_process_row, resolve_runtime_dir, runtime_directory};
use crate::realtime::later;
use crate::text::{
    begins_with, chars_of, contains, contains_char, given, given_text, holds_text, ink_is_unique,
    is_ink_of, is_white_char, join_path, joined, joined_path, pieces, pieces_without_separator,
    same, starts_with, str_view, trim, trim_end, trimmed, trimmed_end, trimmed_end_is_tight,
    trimmed_start, words,
};
use crate::ui_ipc::UiEventEnvelope;

verus! {

// ---------------------------------------------------------------------------------------------
// Settings
// ---------------------------------------------------------------------------------------------

/// How long the interface stays after it was hidden, how long it takes to hide, and how long it
/// waits to connect again, in milliseconds, where nothing else is asked for.
pub const DEFAULT_IDLE_MS: u64 = 30_000;

pub const DEFAULT_HIDE_MS: u64 = 250;

pub const DEFAULT_RETRY_MS: u64 = 220;

/// How many lines of the transcript are shown at most, and how many characters fit into a line.
pub const TRANSCRIPT_MAX_LINES: usize = 4;

pub const TRANSCRIPT_CHARS_PER_LINE_ESTIMATE: usize = 38;

/// What the command line of the interface asks for.
#[derive(Debug)]
pub struct Cli {
    pub socket: Option<String>,
    pub daemon_socket: Option<String>,
    pub idle_ms: u64,
    pub hide_ms: u64,
    pub retry_ms: u64,
}

/// The settings of the interface. Times are in milliseconds.
#[derive(Debug)]
pub struct UiRuntimeConfig {
    pub ui_socket: String,
    pub daemon_socket: String,
    pub idle_linger: u64,
    pub hide_linger: u64,
    pub reconnect_delay: u64,
}

/// At least this much.
pub open spec fn at_least(n: u64, least: u64) -> u64 {
    if n < least {
        least
    } else {
        n
    }
}

fn no_less(n: u64, least: u64) -> (r: u64)
    ensures
        r == at_least(n, least),
{
    if n < least {
        least
    } else {
        n
    }
}

/// Where a socket lies: where it is said to, else under the runtime directory.
pub open spec fn socket_path(
    explicit: Option<Seq<char>>,
    runtime_dir: Option<Seq<char>>,
    name: Seq<char>,
) -> Option<Seq<char>> {
    match explicit {
        Some(path) => Some(path),
        None => match runtime_dir {
            Some(dir) => Some(joined_path(dir, name)),
            None => None,
        },
    }
}

/// Whether `r` is this path, or that no home directory is known.
pub open spec fn is_path(r: Result<String, Error>, path: Option<Seq<char>>) -> bool {
    match path {
        Some(path) => r is Ok && r->Ok_0@ == path,
        None => fails_with(r, "failed to resolve home directory"@),
    }
}

fn resolve_socket(
    explicit: Option<&str>,
    custom: Option<&str>,
    xdg: Option<&str>,
    home: Option<&str>,
    name: &str,
) -> (r: Result<String, Error>)
    ensures
        is_path(r, socket_path(str_view(explicit), runtime_directory(custom, xdg, home), name@)),
{
    match explicit {
        Some(path) => Ok(path.to_string()),
        None => match resolve_runtime_dir(custom, xdg, home) {
            Ok(dir) => Ok(join_path(dir.as_str(), name)),
            Err(e) => Err(e),
        },
    }
}

/// Where events for the interface come from.
pub fn resolve_ui_socket_path(
    explicit: Option<&str>,
    custom: Option<&str>,
    xdg: Option<&str>,
    home: Option<&str>,
) -> (r: Result<String, Error>)
    ensures
        is_path(
            r,
            socket_path(str_view(explicit), runtime_directory(custom, xdg, home), "ui.sock"@),
        ),
{
    resolve_socket(explicit, custom, xdg, home, "ui.sock")
}

/// Where the daemon listens.
pub fn resolve_daemon_socket_path(
    explicit: Option<&str>,
    custom: Option<&str>,
    xdg: Option<&str>,
    home: Option<&str>,
) -> (r: Result<String, Error>)
    ensures
        is_path(
            r,
            socket_path(str_view(explicit), runtime_directory(custom, xdg, home), "daemon.sock"@),
        ),
{
    resolve_socket(explicit, custom, xdg, home, "daemon.sock")
}

/// Where the interface keeps its position: where it is said to, else under the directory for local
/// data, else under the home directory.
pub open spec fn position_dir(
    custom: Option<&str>,
    data_dir: Option<&str>,
    home: Option<&str>,
) -> Option<Seq<char>> {
    match given(custom) {
        Some(dir) => Some(dir),
        None => match data_dir {
            Some(dir) => Some(joined_path(dir@, "omni"@)),
            None => match home {
                Some(home) => Some(
                    joined_path(joined_path(joined_path(home@, ".local"@), "share"@), "omni"@),
                ),
                None => None,
            },
        },
    }
}

/// Where the interface keeps its position, given the value of `OMNI_UI_POSITION_DIR`, the directory
/// for local data and the home directory.
pub fn resolve_ui_position_dir(custom: Option<&str>, data_dir: Option<&str>, home: Option<&str>) -> (r:
    Result<String, Error>)
    ensures
        is_path(r, position_dir(custom, data_dir, home)),
{
    if let Some(dir) = given_text(custom) {
        return Ok(dir.to_string());
    }
    if let Some(dir) = data_dir {
        return Ok(join_path(dir, "omni"));
    }
    match home {
        Some(home) => Ok(
            join_path(join_path(join_path(home, ".local").as_str(), "share").as_str(), "omni"),
        ),
        None => Err(Error::new("failed to resolve home directory")),
    }
}

/// The file in which the interface keeps its position.
pub fn position_file_path(runtime_dir: &str) -> (r: String)
    ensures
        r@ == joined_path(runtime_dir@, "transcribe-ui-position.json"@),
{
    join_path(runtime_dir, "transcribe-ui-position.json")
}

/// The settings that the command line asks for. Times that are too short are raised.
pub fn runtime_config(
    cli: &Cli,
    custom: Option<&str>,
    xdg: Option<&str>,
    home: Option<&str>,
) -> (r: Result<UiRuntimeConfig, Error>)
    ensures
        ({
            let dir = runtime_directory(custom, xdg, home);
            let ui = socket_path(option_view(cli.socket), dir, "ui.sock"@);
            let daemon = socket_path(option_view(cli.daemon_socket), dir, "daemon.sock"@);
            if ui is None || daemon is None {
                fails_with(r, "failed to resolve home directory"@)
            } else {
                &&& r is Ok
                &&& r->Ok_0.ui_socket@ == ui->0
                &&& r->Ok_0.daemon_socket@ == daemon->0
                &&& r->Ok_0.idle_linger == at_least(cli.idle_ms, 200)
                &&& r->Ok_0.hide_linger == at_least(cli.hide_ms, 50)
                &&& r->Ok_0.reconnect_delay == at_least(cli.retry_ms, 20)
            }
        }),
{
    let explicit = match &cli.socket {
        Some(path) => Some(path.as_str()),
        None => None,
    };
    let ui_socket = match resolve_ui_socket_path(explicit, custom, xdg, home) {
        Ok(path) => path,
        Err(e) => {
            return Err(e);
        },
    };
    let explicit = match &cli.daemon_socket {
        Some(path) => Some(path.as_str()),
        None => None,
    };
    let daemon_socket = match resolve_daemon_socket_path(explicit, custom, xdg, home) {
        Ok(path) => path,
        Err(e) => {
            return Err(e);
        },
    };
    Ok(
        UiRuntimeConfig {
            ui_socket,
            daemon_socket,
            idle_linger: no_less(cli.idle_ms, 200),
            hide_linger: no_less(cli.hide_ms, 50),
            reconnect_delay: no_less(cli.retry_ms, 20),
        },
    )
}

// ---------------------------------------------------------------------------------------------
// One interface at a time
// ---------------------------------------------------------------------------------------------

/// The file that says that an interface runs.
#[derive(Debug)]
pub struct InstanceLock {
    pub path: String,
}

/// How creating the file came out.
#[derive(Debug)]
pub enum LockAttempt {
    Created,
    /// It is there already.
    Exists,
    /// It could not be created, for this reason.
    Failed(String),
}

/// What is to be done about the file.
#[derive(Debug)]
pub enum LockStep {
    /// Write the number of the process into it; the interface may run.
    Hold(InstanceLock),
    /// Another interface runs.
    Leave,
    /// Remove it, and try again.
    Reclaim,
}

/// Where the file lies.
pub fn lock_path(runtime_dir: &str) -> (r: String)
    ensures
        r@ == joined_path(runtime_dir@, "transcribe-ui.pid"@),
{
    join_path(runtime_dir, "transcribe-ui.pid")
}

/// What is to be done about the file at `path`. `holder_active` says that it names the process of
/// an interface that runs.
pub fn acquire_instance_lock(path: &str, attempt: LockAttempt, holder_active: bool) -> (r: Result<
    LockStep,
    Error,
>)
    ensures
        match attempt {
            LockAttempt::Created => r is Ok && r->Ok_0 is Hold && r->Ok_0->Hold_0.path@ == path@,
            LockAttempt::Exists => r is Ok && if holder_active {
                r->Ok_0 is Leave
            } else {
                r->Ok_0 is Reclaim
            },
            LockAttempt::Failed(reason) => fails_with(
                r,
                "failed acquiring ui instance lock "@ + path@ + ": "@ + reason@,
            ),
        },
{
    match attempt {
        LockAttempt::Created => Ok(LockStep::Hold(InstanceLock { path: path.to_string() })),
        LockAttempt::Exists => {
            if holder_active {
                Ok(LockStep::Leave)
            } else {
                Ok(LockStep::Reclaim)
            }
        },
        LockAttempt::Failed(reason) => {
            let mut message = "failed acquiring ui instance lock ".to_string();
            message.append(path);
            message.append(": ");
            message.append(reason.as_str());
            Err(Error { message, cause: None })
        },
    }
}

/// Whether the process with this row in the process table is an interface that runs. Where there is
/// no process table, `signalled` says whether the process took a signal.
pub open spec fn is_active(row: Option<Seq<char>>, signalled: bool) -> bool {
    match row {
        Some(row) => words(row).len() > 0 && !words(row)[0].contains('Z') && holds_text(
            joined(words(row).skip(1), " "@),
            "omni-transcribe-ui"@,
        ),
        None => signalled,
    }
}

/// Whether the process is an interface that runs.
pub fn is_active_ui_instance(row: Option<&str>, signalled: bool) -> (r: bool)
    ensures
        r == is_active(str_view(row), signalled),
{
    match row {
        Some(row) => match parse_process_row(row) {
            Some(p) => !contains_char(p.state.as_str(), 'Z') && contains(
                p.command.as_str(),
                "omni-transcribe-ui",
            ),
            None => false,
        },
        None => signalled,
    }
}

/// The number of the process that the file with this text names.
pub fn read_lock_pid(raw: &str) -> (r: Option<u32>)
    ensures
        match r {
            Some(pid) => crate::text::parsed_unsigned(trimmed(raw@), u32::MAX as int) == Some(
                pid as int,
            ),
            None => crate::text::parsed_unsigned(trimmed(raw@), u32::MAX as int) is None,
        },
{
    parse_pid(raw)
}

// ---------------------------------------------------------------------------------------------
// What comes from the daemon
// ---------------------------------------------------------------------------------------------

/// What the daemon says of its state.
#[derive(Debug)]
pub struct DaemonSnapshot {
    pub running: bool,
    pub recording: bool,
    pub transcript_preview: Option<String>,
}

/// The truth value under a name, or `otherwise` where none is there.
pub open spec fn truth_field(t: JsonTree, k: Seq<char>, otherwise: bool) -> bool {
    match field(t, k) {
        Some(JsonTree::Bool(b)) => b,
        _ => otherwise,
    }
}

fn get_truth(j: &Json, k: &str, otherwise: bool) -> (r: bool)
    ensures
        r == truth_field(j@, k@, otherwise),
{
    match j.get(k) {
        Some(v) => match v.as_bool() {
            Some(b) => b,
            None => otherwise,
        },
        None => otherwise,
    }
}

/// The request for the state of the daemon.
pub open spec fn snapshot_query() -> JsonTree {
    JsonTree::Object(
        put(
            put(no_fields(), "cmd"@, JsonTree::Text("transcribe_status"@)),
            "mode"@,
            JsonTree::Null,
        ),
    )
}

/// The line that asks the daemon for its state.
pub fn snapshot_request() -> (r: String)
    ensures
        r@ == json_text(snapshot_query()) + "\n"@,
{
    let query = Json::object().with("cmd", Json::text("transcribe_status")).with(
        "mode",
        Json::Null,
    );
    let mut line = query.to_text();
    line.append("\n");
    line
}

/// Whether `s` is what a reply says.
pub open spec fn is_snapshot(s: DaemonSnapshot, t: JsonTree) -> bool {
    &&& s.running == truth_field(t, "running"@, false)
    &&& s.recording == truth_field(t, "recording"@, false)
    &&& option_view(s.transcript_preview) == text_field(t, "transcript_preview"@)
}

/// What a reply that was read says.
pub fn snapshot_of(reply: &Json) -> (s: DaemonSnapshot)
    ensures
        is_snapshot(s, reply@),
{
    let transcript_preview = match reply.get_str("transcript_preview") {
        Some(preview) => Some(preview.to_string()),
        None => None,
    };
    DaemonSnapshot {
        running: get_truth(reply, "running", false),
        recording: get_truth(reply, "recording", false),
        transcript_preview,
    }
}

/// What the line with which the daemon replied says.
pub fn query_daemon_snapshot(line: &str) -> (r: Result<DaemonSnapshot, Error>)
    ensures
        match json_parsed(trimmed_end(line@)) {
            Some(t) => r is Ok && is_snapshot(r->Ok_0, t),
            None => fails_from(
                r,
                "invalid daemon snapshot JSON"@,
                json_problem(trimmed_end(line@)),
            ),
        },
{
    match Json::parse(trim_end(line)) {
        Ok(reply) => Ok(snapshot_of(&reply)),
        Err(problem) => Err(Error::caused("invalid daemon snapshot JSON", problem)),
    }
}

// ---------------------------------------------------------------------------------------------
// What the interface shows
// ---------------------------------------------------------------------------------------------

/// What comes to the interface.
pub enum InboundMessage {
    UiEvent(UiEventEnvelope),
    Snapshot(DaemonSnapshot),
}

/// Whether the interface is visible. Times are on the clock of the interface; the opacity is the
/// bits of a floating-point number.
#[derive(Debug)]
pub struct VisibilityState {
    pub visible: bool,
    pub panel_opacity: u32,
    pub hide_deadline: Option<u64>,
    pub idle_deadline: Option<u64>,
}

/// The transcript as it is shown. `bold_from` counts bytes; the pulse is the bits of a
/// floating-point number.
#[derive(Debug)]
pub struct TranscriptState {
    pub text: String,
    pub bold_from: usize,
    pub text_pulse: u32,
    pub should_scroll_to_bottom: bool,
}

/// The audio as it was told last; the levels as the events gave them.
#[derive(Debug)]
pub struct AudioState {
    pub silent: bool,
    pub rms: Option<serde_json::Number>,
    pub peak: Option<serde_json::Number>,
}

/// The state of the interface.
#[derive(Debug)]
pub struct UiState {
    pub visibility: VisibilityState,
    pub transcript: TranscriptState,
    pub audio: AudioState,
    pub accept_transcript_events: bool,
    pub last_frame: u64,
}

/// The state of the interface, apart from how its text is held.
pub struct UiView {
    pub visible: bool,
    pub panel_opacity: u32,
    pub hide_deadline: Option<u64>,
    pub idle_deadline: Option<u64>,
    pub text: Seq<char>,
    pub bold_from: usize,
    pub text_pulse: u32,
    pub should_scroll_to_bottom: bool,
    pub silent: bool,
    pub rms: Option<serde_json::Number>,
    pub peak: Option<serde_json::Number>,
    pub accept_transcript_events: bool,
    pub last_frame: u64,
}

impl View for UiState {
    type V = UiView;

    open spec fn view(&self) -> UiView {
        UiView {
            visible: self.visibility.visible,
            panel_opacity: self.visibility.panel_opacity,
            hide_deadline: self.visibility.hide_deadline,
            idle_deadline: self.visibility.idle_deadline,
            text: self.transcript.text@,
            bold_from: self.transcript.bold_from,
            text_pulse: self.transcript.text_pulse,
            should_scroll_to_bottom: self.transcript.should_scroll_to_bottom,
            silent: self.audio.silent,
            rms: self.audio.rms,
            peak: self.audio.peak,
            accept_transcript_events: self.accept_transcript_events,
            last_frame: self.last_frame,
        }
    }
}

/// The bits of the floating-point number one.
pub const ONE_BITS: u32 = 0x3F80_0000;

impl UiState {
    /// The interface at its start: hidden, and gone if it is not used in time.
    pub fn new(now: u64, idle_linger: u64) -> (s: UiState)
        ensures
            s@ == (UiView {
                visible: false,
                panel_opacity: 0,
                hide_deadline: None,
                idle_deadline: Some(later(now, idle_linger)),
                text: Seq::empty(),
                bold_from: 0,
                text_pulse: ONE_BITS,
                should_scroll_to_bottom: false,
                silent: true,
                rms: None,
                peak: None,
                accept_transcript_events: true,
                last_frame: now,
            }),
            bold_begins_with_a_character(s@),
    {
        let s = UiState {
            visibility: VisibilityState {
                visible: false,
                panel_opacity: 0,
                hide_deadline: None,
                idle_deadline: Some(now.saturating_add(idle_linger)),
            },
            transcript: TranscriptState {
                text: String::new(),
                bold_from: 0,
                text_pulse: ONE_BITS,
                should_scroll_to_bottom: false,
            },
            audio: AudioState { silent: true, rms: None, peak: None },
            accept_transcript_events: true,
            last_frame: now,
        };
        assert(s@.text =~= Seq::empty());
        assert(s@.text.take(0) =~= Seq::empty());
        assert(byte_len(Seq::empty()) == 0);
        s
    }
}

/// How many bytes a text takes.
pub open spec fn byte_len(s: Seq<char>) -> usize {
    vstd::utf8::encode_utf8(s).len() as usize
}

/// Whether what is set off in the transcript begins where one of its characters begins, or at its
/// end.
pub open spec fn bold_begins_with_a_character(v: UiView) -> bool {
    exists|n: int| 0 <= n <= v.text.len() && v.bold_from == byte_len(#[trigger] v.text.take(n))
}

/// The interface shown.
pub open spec fn shown(v: UiView, now: u64) -> UiView {
    UiView { visible: true, hide_deadline: None, idle_deadline: None, last_frame: now, ..v }
}

/// The interface hidden.
pub open spec fn hidden(v: UiView, now: u64) -> UiView {
    UiView { visible: false, hide_deadline: Some(now), panel_opacity: 0, ..v }
}

/// The interface with this transcript: what is new in it is set off.
pub open spec fn with_transcript(v: UiView, text: Seq<char>) -> UiView {
    let t = trimmed(text);
    if t.len() == 0 || t == v.text {
        v
    } else {
        UiView {
            text: t,
            bold_from: if begins_with(t, v.text) {
                byte_len(v.text)
            } else {
                0
            },
            text_pulse: 0,
            should_scroll_to_bottom: true,
            ..v
        }
    }
}

/// The interface with this added to the transcript.
pub open spec fn with_delta(v: UiView, delta: Seq<char>) -> UiView {
    UiView {
        text: v.text + delta,
        bold_from: byte_len(v.text),
        text_pulse: 0,
        should_scroll_to_bottom: true,
        ..v
    }
}

/// Shows the interface.
pub fn show(state: &mut UiState, now: u64)
    ensures
        final(state)@ == shown(old(state)@, now),
{
    state.visibility.visible = true;
    state.visibility.hide_deadline = None;
    state.visibility.idle_deadline = None;
    state.last_frame = now;
}

/// Hides the interface.
pub fn hide_immediately(state: &mut UiState, now: u64)
    ensures
        final(state)@ == hidden(old(state)@, now),
{
    state.visibility.visible = false;
    state.visibility.hide_deadline = Some(now);
    state.visibility.panel_opacity = 0;
}

/// Gives the interface this transcript, unless it is empty.
pub fn set_transcript(state: &mut UiState, text: &str)
    ensures
        final(state)@ == with_transcript(old(state)@, text@),
{
    let t = trim(text);
    if t.is_empty() {
        return;
    }
    if same(state.transcript.text.as_str(), t) {
        return;
    }
    if starts_with(t, state.transcript.text.as_str()) {
        state.transcript.bold_from = state.transcript.text.as_str().len();
    } else {
        state.transcript.bold_from = 0;
    }
    state.transcript.text = t.to_string();
    state.transcript.text_pulse = 0;
    state.transcript.should_scroll_to_bottom = true;
}

/// The interface after what the daemon says of its state.
pub open spec fn after_snapshot(
    v: UiView,
    running: bool,
    recording: bool,
    preview: Option<Seq<char>>,
    now: u64,
) -> UiView {
    if !running || !recording {
        v
    } else {
        match preview {
            Some(text) => with_transcript(shown(v, now), text),
            None => shown(v, now),
        }
    }
}

/// Takes in what the daemon says of its state.
pub fn apply_snapshot(state: &mut UiState, snapshot: DaemonSnapshot, now: u64)
    ensures
        final(state)@ == after_snapshot(
            old(state)@,
            snapshot.running,
            snapshot.recording,
            option_view(snapshot.transcript_preview),
            now,
        ),
{
    if !snapshot.running {
        return;
    }
    if snapshot.recording {
        show(state, now);
        if let Some(preview) = &snapshot.transcript_preview {
            set_transcript(state, preview.as_str());
        }
    }
}

/// The text under a name, where it is more than white space.
pub open spec fn inked_field(t: JsonTree, k: Seq<char>) -> Option<Seq<char>> {
    match text_field(t, k) {
        Some(s) => if trimmed(s).len() == 0 {
            None
        } else {
            Some(s)
        },
        None => None,
    }
}

/// The number under a name.
pub open spec fn number_field(t: JsonTree, k: Seq<char>) -> Option<serde_json::Number> {
    match field(t, k) {
        Some(JsonTree::Number(n)) => Some(n),
        _ => None,
    }
}

/// The interface after an event.
pub open spec fn after_event(v: UiView, t: Seq<char>, payload: JsonTree, now: u64) -> UiView {
    if t == "ui.show"@ || t == "transcribe.started"@ {
        shown(v, now)
    } else if t == "ui.hide"@ || t == "transcribe.stopped"@ {
        match inked_field(payload, "transcript"@) {
            Some(text) => hidden(with_transcript(v, text), now),
            None => hidden(v, now),
        }
    } else if t == "audio.energy"@ {
        UiView {
            rms: number_field(payload, "rms"@),
            peak: number_field(payload, "peak"@),
            silent: truth_field(payload, "silent"@, true),
            ..v
        }
    } else if t == "transcript.delta"@ {
        if inked_field(payload, "preview"@) is Some {
            shown(with_transcript(v, inked_field(payload, "preview"@)->0), now)
        } else {
            match text_field(payload, "delta"@) {
                Some(delta) => if delta.len() == 0 {
                    v
                } else {
                    shown(with_delta(v, delta), now)
                },
                None => v,
            }
        }
    } else if t == "transcript.snapshot"@ {
        match inked_field(payload, "text"@) {
            Some(text) => shown(with_transcript(v, text), now),
            None => v,
        }
    } else {
        v
    }
}

fn inked<'a>(payload: &'a Json, k: &str) -> (r: Option<&'a str>)
    ensures
        str_view(r) == inked_field(payload@, k@),
{
    match payload.get_str(k) {
        Some(s) => {
            if trim(s).is_empty() {
                None
            } else {
                Some(s)
            }
        },
        None => None,
    }
}

fn get_number(payload: &Json, k: &str) -> (r: Option<serde_json::Number>)
    ensures
        r == number_field(payload@, k@),
{
    match payload.get(k) {
        Some(Json::Number(n)) => Some(crate::json::copy_number(n)),
        _ => None,
    }
}

/// Takes in an event. The interface hides at once, however long hiding may take.
pub fn apply_event(state: &mut UiState, event: UiEventEnvelope, now: u64, _hide_linger: u64)
    ensures
        final(state)@ == after_event(old(state)@, event.event_type@, event.payload@, now),
{
    let t = event.event_type.as_str();
    if same(t, "ui.show") || same(t, "transcribe.started") {
        show(state, now);
    } else if same(t, "ui.hide") || same(t, "transcribe.stopped") {
        if let Some(text) = inked(&event.payload, "transcript") {
            set_transcript(state, text);
        }
        hide_immediately(state, now);
    } else if same(t, "audio.energy") {
        state.audio.rms = get_number(&event.payload, "rms");
        state.audio.peak = get_number(&event.payload, "peak");
        state.audio.silent = get_truth(&event.payload, "silent", true);
    } else if same(t, "transcript.delta") {
        if let Some(preview) = inked(&event.payload, "preview") {
            set_transcript(state, preview);
            show(state, now);
        } else if let Some(delta) = event.payload.get_str("delta") {
            if !delta.is_empty() {
                state.transcript.bold_from = state.transcript.text.as_str().len();
                state.transcript.text.append(delta);
                state.transcript.text_pulse = 0;
                state.transcript.should_scroll_to_bottom = true;
                show(state, now);
            }
        }
    } else if same(t, "transcript.snapshot") {
        if let Some(text) = inked(&event.payload, "text") {
            set_transcript(state, text);
            show(state, now);
        }
    }
}

/// Takes in what comes to the interface.
pub fn apply_message(state: &mut UiState, message: InboundMessage, now: u64, hide_linger: u64)
    ensures
        final(state)@ == match message {
            InboundMessage::Snapshot(s) => after_snapshot(
                old(state)@,
                s.running,
                s.recording,
                option_view(s.transcript_preview),
                now,
            ),
            InboundMessage::UiEvent(e) => after_event(
                old(state)@,
                e.event_type@,
                e.payload@,
                now,
            ),
        },
{
    match message {
        InboundMessage::Snapshot(s) => apply_snapshot(state, s, now),
        InboundMessage::UiEvent(e) => apply_event(state, e, now, hide_linger),
    }
}

// ---------------------------------------------------------------------------------------------
// Time
// ---------------------------------------------------------------------------------------------

/// What a tick of the clock leads to.
#[derive(Debug, Clone, Copy, PartialEq, Eq, Structural)]
pub enum TickAction {
    Keep,
    RemoveWindow,
}

/// Whether a moment has come.
pub open spec fn has_come(deadline: Option<u64>, now: u64) -> bool {
    deadline is Some && now >= deadline->0
}

/// The interface after a tick: one whose time to hide has come is hidden, and has its time to be
/// idle from then on.
pub open spec fn after_tick(v: UiView, now: u64, idle_linger: u64) -> UiView {
    let w = UiView { last_frame: now, ..v };
    if has_come(v.hide_deadline, now) {
        UiView {
            hide_deadline: None,
            visible: false,
            idle_deadline: Some(later(now, idle_linger)),
            ..w
        }
    } else {
        w
    }
}

/// Whether the interface has been hidden for as long as it may be idle.
pub open spec fn is_over(v: UiView, now: u64) -> bool {
    !v.visible && v.hide_deadline is None && has_come(v.idle_deadline, now)
}

/// Lets time pass, and says whether the interface is over.
pub fn tick(state: &mut UiState, now: u64, idle_linger: u64) -> (r: TickAction)
    ensures
        final(state)@ == after_tick(old(state)@, now, idle_linger),
        r == if is_over(final(state)@, now) {
            TickAction::RemoveWindow
        } else {
            TickAction::Keep
        },
{
    state.last_frame = now;
    if let Some(deadline) = state.visibility.hide_deadline {
        if now >= deadline {
            state.visibility.hide_deadline = None;
            state.visibility.visible = false;
            state.visibility.idle_deadline = Some(now.saturating_add(idle_linger));
        }
    }
    if !state.visibility.visible && state.visibility.hide_deadline.is_none() {
        if let Some(deadline) = state.visibility.idle_deadline {
            if now >= deadline {
                return TickAction::RemoveWindow;
            }
        }
    }
    TickAction::Keep
}

/// An interface that was just shown is not over, whenever the next tick comes.
pub proof fn shown_is_not_over(v: UiView, now: u64, tick_at: u64, idle_linger: u64)
    ensures
        !is_over(after_tick(shown(v, now), tick_at, idle_linger), tick_at),
{
}

/// An interface that was just hidden stays for as long as it may be idle, and is then over.
pub proof fn hidden_is_over_in_time(
    v: UiView,
    now: u64,
    first: u64,
    second: u64,
    idle_linger: u64,
)
    requires
        now <= first <= second,
        first + idle_linger <= u64::MAX,
    ensures
        ({
            let w = after_tick(hidden(v, now), first, idle_linger);
            is_over(after_tick(w, second, idle_linger), second) <==> second >= first + idle_linger
        }),
{
}

/// What is shown does not depend on events that are not about it.
pub proof fn other_events_change_nothing(v: UiView, t: Seq<char>, payload: JsonTree, now: u64)
    requires
        t != "ui.show"@,
        t != "transcribe.started"@,
        t != "ui.hide"@,
        t != "transcribe.stopped"@,
        t != "audio.energy"@,
        t != "transcript.delta"@,
        t != "transcript.snapshot"@,
    ensures
        after_event(v, t, payload, now) == v,
{
}

/// What the interface takes in.
pub enum UiInput {
    Event { event_type: Seq<char>, payload: JsonTree },
    Snapshot { running: bool, recording: bool, preview: Option<Seq<char>> },
    Tick { idle_linger: u64 },
}

/// The interface after something that it takes in.
pub open spec fn after_input(v: UiView, input: UiInput, now: u64) -> UiView {
    match input {
        UiInput::Event { event_type, payload } => after_event(v, event_type, payload, now),
        UiInput::Snapshot { running, recording, preview } => after_snapshot(
            v,
            running,
            recording,
            preview,
            now,
        ),
        UiInput::Tick { idle_linger } => after_tick(v, now, idle_linger),
    }
}

/// The interface after all that it takes in, each at its time.
pub open spec fn after_inputs(v: UiView, inputs: Seq<(UiInput, u64)>) -> UiView
    decreases inputs.len(),
{
    if inputs.len() == 0 {
        v
    } else {
        after_input(after_inputs(v, inputs.drop_last()), inputs.last().0, inputs.last().1)
    }
}

/// Whatever the interface takes in, what is set off in its transcript begins with a character.
pub proof fn bold_always_begins_with_a_character(v: UiView, inputs: Seq<(UiInput, u64)>)
    requires
        bold_begins_with_a_character(v),
    ensures
        bold_begins_with_a_character(after_inputs(v, inputs)),
    decreases inputs.len(),
{
    if inputs.len() > 0 {
        bold_always_begins_with_a_character(v, inputs.drop_last());
        let before = after_inputs(v, inputs.drop_last());
        let after = after_inputs(v, inputs);
        match inputs.last().0 {
            UiInput::Event { event_type, payload } => {
                for_transcript(before, inked_field(payload, "transcript"@), after);
                for_transcript(before, inked_field(payload, "preview"@), after);
                for_transcript(before, inked_field(payload, "text"@), after);
                if let Some(delta) = text_field(payload, "delta"@) {
                    assert((before.text + delta).take(before.text.len() as int) =~= before.text);
                    assert(bold_begins_with_a_character(with_delta(before, delta)));
                    with_same_text(with_delta(before, delta), after);
                }
            },
            UiInput::Snapshot { preview, .. } => {
                for_transcript(before, preview, after);
            },
            UiInput::Tick { .. } => {},
        }
        with_same_text(before, after);
    }
}

proof fn with_same_text(v: UiView, w: UiView)
    requires
        bold_begins_with_a_character(v),
    ensures
        w.text == v.text && w.bold_from == v.bold_from ==> bold_begins_with_a_character(w),
{
}

proof fn for_transcript(v: UiView, text: Option<Seq<char>>, w: UiView)
    requires
        bold_begins_with_a_character(v),
    ensures
        text is Some && w.text == with_transcript(v, text->0).text && w.bold_from
            == with_transcript(v, text->0).bold_from ==> bold_begins_with_a_character(w),
{
    if let Some(text) = text {
        let t = trimmed(text);
        let after = with_transcript(v, text);
        if t.len() > 0 && t != v.text {
            if begins_with(t, v.text) {
                assert(after.text.take(v.text.len() as int) =~= v.text);
            } else {
                assert(after.text.take(0) =~= Seq::<char>::empty());
                assert(byte_len(Seq::<char>::empty()) == 0);
            }
            assert(bold_begins_with_a_character(after));
        }
        with_same_text(after, w);
    }
}

// ---------------------------------------------------------------------------------------------
// Lines
// ---------------------------------------------------------------------------------------------

/// How many rows a line of so many characters takes.
pub open spec fn rows(chars: int, per_row: int) -> int {
    if chars <= 0 {
        1
    } else {
        (chars + per_row - 1) / per_row
    }
}

/// How many characters a line has that ends with a line break: a carriage return before it does
/// not count.
pub open spec fn line_len(line: Seq<char>) -> int {
    if line.len() > 0 && line.last() == '\r' {
        line.len() - 1
    } else {
        line.len() as int
    }
}

/// How many rows lines that end with a line break take.
pub open spec fn rows_of(lines: Seq<Seq<char>>, per_row: int) -> int
    decreases lines.len(),
{
    if lines.len() == 0 {
        0
    } else {
        rows_of(lines.drop_last(), per_row) + rows(line_len(lines.last()), per_row)
    }
}

/// How many rows a transcript takes: one where it is empty.
pub open spec fn transcript_rows(text: Seq<char>, per_row: int) -> int {
    let t = trimmed(text);
    if t.len() == 0 {
        1
    } else {
        let lines = pieces(t, '\n');
        rows_of(lines.drop_last(), per_row) + rows(lines.last().len() as int, per_row)
    }
}

fn count_rows(chars: usize, per_row: usize) -> (r: usize)
    requires
        per_row > 0,
    ensures
        r == rows(chars as int, per_row as int),
        1 <= r,
        chars > 0 ==> r <= chars,
{
    if chars == 0 {
        return 1;
    }
    let full: usize = chars / per_row;
    let left: usize = chars % per_row;
    proof {
        rows_are_quotient(chars as int, per_row as int);
    }
    if left > 0 {
        full + 1
    } else {
        full
    }
}

proof fn rows_are_quotient(chars: int, per_row: int)
    requires
        chars > 0,
        per_row > 0,
    ensures
        rows(chars, per_row) == chars / per_row + if chars % per_row > 0 { 1int } else { 0 },
        1 <= rows(chars, per_row) <= chars,
{
    let q = chars / per_row;
    let m = chars % per_row;
    assert(chars == per_row * q + m && 0 <= m < per_row && q >= 0) by (nonlinear_arith)
        requires
            chars > 0,
            per_row > 0,
            q == chars / per_row,
            m == chars % per_row,
    ;
    let e = if m > 0 { 1int } else { 0 };
    assert((chars + per_row - 1) / per_row == q + e) by (nonlinear_arith)
        requires
            chars == per_row * q + m,
            0 <= m < per_row,
            e == if m > 0 { 1int } else { 0 },
            per_row > 0,
    ;
    assert(q + e <= chars && q + e >= 1) by (nonlinear_arith)
        requires
            chars == per_row * q + m,
            0 <= m < per_row,
            e == if m > 0 { 1int } else { 0 },
            per_row > 0,
            chars > 0,
            q >= 0,
    ;
}

/// How many rows the transcript takes.
pub fn estimated_transcript_lines(state: &UiState, chars_per_line_estimate: usize) -> (r: usize)
    requires
        chars_per_line_estimate > 0,
    ensures
        r == transcript_rows(state.transcript.text@, chars_per_line_estimate as int),
        r >= 1,
{
    let text = trim(state.transcript.text.as_str());
    if text.is_empty() {
        return 1;
    }
    let per_row = chars_per_line_estimate;
    let chars = chars_of(text);
    let ghost t = text@;
    let mut done: usize = 0;
    let mut run: usize = 0;
    let mut i: usize = 0;
    proof {
        assert(t.take(0) =~= Seq::empty());
        let first = pieces(t.take(0), '\n');
        assert(first =~= seq![Seq::<char>::empty()]);
        assert(first.drop_last() =~= Seq::empty());
    }
    while i < chars.len()
        invariant
            per_row > 0,
            chars@ == t,
            i <= t.len(),
            pieces(t.take(i as int), '\n').len() > 0,
            run == pieces(t.take(i as int), '\n').last().len(),
            run <= i,
            run > 0 ==> pieces(t.take(i as int), '\n').last().last() == t[i - 1],
            done == rows_of(pieces(t.take(i as int), '\n').drop_last(), per_row as int),
            done + run <= i,
            i > 0 && run == 0 ==> t[i - 1] == '\n',
        decreases t.len() - i,
    {
        let ghost before = pieces(t.take(i as int), '\n');
        let ghost after = pieces(t.take(i + 1), '\n');
        assert(t.take(i + 1).drop_last() =~= t.take(i as int));
        assert(t.take(i + 1).last() == t[i as int]);
        if chars[i] == '\n' {
            let mut length: usize = run;
            if run > 0 && chars[i - 1] == '\r' {
                length = run - 1;
            }
            assert(length == line_len(before.last()));
            let more: usize = count_rows(length, per_row);
            assert(after.drop_last() =~= before);
            assert(more <= run + 1);
            done = done + more;
            run = 0;
        } else {
            assert(after.drop_last() =~= before.drop_last());
            run = run + 1;
        }
        i = i + 1;
    }
    proof {
        assert(t.take(i as int) =~= t);
        trimmed_end_is_tight(trimmed_start(state.transcript.text@));
        assert(!is_white_char(t.last()));
        assert(run > 0);
    }
    let last: usize = count_rows(run, per_row);
    done + last
}

/// How many rows of the transcript are shown: none where it is empty.
pub fn visible_transcript_lines(
    state: &UiState,
    chars_per_line_estimate: usize,
    max_lines: usize,
) -> (r: Option<usize>)
    requires
        chars_per_line_estimate > 0,
        max_lines > 0,
    ensures
        if trimmed(state.transcript.text@).len() == 0 {
            r is None
        } else {
            let rows = transcript_rows(state.transcript.text@, chars_per_line_estimate as int);
            r is Some && r->0 == if rows < max_lines {
                rows
            } else {
                max_lines as int
            }
        },
{
    if trim(state.transcript.text.as_str()).is_empty() {
        return None;
    }
    let rows: usize = estimated_transcript_lines(state, chars_per_line_estimate);
    if rows < max_lines {
        Some(rows)
    } else {
        Some(max_lines)
    }
}

/// Whether the interface is to be drawn opaque, once it has settled.
pub fn settles_opaque(state: &UiState) -> (r: bool)
    ensures
        r == (state@.visible || state@.hide_deadline is Some),
{
    state.visibility.visible || state.visibility.hide_deadline.is_some()
}

// ---------------------------------------------------------------------------------------------
// Laws of what is shown
// ---------------------------------------------------------------------------------------------

proof fn event_types_differ()
    ensures
        "ui.show"@ != "ui.hide"@,
        "ui.show"@ != "transcribe.stopped"@,
        "ui.show"@ != "audio.energy"@,
        "ui.show"@ != "transcript.delta"@,
        "ui.show"@ != "transcript.snapshot"@,
        "transcribe.started"@ != "ui.hide"@,
        "transcribe.started"@ != "transcribe.stopped"@,
        "transcribe.started"@ != "audio.energy"@,
        "transcribe.started"@ != "transcript.delta"@,
        "transcribe.started"@ != "transcript.snapshot"@,
        "ui.hide"@ != "audio.energy"@,
        "ui.hide"@ != "transcript.delta"@,
        "ui.hide"@ != "transcript.snapshot"@,
        "transcribe.stopped"@ != "audio.energy"@,
        "transcribe.stopped"@ != "transcript.delta"@,
        "transcribe.stopped"@ != "transcript.snapshot"@,
        "audio.energy"@ != "transcript.delta"@,
        "audio.energy"@ != "transcript.snapshot"@,
        "transcript.delta"@ != "transcript.snapshot"@,
{
    reveal_strlit("ui.show");
    reveal_strlit("ui.hide");
    reveal_strlit("transcribe.started");
    reveal_strlit("transcribe.stopped");
    reveal_strlit("audio.energy");
    reveal_strlit("transcript.delta");
    reveal_strlit("transcript.snapshot");
    assert("ui.show"@[3] == 's' && "ui.hide"@[3] == 'h' && "audio.energy"@[3] == 'i');
    assert("transcribe.started"@[3] == 'n' && "transcribe.started"@[7] == 'i');
    assert("transcribe.started"@[13] == 'a' && "transcribe.stopped"@[13] == 'o');
    assert("transcribe.stopped"@[3] == 'n' && "transcribe.stopped"@[7] == 'i');
    assert("transcript.delta"@[3] == 'n' && "transcript.snapshot"@[3] == 'n');
    assert("transcript.delta"@[8] == 'p' && "transcript.snapshot"@[8] == 'p');
    assert("transcribe.started"@[8] == 'b' && "transcribe.stopped"@[8] == 'b');
    assert("transcript.delta"@.len() == 16 && "transcript.snapshot"@.len() == 19);
}

/// Text that is added to the transcript, without a preview with it, is shown behind what is shown,
/// with every character kept, and is what is set off.
pub proof fn added_text_is_shown(
    state: &mut UiState,
    event: UiEventEnvelope,
    now: u64,
    hide_linger: u64,
    fields: Seq<(Seq<char>, JsonTree)>,
    delta: Seq<char>,
)
    requires
        call_ensures(apply_event, (state, event, now, hide_linger), ()),
        event.event_type@ == "transcript.delta"@,
        event.payload@ == JsonTree::Object(fields),
        lookup(fields, "preview"@) is None,
        lookup(fields, "delta"@) == Some(JsonTree::Text(delta)),
        delta.len() > 0,
    ensures
        final(state).transcript.text@ == old(state).transcript.text@ + delta,
        final(state).transcript.bold_from == byte_len(old(state).transcript.text@),
        final(state).transcript.should_scroll_to_bottom,
        final(state).visibility.visible,
        final(state).visibility.hide_deadline is None,
        final(state).visibility.idle_deadline is None,
{
    event_types_differ();
    assert(final(state)@.text == final(state).transcript.text@);
}

/// A preview that comes with added text, or the whole of what was said, takes the place of what is
/// shown: the transcript is exactly that, without the white space around it, and is visible.
pub proof fn whole_text_is_shown(
    state: &mut UiState,
    event: UiEventEnvelope,
    now: u64,
    hide_linger: u64,
    fields: Seq<(Seq<char>, JsonTree)>,
    text: Seq<char>,
    ink: Seq<char>,
)
    requires
        call_ensures(apply_event, (state, event, now, hide_linger), ()),
        event.payload@ == JsonTree::Object(fields),
        ({
            ||| event.event_type@ == "transcript.delta"@ && lookup(fields, "preview"@) == Some(
                JsonTree::Text(text),
            )
            ||| event.event_type@ == "transcript.snapshot"@ && lookup(fields, "text"@) == Some(
                JsonTree::Text(text),
            )
        }),
        is_ink_of(ink, text),
        ink.len() > 0,
    ensures
        final(state).transcript.text@ == ink,
        final(state).visibility.visible,
        final(state).visibility.hide_deadline is None,
        final(state).visibility.idle_deadline is None,
{
    event_types_differ();
    ink_is_unique(ink, text);
    assert(final(state)@.text == final(state).transcript.text@);
    assert(old(state)@.text == old(state).transcript.text@);
}

/// The end of a transcription hides the interface, and leaves exactly its transcript in it, without
/// the white space around it; where none is told, what is shown stays.
pub proof fn end_leaves_the_transcript(
    state: &mut UiState,
    event: UiEventEnvelope,
    now: u64,
    hide_linger: u64,
    fields: Seq<(Seq<char>, JsonTree)>,
    text: Seq<char>,
    ink: Seq<char>,
)
    requires
        call_ensures(apply_event, (state, event, now, hide_linger), ()),
        event.event_type@ == "transcribe.stopped"@ || event.event_type@ == "ui.hide"@,
        event.payload@ == JsonTree::Object(fields),
    ensures
        lookup(fields, "transcript"@) == Some(JsonTree::Text(text)) && is_ink_of(ink, text)
            && ink.len() > 0 ==> final(state).transcript.text@ == ink,
        lookup(fields, "transcript"@) is None
            ==> final(state).transcript.text@ == old(state).transcript.text@,
        !final(state).visibility.visible,
        final(state).visibility.hide_deadline == Some(now),
        final(state).visibility.panel_opacity == 0,
{
    event_types_differ();
    if is_ink_of(ink, text) {
        ink_is_unique(ink, text);
    }
    assert(final(state)@.text == final(state).transcript.text@);
    assert(old(state)@.text == old(state).transcript.text@);
}

/// The start of a transcription shows the interface, with what is in it.
pub proof fn start_shows_the_interface(
    state: &mut UiState,
    event: UiEventEnvelope,
    now: u64,
    hide_linger: u64,
)
    requires
        call_ensures(apply_event, (state, event, now, hide_linger), ()),
        event.event_type@ == "transcribe.started"@ || event.event_type@ == "ui.show"@,
    ensures
        final(state).visibility.visible,
        final(state).visibility.hide_deadline is None,
        final(state).visibility.idle_deadline is None,
        final(state).transcript.text@ == old(state).transcript.text@,
        final(state).transcript.bold_from == old(state).transcript.bold_from,
{
    assert(final(state)@.text == final(state).transcript.text@);
    assert(old(state)@.text == old(state).transcript.text@);
}

/// What is told of the audio is kept as it is told, and changes nothing else.
pub proof fn audio_is_kept_as_told(
    state: &mut UiState,
    event: UiEventEnvelope,
    now: u64,
    hide_linger: u64,
    fields: Seq<(Seq<char>, JsonTree)>,
    rms: serde_json::Number,
    peak: serde_json::Number,
    silent: bool,
)
    requires
        call_ensures(apply_event, (state, event, now, hide_linger), ()),
        event.event_type@ == "audio.energy"@,
        event.payload@ == JsonTree::Object(fields),
    ensures
        lookup(fields, "rms"@) == Some(JsonTree::Number(rms)) ==> final(state).audio.rms == Some(
            rms,
        ),
        lookup(fields, "peak"@) == Some(JsonTree::Number(peak)) ==> final(state).audio.peak
            == Some(peak),
        lookup(fields, "silent"@) == Some(JsonTree::Bool(silent)) ==> final(state).audio.silent
            == silent,
        lookup(fields, "silent"@) is None ==> final(state).audio.silent,
        final(state).transcript.text@ == old(state).transcript.text@,
        final(state).visibility.visible == old(state).visibility.visible,
{
    event_types_differ();
    assert(final(state)@.text == final(state).transcript.text@);
    assert(old(state)@.text == old(state).transcript.text@);
    assert(final(state)@.rms == final(state).audio.rms);
    assert(final(state)@.visible == final(state).visibility.visible);
}

/// A recording that the daemon says is going on is shown with exactly its preview, without the
/// white space around it; where none is going on nothing changes.
pub proof fn state_of_the_daemon_is_shown(
    state: &mut UiState,
    snapshot: DaemonSnapshot,
    now: u64,
    ink: Seq<char>,
)
    requires
        call_ensures(apply_snapshot, (state, snapshot, now), ()),
    ensures
        snapshot.running && snapshot.recording ==> final(state).visibility.visible
            && final(state).visibility.hide_deadline is None
            && final(state).visibility.idle_deadline is None,
        snapshot.running && snapshot.recording && snapshot.transcript_preview is Some && is_ink_of(
            ink,
            snapshot.transcript_preview->0@,
        ) && ink.len() > 0 ==> final(state).transcript.text@ == ink,
        snapshot.running && snapshot.recording && snapshot.transcript_preview is None
            ==> final(state).transcript.text@ == old(state).transcript.text@,
        !snapshot.running || !snapshot.recording
            ==> final(state).transcript.text@ == old(state).transcript.text@
            && final(state).visibility == old(state).visibility,
{
    if snapshot.transcript_preview is Some && is_ink_of(ink, snapshot.transcript_preview->0@) {
        ink_is_unique(ink, snapshot.transcript_preview->0@);
    }
    assert(final(state)@.text == final(state).transcript.text@);
    assert(old(state)@.text == old(state).transcript.text@);
    assert(final(state)@.visible == final(state).visibility.visible);
    assert(old(state)@.visible == old(state).visibility.visible);
}

/// A message does to the interface what the event or the state in it does.
pub proof fn messages_are_taken_in(
    state: &mut UiState,
    message: InboundMessage,
    now: u64,
    hide_linger: u64,
    fields: Seq<(Seq<char>, JsonTree)>,
    delta: Seq<char>,
)
    requires
        call_ensures(apply_message, (state, message, now, hide_linger), ()),
    ensures
        message matches InboundMessage::Snapshot(snapshot) ==> (snapshot.running
            && snapshot.recording ==> final(state).visibility.visible),
        message matches InboundMessage::UiEvent(event) ==> ({
            &&& event.event_type@ == "transcript.delta"@
            &&& event.payload@ == JsonTree::Object(fields)
            &&& lookup(fields, "preview"@) is None
            &&& lookup(fields, "delta"@) == Some(JsonTree::Text(delta))
            &&& delta.len() > 0
        } ==> final(state).transcript.text@ == old(state).transcript.text@ + delta),
        message matches InboundMessage::UiEvent(event) ==> (event.event_type@
            == "transcribe.stopped"@ ==> !final(state).visibility.visible),
{
    event_types_differ();
    assert(final(state)@.text == final(state).transcript.text@);
    assert(old(state)@.text == old(state).transcript.text@);
    assert(final(state)@.visible == final(state).visibility.visible);
}

/// What the daemon replied is read as it is: whether it runs and records, and exactly the preview.
pub proof fn reply_is_read_as_it_is(
    reply: &Json,
    s: DaemonSnapshot,
    fields: Seq<(Seq<char>, JsonTree)>,
    running: bool,
    recording: bool,
    preview: Seq<char>,
)
    requires
        call_ensures(snapshot_of, (reply,), s),
        reply@ == JsonTree::Object(fields),
    ensures
        lookup(fields, "running"@) == Some(JsonTree::Bool(running)) ==> s.running == running,
        lookup(fields, "running"@) is None ==> !s.running,
        lookup(fields, "recording"@) == Some(JsonTree::Bool(recording)) ==> s.recording
            == recording,
        lookup(fields, "recording"@) is None ==> !s.recording,
        lookup(fields, "transcript_preview"@) == Some(JsonTree::Text(preview)) ==> (
        s.transcript_preview is Some && s.transcript_preview->0@ == preview),
        lookup(fields, "transcript_preview"@) is None ==> s.transcript_preview is None,
{
}

// ---------------------------------------------------------------------------------------------
// Laws of time and settings
// ---------------------------------------------------------------------------------------------

/// An interface that is visible, and is not to be hidden, stays visible whenever the clock ticks.
pub proof fn visible_interface_stays(
    state: &mut UiState,
    now: u64,
    idle_linger: u64,
    r: TickAction,
)
    requires
        call_ensures(tick, (state, now, idle_linger), r),
        old(state).visibility.visible,
        old(state).visibility.hide_deadline is None,
    ensures
        r is Keep,
        final(state).visibility.visible,
        final(state).transcript.text@ == old(state).transcript.text@,
{
    assert(final(state)@.visible == final(state).visibility.visible);
    assert(final(state)@.text == final(state).transcript.text@);
    assert(old(state)@.visible == old(state).visibility.visible);
}

/// An interface that was hidden stays for as long as it may be idle, counted from the tick after it
/// was hidden, and is over then.
pub proof fn hidden_interface_is_over_in_time(
    state: &mut UiState,
    now: u64,
    then: &mut UiState,
    first: u64,
    last: &mut UiState,
    second: u64,
    idle_linger: u64,
    kept: TickAction,
    r: TickAction,
)
    requires
        call_ensures(hide_immediately, (state, now), ()),
        *old(then) == *final(state),
        call_ensures(tick, (then, first, idle_linger), kept),
        *old(last) == *final(then),
        call_ensures(tick, (last, second, idle_linger), r),
        now <= first <= second,
        0 < idle_linger,
        first + idle_linger <= u64::MAX,
    ensures
        !final(then).visibility.visible,
        kept is Keep,
        r is RemoveWindow <==> second >= first + idle_linger,
{
    assert(final(then)@.visible == final(then).visibility.visible);
}

/// The interface at its start is hidden and empty, and is over once it was idle for its time.
pub proof fn interface_at_its_start(
    now: u64,
    idle_linger: u64,
    s: UiState,
    state: &mut UiState,
    then: u64,
    r: TickAction,
)
    requires
        call_ensures(UiState::new, (now, idle_linger), s),
        *old(state) == s,
        call_ensures(tick, (state, then, idle_linger), r),
        now + idle_linger <= u64::MAX,
    ensures
        !s.visibility.visible,
        s.transcript.text@.len() == 0,
        s.audio.silent,
        r is RemoveWindow <==> then >= now + idle_linger,
{
    assert(s@.visible == s.visibility.visible);
    assert(s@.text == s.transcript.text@);
}

/// Sockets that are named are used as they are named, and times as they are asked for, but not
/// shorter than 200, 50 and 20 milliseconds.
pub proof fn settings_are_as_asked(
    cli: &Cli,
    custom: Option<&str>,
    xdg: Option<&str>,
    home: Option<&str>,
    r: Result<UiRuntimeConfig, Error>,
    dir: Result<String, Error>,
)
    requires
        call_ensures(runtime_config, (cli, custom, xdg, home), r),
        call_ensures(resolve_runtime_dir, (custom, xdg, home), dir),
    ensures
        r is Ok && cli.socket is Some ==> r->Ok_0.ui_socket@ == cli.socket->0@,
        r is Ok && cli.daemon_socket is Some ==> r->Ok_0.daemon_socket@ == cli.daemon_socket->0@,
        cli.socket is Some && cli.daemon_socket is Some ==> r is Ok,
        dir is Ok ==> r is Ok,
        dir is Ok && dir->Ok_0@.len() > 0 && dir->Ok_0@.last() != '/' && cli.socket is None
            ==> r->Ok_0.ui_socket@ == dir->Ok_0@ + "/"@ + "ui.sock"@,
        dir is Ok && dir->Ok_0@.len() > 0 && dir->Ok_0@.last() != '/' && cli.daemon_socket is None
            ==> r->Ok_0.daemon_socket@ == dir->Ok_0@ + "/"@ + "daemon.sock"@,
        r is Ok ==> {
            &&& r->Ok_0.idle_linger >= 200 && r->Ok_0.hide_linger >= 50
                && r->Ok_0.reconnect_delay >= 20
            &&& cli.idle_ms >= 200 ==> r->Ok_0.idle_linger == cli.idle_ms
            &&& cli.hide_ms >= 50 ==> r->Ok_0.hide_linger == cli.hide_ms
            &&& cli.retry_ms >= 20 ==> r->Ok_0.reconnect_delay == cli.retry_ms
            &&& cli.idle_ms < 200 ==> r->Ok_0.idle_linger == 200
            &&& cli.hide_ms < 50 ==> r->Ok_0.hide_linger == 50
            &&& cli.retry_ms < 20 ==> r->Ok_0.reconnect_delay == 20
        },
{
}

/// Only one interface runs: another leaves where the file names one that is active, and takes the
/// file over where it does not.
pub proof fn one_interface_runs(
    path: &str,
    attempt: LockAttempt,
    holder_active: bool,
    r: Result<LockStep, Error>,
)
    requires
        call_ensures(acquire_instance_lock, (path, attempt, holder_active), r),
    ensures
        attempt is Created ==> r is Ok && r->Ok_0 is Hold && r->Ok_0->Hold_0.path@ == path@,
        attempt is Exists && holder_active ==> r is Ok && r->Ok_0 is Leave,
        attempt is Exists && !holder_active ==> r is Ok && r->Ok_0 is Reclaim,
        attempt is Failed ==> r is Err,
        r is Ok && r->Ok_0 is Hold ==> attempt is Created,
{
}

/// As many rows of the transcript are shown as it takes, up to the most: a text of one line takes
/// as many as its characters fill.
pub proof fn rows_hold_the_transcript(
    state: &UiState,
    per_row: usize,
    max_lines: usize,
    r: Option<usize>,
    ink: Seq<char>,
)
    requires
        call_ensures(visible_transcript_lines, (state, per_row, max_lines), r),
        per_row > 0,
        max_lines > 0,
        is_ink_of(ink, state.transcript.text@),
    ensures
        ink.len() == 0 ==> r is None,
        ink.len() > 0 ==> r is Some && r->0 <= max_lines,
        ink.len() > 0 && !ink.contains('\n') ==> {
            &&& r->0 == max_lines || r->0 * per_row >= ink.len()
            &&& (r->0 - 1) * per_row < ink.len()
        },
{
    ink_is_unique(ink, state.transcript.text@);
    if ink.len() > 0 && !ink.contains('\n') {
        pieces_without_separator(ink, '\n');
        assert(seq![ink].drop_last() =~= Seq::<Seq<char>>::empty());
        assert(rows_of(seq![ink].drop_last(), per_row as int) == 0);
        let n = ink.len() as int;
        let p = per_row as int;
        let all = rows(n, p);
        assert(all * p >= n && (all - 1) * p < n) by (nonlinear_arith)
            requires
                all == (n + p - 1) / p,
                n > 0,
                p > 0,
        ;
        let shown = r->0 as int;
        assert((shown - 1) * p <= (all - 1) * p) by (nonlinear_arith)
            requires
                shown <= all,
                p > 0,
        ;
    }
}

/// What is new in a transcript that grew is set off, behind what was shown; one that changed is set
/// off whole. Either way it begins to pulse, and is scrolled to.
pub proof fn new_text_is_set_off(state: &mut UiState, text: &str, ink: Seq<char>)
    requires
        call_ensures(set_transcript, (state, text), ()),
        is_ink_of(ink, text@),
        ink.len() > 0,
        ink != old(state).transcript.text@,
    ensures
        final(state).transcript.text@ == ink,
        final(state).transcript.text_pulse == 0,
        final(state).transcript.should_scroll_to_bottom,
        begins_with(ink, old(state).transcript.text@) ==> final(state).transcript.bold_from
            == byte_len(old(state).transcript.text@),
        !begins_with(ink, old(state).transcript.text@) ==> final(state).transcript.bold_from == 0,
        final(state).visibility == old(state).visibility,
{
    ink_is_unique(ink, text@);
    assert(final(state)@.text == final(state).transcript.text@);
    assert(old(state)@.text == old(state).transcript.text@);
    assert(final(state)@.visible == final(state).visibility.visible);
    assert(old(state)@.visible == old(state).visibility.visible);
}

/// The daemon is asked for the state of the transcription, on a line of its own.
pub proof fn state_is_asked_for(r: String) -> (fields: Seq<(Seq<char>, JsonTree)>)
    requires
        call_ensures(snapshot_request, (), r),
    ensures
        r@ == json_text(JsonTree::Object(fields)) + "\n"@,
        lookup(fields, "cmd"@) == Some(JsonTree::Text("transcribe_status"@)),
        lookup(fields, "mode"@) == Some(JsonTree::Null),
{
    reveal_strlit("cmd");
    reveal_strlit("mode");
    assert("cmd"@.len() == 3 && "mode"@.len() == 4);
    let cmd = JsonTree::Text("transcribe_status"@);
    let a = put(no_fields(), "cmd"@, cmd);
    crate::fields::lookups_after_put(no_fields(), "cmd"@, cmd);
    crate::fields::lookups_after_put(a, "mode"@, JsonTree::Null);
    put(a, "mode"@, JsonTree::Null)
}

/// What the line with which the daemon replied holds is what it says; white space at its end does
/// not matter.
pub proof fn reply_line_is_read(
    line: &str,
    r: Result<DaemonSnapshot, Error>,
    reply: &Json,
    s: DaemonSnapshot,
)
    requires
        call_ensures(query_daemon_snapshot, (line,), r),
        call_ensures(snapshot_of, (reply,), s),
    ensures
        json_parsed(trimmed_end(line@)) == Some(reply@) ==> {
            &&& r is Ok
            &&& r->Ok_0.running == s.running
            &&& r->Ok_0.recording == s.recording
            &&& option_view(r->Ok_0.transcript_preview) == option_view(s.transcript_preview)
        },
        json_parsed(trimmed_end(line@)) is None ==> r is Err,
{
}

/// The position is kept where it is said to, where that has ink; else under the directory for data,
/// else under the home directory; and in one file there.
pub proof fn position_is_kept_as_given(
    custom: Option<&str>,
    data_dir: Option<&str>,
    home: Option<&str>,
    r: Result<String, Error>,
    ink: Seq<char>,
    dir: &str,
    file: String,
)
    requires
        call_ensures(resolve_ui_position_dir, (custom, data_dir, home), r),
        call_ensures(position_file_path, (dir,), file),
        ink.len() > 0,
        ink.last() != '/',
    ensures
        custom is Some && is_ink_of(ink, custom->0@) ==> r is Ok && r->Ok_0@ == ink,
        custom is None && data_dir is Some && data_dir->0@ == ink ==> r is Ok && r->Ok_0@ == ink
            + "/"@ + "omni"@,
        custom is None && data_dir is None && home is None ==> r is Err,
        dir@ == ink ==> file@ == ink + "/"@ + "transcribe-ui-position.json"@,
{
    if custom is Some && is_ink_of(ink, custom->0@) {
        ink_is_unique(ink, custom->0@);
    }
}

/// A process is an interface that runs only where it is no zombie and its command says so; the
/// process that a lock names is read back from it.
pub proof fn running_interfaces_are_known(
    row: Option<&str>,
    signalled: bool,
    r: bool,
    raw: &str,
    pid: u32,
    named: Option<u32>,
)
    requires
        call_ensures(is_active_ui_instance, (row, signalled), r),
        call_ensures(read_lock_pid, (raw,), named),
    ensures
        row is None ==> r == signalled,
        row is Some && words(row->0@).len() == 0 ==> !r,
        row is Some && words(row->0@).len() > 0 && words(row->0@)[0].contains('Z') ==> !r,
        row is Some && words(row->0@) == seq!["S"@, "omni-transcribe-ui"@] ==> r,
        is_ink_of(crate::text::decimal(pid as nat), raw@) ==> named == Some(pid),
{
    if is_ink_of(crate::text::decimal(pid as nat), raw@) {
        ink_is_unique(crate::text::decimal(pid as nat), raw@);
        crate::text::number_is_parsed(pid as nat, u32::MAX as int);
    }
    if row is Some && words(row->0@) == seq!["S"@, "omni-transcribe-ui"@] {
        reveal_strlit("S");
        let name = "omni-transcribe-ui"@;
        assert(words(row->0@).skip(1) =~= seq![name]);
        assert(joined(seq![name], " "@) == name);
        assert(name.subrange(0, name.len() as int) =~= name);
        assert(crate::text::stands_at(name, name, 0));
        assert(words(row->0@)[0] == "S"@);
        assert(!"S"@.contains('Z'));
    }
}

/// An interface is drawn opaque while it is visible and while it is being hidden.
pub proof fn visible_interface_is_opaque(state: &UiState, r: bool)
    requires
        call_ensures(settles_opaque, (state,), r),
    ensures
        r <==> state.visibility.visible || state.visibility.hide_deadline is Some,
{
    assert(state@.visible == state.visibility.visible);
    assert(state@.hide_deadline == state.visibility.hide_deadline);
}

/// A transcript of two lines takes the rows of both.
pub proof fn rows_of_lines_add_up(
    state: &UiState,
    per_row: usize,
    r: usize,
    a: Seq<char>,
    b: Seq<char>,
)
    requires
        call_ensures(estimated_transcript_lines, (state, per_row), r),
        per_row > 0,
        is_ink_of(a.push('\n') + b, state.transcript.text@),
        a.len() > 0 && !a.contains('\n') && a.last() != '\r',
        b.len() > 0 && !b.contains('\n'),
    ensures
        r == (a.len() + per_row - 1) / per_row as int + (b.len() + per_row - 1) / per_row as int,
{
    let ink = a.push('\n') + b;
    ink_is_unique(ink, state.transcript.text@);
    crate::text::pieces_of_parts(a.push('\n'), b, '\n');
    pieces_without_separator(a, '\n');
    pieces_without_separator(b, '\n');
    assert(a.push('\n').drop_last() =~= a);
    let lines = pieces(ink, '\n');
    assert(Seq::<char>::empty() + b =~= b);
    assert(lines =~= seq![a, b]);
    assert(lines.drop_last() =~= seq![a]);
    assert(seq![a].drop_last() =~= Seq::<Seq<char>>::empty());
    assert(rows_of(Seq::<Seq<char>>::empty(), per_row as int) == 0);
    assert(seq![a].last() == a);
    assert(rows_of(seq![a], per_row as int) == rows(a.len() as int, per_row as int));
}

} // verus!
