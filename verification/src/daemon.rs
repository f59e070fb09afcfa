//! The daemon: its state, its answers, and how a recording starts and ends.
use vstd::prelude::*;

use crate::backend::{
    backend_problem, bearer_of, bytes_are_of_the_samples, is_sample, sample_bytes,
    OpenAiRealtimeBackend, OpenAiRealtimeTransport, RealtimeTransport, TranscriptionRequest,
};
use crate::cli::option_view;
use crate::config::{get_value_by_key, value_at, ConfigValue, Tree};
use crate::error::{fails_with, Error};
use crate::fields::{lookup, lookup_after_put, lookup_after_put_elsewhere, put};
use crate::hooks::{hooks_problem, validate_hook_config};
use crate::input::{configured_device, configured_device_name};
use crate::json::{no_fields, number_of, tidy, Json, JsonTree};
use crate::process::{resolve_runtime_dir, runtime_directory};
use crate::progress::{
    nothing_noted, preview_known, progress_snapshot, same_notes, set_progress_snapshot,
    RealtimeDebugInfo, RealtimeProgress,
};
use crate::recording::{
    header_length, wav_bytes, wav_fits, wav_header, FinishedRecording, RecordingConfig,
};
use crate::text::{
    finishes_with, given, ink_is_unique, is_ink_of, join_path, joined_path, same, str_view, trim,
    trimmed,
};
use crate::transcript::UiMessage;

verus! {

/// Where the files of the running daemon lie.
#[derive(Debug)]
pub struct RuntimePaths {
    pub runtime_dir: String,
    pub socket_path: String,
    pub ui_socket_path: String,
    pub pid_path: String,
}

/// Where the files of the running daemon lie, given the values of `OMNI_RUNTIME_DIR` and
/// `XDG_RUNTIME_DIR` and the home directory.
pub fn runtime_paths(custom: Option<&str>, xdg: Option<&str>, home: Option<&str>) -> (r: Result<
    RuntimePaths,
    Error,
>)
    ensures
        match runtime_directory(custom, xdg, home) {
            Some(dir) => r is Ok && r->Ok_0.runtime_dir@ == dir && r->Ok_0.socket_path@
                == joined_path(dir, "daemon.sock"@) && r->Ok_0.ui_socket_path@ == joined_path(
                dir,
                "ui.sock"@,
            ) && r->Ok_0.pid_path@ == joined_path(dir, "daemon.pid"@),
            None => fails_with(r, "failed to resolve home directory"@),
        },
{
    match resolve_runtime_dir(custom, xdg, home) {
        Err(e) => Err(e),
        Ok(runtime_dir) => {
            let socket_path = join_path(runtime_dir.as_str(), "daemon.sock");
            let ui_socket_path = join_path(runtime_dir.as_str(), "ui.sock");
            let pid_path = join_path(runtime_dir.as_str(), "daemon.pid");
            Ok(RuntimePaths { runtime_dir, socket_path, ui_socket_path, pid_path })
        },
    }
}

// ---------------------------------------------------------------------------------------------
// Requests and answers
// ---------------------------------------------------------------------------------------------

/// A request to the daemon.
#[derive(Debug)]
pub struct DaemonRequest {
    pub cmd: String,
    pub mode: Option<String>,
}

/// An answer of the daemon.
#[derive(Debug)]
pub struct DaemonResponse {
    pub ok: bool,
    pub running: bool,
    pub recording: bool,
    pub pid: Option<u32>,
    pub message: Option<String>,
    pub transcript: Option<String>,
    pub transcript_preview: Option<String>,
    pub transcript_updated_at_ms: Option<u64>,
    pub duration_ms: Option<u64>,
    pub debug: Option<RealtimeDebugInfo>,
    pub error: Option<String>,
}

/// What an answer says, apart from the notes that come with it.
pub struct Answer {
    pub ok: bool,
    pub running: bool,
    pub recording: bool,
    pub pid: Option<u32>,
    pub message: Option<Seq<char>>,
    pub transcript: Option<Seq<char>>,
    pub transcript_preview: Option<Seq<char>>,
    pub transcript_updated_at_ms: Option<u64>,
    pub duration_ms: Option<u64>,
    pub error: Option<Seq<char>>,
}

impl View for DaemonResponse {
    type V = Answer;

    open spec fn view(&self) -> Answer {
        Answer {
            ok: self.ok,
            running: self.running,
            recording: self.recording,
            pid: self.pid,
            message: option_view(self.message),
            transcript: option_view(self.transcript),
            transcript_preview: option_view(self.transcript_preview),
            transcript_updated_at_ms: self.transcript_updated_at_ms,
            duration_ms: self.duration_ms,
            error: option_view(self.error),
        }
    }
}

/// An answer that says no more than this.
pub open spec fn brief(recording: bool, pid: Option<u32>, message: Option<Seq<char>>) -> Answer {
    Answer {
        ok: true,
        running: true,
        recording,
        pid,
        message,
        transcript: None,
        transcript_preview: None,
        transcript_updated_at_ms: None,
        duration_ms: None,
        error: None,
    }
}

fn answer(recording: bool, pid: u32, message: Option<String>) -> (r: DaemonResponse)
    ensures
        r@ == brief(recording, Some(pid), option_view(message)),
        r.debug is None,
{
    DaemonResponse {
        ok: true,
        running: true,
        recording,
        pid: Some(pid),
        message,
        transcript: None,
        transcript_preview: None,
        transcript_updated_at_ms: None,
        duration_ms: None,
        debug: None,
        error: None,
    }
}

/// The answer to a request that failed.
pub fn failure_answer(state: &DaemonState, pid: u32, error: &Error) -> (r: DaemonResponse)
    ensures
        r@ == (Answer {
            ok: false,
            error: Some(error.message@),
            ..brief(state.recording is Some, Some(pid), None)
        }),
        r.debug is None,
{
    DaemonResponse {
        ok: false,
        error: Some(error.message.clone()),
        ..answer(state.recording.is_some(), pid, None)
    }
}

/// A recording that is going on.
#[derive(Debug)]
pub enum ActiveRecording {
    /// One that goes to the server while it lasts. `started_at_ms` is on the clock of the daemon.
    Realtime { backend: OpenAiRealtimeBackend, started_at_ms: u64 },
    /// One that has its transcript from the start.
    Synthetic { transcript: String, duration_ms: u64, started_at_ms: u64 },
}

/// The state of the daemon.
#[derive(Debug)]
pub struct DaemonState {
    pub recording: Option<ActiveRecording>,
}

impl Default for DaemonState {
    fn default() -> (r: Self)
        ensures
            r.recording is None,
    {
        DaemonState { recording: None }
    }
}

/// How long ago a moment was.
pub open spec fn elapsed(started_at_ms: u64, clock_ms: u64) -> u64 {
    if clock_ms >= started_at_ms {
        (clock_ms - started_at_ms) as u64
    } else {
        0
    }
}

fn elapsed_ms(started_at_ms: u64, clock_ms: u64) -> (r: u64)
    ensures
        r == elapsed(started_at_ms, clock_ms),
{
    clock_ms.saturating_sub(started_at_ms)
}

/// The larger of two numbers.
pub open spec fn larger(a: u64, b: u64) -> u64 {
    if a >= b {
        a
    } else {
        b
    }
}

fn max_of(a: u64, b: u64) -> (r: u64)
    ensures
        r == larger(a, b),
{
    if a >= b {
        a
    } else {
        b
    }
}

/// What is known of the recording at this moment, as answers on the state say it.
pub struct RuntimeState {
    pub recording: bool,
    pub duration_ms: Option<u64>,
    pub preview: Option<Seq<char>>,
    pub updated_at_ms: Option<u64>,
}

/// What is known of the recording at this moment. `progress` is what is known of one that goes to
/// the server.
pub open spec fn runtime_state(
    recording: Option<ActiveRecording>,
    progress: Option<&RealtimeProgress>,
    clock_ms: u64,
    now_ms: u64,
) -> RuntimeState {
    match recording {
        Some(ActiveRecording::Realtime { backend, started_at_ms }) => RuntimeState {
            recording: true,
            duration_ms: Some(elapsed(started_at_ms, clock_ms)),
            preview: match progress {
                Some(p) => preview_known(*p),
                None => None,
            },
            updated_at_ms: match progress {
                Some(p) => p.updated_at_ms,
                None => None,
            },
        },
        Some(ActiveRecording::Synthetic { transcript, duration_ms, started_at_ms }) => RuntimeState {
            recording: true,
            duration_ms: Some(larger(duration_ms, elapsed(started_at_ms, clock_ms))),
            preview: if transcript@.len() == 0 {
                None
            } else {
                Some(transcript@)
            },
            updated_at_ms: Some(now_ms),
        },
        None => RuntimeState {
            recording: false,
            duration_ms: Some(0),
            preview: None,
            updated_at_ms: None,
        },
    }
}

/// Whether these notes come with an answer on the state.
pub open spec fn notes_for(
    debug: Option<RealtimeDebugInfo>,
    recording: Option<ActiveRecording>,
    progress: Option<&RealtimeProgress>,
) -> bool {
    match recording {
        Some(ActiveRecording::Realtime { .. }) => match progress {
            Some(p) => debug is Some && same_notes(debug->0, p.debug),
            None => debug is None,
        },
        Some(ActiveRecording::Synthetic { .. }) => debug is Some && nothing_noted(debug->0),
        None => debug is None,
    }
}

/// The answer on the state, with this message.
pub open spec fn state_answer(s: RuntimeState, pid: u32, message: Option<Seq<char>>) -> Answer {
    Answer {
        transcript_preview: s.preview,
        transcript_updated_at_ms: s.updated_at_ms,
        duration_ms: s.duration_ms,
        ..brief(s.recording, Some(pid), message)
    }
}

fn recording_runtime_state(
    recording: &Option<ActiveRecording>,
    progress: Option<&RealtimeProgress>,
    pid: u32,
    message: Option<String>,
    clock_ms: u64,
    now_ms: u64,
) -> (r: DaemonResponse)
    ensures
        r@ == state_answer(
            runtime_state(*recording, progress, clock_ms, now_ms),
            pid,
            option_view(message),
        ),
        notes_for(r.debug, *recording, progress),
{
    match recording {
        Some(ActiveRecording::Realtime { backend, started_at_ms }) => {
            let mut r = answer(true, pid, message);
            r.duration_ms = Some(elapsed_ms(*started_at_ms, clock_ms));
            if let Some(p) = progress {
                let (preview, updated_at_ms, debug) = progress_snapshot(p);
                r.transcript_preview = preview;
                r.transcript_updated_at_ms = updated_at_ms;
                r.debug = Some(debug);
            }
            r
        },
        Some(ActiveRecording::Synthetic { transcript, duration_ms, started_at_ms }) => {
            let mut r = answer(true, pid, message);
            r.duration_ms = Some(max_of(*duration_ms, elapsed_ms(*started_at_ms, clock_ms)));
            if !transcript.as_str().is_empty() {
                r.transcript_preview = Some(transcript.clone());
            }
            r.transcript_updated_at_ms = Some(now_ms);
            r.debug = Some(RealtimeDebugInfo::default());
            r
        },
        None => {
            let mut r = answer(false, pid, message);
            r.duration_ms = Some(0);
            r
        },
    }
}

/// Answers `status`.
pub fn handle_status(
    pid: u32,
    state: &DaemonState,
    progress: Option<&RealtimeProgress>,
    clock_ms: u64,
    now_ms: u64,
) -> (r: DaemonResponse)
    ensures
        r@ == state_answer(
            runtime_state(state.recording, progress, clock_ms, now_ms),
            pid,
            None,
        ),
        notes_for(r.debug, state.recording, progress),
{
    recording_runtime_state(&state.recording, progress, pid, None, clock_ms, now_ms)
}

/// Answers `transcribe_status`.
pub fn handle_transcribe_status(
    pid: u32,
    state: &DaemonState,
    progress: Option<&RealtimeProgress>,
    clock_ms: u64,
    now_ms: u64,
) -> (r: DaemonResponse)
    ensures
        r@ == state_answer(
            runtime_state(state.recording, progress, clock_ms, now_ms),
            pid,
            Some(
                if state.recording is Some {
                    "recording active"@
                } else {
                    "recording idle"@
                },
            ),
        ),
        notes_for(r.debug, state.recording, progress),
{
    let message = if state.recording.is_some() {
        "recording active".to_string()
    } else {
        "recording idle".to_string()
    };
    recording_runtime_state(&state.recording, progress, pid, Some(message), clock_ms, now_ms)
}

/// What comes of a request: an answer at once, or something to do first.
pub enum DaemonStep {
    /// Answer this.
    Respond(DaemonResponse),
    /// End the recording that was going on, where one was, then answer this and stop.
    Shutdown(DaemonResponse, Option<ActiveRecording>),
    /// Start a recording.
    Start,
    /// End the recording.
    Stop,
    /// Look at the configuration again.
    Reload,
}

/// Decides what comes of a request.
pub fn dispatch_command(
    request: &DaemonRequest,
    pid: u32,
    should_stop: &mut bool,
    state: &mut DaemonState,
    progress: Option<&RealtimeProgress>,
    clock_ms: u64,
    now_ms: u64,
) -> (r: Result<DaemonStep, Error>)
    ensures
        request.cmd@ != "stop"@ ==> *final(should_stop) == *old(should_stop) && *final(state)
            == *old(state),
        if request.cmd@ == "ping"@ {
            r is Ok && r->Ok_0 is Respond && r->Ok_0->Respond_0@ == brief(
                old(state).recording is Some,
                Some(pid),
                None,
            ) && r->Ok_0->Respond_0.debug is None
        } else if request.cmd@ == "status"@ {
            r is Ok && r->Ok_0 is Respond && r->Ok_0->Respond_0@ == state_answer(
                runtime_state(old(state).recording, progress, clock_ms, now_ms),
                pid,
                None,
            ) && notes_for(r->Ok_0->Respond_0.debug, old(state).recording, progress)
        } else if request.cmd@ == "stop"@ {
            &&& *final(should_stop)
            &&& final(state).recording is None
            &&& r is Ok
            &&& r->Ok_0 is Shutdown
            &&& r->Ok_0->Shutdown_0@ == (Answer {
                running: false,
                ..brief(false, Some(pid), Some("stopping"@))
            })
            &&& r->Ok_0->Shutdown_0.debug is None
            &&& r->Ok_0->Shutdown_1 == old(state).recording
        } else if request.cmd@ == "transcribe_start"@ {
            r is Ok && r->Ok_0 is Start
        } else if request.cmd@ == "transcribe_status"@ {
            r is Ok && r->Ok_0 is Respond && r->Ok_0->Respond_0@ == state_answer(
                runtime_state(old(state).recording, progress, clock_ms, now_ms),
                pid,
                Some(
                    if old(state).recording is Some {
                        "recording active"@
                    } else {
                        "recording idle"@
                    },
                ),
            ) && notes_for(r->Ok_0->Respond_0.debug, old(state).recording, progress)
        } else if request.cmd@ == "transcribe_stop"@ {
            r is Ok && r->Ok_0 is Stop
        } else if request.cmd@ == "reload"@ {
            r is Ok && r->Ok_0 is Reload
        } else {
            fails_with(r, "unknown command: "@ + request.cmd@)
        },
{
    let cmd = request.cmd.as_str();
    if same(cmd, "ping") {
        Ok(DaemonStep::Respond(answer(state.recording.is_some(), pid, None)))
    } else if same(cmd, "status") {
        Ok(DaemonStep::Respond(handle_status(pid, state, progress, clock_ms, now_ms)))
    } else if same(cmd, "stop") {
        let active = state.recording.take();
        *should_stop = true;
        let mut response = answer(false, pid, Some("stopping".to_string()));
        response.running = false;
        Ok(DaemonStep::Shutdown(response, active))
    } else if same(cmd, "transcribe_start") {
        Ok(DaemonStep::Start)
    } else if same(cmd, "transcribe_status") {
        Ok(DaemonStep::Respond(handle_transcribe_status(pid, state, progress, clock_ms, now_ms)))
    } else if same(cmd, "transcribe_stop") {
        Ok(DaemonStep::Stop)
    } else if same(cmd, "reload") {
        Ok(DaemonStep::Reload)
    } else {
        let mut message = "unknown command: ".to_string();
        message.append(cmd);
        Err(Error { message, cause: None })
    }
}

// ---------------------------------------------------------------------------------------------
// The configuration of the daemon
// ---------------------------------------------------------------------------------------------

/// The integer under a key where it lies between zero and `max`, else `default`.
pub open spec fn integer_or(t: Tree, key: Seq<char>, max: int, default: int) -> int {
    match value_at(t, key) {
        Some(Tree::Integer(i)) => if 0 <= i <= max {
            i as int
        } else {
            default
        },
        _ => default,
    }
}

/// The sample rate that a configuration asks for.
pub open spec fn configured_rate(t: Tree) -> int {
    integer_or(t, "audio.sample_rate"@, u32::MAX as int, 16_000)
}

/// The number of channels that a configuration asks for.
pub open spec fn configured_channels(t: Tree) -> int {
    integer_or(t, "audio.channels"@, u16::MAX as int, 1)
}

/// The integer under a key where it lies between zero and `max`, else `default`.
pub fn read_integer_or(config: &ConfigValue, key: &str, max: u32, default: u32) -> (r: u32)
    requires
        default <= max,
    ensures
        r == integer_or(config@, key@, max as int, default as int),
        r <= max,
{
    match get_value_by_key(config, key) {
        Some(v) => match v.as_integer() {
            Some(i) => {
                if 0 <= i && i <= max as i64 {
                    i as u32
                } else {
                    default
                }
            },
            None => default,
        },
        None => default,
    }
}

/// What keeps a configuration from saying how audio is captured, where anything does.
pub open spec fn recording_problem(t: Tree) -> Option<Seq<char>> {
    if configured_rate(t) == 0 {
        Some("audio.sample_rate must be > 0"@)
    } else if configured_channels(t) == 0 {
        Some("audio.channels must be > 0"@)
    } else {
        None
    }
}

/// How audio is to be captured.
pub fn recording_config_from_config(config: &ConfigValue) -> (r: Result<RecordingConfig, Error>)
    ensures
        match recording_problem(config@) {
            Some(message) => fails_with(r, message),
            None => r is Ok && option_view(r->Ok_0.device_name) == configured_device(config@)
                && r->Ok_0.sample_rate == configured_rate(config@) && r->Ok_0.channels
                == configured_channels(config@) && r->Ok_0.sample_rate > 0 && r->Ok_0.channels > 0,
        },
{
    let device_name = configured_device_name(config);
    let sample_rate: u32 = read_integer_or(config, "audio.sample_rate", u32::MAX, 16_000);
    let channels: u32 = read_integer_or(config, "audio.channels", u16::MAX as u32, 1);
    if sample_rate == 0 {
        return Err(Error::new("audio.sample_rate must be > 0"));
    }
    if channels == 0 {
        return Err(Error::new("audio.channels must be > 0"));
    }
    Ok(RecordingConfig { device_name, sample_rate, channels: channels as u16 })
}

/// What keeps the daemon from working with a configuration, where anything does: the server, then
/// the way to capture audio, then the hooks.
pub open spec fn runtime_problem(t: Tree) -> Option<Seq<char>> {
    if backend_problem(t) is Some {
        backend_problem(t)
    } else if recording_problem(t) is Some {
        recording_problem(t)
    } else {
        hooks_problem(t)
    }
}

/// Fails where the daemon could not work with the configuration.
pub fn validate_runtime_config(config: &ConfigValue) -> (r: Result<(), Error>)
    ensures
        match runtime_problem(config@) {
            None => r is Ok,
            Some(message) => fails_with(r, message),
        },
{
    match OpenAiRealtimeBackend::from_config(config) {
        Err(e) => {
            return Err(e);
        },
        Ok(_) => {},
    }
    match recording_config_from_config(config) {
        Err(e) => {
            return Err(e);
        },
        Ok(_) => {},
    }
    validate_hook_config(config)
}

/// Answers `reload`: the configuration is looked at, and nothing else changes.
pub fn handle_reload(pid: u32, state: &DaemonState, config: &ConfigValue) -> (r: Result<
    DaemonResponse,
    Error,
>)
    ensures
        match runtime_problem(config@) {
            None => r is Ok && r->Ok_0@ == brief(
                state.recording is Some,
                Some(pid),
                Some("runtime config reloaded"@),
            ) && r->Ok_0.debug is None,
            Some(message) => fails_with(r, message),
        },
{
    match validate_runtime_config(config) {
        Err(e) => Err(e),
        Ok(_) => Ok(
            answer(state.recording.is_some(), pid, Some("runtime config reloaded".to_string())),
        ),
    }
}

// ---------------------------------------------------------------------------------------------
// The start of a recording
// ---------------------------------------------------------------------------------------------

/// What the start of a recording comes to.
pub enum StartStep {
    /// Answer this.
    Respond(DaemonResponse),
    /// A recording that has its transcript from the start is going on: run the hooks.
    Synthetic,
    /// Connect to the server and capture audio first.
    Realtime,
}

/// The state once a recording was asked for: one that is going on stays, and one that has its
/// transcript from the start begins at once.
pub open spec fn after_start(state: DaemonState, given: Option<String>, clock_ms: u64) -> DaemonState {
    match (state.recording, given) {
        (None, Some(transcript)) => DaemonState {
            recording: Some(
                ActiveRecording::Synthetic { transcript, duration_ms: 1, started_at_ms: clock_ms },
            ),
        },
        _ => state,
    }
}

/// Begins a recording, unless one is going on. `given` is the transcript that the recording has
/// from the start, where it has one.
pub fn handle_transcribe_start(
    pid: u32,
    state: &mut DaemonState,
    given: Option<String>,
    clock_ms: u64,
) -> (r: StartStep)
    ensures
        *final(state) == after_start(*old(state), given, clock_ms),
        if old(state).recording is Some {
            &&& r is Respond
            &&& r->Respond_0@ == brief(true, Some(pid), Some("recording already active"@))
            &&& r->Respond_0.debug is None
        } else if given is Some {
            r is Synthetic
        } else {
            r is Realtime
        },
{
    if state.recording.is_some() {
        return StartStep::Respond(
            answer(true, pid, Some("recording already active".to_string())),
        );
    }
    match given {
        Some(transcript) => {
            state.recording = Some(
                ActiveRecording::Synthetic { transcript, duration_ms: 1, started_at_ms: clock_ms },
            );
            StartStep::Synthetic
        },
        None => StartStep::Realtime,
    }
}

/// What a recording that goes to the server needs.
pub struct RealtimeSetup {
    pub backend: OpenAiRealtimeBackend,
    pub recording: RecordingConfig,
    pub transport: OpenAiRealtimeTransport,
}

/// What a recording that goes to the server needs, as the configuration says.
pub fn prepare_realtime(config: &ConfigValue) -> (r: Result<RealtimeSetup, Error>)
    ensures
        if backend_problem(config@) is Some {
            fails_with(r, backend_problem(config@)->0)
        } else if recording_problem(config@) is Some {
            fails_with(r, recording_problem(config@)->0)
        } else {
            &&& r is Ok
            &&& Some(r->Ok_0.backend.base_url@) == crate::backend::text_or(
                config@,
                "server.baseUrl"@,
                crate::backend::default_url(),
            )
            &&& Some(r->Ok_0.backend.api_key@) == crate::backend::text_or(
                config@,
                "server.apiKey"@,
                ""@,
            )
            &&& Some(r->Ok_0.backend.model@) == crate::backend::text_or(
                config@,
                "server.model"@,
                "voxtral"@,
            )
            &&& r->Ok_0.backend.llm_api@ == "openai-realtime"@
            &&& option_view(r->Ok_0.recording.device_name) == configured_device(config@)
            &&& r->Ok_0.recording.sample_rate == configured_rate(config@)
            &&& r->Ok_0.recording.channels == configured_channels(config@)
            &&& r->Ok_0.transport.address() == r->Ok_0.backend.ws_address()
            &&& r->Ok_0.transport.key() == r->Ok_0.backend.api_key@
            &&& !r->Ok_0.transport.open()
        },
{
    let backend = match OpenAiRealtimeBackend::from_config(config) {
        Ok(backend) => backend,
        Err(e) => {
            return Err(e);
        },
    };
    let recording = match recording_config_from_config(config) {
        Ok(recording) => recording,
        Err(e) => {
            return Err(e);
        },
    };
    let transport = backend.build_transport();
    Ok(RealtimeSetup { backend, recording, transport })
}

/// Takes note that a recording that goes to the server is going on.
pub fn realtime_started(state: &mut DaemonState, backend: OpenAiRealtimeBackend, clock_ms: u64)
    ensures
        final(state).recording == Some(
            ActiveRecording::Realtime { backend, started_at_ms: clock_ms },
        ),
{
    state.recording = Some(ActiveRecording::Realtime { backend, started_at_ms: clock_ms });
}

/// What the user interface is told of a start.
pub open spec fn started_payload(llm_api: Option<Seq<char>>) -> JsonTree {
    match llm_api {
        None => JsonTree::Object(put(no_fields(), "synthetic"@, JsonTree::Bool(true))),
        Some(api) => JsonTree::Object(
            put(
                put(no_fields(), "synthetic"@, JsonTree::Bool(false)),
                "llm_api"@,
                JsonTree::Text(api),
            ),
        ),
    }
}

/// What is told of a start once the hooks have run: to the user interface, and as the answer. The
/// interface of the server is named where the recording goes to it.
pub fn started_report(pid: u32, llm_api: Option<&str>) -> (r: (UiMessage, DaemonResponse))
    ensures
        r.0.event_type@ == "transcribe.started"@,
        r.0.payload@ == started_payload(str_view(llm_api)),
        tidy(r.0.payload@),
        r.1@ == brief(
            true,
            Some(pid),
            Some(
                match llm_api {
                    None => "recording started (synthetic test mode)"@,
                    Some(api) => "recording started (llmApi="@ + api@ + ")"@,
                },
            ),
        ),
        r.1.debug is None,
{
    match llm_api {
        None => {
            let payload = Json::object().with("synthetic", Json::Bool(true));
            (
                UiMessage { event_type: "transcribe.started".to_string(), payload },
                answer(true, pid, Some("recording started (synthetic test mode)".to_string())),
            )
        },
        Some(api) => {
            let payload = Json::object().with("synthetic", Json::Bool(false)).with(
                "llm_api",
                Json::text(api),
            );
            let mut message = "recording started (llmApi=".to_string();
            message.append(api);
            message.append(")");
            (
                UiMessage { event_type: "transcribe.started".to_string(), payload },
                answer(true, pid, Some(message)),
            )
        },
    }
}

// ---------------------------------------------------------------------------------------------
// The end of a recording
// ---------------------------------------------------------------------------------------------

/// Where the transcript of a recording comes from.
#[derive(Debug, Clone, Copy, PartialEq, Eq, Structural)]
pub enum TranscriptResolutionSource {
    Realtime,
    Progress,
    Batch,
    EmptyNoAudio,
    Empty,
    Synthetic,
}

impl TranscriptResolutionSource {
    /// The name of the source.
    pub open spec fn name(self) -> Seq<char> {
        match self {
            TranscriptResolutionSource::Realtime => "realtime"@,
            TranscriptResolutionSource::Progress => "progress"@,
            TranscriptResolutionSource::Batch => "batch"@,
            TranscriptResolutionSource::EmptyNoAudio => "empty_no_audio"@,
            TranscriptResolutionSource::Empty => "empty"@,
            TranscriptResolutionSource::Synthetic => "synthetic"@,
        }
    }

    /// The name of the source.
    pub fn as_str(self) -> (r: &'static str)
        ensures
            r@ == self.name(),
    {
        match self {
            TranscriptResolutionSource::Realtime => "realtime",
            TranscriptResolutionSource::Progress => "progress",
            TranscriptResolutionSource::Batch => "batch",
            TranscriptResolutionSource::EmptyNoAudio => "empty_no_audio",
            TranscriptResolutionSource::Empty => "empty",
            TranscriptResolutionSource::Synthetic => "synthetic",
        }
    }
}

/// The transcript of a recording, and how it came about.
#[derive(Debug)]
pub struct StopTranscriptResolution {
    pub transcript: String,
    pub source: TranscriptResolutionSource,
    pub fallback_attempted: bool,
    pub fallback_used: bool,
    pub fallback_error: Option<String>,
}

/// The transcript of a recording and how it came about, apart from how they are held.
pub struct Resolution {
    pub transcript: Seq<char>,
    pub source: TranscriptResolutionSource,
    pub fallback_attempted: bool,
    pub fallback_used: bool,
    pub fallback_error: Option<Seq<char>>,
}

impl View for StopTranscriptResolution {
    type V = Resolution;

    open spec fn view(&self) -> Resolution {
        Resolution {
            transcript: self.transcript@,
            source: self.source,
            fallback_attempted: self.fallback_attempted,
            fallback_used: self.fallback_used,
            fallback_error: option_view(self.fallback_error),
        }
    }
}

/// A transcript for which the server did not have to be asked again.
pub open spec fn direct(transcript: Seq<char>, source: TranscriptResolutionSource) -> Resolution {
    Resolution {
        transcript,
        source,
        fallback_attempted: false,
        fallback_used: false,
        fallback_error: None,
    }
}

/// No transcript, though the server was to be asked again.
pub open spec fn failed_fallback(error: Seq<char>) -> Resolution {
    Resolution {
        transcript: Seq::empty(),
        source: TranscriptResolutionSource::Empty,
        fallback_attempted: true,
        fallback_used: false,
        fallback_error: Some(error),
    }
}

/// The transcript that is there without asking the server again, where there is one: none without
/// audio, else what came in time, else the last that was seen on the way.
pub open spec fn resolved_directly(
    samples: int,
    realtime: Seq<char>,
    progress: Option<Seq<char>>,
) -> Option<Resolution> {
    if samples == 0 {
        Some(direct(Seq::empty(), TranscriptResolutionSource::EmptyNoAudio))
    } else if trimmed(realtime).len() > 0 {
        Some(direct(trimmed(realtime), TranscriptResolutionSource::Realtime))
    } else if progress is Some && trimmed(progress->0).len() > 0 {
        Some(direct(trimmed(progress->0), TranscriptResolutionSource::Progress))
    } else {
        None
    }
}

/// The transcript that a reply of the server to the whole recording leads to.
pub open spec fn resolved_by_batch(reply: Result<Seq<char>, Seq<char>>) -> Resolution {
    match reply {
        Err(error) => failed_fallback(error),
        Ok(text) => if trimmed(text).len() == 0 {
            failed_fallback("batch transcription returned empty text"@)
        } else {
            Resolution {
                transcript: trimmed(text),
                source: TranscriptResolutionSource::Batch,
                fallback_attempted: true,
                fallback_used: true,
                fallback_error: None,
            }
        },
    }
}

/// What is to be done for the transcript of a recording.
pub enum StopDecision {
    /// This is it.
    Resolved(StopTranscriptResolution),
    /// Have the whole recording transcribed.
    Batch(TranscriptionRequest),
}

fn resolved(transcript: &str, source: TranscriptResolutionSource) -> (r: StopTranscriptResolution)
    ensures
        r@ == direct(transcript@, source),
{
    StopTranscriptResolution {
        transcript: transcript.to_string(),
        source,
        fallback_attempted: false,
        fallback_used: false,
        fallback_error: None,
    }
}

fn unresolved(error: String) -> (r: StopTranscriptResolution)
    ensures
        r@ == failed_fallback(error@),
{
    StopTranscriptResolution {
        transcript: String::new(),
        source: TranscriptResolutionSource::Empty,
        fallback_attempted: true,
        fallback_used: false,
        fallback_error: Some(error),
    }
}

/// Decides where the transcript of a recording comes from: what came in time, else the last that
/// was seen on the way, else the server, which is asked for the whole recording.
pub fn resolve_transcript_on_stop(
    finished: &FinishedRecording,
    realtime_transcript: &str,
    progress_fallback: Option<&str>,
    backend: &OpenAiRealtimeBackend,
) -> (r: StopDecision)
    requires
        resolved_directly(
            finished.samples@.len() as int,
            realtime_transcript@,
            str_view(progress_fallback),
        ) is None && finished.channels > 0 && finished.sample_rate > 0 ==> wav_fits(
            finished.samples@.len() as int,
            finished.sample_rate,
            finished.channels,
        ),
    ensures
        match resolved_directly(
            finished.samples@.len() as int,
            realtime_transcript@,
            str_view(progress_fallback),
        ) {
            Some(resolution) => r is Resolved && r->Resolved_0@ == resolution,
            None => if finished.channels == 0 {
                r is Resolved && r->Resolved_0@ == failed_fallback(
                    "recording channels must be > 0"@,
                )
            } else if finished.sample_rate == 0 {
                r is Resolved && r->Resolved_0@ == failed_fallback(
                    "recording sample_rate must be > 0"@,
                )
            } else if finished.samples@.len() % finished.channels as nat != 0 {
                r is Resolved && r->Resolved_0@ == failed_fallback("failed finalizing wav writer"@)
            } else {
                &&& r is Batch
                &&& r->Batch_0.url@ == backend.transcription_address()
                &&& r->Batch_0.model@ == backend.model@
                &&& option_view(r->Batch_0.bearer) == bearer_of(backend.api_key@)
                &&& r->Batch_0.file_name@ == "recording.wav"@
                &&& r->Batch_0.mime@ == "audio/wav"@
                &&& r->Batch_0.wav@ == wav_header(
                    finished.sample_rate,
                    finished.channels,
                    2 * finished.samples@.len(),
                ) + sample_bytes(finished.samples@)
            },
        },
{
    if finished.samples.len() == 0 {
        let none = resolved("", TranscriptResolutionSource::EmptyNoAudio);
        proof {
            reveal_strlit("");
            assert(none@.transcript =~= Seq::empty());
        }
        return StopDecision::Resolved(none);
    }
    let final_text = trim(realtime_transcript);
    if !final_text.is_empty() {
        return StopDecision::Resolved(resolved(final_text, TranscriptResolutionSource::Realtime));
    }
    if let Some(progress) = progress_fallback {
        let text = trim(progress);
        if !text.is_empty() {
            return StopDecision::Resolved(resolved(text, TranscriptResolutionSource::Progress));
        }
    }
    match wav_bytes(finished) {
        Err(e) => StopDecision::Resolved(unresolved(e.message)),
        Ok(wav) => StopDecision::Batch(backend.transcribe_wav_bytes(wav)),
    }
}

/// The reply of the server to a whole recording: the text, or the message of the failure.
pub open spec fn reply_view(reply: Result<String, Error>) -> Result<Seq<char>, Seq<char>> {
    match reply {
        Ok(text) => Ok(text@),
        Err(e) => Err(e.message@),
    }
}

/// The transcript that the reply of the server to the whole recording leads to.
pub fn resolve_batch_reply(reply: Result<String, Error>) -> (r: StopTranscriptResolution)
    ensures
        r@ == resolved_by_batch(reply_view(reply)),
{
    match reply {
        Err(e) => unresolved(e.message),
        Ok(text) => {
            let words = trim(text.as_str());
            if words.is_empty() {
                unresolved("batch transcription returned empty text".to_string())
            } else {
                StopTranscriptResolution {
                    transcript: words.to_string(),
                    source: TranscriptResolutionSource::Batch,
                    fallback_attempted: true,
                    fallback_used: true,
                    fallback_error: None,
                }
            }
        },
    }
}

/// Whether how a transcript came about fits it: there is text if and only if a source for it is
/// named, the server was asked again if it is that source or a failure is told, and nothing failed
/// where there is text.
pub open spec fn coherent(r: Resolution) -> bool {
    &&& r.transcript.len() > 0 <==> (r.source == TranscriptResolutionSource::Realtime || r.source
        == TranscriptResolutionSource::Progress || r.source == TranscriptResolutionSource::Batch)
    &&& r.fallback_used <==> r.source == TranscriptResolutionSource::Batch
    &&& r.fallback_attempted <==> (r.source == TranscriptResolutionSource::Batch || r.source
        == TranscriptResolutionSource::Empty)
    &&& r.fallback_error is Some <==> r.source == TranscriptResolutionSource::Empty
    &&& trimmed(r.transcript) == r.transcript
}

/// However the transcript of a recording comes about, what is told of it fits it.
pub proof fn resolutions_are_coherent(
    samples: int,
    realtime: Seq<char>,
    progress: Option<Seq<char>>,
    reply: Result<Seq<char>, Seq<char>>,
    error: Seq<char>,
)
    ensures
        resolved_directly(samples, realtime, progress) is Some ==> coherent(
            resolved_directly(samples, realtime, progress)->0,
        ),
        coherent(resolved_by_batch(reply)),
        coherent(failed_fallback(error)),
{
    crate::text::trimmed_is_idempotent(realtime);
    if progress is Some {
        crate::text::trimmed_is_idempotent(progress->0);
    }
    if let Ok(text) = reply {
        crate::text::trimmed_is_idempotent(text);
    }
}

/// Notes how the transcript came about.
pub fn apply_stop_transcript_resolution_debug(
    debug: &mut RealtimeDebugInfo,
    resolution: &StopTranscriptResolution,
)
    ensures
        ({
            let after = *final(debug);
            let before = *old(debug);
            &&& option_view(after.transcript_source) == Some(resolution.source.name())
            &&& after == (RealtimeDebugInfo {
                transcript_source: after.transcript_source,
                transcript_fallback_attempted: resolution.fallback_attempted,
                transcript_fallback_used: resolution.fallback_used,
                transcript_fallback_error: resolution.fallback_error,
                ..before
            })
        }),
{
    debug.transcript_source = Some(resolution.source.as_str().to_string());
    debug.transcript_fallback_attempted = resolution.fallback_attempted;
    debug.transcript_fallback_used = resolution.fallback_used;
    debug.transcript_fallback_error = match &resolution.fallback_error {
        Some(error) => Some(error.clone()),
        None => None,
    };
}

/// What the end of a recording comes to.
pub enum StopStep {
    /// Answer this.
    Respond(DaemonResponse),
    /// The transcript is there, and the recording took this long.
    Resolved(StopTranscriptResolution, u64),
    /// End the capture and the connection to this server first; the recording started then.
    Finish(OpenAiRealtimeBackend, u64),
}

/// The transcript of a recording that has it from the start, and how long the recording took.
pub open spec fn resolved_from_start(recording: Option<ActiveRecording>, clock_ms: u64) -> Option<
    (Resolution, u64),
> {
    match recording {
        Some(ActiveRecording::Synthetic { transcript, duration_ms, started_at_ms }) => Some(
            (
                direct(transcript@, TranscriptResolutionSource::Synthetic),
                larger(duration_ms, elapsed(started_at_ms, clock_ms)),
            ),
        ),
        _ => None,
    }
}

/// Ends the recording, where one is going on. Afterwards none is.
pub fn handle_transcribe_stop(pid: u32, state: &mut DaemonState, clock_ms: u64) -> (r: StopStep)
    ensures
        final(state).recording is None,
        match old(state).recording {
            None => r is Respond && r->Respond_0@ == (Answer {
                transcript: Some(Seq::empty()),
                duration_ms: Some(0),
                ..brief(false, Some(pid), Some("recording not active"@))
            }) && r->Respond_0.debug is None,
            Some(ActiveRecording::Synthetic { .. }) => r is Resolved && Some(
                (r->Resolved_0@, r->Resolved_1),
            ) == resolved_from_start(old(state).recording, clock_ms),
            Some(ActiveRecording::Realtime { backend, started_at_ms }) => r == StopStep::Finish(
                backend,
                started_at_ms,
            ),
        },
{
    match state.recording.take() {
        None => {
            let mut response = answer(false, pid, Some("recording not active".to_string()));
            response.transcript = Some(String::new());
            response.duration_ms = Some(0);
            StopStep::Respond(response)
        },
        Some(ActiveRecording::Synthetic { transcript, duration_ms, started_at_ms }) => {
            let lasted = max_of(duration_ms, elapsed_ms(started_at_ms, clock_ms));
            StopStep::Resolved(
                resolved(transcript.as_str(), TranscriptResolutionSource::Synthetic),
                lasted,
            )
        },
        Some(ActiveRecording::Realtime { backend, started_at_ms }) => {
            StopStep::Finish(backend, started_at_ms)
        },
    }
}

/// A transcript that a recording has from the start is its preview while it lasts and its
/// transcript at its end, and starting again while it lasts changes nothing.
pub proof fn given_transcript_comes_back(
    state: DaemonState,
    given: String,
    started_at_ms: u64,
    clock_ms: u64,
    now_ms: u64,
    again: Option<String>,
)
    requires
        state.recording is None,
    ensures
        ({
            let started = after_start(state, Some(given), started_at_ms);
            &&& after_start(started, again, clock_ms) == started
            &&& runtime_state(started.recording, None, clock_ms, now_ms).recording
            &&& given@.len() > 0 ==> runtime_state(
                started.recording,
                None,
                clock_ms,
                now_ms,
            ).preview == Some(given@)
            &&& resolved_from_start(started.recording, clock_ms) == Some(
                (
                    direct(given@, TranscriptResolutionSource::Synthetic),
                    larger(1, elapsed(started_at_ms, clock_ms)),
                ),
            )
        }),
{
}

/// How long a recording took: as long as what was captured, or as long as the clock says.
pub fn stop_duration(finished: &FinishedRecording, started_at_ms: u64, clock_ms: u64) -> (r: u64)
    ensures
        r == larger(finished.duration_ms, elapsed(started_at_ms, clock_ms)),
{
    max_of(finished.duration_ms, elapsed_ms(started_at_ms, clock_ms))
}

/// `true` or `false`.
pub open spec fn truth(b: bool) -> Seq<char> {
    if b {
        "true"@
    } else {
        "false"@
    }
}

/// `true` or `false`.
pub fn truth_text(b: bool) -> (r: &'static str)
    ensures
        r@ == truth(b),
{
    if b {
        "true"
    } else {
        "false"
    }
}

/// What the answer to the end of a recording says.
pub open spec fn stopped_message(mode: Option<Seq<char>>, r: Resolution) -> Seq<char> {
    let rest = r.source.name() + ", fallback_used="@ + truth(r.fallback_used) + ")"@;
    match mode {
        Some(mode) => "recording stopped (mode="@ + mode + ", source="@ + rest,
        None => "recording stopped (source="@ + rest,
    }
}

/// What the user interface is told of the end of a recording.
pub open spec fn stopped_payload(mode: Option<Seq<char>>, r: Resolution, duration_ms: u64) -> JsonTree {
    JsonTree::Object(
        put(
            put(
                put(
                    put(
                        put(
                            no_fields(),
                            "mode"@,
                            match mode {
                                Some(mode) => JsonTree::Text(mode),
                                None => JsonTree::Null,
                            },
                        ),
                        "duration_ms"@,
                        JsonTree::Number(number_of(duration_ms)),
                    ),
                    "source"@,
                    JsonTree::Text(r.source.name()),
                ),
                "fallback_used"@,
                JsonTree::Bool(r.fallback_used),
            ),
            "transcript"@,
            JsonTree::Text(r.transcript),
        ),
    )
}

/// What is told of the end of a recording once the hooks have run: to the user interface, and as
/// the answer.
pub fn stopped_report(
    pid: u32,
    mode: Option<&str>,
    resolution: StopTranscriptResolution,
    duration_ms: u64,
    debug: Option<RealtimeDebugInfo>,
) -> (r: (UiMessage, DaemonResponse))
    ensures
        r.0.event_type@ == "transcribe.stopped"@,
        r.0.payload@ == stopped_payload(str_view(mode), resolution@, duration_ms),
        tidy(r.0.payload@),
        r.1@ == (Answer {
            transcript: Some(resolution@.transcript),
            duration_ms: Some(duration_ms),
            ..brief(false, Some(pid), Some(stopped_message(str_view(mode), resolution@)))
        }),
        r.1.debug == debug,
{
    let source = resolution.source.as_str();
    let mut rest = source.to_string();
    rest.append(", fallback_used=");
    rest.append(truth_text(resolution.fallback_used));
    rest.append(")");
    let message = match mode {
        Some(mode) => {
            let mut message = "recording stopped (mode=".to_string();
            message.append(mode);
            message.append(", source=");
            message.append(rest.as_str());
            message
        },
        None => {
            let mut message = "recording stopped (source=".to_string();
            message.append(rest.as_str());
            message
        },
    };
    let payload = Json::object().with("mode", Json::text_or_null(mode)).with(
        "duration_ms",
        Json::number(duration_ms),
    ).with("source", Json::text(source)).with(
        "fallback_used",
        Json::Bool(resolution.fallback_used),
    ).with("transcript", Json::text(resolution.transcript.as_str()));
    let mut response = answer(false, pid, Some(message));
    response.transcript = Some(resolution.transcript);
    response.duration_ms = Some(duration_ms);
    response.debug = debug;
    (UiMessage { event_type: "transcribe.stopped".to_string(), payload }, response)
}

// ---------------------------------------------------------------------------------------------
// Laws of the answers on the state
// ---------------------------------------------------------------------------------------------

/// While a recording goes to the server, once a transcript with ink was noted in its progress, the
/// answers on the state have exactly that transcript, without the white space around it, as their
/// preview, and the time of the note with it.
pub proof fn preview_is_what_was_noted(
    progress: &mut RealtimeProgress,
    transcript: &str,
    noted_at_ms: u64,
    after: &RealtimeProgress,
    pid: u32,
    state: &DaemonState,
    clock_ms: u64,
    now_ms: u64,
    status: DaemonResponse,
    transcribe_status: DaemonResponse,
    ink: Seq<char>,
)
    requires
        call_ensures(set_progress_snapshot, (progress, transcript, noted_at_ms), ()),
        *after == *final(progress),
        is_ink_of(ink, transcript@),
        ink.len() > 0,
        state.recording is Some,
        state.recording->0 is Realtime,
        call_ensures(handle_status, (pid, state, Some(after), clock_ms, now_ms), status),
        call_ensures(
            handle_transcribe_status,
            (pid, state, Some(after), clock_ms, now_ms),
            transcribe_status,
        ),
    ensures
        status.recording,
        status.transcript_preview is Some,
        status.transcript_preview->0@ == ink,
        status.transcript_updated_at_ms == Some(noted_at_ms),
        transcribe_status.recording,
        transcribe_status.transcript_preview is Some,
        transcribe_status.transcript_preview->0@ == ink,
        transcribe_status.transcript_updated_at_ms == Some(noted_at_ms),
{
    ink_is_unique(ink, transcript@);
}

/// The same preview comes with the answer to a request, by either of the two commands for it.
pub proof fn requested_preview_is_what_was_noted(
    progress: &mut RealtimeProgress,
    transcript: &str,
    noted_at_ms: u64,
    after: &RealtimeProgress,
    request: &DaemonRequest,
    pid: u32,
    should_stop: &mut bool,
    state: &mut DaemonState,
    clock_ms: u64,
    now_ms: u64,
    r: Result<DaemonStep, Error>,
    ink: Seq<char>,
)
    requires
        call_ensures(set_progress_snapshot, (progress, transcript, noted_at_ms), ()),
        *after == *final(progress),
        is_ink_of(ink, transcript@),
        ink.len() > 0,
        old(state).recording is Some,
        old(state).recording->0 is Realtime,
        request.cmd@ == "status"@ || request.cmd@ == "transcribe_status"@,
        call_ensures(
            dispatch_command,
            (request, pid, should_stop, state, Some(after), clock_ms, now_ms),
            r,
        ),
    ensures
        r is Ok,
        r->Ok_0 is Respond,
        r->Ok_0->Respond_0.recording,
        r->Ok_0->Respond_0.transcript_preview is Some,
        r->Ok_0->Respond_0.transcript_preview->0@ == ink,
        *final(state) == *old(state),
        *final(should_stop) == *old(should_stop),
{
    ink_is_unique(ink, transcript@);
    commands_differ();
}

proof fn commands_differ()
    ensures
        "ping"@ != "status"@,
        "ping"@ != "stop"@,
        "ping"@ != "transcribe_start"@,
        "ping"@ != "transcribe_status"@,
        "ping"@ != "transcribe_stop"@,
        "ping"@ != "reload"@,
        "status"@ != "stop"@,
        "status"@ != "transcribe_start"@,
        "status"@ != "transcribe_status"@,
        "status"@ != "transcribe_stop"@,
        "status"@ != "reload"@,
        "stop"@ != "transcribe_start"@,
        "stop"@ != "transcribe_status"@,
        "stop"@ != "transcribe_stop"@,
        "stop"@ != "reload"@,
        "transcribe_start"@ != "transcribe_status"@,
        "transcribe_start"@ != "transcribe_stop"@,
        "transcribe_start"@ != "reload"@,
        "transcribe_status"@ != "transcribe_stop"@,
        "transcribe_status"@ != "reload"@,
        "transcribe_stop"@ != "reload"@,
{
    reveal_strlit("ping");
    reveal_strlit("status");
    reveal_strlit("stop");
    reveal_strlit("transcribe_start");
    reveal_strlit("transcribe_status");
    reveal_strlit("transcribe_stop");
    reveal_strlit("reload");
    assert("ping"@[0] == 'p' && "stop"@[0] == 's');
    assert("status"@[0] == 's' && "reload"@[0] == 'r');
    assert("status"@.len() == 6 && "stop"@.len() == 4);
    assert("transcribe_start"@.len() == 16 && "transcribe_status"@.len() == 17);
    assert("transcribe_stop"@.len() == 15);
}

/// Answers on the state have the notes of the recording with them, all the last events and counts.
pub proof fn notes_come_with_the_state(
    after: &RealtimeProgress,
    pid: u32,
    state: &DaemonState,
    clock_ms: u64,
    now_ms: u64,
    r: DaemonResponse,
)
    requires
        state.recording is Some,
        state.recording->0 is Realtime,
        ({
            ||| call_ensures(handle_status, (pid, state, Some(after), clock_ms, now_ms), r)
            ||| call_ensures(
                handle_transcribe_status,
                (pid, state, Some(after), clock_ms, now_ms),
                r,
            )
        }),
    ensures
        r.debug is Some,
        r.debug->0.recent_events@ == after.debug.recent_events@,
        r.debug->0.events_received == after.debug.events_received,
        r.debug->0.errors_received == after.debug.errors_received,
        r.debug->0.chunks_sent == after.debug.chunks_sent,
        r.debug->0.commits_sent == after.debug.commits_sent,
        r.debug->0.last_error_message == after.debug.last_error_message,
        r.debug->0.last_error_code == after.debug.last_error_code,
        r.debug->0.last_event_type == after.debug.last_event_type,
        r.debug->0.audio == after.debug.audio,
{
}

/// The answers on the state say whether a recording is going on, how long it has been, and who
/// answers; without a recording there is no preview.
pub proof fn state_is_told(
    pid: u32,
    state: &DaemonState,
    progress: Option<&RealtimeProgress>,
    clock_ms: u64,
    now_ms: u64,
    r: DaemonResponse,
)
    requires
        ({
            ||| call_ensures(handle_status, (pid, state, progress, clock_ms, now_ms), r)
            ||| call_ensures(handle_transcribe_status, (pid, state, progress, clock_ms, now_ms), r)
        }),
    ensures
        r.ok,
        r.running,
        r.pid == Some(pid),
        r.error is None,
        r.transcript is None,
        r.recording <==> state.recording is Some,
        r.duration_ms is Some,
        state.recording is None ==> r.duration_ms == Some(0u64) && r.transcript_preview is None
            && r.debug is None,
        state.recording matches Some(ActiveRecording::Realtime { backend, started_at_ms }) ==> {
            &&& started_at_ms <= clock_ms ==> r.duration_ms->0 == clock_ms - started_at_ms
            &&& started_at_ms > clock_ms ==> r.duration_ms->0 == 0
        },
        state.recording matches Some(
            ActiveRecording::Synthetic { transcript, duration_ms, started_at_ms },
        ) ==> {
            &&& transcript@.len() > 0 ==> r.transcript_preview is Some && r.transcript_preview->0@
                == transcript@
            &&& r.duration_ms->0 >= duration_ms
            &&& r.duration_ms->0 >= clock_ms - started_at_ms
            &&& r.duration_ms->0 == duration_ms || r.duration_ms->0 == clock_ms - started_at_ms
        },
{
}

/// Each command leads to what it is for, and none but `stop` ends the daemon or changes its state;
/// `stop` hands over the recording that was going on and leaves none.
pub proof fn commands_do_what_they_are_for(
    request: &DaemonRequest,
    pid: u32,
    should_stop: &mut bool,
    state: &mut DaemonState,
    progress: Option<&RealtimeProgress>,
    clock_ms: u64,
    now_ms: u64,
    r: Result<DaemonStep, Error>,
)
    requires
        call_ensures(
            dispatch_command,
            (request, pid, should_stop, state, progress, clock_ms, now_ms),
            r,
        ),
    ensures
        request.cmd@ != "stop"@ ==> *final(should_stop) == *old(should_stop) && *final(state)
            == *old(state),
        request.cmd@ == "ping"@ ==> r is Ok && r->Ok_0 is Respond && r->Ok_0->Respond_0.ok
            && r->Ok_0->Respond_0.running && r->Ok_0->Respond_0.pid == Some(pid)
            && r->Ok_0->Respond_0.recording == (old(state).recording is Some),
        request.cmd@ == "status"@ || request.cmd@ == "transcribe_status"@ ==> r is Ok
            && r->Ok_0 is Respond && r->Ok_0->Respond_0.recording == (old(state).recording is Some),
        request.cmd@ == "stop"@ ==> {
            &&& *final(should_stop)
            &&& final(state).recording is None
            &&& r is Ok
            &&& r->Ok_0 is Shutdown
            &&& r->Ok_0->Shutdown_1 == old(state).recording
            &&& r->Ok_0->Shutdown_0.ok
            &&& !r->Ok_0->Shutdown_0.running
        },
        r is Ok && r->Ok_0 is Start <==> request.cmd@ == "transcribe_start"@,
        r is Ok && r->Ok_0 is Stop <==> request.cmd@ == "transcribe_stop"@,
        r is Ok && r->Ok_0 is Reload <==> request.cmd@ == "reload"@,
        r is Ok && r->Ok_0 is Shutdown <==> request.cmd@ == "stop"@,
        r is Err ==> r->Err_0.message@ == "unknown command: "@ + request.cmd@,
{
    commands_differ();
}

/// A request that failed is answered with its message, and not as one that succeeded.
pub proof fn failures_are_answered(
    state: &DaemonState,
    pid: u32,
    error: &Error,
    r: DaemonResponse,
)
    requires
        call_ensures(failure_answer, (state, pid, error), r),
    ensures
        !r.ok,
        r.error is Some,
        r.error->0@ == error.message@,
        r.transcript is None,
        r.pid == Some(pid),
        r.recording == (state.recording is Some),
{
}

// ---------------------------------------------------------------------------------------------
// Laws of a recording from its start to its end
// ---------------------------------------------------------------------------------------------

/// Where there are samples and the realtime transcript has ink, the transcript of the recording is
/// the realtime transcript without the white space around it, with every character kept, and the
/// server is not asked again.
pub proof fn realtime_transcript_is_kept_whole(
    finished: &FinishedRecording,
    realtime_transcript: &str,
    progress_fallback: Option<&str>,
    backend: &OpenAiRealtimeBackend,
    r: StopDecision,
    ink: Seq<char>,
)
    requires
        call_ensures(
            resolve_transcript_on_stop,
            (finished, realtime_transcript, progress_fallback, backend),
            r,
        ),
        finished.samples@.len() > 0,
        is_ink_of(ink, realtime_transcript@),
        ink.len() > 0,
    ensures
        r is Resolved,
        r->Resolved_0.transcript@ == ink,
        is_ink_of(r->Resolved_0.transcript@, realtime_transcript@),
        r->Resolved_0.source is Realtime,
        !r->Resolved_0.fallback_attempted,
        !r->Resolved_0.fallback_used,
        r->Resolved_0.fallback_error is None,
{
    ink_is_unique(ink, realtime_transcript@);
}

/// Where there are samples but the realtime transcript is white, the last transcript that was seen
/// on the way is kept whole instead.
pub proof fn progress_is_kept_whole(
    finished: &FinishedRecording,
    realtime_transcript: &str,
    progress_fallback: Option<&str>,
    backend: &OpenAiRealtimeBackend,
    r: StopDecision,
    ink: Seq<char>,
)
    requires
        call_ensures(
            resolve_transcript_on_stop,
            (finished, realtime_transcript, progress_fallback, backend),
            r,
        ),
        finished.samples@.len() > 0,
        is_ink_of(Seq::empty(), realtime_transcript@),
        progress_fallback is Some,
        is_ink_of(ink, progress_fallback->0@),
        ink.len() > 0,
    ensures
        r is Resolved,
        r->Resolved_0.transcript@ == ink,
        r->Resolved_0.source is Progress,
        !r->Resolved_0.fallback_attempted,
        r->Resolved_0.fallback_error is None,
{
    ink_is_unique(Seq::empty(), realtime_transcript@);
    ink_is_unique(ink, progress_fallback->0@);
}

/// A recording without samples has an empty transcript, whatever came from the server.
pub proof fn nothing_is_said_without_audio(
    finished: &FinishedRecording,
    realtime_transcript: &str,
    progress_fallback: Option<&str>,
    backend: &OpenAiRealtimeBackend,
    r: StopDecision,
)
    requires
        call_ensures(
            resolve_transcript_on_stop,
            (finished, realtime_transcript, progress_fallback, backend),
            r,
        ),
        finished.samples@.len() == 0,
    ensures
        r is Resolved,
        r->Resolved_0.transcript@.len() == 0,
        r->Resolved_0.source is EmptyNoAudio,
        !r->Resolved_0.fallback_attempted,
{
}

/// Where neither the realtime transcript nor the last one on the way has ink, the server is asked
/// for the whole recording: every sample is in what is sent, behind the header, for the model and
/// with the key of the server.
pub proof fn whole_recording_is_sent(
    finished: &FinishedRecording,
    realtime_transcript: &str,
    progress_fallback: Option<&str>,
    backend: &OpenAiRealtimeBackend,
    r: StopDecision,
)
    requires
        call_ensures(
            resolve_transcript_on_stop,
            (finished, realtime_transcript, progress_fallback, backend),
            r,
        ),
        finished.samples@.len() > 0,
        is_ink_of(Seq::empty(), realtime_transcript@),
        progress_fallback is Some ==> is_ink_of(Seq::empty(), progress_fallback->0@),
        0 < finished.channels <= 2,
        finished.sample_rate > 0,
        finished.samples@.len() % finished.channels as nat == 0,
    ensures
        r is Batch,
        r->Batch_0.wav@.len() == 44 + 2 * finished.samples@.len(),
        forall|i: int|
            #![trigger finished.samples@[i]]
            0 <= i < finished.samples@.len() ==> is_sample(
                finished.samples@[i],
                r->Batch_0.wav@[44 + 2 * i],
                r->Batch_0.wav@[45 + 2 * i],
            ),
        r->Batch_0.model@ == backend.model@,
        backend.api_key@.len() > 0 ==> r->Batch_0.bearer is Some && r->Batch_0.bearer->0@
            == backend.api_key@,
        backend.api_key@.len() == 0 ==> r->Batch_0.bearer is None,
        r->Batch_0.mime@ == "audio/wav"@,
        r->Batch_0.file_name@ == "recording.wav"@,
        finishes_with(r->Batch_0.url@, "/audio/transcriptions"@),
{
    ink_is_unique(Seq::empty(), realtime_transcript@);
    if progress_fallback is Some {
        ink_is_unique(Seq::empty(), progress_fallback->0@);
    }
    let header = wav_header(
        finished.sample_rate,
        finished.channels,
        2 * finished.samples@.len(),
    );
    header_length(finished.sample_rate, finished.channels, 2 * finished.samples@.len());
    assert forall|i: int|
        #![trigger finished.samples@[i]]
        0 <= i < finished.samples@.len() implies is_sample(
        finished.samples@[i],
        r->Batch_0.wav@[44 + 2 * i],
        r->Batch_0.wav@[45 + 2 * i],
    ) by {
        bytes_are_of_the_samples(finished.samples@, i);
        assert(r->Batch_0.wav@[44 + 2 * i] == sample_bytes(finished.samples@)[2 * i]);
        assert(r->Batch_0.wav@[45 + 2 * i] == sample_bytes(finished.samples@)[2 * i + 1]);
    }
    let url = r->Batch_0.url@;
    let end = "/audio/transcriptions"@;
    assert(url.subrange(url.len() - end.len(), url.len() as int) =~= end);
}

/// A reply of the server to the whole recording is kept whole where it has ink.
pub proof fn reply_is_kept_whole(
    reply: Result<String, Error>,
    r: StopTranscriptResolution,
    ink: Seq<char>,
)
    requires
        call_ensures(resolve_batch_reply, (reply,), r),
        reply is Ok,
        is_ink_of(ink, reply->Ok_0@),
        ink.len() > 0,
    ensures
        r.transcript@ == ink,
        r.source is Batch,
        r.fallback_attempted,
        r.fallback_used,
        r.fallback_error is None,
{
    ink_is_unique(ink, reply->Ok_0@);
}

/// Where the server failed, or its reply is white, there is no transcript, and it is told why.
pub proof fn failed_reply_is_told(reply: Result<String, Error>, r: StopTranscriptResolution)
    requires
        call_ensures(resolve_batch_reply, (reply,), r),
        reply is Ok ==> is_ink_of(Seq::empty(), reply->Ok_0@),
    ensures
        r.transcript@.len() == 0,
        r.source is Empty,
        r.fallback_attempted,
        !r.fallback_used,
        r.fallback_error is Some,
        reply is Err ==> r.fallback_error->0@ == reply->Err_0.message@,
        reply is Ok ==> r.fallback_error->0@ == "batch transcription returned empty text"@,
{
    if reply is Ok {
        ink_is_unique(Seq::empty(), reply->Ok_0@);
    }
}

/// The answer to the end of a recording, and what the user interface is told, have the transcript
/// of the recording to the character, its duration, its mode and its source; the notes come along.
pub proof fn end_is_told(
    pid: u32,
    mode: Option<&str>,
    resolution: StopTranscriptResolution,
    duration_ms: u64,
    debug: Option<RealtimeDebugInfo>,
    r: (UiMessage, DaemonResponse),
)
    requires
        call_ensures(stopped_report, (pid, mode, resolution, duration_ms, debug), r),
    ensures
        r.1.ok,
        !r.1.recording,
        r.1.pid == Some(pid),
        r.1.error is None,
        r.1.transcript is Some,
        r.1.transcript->0@ == resolution.transcript@,
        r.1.duration_ms == Some(duration_ms),
        r.1.debug == debug,
        r.0.event_type@ == "transcribe.stopped"@,
        r.0.payload@ is Object,
        lookup(r.0.payload@->Object_0, "transcript"@) == Some(
            JsonTree::Text(resolution.transcript@),
        ),
        lookup(r.0.payload@->Object_0, "duration_ms"@) == Some(
            JsonTree::Number(number_of(duration_ms)),
        ),
        lookup(r.0.payload@->Object_0, "fallback_used"@) == Some(
            JsonTree::Bool(resolution.fallback_used),
        ),
        lookup(r.0.payload@->Object_0, "mode"@) == Some(
            match mode {
                Some(mode) => JsonTree::Text(mode@),
                None => JsonTree::Null,
            },
        ),
        resolution.source is Realtime ==> lookup(r.0.payload@->Object_0, "source"@) == Some(
            JsonTree::Text("realtime"@),
        ),
        resolution.source is Progress ==> lookup(r.0.payload@->Object_0, "source"@) == Some(
            JsonTree::Text("progress"@),
        ),
        resolution.source is Batch ==> lookup(r.0.payload@->Object_0, "source"@) == Some(
            JsonTree::Text("batch"@),
        ),
        resolution.source is Empty ==> lookup(r.0.payload@->Object_0, "source"@) == Some(
            JsonTree::Text("empty"@),
        ),
        resolution.source is EmptyNoAudio ==> lookup(r.0.payload@->Object_0, "source"@) == Some(
            JsonTree::Text("empty_no_audio"@),
        ),
        resolution.source is Synthetic ==> lookup(r.0.payload@->Object_0, "source"@) == Some(
            JsonTree::Text("synthetic"@),
        ),
{
    reveal_strlit("mode");
    reveal_strlit("duration_ms");
    reveal_strlit("source");
    reveal_strlit("fallback_used");
    reveal_strlit("transcript");
    assert("mode"@.len() == 4 && "duration_ms"@.len() == 11 && "source"@.len() == 6);
    assert("fallback_used"@.len() == 13 && "transcript"@.len() == 10);
    let res = resolution@;
    let a = put(
        no_fields(),
        "mode"@,
        match str_view(mode) {
            Some(mode) => JsonTree::Text(mode),
            None => JsonTree::Null,
        },
    );
    let b = put(a, "duration_ms"@, JsonTree::Number(number_of(duration_ms)));
    let c = put(b, "source"@, JsonTree::Text(res.source.name()));
    let d = put(c, "fallback_used"@, JsonTree::Bool(res.fallback_used));
    let e = put(d, "transcript"@, JsonTree::Text(res.transcript));
    assert(r.0.payload@ == JsonTree::Object(e));
    lookup_after_put(no_fields(), "mode"@, a[0].1);
    lookup_after_put(
        no_fields(),
        "mode"@,
        match str_view(mode) {
            Some(mode) => JsonTree::Text(mode),
            None => JsonTree::Null,
        },
    );
    lookup_after_put(a, "duration_ms"@, JsonTree::Number(number_of(duration_ms)));
    lookup_after_put_elsewhere(
        a,
        "duration_ms"@,
        JsonTree::Number(number_of(duration_ms)),
        "mode"@,
    );
    lookup_after_put(b, "source"@, JsonTree::Text(res.source.name()));
    lookup_after_put_elsewhere(b, "source"@, JsonTree::Text(res.source.name()), "mode"@);
    lookup_after_put_elsewhere(b, "source"@, JsonTree::Text(res.source.name()), "duration_ms"@);
    lookup_after_put(c, "fallback_used"@, JsonTree::Bool(res.fallback_used));
    lookup_after_put_elsewhere(c, "fallback_used"@, JsonTree::Bool(res.fallback_used), "mode"@);
    lookup_after_put_elsewhere(
        c,
        "fallback_used"@,
        JsonTree::Bool(res.fallback_used),
        "duration_ms"@,
    );
    lookup_after_put_elsewhere(c, "fallback_used"@, JsonTree::Bool(res.fallback_used), "source"@);
    lookup_after_put(d, "transcript"@, JsonTree::Text(res.transcript));
    lookup_after_put_elsewhere(d, "transcript"@, JsonTree::Text(res.transcript), "mode"@);
    lookup_after_put_elsewhere(d, "transcript"@, JsonTree::Text(res.transcript), "duration_ms"@);
    lookup_after_put_elsewhere(d, "transcript"@, JsonTree::Text(res.transcript), "source"@);
    lookup_after_put_elsewhere(
        d,
        "transcript"@,
        JsonTree::Text(res.transcript),
        "fallback_used"@,
    );
}

/// What comes of a realtime transcript with ink at the end of a recording, from the transcript to
/// the answer: the answer has exactly the ink.
pub proof fn answer_has_the_realtime_transcript(
    finished: &FinishedRecording,
    realtime_transcript: &str,
    progress_fallback: Option<&str>,
    backend: &OpenAiRealtimeBackend,
    decision: StopDecision,
    pid: u32,
    mode: Option<&str>,
    duration_ms: u64,
    debug: Option<RealtimeDebugInfo>,
    r: (UiMessage, DaemonResponse),
    ink: Seq<char>,
)
    requires
        call_ensures(
            resolve_transcript_on_stop,
            (finished, realtime_transcript, progress_fallback, backend),
            decision,
        ),
        finished.samples@.len() > 0,
        is_ink_of(ink, realtime_transcript@),
        ink.len() > 0,
        call_ensures(
            stopped_report,
            (pid, mode, decision->Resolved_0, duration_ms, debug),
            r,
        ),
    ensures
        decision is Resolved,
        r.1.ok,
        r.1.transcript is Some,
        r.1.transcript->0@ == ink,
{
    ink_is_unique(ink, realtime_transcript@);
}

/// A recording that has its transcript from the start gives it back whole at its end, and the
/// recording is over then; one that goes to the server is handed over to be ended.
pub proof fn stop_ends_the_recording(pid: u32, state: &mut DaemonState, clock_ms: u64, r: StopStep)
    requires
        call_ensures(handle_transcribe_stop, (pid, state, clock_ms), r),
    ensures
        final(state).recording is None,
        old(state).recording is None ==> {
            &&& r is Respond
            &&& r->Respond_0.ok
            &&& !r->Respond_0.recording
            &&& r->Respond_0.transcript is Some
            &&& r->Respond_0.transcript->0@.len() == 0
        },
        old(state).recording matches Some(
            ActiveRecording::Synthetic { transcript, duration_ms, started_at_ms },
        ) ==> {
            &&& r is Resolved
            &&& r->Resolved_0.transcript@ == transcript@
            &&& r->Resolved_0.source is Synthetic
            &&& !r->Resolved_0.fallback_attempted
            &&& r->Resolved_1 >= duration_ms
            &&& r->Resolved_1 >= clock_ms - started_at_ms
            &&& r->Resolved_1 == duration_ms || r->Resolved_1 == clock_ms - started_at_ms
        },
        old(state).recording matches Some(ActiveRecording::Realtime { backend, started_at_ms })
            ==> r == StopStep::Finish(backend, started_at_ms),
{
}

/// A recording starts only where none is going on: one that is going on stays as it is, with its
/// transcript and its start, and the answer says so.
pub proof fn start_keeps_what_goes_on(
    pid: u32,
    state: &mut DaemonState,
    given: Option<String>,
    clock_ms: u64,
    r: StartStep,
)
    requires
        call_ensures(handle_transcribe_start, (pid, state, given, clock_ms), r),
    ensures
        old(state).recording is Some ==> {
            &&& *final(state) == *old(state)
            &&& r is Respond
            &&& r->Respond_0.ok
            &&& r->Respond_0.recording
            &&& r->Respond_0.message is Some
            &&& r->Respond_0.message->0@ == "recording already active"@
        },
        old(state).recording is None && given is None ==> r is Realtime
            && final(state).recording is None,
        old(state).recording is None && given is Some ==> r is Synthetic
            && (final(state).recording matches Some(
            ActiveRecording::Synthetic { transcript, duration_ms, started_at_ms },
        ) && transcript@ == given->0@ && started_at_ms == clock_ms),
{
}

/// A transcript that is given at the start is the preview of the recording while it lasts, and its
/// transcript at the end.
pub proof fn given_transcript_is_kept_whole(
    pid: u32,
    state: &mut DaemonState,
    given: Option<String>,
    started_at_ms: u64,
    start: StartStep,
    between: &DaemonState,
    status: DaemonResponse,
    later: &mut DaemonState,
    clock_ms: u64,
    now_ms: u64,
    stop: StopStep,
)
    requires
        old(state).recording is None,
        given is Some,
        given->0@.len() > 0,
        call_ensures(handle_transcribe_start, (pid, state, given, started_at_ms), start),
        *between == *final(state),
        *old(later) == *between,
        call_ensures(handle_status, (pid, between, None, clock_ms, now_ms), status),
        call_ensures(handle_transcribe_stop, (pid, later, clock_ms), stop),
    ensures
        start is Synthetic,
        status.recording,
        status.transcript_preview is Some,
        status.transcript_preview->0@ == given->0@,
        stop is Resolved,
        stop->Resolved_0.transcript@ == given->0@,
        stop->Resolved_1 >= clock_ms - started_at_ms,
{
}

/// A recording that goes to the server is going on from the moment it was noted, with that server,
/// and its end hands both over again.
pub proof fn server_of_the_recording_comes_back(
    state: &mut DaemonState,
    backend: OpenAiRealtimeBackend,
    started_at_ms: u64,
    later: &mut DaemonState,
    pid: u32,
    clock_ms: u64,
    r: StopStep,
)
    requires
        call_ensures(realtime_started, (state, backend, started_at_ms), ()),
        *old(later) == *final(state),
        call_ensures(handle_transcribe_stop, (pid, later, clock_ms), r),
    ensures
        final(state).recording is Some,
        r is Finish,
        r->Finish_0 == backend,
        r->Finish_1 == started_at_ms,
        final(later).recording is None,
{
}

/// A recording took at least as long as what was captured, and at least as long as the clock says,
/// and one of the two exactly.
pub proof fn duration_is_the_longer(
    finished: &FinishedRecording,
    started_at_ms: u64,
    clock_ms: u64,
    r: u64,
)
    requires
        call_ensures(stop_duration, (finished, started_at_ms, clock_ms), r),
    ensures
        r >= finished.duration_ms,
        r >= clock_ms - started_at_ms,
        r == finished.duration_ms || r == clock_ms - started_at_ms,
{
}

/// The notes of a recording say where its transcript came from, and whether the server was asked
/// again and with what result; all other notes stay.
pub proof fn notes_say_where_it_came_from(
    debug: &mut RealtimeDebugInfo,
    resolution: &StopTranscriptResolution,
)
    requires
        call_ensures(apply_stop_transcript_resolution_debug, (debug, resolution), ()),
    ensures
        final(debug).transcript_source is Some,
        resolution.source is Realtime ==> final(debug).transcript_source->0@ == "realtime"@,
        resolution.source is Progress ==> final(debug).transcript_source->0@ == "progress"@,
        resolution.source is Batch ==> final(debug).transcript_source->0@ == "batch"@,
        resolution.source is Empty ==> final(debug).transcript_source->0@ == "empty"@,
        resolution.source is EmptyNoAudio ==> final(debug).transcript_source->0@
            == "empty_no_audio"@,
        resolution.source is Synthetic ==> final(debug).transcript_source->0@ == "synthetic"@,
        final(debug).transcript_fallback_attempted == resolution.fallback_attempted,
        final(debug).transcript_fallback_used == resolution.fallback_used,
        final(debug).transcript_fallback_error == resolution.fallback_error,
        final(debug).recent_events == old(debug).recent_events,
        final(debug).events_received == old(debug).events_received,
        final(debug).errors_received == old(debug).errors_received,
        final(debug).chunks_sent == old(debug).chunks_sent,
        final(debug).commits_sent == old(debug).commits_sent,
        final(debug).audio == old(debug).audio,
        final(debug).last_error_message == old(debug).last_error_message,
{
}

/// What is told of a start names the interface of the server where the recording goes to one.
pub proof fn start_is_told(pid: u32, llm_api: Option<&str>, r: (UiMessage, DaemonResponse))
    requires
        call_ensures(started_report, (pid, llm_api), r),
    ensures
        r.0.event_type@ == "transcribe.started"@,
        r.0.payload@ is Object,
        lookup(r.0.payload@->Object_0, "synthetic"@) == Some(JsonTree::Bool(llm_api is None)),
        llm_api is Some ==> lookup(r.0.payload@->Object_0, "llm_api"@) == Some(
            JsonTree::Text(llm_api->0@),
        ),
        llm_api is None ==> lookup(r.0.payload@->Object_0, "llm_api"@) is None,
        r.1.ok,
        r.1.recording,
        r.1.pid == Some(pid),
        r.1.message is Some,
        llm_api is Some ==> r.1.message->0@ == "recording started (llmApi="@ + llm_api->0@ + ")"@,
{
    reveal_strlit("synthetic");
    reveal_strlit("llm_api");
    assert("synthetic"@.len() == 9 && "llm_api"@.len() == 7);
    let none = no_fields();
    let a = put(none, "synthetic"@, JsonTree::Bool(llm_api is None));
    lookup_after_put(none, "synthetic"@, JsonTree::Bool(llm_api is None));
    lookup_after_put_elsewhere(
        none,
        "synthetic"@,
        JsonTree::Bool(llm_api is None),
        "llm_api"@,
    );
    if llm_api is Some {
        let api = JsonTree::Text(llm_api->0@);
        lookup_after_put(a, "llm_api"@, api);
        lookup_after_put_elsewhere(a, "llm_api"@, api, "synthetic"@);
    }
}

// ---------------------------------------------------------------------------------------------
// Laws of the configuration of the daemon
// ---------------------------------------------------------------------------------------------

/// A rate and a number of channels that the configuration gives, above zero and in range, are those
/// that audio is captured with; without them it is one channel at sixteen kilohertz.
pub proof fn audio_is_captured_as_configured(
    config: &ConfigValue,
    r: Result<RecordingConfig, Error>,
    rate: i64,
    channels: i64,
)
    requires
        call_ensures(recording_config_from_config, (config,), r),
    ensures
        ({
            &&& value_at(config@, "audio.sample_rate"@) == Some(Tree::Integer(rate))
            &&& 0 < rate <= 0xFFFF_FFFF
            &&& value_at(config@, "audio.channels"@) == Some(Tree::Integer(channels))
            &&& 0 < channels <= 0xFFFF
        }) ==> r is Ok && r->Ok_0.sample_rate == rate && r->Ok_0.channels == channels,
        value_at(config@, "audio.sample_rate"@) is None && value_at(
            config@,
            "audio.channels"@,
        ) is None ==> r is Ok && r->Ok_0.sample_rate == 16_000 && r->Ok_0.channels == 1,
        value_at(config@, "audio.sample_rate"@) == Some(Tree::Integer(0)) ==> r is Err
            && r->Err_0.message@ == "audio.sample_rate must be > 0"@,
        r is Ok ==> r->Ok_0.sample_rate > 0 && r->Ok_0.channels > 0,
{
}

/// Looking at the configuration again succeeds exactly where the daemon could work with it, leaves
/// the state, and says whether a recording is going on.
pub proof fn reload_looks_at_the_configuration(
    pid: u32,
    state: &DaemonState,
    config: &ConfigValue,
    reload: Result<DaemonResponse, Error>,
    valid: Result<(), Error>,
)
    requires
        call_ensures(handle_reload, (pid, state, config), reload),
        call_ensures(validate_runtime_config, (config,), valid),
    ensures
        reload is Ok <==> valid is Ok,
        reload is Err ==> reload->Err_0.message@ == valid->Err_0.message@,
        reload is Ok ==> reload->Ok_0.ok && reload->Ok_0.running && reload->Ok_0.recording == (
        state.recording is Some) && reload->Ok_0.pid == Some(pid),
{
}

/// The daemon can work with a configuration if and only if it names a server, says how audio is
/// captured and has hooks that can be run.
pub proof fn configuration_is_looked_at_whole(
    config: &ConfigValue,
    valid: Result<(), Error>,
    backend: Result<OpenAiRealtimeBackend, Error>,
    recording: Result<RecordingConfig, Error>,
    hooks: Result<(), Error>,
)
    requires
        call_ensures(validate_runtime_config, (config,), valid),
        call_ensures(OpenAiRealtimeBackend::from_config, (config,), backend),
        call_ensures(recording_config_from_config, (config,), recording),
        call_ensures(validate_hook_config, (config,), hooks),
    ensures
        valid is Ok <==> backend is Ok && recording is Ok && hooks is Ok,
        backend is Err ==> valid is Err && valid->Err_0.message@ == backend->Err_0.message@,
        backend is Ok && recording is Err ==> valid is Err && valid->Err_0.message@
            == recording->Err_0.message@,
        backend is Ok && recording is Ok && hooks is Err ==> valid is Err && valid->Err_0.message@
            == hooks->Err_0.message@,
{
}

/// A recording that goes to the server has what the configuration says of the server and of the
/// audio, and a connection to that server that is not open yet.
pub proof fn setup_is_as_configured(
    config: &ConfigValue,
    setup: Result<RealtimeSetup, Error>,
    backend: Result<OpenAiRealtimeBackend, Error>,
    recording: Result<RecordingConfig, Error>,
)
    requires
        call_ensures(prepare_realtime, (config,), setup),
        call_ensures(OpenAiRealtimeBackend::from_config, (config,), backend),
        call_ensures(recording_config_from_config, (config,), recording),
    ensures
        setup is Ok <==> backend is Ok && recording is Ok,
        setup is Ok ==> {
            &&& setup->Ok_0.backend.base_url@ == backend->Ok_0.base_url@
            &&& setup->Ok_0.backend.api_key@ == backend->Ok_0.api_key@
            &&& setup->Ok_0.backend.model@ == backend->Ok_0.model@
            &&& setup->Ok_0.recording.sample_rate == recording->Ok_0.sample_rate
            &&& setup->Ok_0.recording.channels == recording->Ok_0.channels
            &&& option_view(setup->Ok_0.recording.device_name) == option_view(
                recording->Ok_0.device_name,
            )
            &&& setup->Ok_0.transport.key() == backend->Ok_0.api_key@
            &&& !setup->Ok_0.transport.open()
        },
{
}

/// The files of the running daemon lie in its directory, under names of their own.
pub proof fn files_lie_in_the_directory(
    custom: Option<&str>,
    xdg: Option<&str>,
    home: Option<&str>,
    r: Result<RuntimePaths, Error>,
)
    requires
        call_ensures(runtime_paths, (custom, xdg, home), r),
        r is Ok,
        r->Ok_0.runtime_dir@.len() > 0,
        r->Ok_0.runtime_dir@.last() != '/',
    ensures
        r->Ok_0.socket_path@ == r->Ok_0.runtime_dir@ + "/"@ + "daemon.sock"@,
        r->Ok_0.ui_socket_path@ == r->Ok_0.runtime_dir@ + "/"@ + "ui.sock"@,
        r->Ok_0.pid_path@ == r->Ok_0.runtime_dir@ + "/"@ + "daemon.pid"@,
{
}

/// What the answers say in words: whether a recording is going on; of its end the mode, the source
/// and whether the server was asked again; and of the end of the daemon that it stops.
pub proof fn answers_say_so(
    pid: u32,
    state: &DaemonState,
    progress: Option<&RealtimeProgress>,
    clock_ms: u64,
    now_ms: u64,
    status: DaemonResponse,
    mode: Option<&str>,
    resolution: StopTranscriptResolution,
    duration_ms: u64,
    debug: Option<RealtimeDebugInfo>,
    source: &str,
    stopped: (UiMessage, DaemonResponse),
)
    requires
        call_ensures(
            handle_transcribe_status,
            (pid, state, progress, clock_ms, now_ms),
            status,
        ),
        call_ensures(stopped_report, (pid, mode, resolution, duration_ms, debug), stopped),
        call_ensures(TranscriptResolutionSource::as_str, (resolution.source,), source),
    ensures
        status.message is Some,
        state.recording is Some ==> status.message->0@ == "recording active"@,
        state.recording is None ==> status.message->0@ == "recording idle"@,
        stopped.1.message is Some,
        mode is None && resolution.fallback_used ==> stopped.1.message->0@
            == "recording stopped (source="@ + (source@ + ", fallback_used="@ + "true"@ + ")"@),
        mode is None && !resolution.fallback_used ==> stopped.1.message->0@
            == "recording stopped (source="@ + (source@ + ", fallback_used="@ + "false"@ + ")"@),
        mode is Some && resolution.fallback_used ==> stopped.1.message->0@
            == "recording stopped (mode="@ + mode->0@ + ", source="@ + (source@
            + ", fallback_used="@ + "true"@ + ")"@),
        mode is Some && !resolution.fallback_used ==> stopped.1.message->0@
            == "recording stopped (mode="@ + mode->0@ + ", source="@ + (source@
            + ", fallback_used="@ + "false"@ + ")"@),
{
}

} // verus!
