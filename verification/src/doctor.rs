//! Health checks: what is looked at, and what is found.
use vstd::prelude::*;

use crate::backend::{backend_problem, OpenAiRealtimeBackend};
use crate::cli::option_view;
use crate::client::pid_or_zero;
use crate::config::{ConfigValue, Tree};
use crate::daemon::{
    configured_channels, configured_rate, read_integer_or, recording_config_from_config, truth,
    truth_text, Answer, DaemonResponse,
};
use crate::error::{fails_with, Error};
use crate::fields::lookup;
use crate::input::{configured_device, configured_device_name};
use crate::json::{
    field, item_trees, items_in, json_parsed, json_problem, text_field, Json, JsonTree,
};
use crate::progress::{is_silent, one_more, SILENCE_THRESHOLD_BITS};
use crate::recording::RecordingConfig;
use crate::text::{
    decimal, decimal_text, holds_text, join, joined, joined_holds_each, same, trimmed_end_of, views,
};

verus! {

/// A check and what it found.
#[derive(Debug)]
pub struct DoctorCheck {
    pub name: String,
    pub ok: bool,
    pub detail: String,
}

/// All checks, and whether all is well.
#[derive(Debug)]
pub struct DoctorReport {
    pub ok: bool,
    pub checks: Vec<DoctorCheck>,
}

/// A check, apart from how it is held: its name, whether all is well, and what it found.
pub open spec fn check_view(c: DoctorCheck) -> (Seq<char>, bool, Seq<char>) {
    (c.name@, c.ok, c.detail@)
}

/// The views of checks.
pub open spec fn check_views(s: Seq<DoctorCheck>) -> Seq<(Seq<char>, bool, Seq<char>)> {
    Seq::new(s.len(), |i: int| check_view(s[i]))
}

fn add_check(checks: &mut Vec<DoctorCheck>, name: &str, ok: bool, detail: String)
    ensures
        check_views(final(checks)@) == check_views(old(checks)@).push((name@, ok, detail@)),
{
    let ghost before = check_views(checks@);
    let ghost found = detail@;
    checks.push(DoctorCheck { name: name.to_string(), ok, detail });
    assert(check_views(checks@) =~= before.push((name@, ok, found)));
}

// ---------------------------------------------------------------------------------------------
// The models of the server
// ---------------------------------------------------------------------------------------------

/// The identifiers among the items of a list of models.
pub open spec fn ids_in(items: Seq<JsonTree>) -> Seq<Seq<char>>
    decreases items.len(),
{
    if items.len() == 0 {
        Seq::empty()
    } else {
        let before = ids_in(items.drop_last());
        match text_field(items.last(), "id"@) {
            Some(id) => before.push(id),
            None => before,
        }
    }
}

/// The items under a name.
pub open spec fn items_under(t: JsonTree, k: Seq<char>) -> Option<Seq<JsonTree>> {
    match field(t, k) {
        Some(v) => items_in(v),
        None => None,
    }
}

/// The identifiers of the models in a reply, in one of the forms that servers use.
pub open spec fn model_ids(t: JsonTree) -> Seq<Seq<char>> {
    if items_under(t, "data"@) is Some {
        ids_in(items_under(t, "data"@)->0)
    } else if items_under(t, "models"@) is Some {
        ids_in(items_under(t, "models"@)->0)
    } else if items_in(t) is Some {
        ids_in(items_in(t)->0)
    } else {
        Seq::empty()
    }
}

fn collect_ids(items: &Vec<Json>) -> (r: Vec<String>)
    ensures
        views(r@) == ids_in(item_trees(items@)),
{
    let ghost trees = item_trees(items@);
    let mut ids: Vec<String> = Vec::new();
    let mut i: usize = 0;
    assert(trees.take(0) =~= Seq::empty());
    assert(views(ids@) =~= ids_in(trees.take(0)));
    while i < items.len()
        invariant
            trees == item_trees(items@),
            i <= items@.len(),
            views(ids@) == ids_in(trees.take(i as int)),
        decreases items@.len() - i,
    {
        assert(trees.take(i + 1).drop_last() =~= trees.take(i as int));
        assert(trees.take(i + 1).last() == items@[i as int]@);
        let ghost before = views(ids@);
        if let Some(id) = items[i].get_str("id") {
            ids.push(id.to_string());
            assert(views(ids@) =~= before.push(id@));
        }
        i = i + 1;
    }
    assert(trees.take(i as int) =~= trees);
    ids
}

/// The identifiers of the models in a reply.
pub fn model_ids_from_payload(payload: &Json) -> (r: Vec<String>)
    ensures
        views(r@) == model_ids(payload@),
{
    if let Some(data) = payload.get("data") {
        if let Some(items) = data.as_array() {
            return collect_ids(items);
        }
    }
    if let Some(models) = payload.get("models") {
        if let Some(items) = models.as_array() {
            return collect_ids(items);
        }
    }
    if let Some(items) = payload.as_array() {
        return collect_ids(items);
    }
    let none: Vec<String> = Vec::new();
    assert(views(none@) =~= Seq::empty());
    none
}

/// What a list of models says: whether this one is among them, and which there are; or why it says
/// nothing.
pub open spec fn models_said(payload: Option<JsonTree>, problem: Seq<char>, model: Seq<char>) -> Result<
    (bool, Seq<Seq<char>>),
    Seq<char>,
> {
    match payload {
        None => Err(problem),
        Some(t) => if model_ids(t).len() == 0 {
            Err("no model ids found in /models payload"@)
        } else {
            Ok((model_ids(t).contains(model), model_ids(t)))
        },
    }
}

/// Whether `r` is this outcome.
pub open spec fn is_said(
    r: Result<(bool, Vec<String>), Error>,
    said: Result<(bool, Seq<Seq<char>>), Seq<char>>,
) -> bool {
    match said {
        Ok((loaded, ids)) => r is Ok && r->Ok_0.0 == loaded && views(r->Ok_0.1@) == ids,
        Err(message) => fails_with(r, message),
    }
}

/// Whether the model is in a list of models that was read, and which there are.
pub fn model_in_payload(payload: &Json, model: &str) -> (r: Result<(bool, Vec<String>), Error>)
    ensures
        is_said(r, models_said(Some(payload@), Seq::empty(), model@)),
{
    let ids = model_ids_from_payload(payload);
    if ids.len() == 0 {
        return Err(Error::new("no model ids found in /models payload"));
    }
    let mut loaded = false;
    let mut i: usize = 0;
    while i < ids.len()
        invariant
            i <= ids@.len(),
            loaded == views(ids@).take(i as int).contains(model@),
        decreases ids@.len() - i,
    {
        let ghost before = views(ids@).take(i as int);
        let ghost after = views(ids@).take(i + 1);
        proof {
            assert(after =~= before.push(ids@[i as int]@));
            if before.contains(model@) {
                let n = choose|n: int| 0 <= n < before.len() && before[n] == model@;
                assert(after[n] == model@);
            }
            assert(after[i as int] == ids@[i as int]@);
        }
        if same(ids[i].as_str(), model) {
            loaded = true;
        }
        proof {
            if after.contains(model@) && !before.contains(model@) {
                let n = choose|n: int| 0 <= n < after.len() && after[n] == model@;
                if n < i {
                    assert(before[n] == model@);
                }
            }
        }
        i = i + 1;
    }
    assert(views(ids@).take(i as int) =~= views(ids@));
    Ok((loaded, ids))
}

/// Whether the model is in the list of models with this text, and which there are.
pub fn configured_model_loaded(body: &str, configured_model: &str) -> (r: Result<
    (bool, Vec<String>),
    Error,
>)
    ensures
        is_said(r, models_said(json_parsed(body@), json_problem(body@), configured_model@)),
{
    match Json::parse(body) {
        Ok(payload) => model_in_payload(&payload, configured_model),
        Err(problem) => Err(Error { message: problem, cause: None }),
    }
}

/// A few of the models, and how many more there are.
pub open spec fn models_summary(ids: Seq<Seq<char>>) -> Seq<char> {
    if ids.len() == 0 {
        "none"@
    } else if ids.len() > 5 {
        joined(
            ids.take(5).push("... +"@ + decimal((ids.len() - 5) as nat) + " more"@),
            ", "@,
        )
    } else {
        joined(ids, ", "@)
    }
}

/// A few of the models, and how many more there are.
pub fn summarize_model_ids(model_ids: &Vec<String>) -> (r: String)
    ensures
        r@ == models_summary(views(model_ids@)),
{
    if model_ids.len() == 0 {
        return "none".to_string();
    }
    if model_ids.len() <= 5 {
        return join(model_ids, ", ");
    }
    let mut sample: Vec<String> = Vec::new();
    let mut i: usize = 0;
    while i < 5
        invariant
            model_ids@.len() > 5,
            i <= 5,
            views(sample@) == views(model_ids@).take(i as int),
        decreases 5 - i,
    {
        let ghost before = views(sample@);
        sample.push(model_ids[i].clone());
        assert(views(sample@) =~= before.push(model_ids@[i as int]@));
        assert(views(model_ids@).take(i + 1) =~= views(model_ids@).take(i as int).push(
            model_ids@[i as int]@,
        ));
        i = i + 1;
    }
    let ghost before = views(sample@);
    let mut more = "... +".to_string();
    more.append(decimal_text((model_ids.len() - 5) as u64).as_str());
    more.append(" more");
    sample.push(more);
    assert(views(sample@) =~= before.push(more@));
    join(&sample, ", ")
}

// ---------------------------------------------------------------------------------------------
// The audio probe
// ---------------------------------------------------------------------------------------------

/// How long the audio probe listens, in milliseconds.
pub const AUDIO_PROBE_MS: u64 = 1_500;

/// How the audio probe listens.
#[derive(Debug)]
pub struct AudioProbeConfig {
    pub device_name: Option<String>,
    pub sample_rate: u32,
    pub channels: u16,
    pub duration_ms: u64,
}

/// What the audio probe heard. The peak is the bits of a floating-point number that is not negative;
/// `level_detail` says how loud it was.
#[derive(Debug)]
pub struct AudioProbeResult {
    pub device_name: String,
    pub sample_rate: u32,
    pub channels: u16,
    pub duration_ms: u64,
    pub chunks: u64,
    pub samples: u64,
    pub peak: u32,
    pub level_detail: String,
}

/// The sample rate of the probe: that of the configuration, or the default where there is none.
pub open spec fn probe_rate(t: Option<Tree>) -> int {
    match t {
        Some(t) => configured_rate(t),
        None => 16_000,
    }
}

/// The channels of the probe: those of the configuration, or the default where there is none.
pub open spec fn probe_channels(t: Option<Tree>) -> int {
    match t {
        Some(t) => configured_channels(t),
        None => 1,
    }
}

/// The device of the probe.
pub open spec fn probe_device(t: Option<Tree>) -> Option<Seq<char>> {
    match t {
        Some(t) => configured_device(t),
        None => None,
    }
}

/// What keeps the probe from listening, where anything does.
pub open spec fn probe_problem(t: Option<Tree>) -> Option<Seq<char>> {
    if probe_rate(t) == 0 {
        Some("audio.sample_rate must be > 0 for audio probe"@)
    } else if probe_channels(t) == 0 {
        Some("audio.channels must be > 0 for audio probe"@)
    } else {
        None
    }
}

/// The tree of an optional configuration.
pub open spec fn tree_view(config: Option<&ConfigValue>) -> Option<Tree> {
    match config {
        Some(config) => Some(config@),
        None => None,
    }
}

/// How the audio probe listens under a configuration, or under none.
pub fn audio_probe_config_from_config(config: Option<&ConfigValue>) -> (r: Result<
    AudioProbeConfig,
    Error,
>)
    ensures
        match probe_problem(tree_view(config)) {
            Some(message) => fails_with(r, message),
            None => r is Ok && option_view(r->Ok_0.device_name) == probe_device(tree_view(config))
                && r->Ok_0.sample_rate == probe_rate(tree_view(config)) && r->Ok_0.channels
                == probe_channels(tree_view(config)) && r->Ok_0.duration_ms == AUDIO_PROBE_MS,
        },
{
    let mut device_name: Option<String> = None;
    let mut sample_rate: u32 = 16_000;
    let mut channels: u32 = 1;
    if let Some(config) = config {
        device_name = configured_device_name(config);
        sample_rate = read_integer_or(config, "audio.sample_rate", u32::MAX, 16_000);
        channels = read_integer_or(config, "audio.channels", u16::MAX as u32, 1);
    }
    if sample_rate == 0 {
        return Err(Error::new("audio.sample_rate must be > 0 for audio probe"));
    }
    if channels == 0 {
        return Err(Error::new("audio.channels must be > 0 for audio probe"));
    }
    Ok(
        AudioProbeConfig {
            device_name,
            sample_rate,
            channels: channels as u16,
            duration_ms: AUDIO_PROBE_MS,
        },
    )
}

/// What the audio probe has counted.
#[derive(Debug, Clone, Copy, PartialEq, Eq, Structural)]
pub struct ProbeCounters {
    pub chunks: u64,
    pub samples: u64,
    pub silent_chunks: u64,
}

impl ProbeCounters {
    /// Counts a chunk of audio of this level, which is the bits of a floating-point number that is
    /// not negative.
    pub fn count(&mut self, chunk_len: usize, rms: u32)
        ensures
            final(self).chunks == one_more(old(self).chunks),
            final(self).samples == if old(self).samples + chunk_len > u64::MAX {
                u64::MAX as int
            } else {
                old(self).samples + chunk_len
            },
            final(self).silent_chunks == if rms <= SILENCE_THRESHOLD_BITS {
                one_more(old(self).silent_chunks)
            } else {
                old(self).silent_chunks
            },
    {
        self.chunks = self.chunks.saturating_add(1);
        self.samples = self.samples.saturating_add(chunk_len as u64);
        if is_silent(rms) {
            self.silent_chunks = self.silent_chunks.saturating_add(1);
        }
    }
}

// ---------------------------------------------------------------------------------------------
// The checks
// ---------------------------------------------------------------------------------------------

/// The reply to the request for the models.
#[derive(Debug)]
pub enum ModelsReply {
    /// The server replied: its status, as a number and as it is shown, and the body.
    Replied { code: u16, success: bool, status: String, body: String },
    /// The request failed, for this reason.
    Failed(String),
}

/// The tools of the platform, and whether each is there.
#[derive(Debug)]
pub enum ToolFacts {
    Linux { wl_paste: bool, wl_copy: bool, xclip: bool, wtype: bool, xdotool: bool },
    Mac { pbcopy: bool, pbpaste: bool, osascript: bool },
    Other,
}

/// What was looked at.
pub struct DoctorFacts {
    /// Where the configuration lies, or why that is not known.
    pub config_path: Result<String, String>,
    /// The configuration, or why it could not be read.
    pub config: Result<ConfigValue, String>,
    /// The state of the daemon, or why it is not known.
    pub status: Result<DaemonResponse, String>,
    /// The reply of the server, where it was asked.
    pub models: Option<ModelsReply>,
    /// What the audio probe heard or why it failed, where it listened.
    pub probe: Option<Result<AudioProbeResult, String>>,
    pub tools: ToolFacts,
}

/// The configuration, where it could be read.
pub open spec fn config_tree(facts: DoctorFacts) -> Option<Tree> {
    match facts.config {
        Ok(config) => Some(config@),
        Err(_) => None,
    }
}

/// The check of where the configuration lies.
pub open spec fn path_check(facts: DoctorFacts) -> (Seq<char>, bool, Seq<char>) {
    match facts.config_path {
        Ok(path) => ("config.path"@, true, path@),
        Err(problem) => ("config.path"@, false, problem@),
    }
}

/// The check of the configuration.
pub open spec fn config_check(facts: DoctorFacts) -> (Seq<char>, bool, Seq<char>) {
    match facts.config {
        Ok(_) => ("config.parse"@, true, "loaded config successfully"@),
        Err(problem) => ("config.parse"@, false, problem@),
    }
}

/// The check of the server in the configuration, where there is a configuration.
pub open spec fn backend_checks(facts: DoctorFacts) -> Seq<(Seq<char>, bool, Seq<char>)> {
    match config_tree(facts) {
        None => Seq::empty(),
        Some(t) => match backend_problem(t) {
            None => seq![("server.llmApi"@, true, "openai-realtime"@)],
            Some(problem) => seq![("server.llmApi"@, false, problem)],
        },
    }
}

/// What is told of the daemon.
pub open spec fn daemon_detail(a: Answer) -> Seq<char> {
    if a.running {
        "running pid="@ + decimal(pid_or_zero(a.pid)) + " recording="@ + truth(a.recording)
    } else {
        "stopped"@
    }
}

/// The check of the daemon.
pub open spec fn daemon_check(facts: DoctorFacts) -> (Seq<char>, bool, Seq<char>) {
    match facts.status {
        Ok(status) => ("daemon.status"@, status.running, daemon_detail(status@)),
        Err(problem) => ("daemon.status"@, false, problem@),
    }
}

/// The check of the model, by what the list of models says.
pub open spec fn model_check(
    model: Seq<char>,
    said: Result<(bool, Seq<Seq<char>>), Seq<char>>,
) -> (Seq<char>, bool, Seq<char>) {
    match said {
        Ok((loaded, ids)) => (
            "server.model.loaded"@,
            loaded,
            "configured model "@ + model + (if loaded {
                " found in /models ("@
            } else {
                " not listed by /models ("@
            }) + models_summary(ids) + ")"@,
        ),
        Err(problem) => (
            "server.model.loaded"@,
            false,
            "failed parsing /models response: "@ + problem,
        ),
    }
}

/// Whether a status means that the server is there: success, or a refusal of the key.
pub open spec fn is_reachable(code: u16, success: bool) -> bool {
    success || code == 401 || code == 403
}

/// The checks of the server, by its reply; `endpoint` is the address of its list of models.
pub open spec fn server_checks(reply: ModelsReply, endpoint: Seq<char>, model: Seq<char>) -> Seq<
    (Seq<char>, bool, Seq<char>),
> {
    match reply {
        ModelsReply::Replied { code, success, status, body } => seq![
            (
                "server.reachability"@,
                is_reachable(code, success),
                endpoint + " -> HTTP "@ + status@,
            ),
            if success {
                model_check(
                    model,
                    models_said(json_parsed(body@), json_problem(body@), model),
                )
            } else {
                (
                    "server.model.loaded"@,
                    false,
                    "cannot verify configured model "@ + model
                        + " because /models returned HTTP "@ + status@,
                )
            },
        ],
        ModelsReply::Failed(reason) => seq![
            ("server.reachability"@, false, endpoint + " -> "@ + reason@),
            (
                "server.model.loaded"@,
                false,
                "cannot verify configured model "@ + model + ": "@ + reason@,
            ),
        ],
    }
}

/// The checks of the server, where the configuration describes one and it was asked.
pub open spec fn models_checks(facts: DoctorFacts) -> Seq<(Seq<char>, bool, Seq<char>)> {
    match (config_tree(facts), facts.models) {
        (Some(t), Some(reply)) => if backend_problem(t) is None {
            server_checks(
                reply,
                trimmed_end_of(
                    crate::backend::text_or(t, "server.baseUrl"@, crate::backend::default_url())->0,
                    '/',
                ) + "/models"@,
                crate::backend::text_or(t, "server.model"@, "voxtral"@)->0,
            )
        } else {
            Seq::empty()
        },
        _ => Seq::empty(),
    }
}

/// A device, or the default one.
pub open spec fn device_or_default(device: Option<Seq<char>>) -> Seq<char> {
    match device {
        Some(name) => name,
        None => "default"@,
    }
}

/// The check of how the audio probe listens.
pub open spec fn probe_config_check(facts: DoctorFacts) -> (Seq<char>, bool, Seq<char>) {
    let t = config_tree(facts);
    match probe_problem(t) {
        Some(problem) => ("audio.probe.config"@, false, problem),
        None => (
            "audio.probe.config"@,
            true,
            "device="@ + device_or_default(probe_device(t)) + " sample_rate="@ + decimal(
                probe_rate(t) as nat,
            ) + " channels="@ + decimal(probe_channels(t) as nat)
                + " duration_ms=1500 silence_threshold=0.008"@,
        ),
    }
}

/// The checks of what the audio probe heard, where it listened.
pub open spec fn probe_checks(facts: DoctorFacts) -> Seq<(Seq<char>, bool, Seq<char>)> {
    let t = config_tree(facts);
    if probe_problem(t) is Some {
        Seq::empty()
    } else {
        match facts.probe {
            None => Seq::empty(),
            Some(Ok(p)) => seq![
                (
                    "audio.input_device"@,
                    true,
                    p.device_name@ + " (sample_rate="@ + decimal(p.sample_rate as nat)
                        + " channels="@ + decimal(p.channels as nat) + ")"@,
                ),
                (
                    "audio.probe.capture"@,
                    p.samples > 0,
                    "captured "@ + decimal(p.chunks as nat) + " chunks / "@ + decimal(
                        p.samples as nat,
                    ) + " samples over "@ + decimal(p.duration_ms as nat) + "ms"@,
                ),
                (
                    "audio.probe.level"@,
                    p.peak > SILENCE_THRESHOLD_BITS,
                    if p.peak > SILENCE_THRESHOLD_BITS {
                        p.level_detail@
                    } else {
                        p.level_detail@
                            + "; low input level detected (try speaking during doctor run)"@
                    },
                ),
            ],
            Some(Err(problem)) => seq![
                (
                    "audio.input_device"@,
                    false,
                    "requested="@ + device_or_default(probe_device(t)) + " ("@ + problem@ + ")"@,
                ),
                ("audio.probe.capture"@, false, problem@),
            ],
        }
    }
}

/// Whether a tool is there.
pub open spec fn presence(found: bool) -> Seq<char> {
    if found {
        "found"@
    } else {
        "missing"@
    }
}

/// The check that one of two tools is there.
pub open spec fn either_tool(
    name: Seq<char>,
    needed: Seq<char>,
    first: Seq<char>,
    has_first: bool,
    second: Seq<char>,
    has_second: bool,
) -> (Seq<char>, bool, Seq<char>) {
    (
        name,
        has_first || has_second,
        "need "@ + needed + " ("@ + first + ": "@ + presence(has_first) + ", "@ + second + ": "@
            + presence(has_second) + ")"@,
    )
}

/// The check that a tool is there.
pub open spec fn one_tool(tool: Seq<char>, found: bool) -> (Seq<char>, bool, Seq<char>) {
    (
        "tool."@ + tool,
        found,
        if found {
            "found"@
        } else {
            "missing from PATH"@
        },
    )
}

/// The checks of the tools.
pub open spec fn tool_checks(tools: ToolFacts) -> Seq<(Seq<char>, bool, Seq<char>)> {
    match tools {
        ToolFacts::Linux { wl_paste, wl_copy, xclip, wtype, xdotool } => seq![
            either_tool(
                "tool.clipboard.read"@,
                "wl-paste or xclip"@,
                "wl-paste"@,
                wl_paste,
                "xclip"@,
                xclip,
            ),
            either_tool(
                "tool.clipboard.write"@,
                "wl-copy or xclip"@,
                "wl-copy"@,
                wl_copy,
                "xclip"@,
                xclip,
            ),
            either_tool(
                "tool.clipboard.paste"@,
                "wtype (Wayland) or xdotool (X11)"@,
                "wtype"@,
                wtype,
                "xdotool"@,
                xdotool,
            ),
        ],
        ToolFacts::Mac { pbcopy, pbpaste, osascript } => seq![
            one_tool("pbcopy"@, pbcopy),
            one_tool("pbpaste"@, pbpaste),
            one_tool("osascript"@, osascript),
        ],
        ToolFacts::Other => Seq::empty(),
    }
}

/// All checks, in order.
pub open spec fn expected_checks(facts: DoctorFacts) -> Seq<(Seq<char>, bool, Seq<char>)> {
    seq![path_check(facts), config_check(facts)] + backend_checks(facts) + seq![
        daemon_check(facts),
    ] + models_checks(facts) + seq![probe_config_check(facts)] + probe_checks(facts) + tool_checks(
        facts.tools,
    )
}

/// Whether every check found that all is well.
pub open spec fn all_well(checks: Seq<(Seq<char>, bool, Seq<char>)>) -> bool {
    forall|i: int| 0 <= i < checks.len() ==> (#[trigger] checks[i]).1
}

fn presence_text(found: bool) -> (r: &'static str)
    ensures
        r@ == presence(found),
{
    if found {
        "found"
    } else {
        "missing"
    }
}

fn either_tool_text(needed: &str, first: &str, has_first: bool, second: &str, has_second: bool) -> (r:
    String)
    ensures
        r@ == either_tool(Seq::empty(), needed@, first@, has_first, second@, has_second).2,
{
    let mut s = "need ".to_string();
    s.append(needed);
    s.append(" (");
    s.append(first);
    s.append(": ");
    s.append(presence_text(has_first));
    s.append(", ");
    s.append(second);
    s.append(": ");
    s.append(presence_text(has_second));
    s.append(")");
    s
}

fn check_one_tool(checks: &mut Vec<DoctorCheck>, tool: &str, found: bool)
    ensures
        check_views(final(checks)@) == check_views(old(checks)@).push(one_tool(tool@, found)),
{
    let mut name = "tool.".to_string();
    name.append(tool);
    let detail = if found {
        "found".to_string()
    } else {
        "missing from PATH".to_string()
    };
    add_check(checks, name.as_str(), found, detail);
}

fn check_tools(checks: &mut Vec<DoctorCheck>, tools: &ToolFacts)
    ensures
        check_views(final(checks)@) == check_views(old(checks)@) + tool_checks(*tools),
{
    let ghost before = check_views(checks@);
    match tools {
        ToolFacts::Linux { wl_paste, wl_copy, xclip, wtype, xdotool } => {
            add_check(
                checks,
                "tool.clipboard.read",
                *wl_paste || *xclip,
                either_tool_text("wl-paste or xclip", "wl-paste", *wl_paste, "xclip", *xclip),
            );
            add_check(
                checks,
                "tool.clipboard.write",
                *wl_copy || *xclip,
                either_tool_text("wl-copy or xclip", "wl-copy", *wl_copy, "xclip", *xclip),
            );
            add_check(
                checks,
                "tool.clipboard.paste",
                *wtype || *xdotool,
                either_tool_text(
                    "wtype (Wayland) or xdotool (X11)",
                    "wtype",
                    *wtype,
                    "xdotool",
                    *xdotool,
                ),
            );
        },
        ToolFacts::Mac { pbcopy, pbpaste, osascript } => {
            check_one_tool(checks, "pbcopy", *pbcopy);
            check_one_tool(checks, "pbpaste", *pbpaste);
            check_one_tool(checks, "osascript", *osascript);
        },
        ToolFacts::Other => {},
    }
    assert(check_views(checks@) =~= before + tool_checks(*tools));
}

fn check_model(checks: &mut Vec<DoctorCheck>, model: &str, body: &str)
    ensures
        check_views(final(checks)@) == check_views(old(checks)@).push(
            model_check(model@, models_said(json_parsed(body@), json_problem(body@), model@)),
        ),
{
    match configured_model_loaded(body, model) {
        Ok((loaded, ids)) => {
            let mut detail = "configured model ".to_string();
            detail.append(model);
            if loaded {
                detail.append(" found in /models (");
            } else {
                detail.append(" not listed by /models (");
            }
            detail.append(summarize_model_ids(&ids).as_str());
            detail.append(")");
            add_check(checks, "server.model.loaded", loaded, detail);
        },
        Err(e) => {
            let mut detail = "failed parsing /models response: ".to_string();
            detail.append(e.message.as_str());
            add_check(checks, "server.model.loaded", false, detail);
        },
    }
}

fn check_server(checks: &mut Vec<DoctorCheck>, reply: &ModelsReply, endpoint: &str, model: &str)
    ensures
        check_views(final(checks)@) == check_views(old(checks)@) + server_checks(
            *reply,
            endpoint@,
            model@,
        ),
{
    let ghost before = check_views(checks@);
    match reply {
        ModelsReply::Replied { code, success, status, body } => {
            let mut detail = endpoint.to_string();
            detail.append(" -> HTTP ");
            detail.append(status.as_str());
            add_check(
                checks,
                "server.reachability",
                *success || *code == 401 || *code == 403,
                detail,
            );
            if *success {
                check_model(checks, model, body.as_str());
            } else {
                let mut detail = "cannot verify configured model ".to_string();
                detail.append(model);
                detail.append(" because /models returned HTTP ");
                detail.append(status.as_str());
                add_check(checks, "server.model.loaded", false, detail);
            }
        },
        ModelsReply::Failed(reason) => {
            let mut detail = endpoint.to_string();
            detail.append(" -> ");
            detail.append(reason.as_str());
            add_check(checks, "server.reachability", false, detail);
            let mut detail = "cannot verify configured model ".to_string();
            detail.append(model);
            detail.append(": ");
            detail.append(reason.as_str());
            add_check(checks, "server.model.loaded", false, detail);
        },
    }
    assert(check_views(checks@) =~= before + server_checks(*reply, endpoint@, model@));
}

fn device_text(device: &Option<String>) -> (r: String)
    ensures
        r@ == device_or_default(option_view(*device)),
{
    match device {
        Some(name) => name.clone(),
        None => "default".to_string(),
    }
}

fn check_probe(
    checks: &mut Vec<DoctorCheck>,
    probe: &Result<AudioProbeResult, String>,
    device: &Option<String>,
    facts: &DoctorFacts,
)
    requires
        facts.probe == Some(*probe),
        probe_problem(config_tree(*facts)) is None,
        option_view(*device) == probe_device(config_tree(*facts)),
    ensures
        check_views(final(checks)@) == check_views(old(checks)@) + probe_checks(*facts),
{
    let ghost before = check_views(checks@);
    match probe {
        Ok(p) => {
            let mut detail = p.device_name.clone();
            detail.append(" (sample_rate=");
            detail.append(decimal_text(p.sample_rate as u64).as_str());
            detail.append(" channels=");
            detail.append(decimal_text(p.channels as u64).as_str());
            detail.append(")");
            add_check(checks, "audio.input_device", true, detail);
            let mut detail = "captured ".to_string();
            detail.append(decimal_text(p.chunks).as_str());
            detail.append(" chunks / ");
            detail.append(decimal_text(p.samples).as_str());
            detail.append(" samples over ");
            detail.append(decimal_text(p.duration_ms).as_str());
            detail.append("ms");
            add_check(checks, "audio.probe.capture", p.samples > 0, detail);
            let mut detail = p.level_detail.clone();
            let heard = p.peak > SILENCE_THRESHOLD_BITS;
            if !heard {
                detail.append("; low input level detected (try speaking during doctor run)");
            }
            add_check(checks, "audio.probe.level", heard, detail);
        },
        Err(problem) => {
            let mut detail = "requested=".to_string();
            detail.append(device_text(device).as_str());
            detail.append(" (");
            detail.append(problem.as_str());
            detail.append(")");
            add_check(checks, "audio.input_device", false, detail);
            add_check(checks, "audio.probe.capture", false, problem.clone());
        },
    }
    assert(check_views(checks@) =~= before + probe_checks(*facts));
}

fn daemon_text(status: &DaemonResponse) -> (r: String)
    ensures
        r@ == daemon_detail(status@),
{
    if !status.running {
        return "stopped".to_string();
    }
    let pid: u32 = match status.pid {
        Some(pid) => pid,
        None => 0,
    };
    let mut s = "running pid=".to_string();
    s.append(decimal_text(pid as u64).as_str());
    s.append(" recording=");
    s.append(truth_text(status.recording));
    s
}

/// Makes the checks on what was looked at.
pub fn run(facts: &DoctorFacts) -> (r: DoctorReport)
    ensures
        check_views(r.checks@) == expected_checks(*facts),
        r.ok == all_well(expected_checks(*facts)),
{
    let mut checks: Vec<DoctorCheck> = Vec::new();
    assert(check_views(checks@) =~= Seq::empty());
    match &facts.config_path {
        Ok(path) => add_check(&mut checks, "config.path", true, path.clone()),
        Err(problem) => add_check(&mut checks, "config.path", false, problem.clone()),
    }
    let mut backend: Option<OpenAiRealtimeBackend> = None;
    match &facts.config {
        Ok(config) => {
            add_check(
                &mut checks,
                "config.parse",
                true,
                "loaded config successfully".to_string(),
            );
            match OpenAiRealtimeBackend::from_config(config) {
                Ok(found) => {
                    add_check(&mut checks, "server.llmApi", true, found.llm_api.clone());
                    backend = Some(found);
                },
                Err(e) => add_check(&mut checks, "server.llmApi", false, e.message),
            }
        },
        Err(problem) => add_check(&mut checks, "config.parse", false, problem.clone()),
    }
    let ghost first = seq![path_check(*facts), config_check(*facts)] + backend_checks(*facts);
    assert(check_views(checks@) =~= first);
    match &facts.status {
        Ok(status) => add_check(
            &mut checks,
            "daemon.status",
            status.running,
            daemon_text(status),
        ),
        Err(problem) => add_check(&mut checks, "daemon.status", false, problem.clone()),
    }
    let ghost second = first + seq![daemon_check(*facts)];
    assert(check_views(checks@) =~= second);
    if let Some(found) = &backend {
        if let Some(reply) = &facts.models {
            check_server(
                &mut checks,
                reply,
                found.models_url().as_str(),
                found.model.as_str(),
            );
        }
    }
    let ghost third = second + models_checks(*facts);
    assert(check_views(checks@) =~= third);
    let config: Option<&ConfigValue> = match &facts.config {
        Ok(config) => Some(config),
        Err(_) => None,
    };
    assert(tree_view(config) == config_tree(*facts));
    match audio_probe_config_from_config(config) {
        Ok(probe_config) => {
            let mut detail = "device=".to_string();
            detail.append(device_text(&probe_config.device_name).as_str());
            detail.append(" sample_rate=");
            detail.append(decimal_text(probe_config.sample_rate as u64).as_str());
            detail.append(" channels=");
            detail.append(decimal_text(probe_config.channels as u64).as_str());
            detail.append(" duration_ms=1500 silence_threshold=0.008");
            add_check(&mut checks, "audio.probe.config", true, detail);
            assert(check_views(checks@) =~= third + seq![probe_config_check(*facts)]);
            if let Some(probe) = &facts.probe {
                check_probe(&mut checks, probe, &probe_config.device_name, facts);
            }
        },
        Err(e) => {
            add_check(&mut checks, "audio.probe.config", false, e.message);
            assert(check_views(checks@) =~= third + seq![probe_config_check(*facts)]);
        },
    }
    let ghost fourth = third + seq![probe_config_check(*facts)] + probe_checks(*facts);
    assert(check_views(checks@) =~= fourth);
    check_tools(&mut checks, &facts.tools);
    assert(check_views(checks@) =~= expected_checks(*facts));
    let mut ok = true;
    let mut i: usize = 0;
    while i < checks.len()
        invariant
            check_views(checks@) == expected_checks(*facts),
            i <= checks@.len(),
            ok == forall|n: int| 0 <= n < i ==> (#[trigger] check_views(checks@)[n]).1,
        decreases checks@.len() - i,
    {
        assert(check_views(checks@)[i as int].1 == checks@[i as int].ok);
        if !checks[i].ok {
            ok = false;
        }
        i = i + 1;
    }
    DoctorReport { ok, checks }
}

/// The line of a check.
pub open spec fn check_line(c: (Seq<char>, bool, Seq<char>)) -> Seq<char> {
    (if c.1 {
        "✓ "@
    } else {
        "✗ "@
    }) + c.0 + " — "@ + c.2
}

/// The lines of a report.
pub open spec fn report_lines(ok: bool, checks: Seq<(Seq<char>, bool, Seq<char>)>) -> Seq<Seq<char>> {
    seq![
        "doctor: "@ + if ok {
            "ok"@
        } else {
            "issues found"@
        },
    ] + Seq::new(checks.len(), |i: int| check_line(checks[i]))
}

/// The lines that show the report.
pub fn show_report(report: &DoctorReport) -> (r: Vec<String>)
    ensures
        views(r@) == report_lines(report.ok, check_views(report.checks@)),
{
    let ghost expected = report_lines(report.ok, check_views(report.checks@));
    let mut lines: Vec<String> = Vec::new();
    let mut first = "doctor: ".to_string();
    if report.ok {
        first.append("ok");
    } else {
        first.append("issues found");
    }
    lines.push(first);
    let mut i: usize = 0;
    assert(views(lines@) =~= expected.take(1));
    while i < report.checks.len()
        invariant
            expected == report_lines(report.ok, check_views(report.checks@)),
            i <= report.checks@.len(),
            views(lines@) == expected.take(i + 1),
        decreases report.checks@.len() - i,
    {
        let ghost before = views(lines@);
        let check = &report.checks[i];
        let mut line = if check.ok {
            "✓ ".to_string()
        } else {
            "✗ ".to_string()
        };
        line.append(check.name.as_str());
        line.append(" — ");
        line.append(check.detail.as_str());
        lines.push(line);
        assert(views(lines@) =~= before.push(line@));
        assert(expected[i + 1] == check_line(check_view(report.checks@[i as int])));
        assert(expected.take(i + 2) =~= expected.take(i + 1).push(line@));
        i = i + 1;
    }
    assert(expected.take(i + 1) =~= expected);
    lines
}

/// All is well only where the daemon runs.
pub proof fn all_well_means_running(facts: DoctorFacts)
    requires
        all_well(expected_checks(facts)),
    ensures
        facts.config_path is Ok,
        facts.config is Ok,
        facts.status is Ok && facts.status->Ok_0.running,
        backend_problem(facts.config->Ok_0@) is None,
{
    let checks = expected_checks(facts);
    assert(checks[0] == path_check(facts));
    assert(checks[1] == config_check(facts));
    let n = 2 + backend_checks(facts).len();
    assert(checks[n as int] == daemon_check(facts));
    assert(checks[2] == backend_checks(facts)[0]);
}

// ---------------------------------------------------------------------------------------------
// Laws of the checks
// ---------------------------------------------------------------------------------------------

/// The identifiers of the models are those that the list gives, all of them and in its order, in
/// each of the forms of the list.
pub proof fn models_are_all_found(
    payload: &Json,
    r: Vec<String>,
    fields: Seq<(Seq<char>, JsonTree)>,
    items: Seq<JsonTree>,
    ids: Seq<Seq<char>>,
)
    requires
        call_ensures(model_ids_from_payload, (payload,), r),
        items.len() == ids.len(),
        forall|i: int|
            0 <= i < items.len() ==> (#[trigger] items[i]) is Object && lookup(
                items[i]->Object_0,
                "id"@,
            ) == Some(JsonTree::Text(ids[i])),
        ({
            ||| payload@ == JsonTree::Object(fields) && lookup(fields, "data"@) == Some(
                JsonTree::Array(items),
            )
            ||| payload@ == JsonTree::Object(fields) && lookup(fields, "data"@) is None && lookup(
                fields,
                "models"@,
            ) == Some(JsonTree::Array(items))
            ||| payload@ == JsonTree::Array(items)
        }),
    ensures
        r@.len() == ids.len(),
        forall|i: int| 0 <= i < ids.len() ==> (#[trigger] r@[i])@ == ids[i],
{
    ids_are_all_found(items, ids);
    let found = views(r@);
    assert(found.len() == r@.len());
    assert forall|i: int| 0 <= i < ids.len() implies (#[trigger] r@[i])@ == ids[i] by {
        assert(found[i] == r@[i]@);
    }
}

proof fn ids_are_all_found(items: Seq<JsonTree>, ids: Seq<Seq<char>>)
    requires
        items.len() == ids.len(),
        forall|i: int|
            0 <= i < items.len() ==> (#[trigger] items[i]) is Object && lookup(
                items[i]->Object_0,
                "id"@,
            ) == Some(JsonTree::Text(ids[i])),
    ensures
        ids_in(items) == ids,
    decreases items.len(),
{
    if items.len() > 0 {
        let front = items.drop_last();
        assert forall|i: int| 0 <= i < front.len() implies (#[trigger] front[i]) is Object
            && lookup(front[i]->Object_0, "id"@) == Some(
            JsonTree::Text(ids.drop_last()[i]),
        ) by {
            assert(front[i] == items[i]);
        }
        ids_are_all_found(front, ids.drop_last());
        assert(items.last() == items[items.len() - 1]);
        assert(ids_in(items) =~= ids);
    } else {
        assert(ids_in(items) =~= ids);
    }
}

/// A model counts as loaded exactly where it is among the models of the list.
pub proof fn loaded_models_are_listed(
    payload: &Json,
    model: &str,
    ids: Vec<String>,
    r: Result<(bool, Vec<String>), Error>,
    i: int,
)
    requires
        call_ensures(model_ids_from_payload, (payload,), ids),
        call_ensures(model_in_payload, (payload, model), r),
    ensures
        ids@.len() == 0 ==> r is Err,
        ids@.len() > 0 ==> r is Ok && (r->Ok_0).1@.len() == ids@.len(),
        0 <= i < ids@.len() && ids@[i]@ == model@ ==> r is Ok && (r->Ok_0).0,
        r is Ok && (r->Ok_0).0 ==> views(ids@).contains(model@),
{
    let all = views(ids@);
    assert(all.len() == ids@.len());
    if 0 <= i < ids@.len() && ids@[i]@ == model@ {
        assert(all[i] == model@);
        assert(all.contains(model@));
    }
    if ids@.len() > 0 {
        assert(views((r->Ok_0).1@) == all);
        assert(views((r->Ok_0).1@).len() == (r->Ok_0).1@.len());
    }
}

/// The summary of models names every one of the first five.
pub proof fn summary_names_the_models(model_ids: &Vec<String>, r: String, i: int)
    requires
        call_ensures(summarize_model_ids, (model_ids,), r),
        0 <= i < model_ids@.len(),
        i < 5,
    ensures
        holds_text(r@, model_ids@[i]@),
{
    let ids = views(model_ids@);
    assert(ids[i] == model_ids@[i]@);
    if ids.len() > 5 {
        let shown = ids.take(5).push("... +"@ + decimal((ids.len() - 5) as nat) + " more"@);
        assert(shown[i] == ids[i]);
        joined_holds_each(shown, ", "@, i);
    } else {
        joined_holds_each(ids, ", "@, i);
    }
}

proof fn all_well_together(
    a: Seq<(Seq<char>, bool, Seq<char>)>,
    b: Seq<(Seq<char>, bool, Seq<char>)>,
)
    ensures
        all_well(a + b) <==> all_well(a) && all_well(b),
{
    let all = a + b;
    if all_well(all) {
        assert forall|i: int| 0 <= i < a.len() implies (#[trigger] a[i]).1 by {
            assert(all[i] == a[i]);
        }
        assert forall|i: int| 0 <= i < b.len() implies (#[trigger] b[i]).1 by {
            assert(all[a.len() + i] == b[i]);
        }
    }
    if all_well(a) && all_well(b) {
        assert forall|i: int| 0 <= i < all.len() implies (#[trigger] all[i]).1 by {
            if i < a.len() {
                assert(all[i] == a[i]);
            } else {
                assert(all[i] == b[i - a.len()]);
            }
        }
    }
}

/// The report says that all is well exactly where every check in it does.
pub proof fn report_is_of_its_checks(facts: &DoctorFacts, r: DoctorReport)
    requires
        call_ensures(run, (facts,), r),
    ensures
        r.ok <==> forall|i: int| 0 <= i < r.checks@.len() ==> (#[trigger] r.checks@[i]).ok,
{
    let views = check_views(r.checks@);
    assert(views.len() == r.checks@.len());
    assert forall|i: int| 0 <= i < views.len() implies (#[trigger] views[i]).1
        == r.checks@[i].ok by {}
    if r.ok {
        assert forall|i: int| 0 <= i < r.checks@.len() implies (#[trigger] r.checks@[i]).ok by {
            assert(views[i].1);
        }
    }
    if forall|i: int| 0 <= i < r.checks@.len() ==> (#[trigger] r.checks@[i]).ok {
        assert forall|i: int| 0 <= i < views.len() implies (#[trigger] views[i]).1 by {
            assert(r.checks@[i].ok);
        }
    }
}

/// Whether the tools for the clipboard are there: one that reads, one that writes and one that
/// pastes.
pub open spec fn tools_are_there(tools: ToolFacts) -> bool {
    match tools {
        ToolFacts::Linux { wl_paste, wl_copy, xclip, wtype, xdotool } => {
            &&& wl_paste || xclip
            &&& wl_copy || xclip
            &&& wtype || xdotool
        },
        ToolFacts::Mac { pbcopy, pbpaste, osascript } => pbcopy && pbpaste && osascript,
        ToolFacts::Other => true,
    }
}

/// Whether the audio that was listened to, if it was, was heard: there were samples, and they were
/// louder than silence.
pub open spec fn audio_was_heard(probe: Option<Result<AudioProbeResult, String>>) -> bool {
    match probe {
        None => true,
        Some(Ok(p)) => p.samples > 0 && p.peak > 0x3C03_126F,
        Some(Err(_)) => false,
    }
}

/// All is well exactly where the configuration is known, was read and describes a server, the daemon
/// runs, the server answered with success and lists the configured model, audio was heard, and the
/// tools are there.
pub proof fn all_is_well_exactly_where_it_is(
    facts: &DoctorFacts,
    r: DoctorReport,
    config: &ConfigValue,
    backend: Result<OpenAiRealtimeBackend, Error>,
    probe: Result<AudioProbeConfig, Error>,
    body: &str,
    model: &str,
    listed: Result<(bool, Vec<String>), Error>,
)
    requires
        call_ensures(run, (facts,), r),
        facts.config is Ok ==> *config == facts.config->Ok_0,
        call_ensures(OpenAiRealtimeBackend::from_config, (config,), backend),
        call_ensures(audio_probe_config_from_config, (Some(config),), probe),
        backend is Ok ==> model@ == backend->Ok_0.model@,
        facts.models matches Some(ModelsReply::Replied { code, success, status, body: b })
            ==> body@ == b@,
        call_ensures(configured_model_loaded, (body, model), listed),
    ensures
        r.ok <==> {
            &&& facts.config_path is Ok
            &&& facts.config is Ok
            &&& backend is Ok
            &&& facts.status is Ok && facts.status->Ok_0.running
            &&& match facts.models {
                None => true,
                Some(ModelsReply::Replied { code, success, status, body }) => success
                    && listed is Ok && (listed->Ok_0).0,
                Some(ModelsReply::Failed(_)) => false,
            }
            &&& probe is Ok
            &&& audio_was_heard(facts.probe)
            &&& tools_are_there(facts.tools)
        },
{
    let f = *facts;
    let first = seq![path_check(f), config_check(f)];
    let second = backend_checks(f);
    let third = seq![daemon_check(f)];
    let fourth = models_checks(f);
    let fifth = seq![probe_config_check(f)];
    let sixth = probe_checks(f);
    let seventh = tool_checks(f.tools);
    all_well_together(first, second);
    all_well_together(first + second, third);
    all_well_together(first + second + third, fourth);
    all_well_together(first + second + third + fourth, fifth);
    all_well_together(first + second + third + fourth + fifth, sixth);
    all_well_together(first + second + third + fourth + fifth + sixth, seventh);
    assert(first[0] == path_check(f) && first[1] == config_check(f));
    assert(third[0] == daemon_check(f) && fifth[0] == probe_config_check(f));
    assert(all_well(first) <==> facts.config_path is Ok && facts.config is Ok);
    assert(all_well(third) <==> facts.status is Ok && facts.status->Ok_0.running);
    if facts.config is Ok {
        assert(config_tree(f) == Some(config@));
        assert(second.len() == 1);
        assert(all_well(second) <==> second[0].1);
        assert(all_well(fifth) <==> probe is Ok);
        if backend is Ok && facts.models is Some {
            assert(fourth.len() == 2);
            assert(all_well(fourth) <==> fourth[0].1 && fourth[1].1);
        }
        if probe is Ok && facts.probe is Some {
            match facts.probe->0 {
                Ok(p) => {
                    assert(sixth.len() == 3);
                    assert(all_well(sixth) <==> sixth[0].1 && sixth[1].1 && sixth[2].1);
                },
                Err(_) => {
                    assert(sixth.len() == 2);
                    assert(!sixth[0].1);
                },
            }
        }
    }
    tools_are_checked(f.tools);
}

proof fn tools_are_checked(tools: ToolFacts)
    ensures
        all_well(tool_checks(tools)) <==> tools_are_there(tools),
{
    let checks = tool_checks(tools);
    if !(tools is Other) {
        assert(checks.len() == 3);
        assert(all_well(checks) <==> checks[0].1 && checks[1].1 && checks[2].1);
    }
}

/// The lines of a report are its outcome and then one line for each check, with its name, whether
/// all is well there, and what was found.
pub proof fn every_check_is_shown(report: &DoctorReport, r: Vec<String>, i: int)
    requires
        call_ensures(show_report, (report,), r),
        0 <= i < report.checks@.len(),
    ensures
        r@.len() == report.checks@.len() + 1,
        report.ok ==> r@[0]@ == "doctor: "@ + "ok"@,
        !report.ok ==> r@[0]@ == "doctor: "@ + "issues found"@,
        report.checks@[i].ok ==> r@[i + 1]@ == "✓ "@ + report.checks@[i].name@ + " — "@
            + report.checks@[i].detail@,
        !report.checks@[i].ok ==> r@[i + 1]@ == "✗ "@ + report.checks@[i].name@ + " — "@
            + report.checks@[i].detail@,
{
    let lines = views(r@);
    assert(lines.len() == r@.len());
    assert(lines[0] == r@[0]@ && lines[i + 1] == r@[i + 1]@);
    assert(check_views(report.checks@)[i] == check_view(report.checks@[i]));
}

/// The audio probe listens as audio is captured: with the device, the rate and the channels of the
/// configuration, for one and a half seconds.
pub proof fn probe_listens_as_configured(
    config: &ConfigValue,
    probe: Result<AudioProbeConfig, Error>,
    recording: Result<RecordingConfig, Error>,
)
    requires
        call_ensures(audio_probe_config_from_config, (Some(config),), probe),
        call_ensures(recording_config_from_config, (config,), recording),
    ensures
        probe is Ok <==> recording is Ok,
        probe is Ok ==> {
            &&& probe->Ok_0.sample_rate == recording->Ok_0.sample_rate
            &&& probe->Ok_0.channels == recording->Ok_0.channels
            &&& option_view(probe->Ok_0.device_name) == option_view(recording->Ok_0.device_name)
            &&& probe->Ok_0.duration_ms == 1_500
        },
{
}

/// A chunk that the probe hears counts one chunk and all its samples, and as silent if and only if
/// its level is no higher than the threshold.
pub proof fn probe_counts_what_it_hears(counters: &mut ProbeCounters, chunk_len: usize, rms: u32)
    requires
        call_ensures(ProbeCounters::count, (counters, chunk_len, rms), ()),
        old(counters).chunks < u64::MAX,
        old(counters).silent_chunks < u64::MAX,
        old(counters).samples + chunk_len <= u64::MAX,
    ensures
        final(counters).chunks == old(counters).chunks + 1,
        final(counters).samples == old(counters).samples + chunk_len,
        rms <= 0x3C03_126F ==> final(counters).silent_chunks == old(counters).silent_chunks + 1,
        rms > 0x3C03_126F ==> final(counters).silent_chunks == old(counters).silent_chunks,
{
}

/// The check of the daemon stands in the report: it is well exactly where the daemon runs, and its
/// process is named.
pub proof fn daemon_is_checked(facts: &DoctorFacts, r: DoctorReport)
    requires
        call_ensures(run, (facts,), r),
    ensures
        ({
            let n = if facts.config is Ok {
                3int
            } else {
                2int
            };
            &&& r.checks@.len() > n
            &&& r.checks@[n].name@ == "daemon.status"@
            &&& facts.status matches Ok(status) ==> {
                &&& r.checks@[n].ok == status.running
                &&& !status.running ==> r.checks@[n].detail@ == "stopped"@
                &&& status.running && status.pid is Some && status.recording
                    ==> r.checks@[n].detail@ == "running pid="@ + decimal(status.pid->0 as nat)
                    + " recording="@ + "true"@
                &&& status.running && status.pid is Some && !status.recording
                    ==> r.checks@[n].detail@ == "running pid="@ + decimal(status.pid->0 as nat)
                    + " recording="@ + "false"@
            }
            &&& facts.status matches Err(problem) ==> !r.checks@[n].ok && r.checks@[n].detail@
                == problem@
        }),
{
    let f = *facts;
    let n = if facts.config is Ok {
        3int
    } else {
        2int
    };
    let views = check_views(r.checks@);
    assert(views == expected_checks(f));
    assert(views.len() == r.checks@.len());
    assert(backend_checks(f).len() == n - 2);
    assert(expected_checks(f)[n] == daemon_check(f));
    assert(views[n] == check_view(r.checks@[n]));
}

} // verus!
