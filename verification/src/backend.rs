//! The transcription server: where it is, and the messages that go to it and come from it.
use vstd::prelude::*;

use crate::cli::option_view;
use crate::config::{get_value_by_key, value_at, ConfigValue, Tree};
use crate::error::{fails_from, fails_with, Error};
use crate::fields::{lookup, lookups_after_put, put};
use crate::json::{
    field, json_decoded, json_parsed, json_problem, json_text, json_undecoded, no_fields,
    text_field, tidy, Json, JsonTree,
};
use crate::text::{
    begins_with, chars_of, run_at_the_end_is_taken_off, same, starts_with, trim_end_of,
    trimmed_end_of,
};

verus! {

/// The server as the configuration describes it.
#[derive(Debug)]
pub struct OpenAiRealtimeBackend {
    pub llm_api: String,
    pub base_url: String,
    pub api_key: String,
    pub model: String,
}

/// The text under a key, or `default` where nothing is there; nothing where no text is there.
pub open spec fn text_or(t: Tree, key: Seq<char>, default: Seq<char>) -> Option<Seq<char>> {
    match value_at(t, key) {
        None => Some(default),
        Some(Tree::Text(s)) => Some(s),
        Some(_) => None,
    }
}

/// What is said of a key under which no text stands.
pub open spec fn not_text_message(key: Seq<char>) -> Seq<char> {
    "config key "@ + key + " must be a string"@
}

/// Where the server is if the configuration does not say.
pub open spec fn default_url() -> Seq<char> {
    "http://127.0.0.1:8000/v1"@
}

/// What keeps a configuration from describing a server, where anything does.
pub open spec fn backend_problem(t: Tree) -> Option<Seq<char>> {
    let api = text_or(t, "server.llmApi"@, "openai-realtime"@);
    if api is None {
        Some(not_text_message("server.llmApi"@))
    } else if text_or(t, "server.baseUrl"@, default_url()) is None {
        Some(not_text_message("server.baseUrl"@))
    } else if text_or(t, "server.apiKey"@, ""@) is None {
        Some(not_text_message("server.apiKey"@))
    } else if text_or(t, "server.model"@, "voxtral"@) is None {
        Some(not_text_message("server.model"@))
    } else if api->0 != "openai-realtime"@ {
        Some(
            "unsupported server.llmApi="@ + api->0 + "; omni v1 only supports openai-realtime"@,
        )
    } else {
        None
    }
}

fn read_string(config: &ConfigValue, key: &str) -> (r: Result<Option<String>, Error>)
    ensures
        match value_at(config@, key@) {
            None => r is Ok && r->Ok_0 is None,
            Some(Tree::Text(s)) => r is Ok && option_view(r->Ok_0) == Some(s),
            Some(_) => fails_with(r, not_text_message(key@)),
        },
{
    match get_value_by_key(config, key) {
        None => Ok(None),
        Some(v) => match v.as_str() {
            Some(s) => Ok(Some(s.to_string())),
            None => {
                let mut message = "config key ".to_string();
                message.append(key);
                message.append(" must be a string");
                Err(Error { message, cause: None })
            },
        },
    }
}

fn read_text_or(config: &ConfigValue, key: &str, default: &str) -> (r: Result<String, Error>)
    ensures
        match text_or(config@, key@, default@) {
            Some(s) => r is Ok && r->Ok_0@ == s,
            None => fails_with(r, not_text_message(key@)),
        },
{
    match read_string(config, key) {
        Ok(Some(s)) => Ok(s),
        Ok(None) => Ok(default.to_string()),
        Err(e) => Err(e),
    }
}

/// What stands for a server address with its scheme swapped for that of a websocket.
pub open spec fn websocket_base(base: Seq<char>) -> Seq<char> {
    if begins_with(base, "https://"@) {
        "wss://"@ + base.skip("https://"@.len() as int)
    } else if begins_with(base, "http://"@) {
        "ws://"@ + base.skip("http://"@.len() as int)
    } else {
        base
    }
}

impl OpenAiRealtimeBackend {
    /// The address of the realtime endpoint.
    pub open spec fn ws_address(self) -> Seq<char> {
        websocket_base(trimmed_end_of(self.base_url@, '/')) + "/realtime?model="@ + self.model@
    }

    /// The address of the batch endpoint.
    pub open spec fn transcription_address(self) -> Seq<char> {
        trimmed_end_of(self.base_url@, '/') + "/audio/transcriptions"@
    }

    /// The address of the list of models.
    pub open spec fn models_address(self) -> Seq<char> {
        trimmed_end_of(self.base_url@, '/') + "/models"@
    }

    /// The server that the configuration describes.
    pub fn from_config(config: &ConfigValue) -> (r: Result<Self, Error>)
        ensures
            match backend_problem(config@) {
                Some(message) => fails_with(r, message),
                None => r is Ok && r->Ok_0.llm_api@ == "openai-realtime"@ && Some(
                    r->Ok_0.base_url@,
                ) == text_or(config@, "server.baseUrl"@, default_url()) && Some(r->Ok_0.api_key@)
                    == text_or(config@, "server.apiKey"@, ""@) && Some(r->Ok_0.model@) == text_or(
                    config@,
                    "server.model"@,
                    "voxtral"@,
                ),
            },
    {
        let llm_api = match read_text_or(config, "server.llmApi", "openai-realtime") {
            Ok(s) => s,
            Err(e) => {
                return Err(e);
            },
        };
        let base_url = match read_text_or(config, "server.baseUrl", "http://127.0.0.1:8000/v1") {
            Ok(s) => s,
            Err(e) => {
                return Err(e);
            },
        };
        let api_key = match read_text_or(config, "server.apiKey", "") {
            Ok(s) => s,
            Err(e) => {
                return Err(e);
            },
        };
        let model = match read_text_or(config, "server.model", "voxtral") {
            Ok(s) => s,
            Err(e) => {
                return Err(e);
            },
        };
        if !same(llm_api.as_str(), "openai-realtime") {
            let mut message = "unsupported server.llmApi=".to_string();
            message.append(llm_api.as_str());
            message.append("; omni v1 only supports openai-realtime");
            return Err(Error { message, cause: None });
        }
        Ok(OpenAiRealtimeBackend { llm_api, base_url, api_key, model })
    }

    /// The address of the realtime endpoint: the scheme of a websocket, and the model as query.
    pub fn ws_url(&self) -> (r: String)
        ensures
            r@ == self.ws_address(),
    {
        let base = trim_end_of(self.base_url.as_str(), '/');
        let total: usize = chars_of(base).len();
        let mut url = if starts_with(base, "https://") {
            let mut url = "wss://".to_string();
            let skipped: usize = chars_of("https://").len();
            let rest = base.substring_char(skipped, total);
            assert(rest@ =~= base@.skip(skipped as int));
            url.append(rest);
            url
        } else if starts_with(base, "http://") {
            let mut url = "ws://".to_string();
            let skipped: usize = chars_of("http://").len();
            let rest = base.substring_char(skipped, total);
            assert(rest@ =~= base@.skip(skipped as int));
            url.append(rest);
            url
        } else {
            base.to_string()
        };
        url.append("/realtime?model=");
        url.append(self.model.as_str());
        url
    }

    /// The address of the batch endpoint.
    pub fn transcription_url(&self) -> (r: String)
        ensures
            r@ == self.transcription_address(),
    {
        let mut url = trim_end_of(self.base_url.as_str(), '/').to_string();
        url.append("/audio/transcriptions");
        url
    }

    /// The address of the list of models.
    pub fn models_url(&self) -> (r: String)
        ensures
            r@ == self.models_address(),
    {
        let mut url = trim_end_of(self.base_url.as_str(), '/').to_string();
        url.append("/models");
        url
    }

    /// The key that goes with every request, where there is one.
    pub fn bearer(&self) -> (r: Option<String>)
        ensures
            option_view(r) == bearer_of(self.api_key@),
    {
        if self.api_key.as_str().is_empty() {
            None
        } else {
            Some(self.api_key.clone())
        }
    }

    /// The request that has a recording transcribed at once.
    pub fn transcribe_wav_bytes(&self, wav: Vec<u8>) -> (r: TranscriptionRequest)
        ensures
            r.url@ == self.transcription_address(),
            r.model@ == self.model@,
            option_view(r.bearer) == bearer_of(self.api_key@),
            r.file_name@ == "recording.wav"@,
            r.mime@ == "audio/wav"@,
            r.wav == wav,
    {
        TranscriptionRequest {
            url: self.transcription_url(),
            model: self.model.clone(),
            bearer: self.bearer(),
            file_name: "recording.wav".to_string(),
            mime: "audio/wav".to_string(),
            wav,
        }
    }

    /// A connection to the realtime endpoint that is not open yet.
    pub fn build_transport(&self) -> (t: OpenAiRealtimeTransport)
        ensures
            t.address() == self.ws_address(),
            t.key() == self.api_key@,
            !t.open(),
    {
        OpenAiRealtimeTransport {
            endpoint: self.ws_url(),
            api_key: self.api_key.clone(),
            connected: false,
        }
    }
}

/// The key that goes with a request: none where it is empty.
pub open spec fn bearer_of(api_key: Seq<char>) -> Option<Seq<char>> {
    if api_key.len() == 0 {
        None
    } else {
        Some(api_key)
    }
}

/// Slashes at the end of the base address change nothing.
pub proof fn slashes_at_the_end_change_nothing(
    a: OpenAiRealtimeBackend,
    b: OpenAiRealtimeBackend,
)
    requires
        b.base_url@ == a.base_url@.push('/'),
        b.model@ == a.model@,
    ensures
        b.ws_address() == a.ws_address(),
        b.transcription_address() == a.transcription_address(),
        b.models_address() == a.models_address(),
{
    assert(b.base_url@.drop_last() =~= a.base_url@);
}

/// A recording on its way to be transcribed at once.
#[derive(Debug)]
pub struct TranscriptionRequest {
    pub url: String,
    pub model: String,
    pub bearer: Option<String>,
    pub file_name: String,
    pub mime: String,
    pub wav: Vec<u8>,
}

/// The transcript in a reply of the server, in one of the places where servers put it.
pub open spec fn transcription_text(t: JsonTree) -> Option<Seq<char>> {
    if text_field(t, "text"@) is Some {
        text_field(t, "text"@)
    } else if text_field(t, "transcript"@) is Some {
        text_field(t, "transcript"@)
    } else {
        match field(t, "result"@) {
            Some(result) => text_field(result, "text"@),
            None => None,
        }
    }
}

/// The transcript in a reply of the server.
pub fn extract_transcription_text(payload: &Json) -> (r: Result<String, Error>)
    ensures
        match transcription_text(payload@) {
            Some(s) => r is Ok && r->Ok_0@ == s,
            None => fails_with(
                r,
                "transcription response did not include text/transcript field"@,
            ),
        },
{
    if let Some(text) = payload.get_str("text") {
        return Ok(text.to_string());
    }
    if let Some(text) = payload.get_str("transcript") {
        return Ok(text.to_string());
    }
    if let Some(result) = payload.get("result") {
        if let Some(text) = result.get_str("text") {
            return Ok(text.to_string());
        }
    }
    Err(Error::new("transcription response did not include text/transcript field"))
}

/// A reply to a transcription request.
#[derive(Debug)]
pub enum TranscriptionReply {
    /// The request was refused with this status; what came with it, where that could be read.
    Refused { status: String, body: Option<String> },
    /// What came with a reply of success could not be read, for this reason.
    Unreadable(String),
    /// What came with a reply of success.
    Received(Vec<u8>),
}

/// What is said of a reply of success without JSON.
pub open spec fn undecoded_message() -> Seq<char> {
    "failed decoding transcription response JSON"@
}

/// What a payload that was read means.
pub open spec fn means_text(r: Result<String, Error>, payload: JsonTree) -> bool {
    match transcription_text(payload) {
        Some(s) => r is Ok && r->Ok_0@ == s,
        None => fails_with(
            r,
            "transcription response did not include text/transcript field"@,
        ),
    }
}

/// What a reply to a transcription request means. Where there is no JSON in it, the cause is worded
/// as the HTTP client words that it could not decode what came.
pub fn transcription_reply(reply: &TranscriptionReply) -> (r: Result<String, Error>)
    ensures
        match reply {
            TranscriptionReply::Refused { status, body } => fails_with(
                r,
                "transcription request failed: "@ + status@ + " "@ + match body {
                    Some(body) => body@,
                    None => "<failed reading error body>"@,
                },
            ),
            TranscriptionReply::Unreadable(reason) => fails_from(r, undecoded_message(), reason@),
            TranscriptionReply::Received(bytes) => match json_decoded(bytes@) {
                None => fails_from(
                    r,
                    undecoded_message(),
                    "error decoding response body: "@ + json_undecoded(bytes@),
                ),
                Some(payload) => means_text(r, payload),
            },
        },
{
    match reply {
        TranscriptionReply::Refused { status, body } => {
            let mut message = "transcription request failed: ".to_string();
            message.append(status.as_str());
            message.append(" ");
            match body {
                Some(body) => {
                    message.append(body.as_str());
                },
                None => {
                    message.append("<failed reading error body>");
                },
            }
            Err(Error { message, cause: None })
        },
        TranscriptionReply::Unreadable(reason) => Err(
            Error::caused("failed decoding transcription response JSON", reason.clone()),
        ),
        TranscriptionReply::Received(bytes) => match Json::parse_bytes(bytes) {
            Ok(payload) => extract_transcription_text(&payload),
            Err(problem) => {
                let mut cause = "error decoding response body: ".to_string();
                cause.append(problem.as_str());
                Err(Error::caused("failed decoding transcription response JSON", cause))
            },
        },
    }
}

// ---------------------------------------------------------------------------------------------
// Audio as text
// ---------------------------------------------------------------------------------------------

/// A sample as the unsigned number with the same sixteen bits.
pub open spec fn sample_bits(x: i16) -> int {
    if x < 0 {
        x + 0x1_0000
    } else {
        x as int
    }
}

/// The bytes of samples, the lower byte of each first.
pub open spec fn sample_bytes(s: Seq<i16>) -> Seq<u8> {
    Seq::new(
        2 * s.len(),
        |i: int|
            if i % 2 == 0 {
                (sample_bits(s[i / 2]) % 256) as u8
            } else {
                (sample_bits(s[i / 2]) / 256) as u8
            },
    )
}

/// The bytes of samples, the lower byte of each first.
pub fn pcm16_bytes(samples: &[i16]) -> (r: Vec<u8>)
    ensures
        r@ == sample_bytes(samples@),
{
    let mut out: Vec<u8> = Vec::new();
    let mut i: usize = 0;
    while i < samples.len()
        invariant
            i <= samples@.len(),
            out@.len() == 2 * i,
            forall|n: int| 0 <= n < out@.len() ==> #[trigger] out@[n] == sample_bytes(samples@)[n],
        decreases samples@.len() - i,
    {
        let x: i16 = samples[i];
        let bits: u16 = if x < 0 {
            (x as i32 + 0x1_0000) as u16
        } else {
            x as u16
        };
        assert(bits == sample_bits(x));
        assert((2 * i) / 2 == i && (2 * i) % 2 == 0);
        assert((2 * i + 1) / 2 == i && (2 * i + 1) % 2 == 1);
        out.push((bits % 256) as u8);
        out.push((bits / 256) as u8);
        i = i + 1;
    }
    assert(out@ =~= sample_bytes(samples@));
    out
}

/// Different samples have different bytes.
pub proof fn bytes_keep_the_samples(a: Seq<i16>, b: Seq<i16>)
    requires
        sample_bytes(a) == sample_bytes(b),
    ensures
        a == b,
{
    assert(sample_bytes(a).len() == 2 * a.len());
    assert(sample_bytes(b).len() == 2 * b.len());
    assert forall|i: int| 0 <= i < a.len() implies a[i] == b[i] by {
        assert((2 * i) / 2 == i && (2 * i) % 2 == 0);
        assert((2 * i + 1) / 2 == i && (2 * i + 1) % 2 == 1);
        assert(sample_bytes(a)[2 * i] == sample_bytes(b)[2 * i]);
        assert(sample_bytes(a)[2 * i + 1] == sample_bytes(b)[2 * i + 1]);
        let (x, y) = (sample_bits(a[i]), sample_bits(b[i]));
        assert(sample_bytes(a)[2 * i] == (x % 256) as u8);
        assert(sample_bytes(b)[2 * i] == (y % 256) as u8);
        assert(sample_bytes(a)[2 * i + 1] == (x / 256) as u8);
        assert(sample_bytes(b)[2 * i + 1] == (y / 256) as u8);
        assert(0 <= x / 256 < 256 && 0 <= y / 256 < 256);
        assert(x == y);
    }
    assert(a =~= b);
}

/// The character of six bits in base 64.
pub open spec fn base64_char(n: int) -> char {
    if n < 26 {
        ('A' as int + n) as char
    } else if n < 52 {
        ('a' as int + n - 26) as char
    } else if n < 62 {
        ('0' as int + n - 52) as char
    } else if n == 62 {
        '+'
    } else {
        '/'
    }
}

/// Bytes in base 64, with padding: four characters for each three bytes.
pub open spec fn base64_of(b: Seq<u8>) -> Seq<char>
    decreases b.len(),
{
    if b.len() == 0 {
        Seq::empty()
    } else if b.len() == 1 {
        seq![base64_char((b[0] / 4) as int), base64_char((b[0] % 4) * 16), '=', '=']
    } else if b.len() == 2 {
        seq![
            base64_char((b[0] / 4) as int),
            base64_char((b[0] % 4) * 16 + b[1] / 16),
            base64_char((b[1] % 16) * 4),
            '=',
        ]
    } else {
        seq![
            base64_char((b[0] / 4) as int),
            base64_char((b[0] % 4) * 16 + b[1] / 16),
            base64_char((b[1] % 16) * 4 + b[2] / 64),
            base64_char((b[2] % 64) as int),
        ] + base64_of(b.skip(3))
    }
}

/// Bytes in base 64.
///
/// Trusted: `encode` of the engine `base64::engine::general_purpose::STANDARD` writes the standard
/// alphabet with padding.
#[verifier::external_body]
fn base64_encode(bytes: &Vec<u8>) -> (s: String)
    ensures
        s@ == base64_of(bytes@),
{
    base64::Engine::encode(&base64::engine::general_purpose::STANDARD, bytes)
}

// ---------------------------------------------------------------------------------------------
// The realtime connection
// ---------------------------------------------------------------------------------------------

/// A connection to the realtime endpoint: where it goes, and whether it is open.
#[derive(Debug)]
pub struct OpenAiRealtimeTransport {
    endpoint: String,
    api_key: String,
    connected: bool,
}

/// What opening a connection asks for: the address and the headers besides the usual ones.
#[derive(Debug)]
pub struct ConnectRequest {
    pub url: String,
    pub beta: String,
    pub authorization: Option<String>,
}

/// What came from the socket.
#[derive(Debug)]
pub enum SocketRead {
    Text(String),
    Binary,
    Ping,
    Pong,
    Close,
    Frame,
    /// Nothing came in time.
    TimedOut,
    /// The connection is closed.
    Closed,
    /// Reading failed, for this reason.
    Failed(String),
}

/// What is to be done with what came from the socket.
pub enum SocketEvent {
    /// An event of the server.
    Event(Json),
    /// A ping that is to be answered.
    AnswerPing,
    Nothing,
}

/// What is said where the connection is not open.
pub open spec fn not_connected_message() -> Seq<char> {
    "transport is not connected"@
}

/// Whether `r` is the message `tree` where the connection is open, and a failure where it is not.
pub open spec fn sends(open: bool, r: Result<String, Error>, tree: JsonTree) -> bool {
    if open {
        r is Ok && r->Ok_0@ == json_text(tree)
    } else {
        fails_with(r, not_connected_message())
    }
}

/// The message that names the model.
pub open spec fn session_update(model: Seq<char>) -> JsonTree {
    JsonTree::Object(
        put(
            put(
                put(no_fields(), "type"@, JsonTree::Text("session.update"@)),
                "model"@,
                JsonTree::Text(model),
            ),
            "session"@,
            JsonTree::Object(put(no_fields(), "model"@, JsonTree::Text(model))),
        ),
    )
}

/// The message that brings audio.
pub open spec fn audio_append(samples: Seq<i16>) -> JsonTree {
    JsonTree::Object(
        put(
            put(no_fields(), "type"@, JsonTree::Text("input_audio_buffer.append"@)),
            "audio"@,
            JsonTree::Text(base64_of(sample_bytes(samples))),
        ),
    )
}

/// The message that commits the audio sent so far.
pub open spec fn audio_commit(final_chunk: bool) -> JsonTree {
    let base = put(no_fields(), "type"@, JsonTree::Text("input_audio_buffer.commit"@));
    JsonTree::Object(
        if final_chunk {
            put(base, "final"@, JsonTree::Bool(true))
        } else {
            base
        },
    )
}

/// Whether `r` asks for a connection to `address` with the key `key`.
pub open spec fn asks_for(r: ConnectRequest, address: Seq<char>, key: Seq<char>) -> bool {
    &&& r.url@ == address
    &&& r.beta@ == "realtime=v1"@
    &&& option_view(r.authorization) == match bearer_of(key) {
        Some(key) => Some("Bearer "@ + key),
        None => None,
    }
}

/// Whether `r` is what is to be done with what came from the socket.
pub open spec fn takes_in(open: bool, came: SocketRead, r: Result<SocketEvent, Error>) -> bool {
    if !open {
        fails_with(r, not_connected_message())
    } else {
        match came {
            SocketRead::Text(text) => match json_parsed(text@) {
                Some(t) => r is Ok && r->Ok_0 is Event && r->Ok_0->Event_0@ == t && tidy(t),
                None => fails_from(
                    r,
                    "failed parsing realtime websocket JSON event"@,
                    json_problem(text@),
                ),
            },
            SocketRead::Ping => r == Ok::<SocketEvent, Error>(SocketEvent::AnswerPing),
            SocketRead::Failed(reason) => fails_from(r, "failed reading websocket event"@, reason@),
            _ => r == Ok::<SocketEvent, Error>(SocketEvent::Nothing),
        }
    }
}

/// A connection to a realtime endpoint. It says what goes over the socket; the socket itself is
/// elsewhere.
pub trait RealtimeTransport {
    /// Where the connection goes.
    spec fn address(&self) -> Seq<char>;

    /// The key that the connection is opened with.
    spec fn key(&self) -> Seq<char>;

    /// Whether the connection is open.
    spec fn open(&self) -> bool;

    /// Where the connection goes.
    fn endpoint(&self) -> (r: &str)
        ensures
            r@ == self.address(),
    ;

    /// What opening the connection asks for; nothing where it is open already.
    fn connect(&self) -> (r: Option<ConnectRequest>)
        ensures
            match r {
                Some(request) => !self.open() && asks_for(request, self.address(), self.key()),
                None => self.open(),
            },
    ;

    /// Takes note that the connection is open now.
    fn opened(&mut self)
        ensures
            final(self).open(),
            final(self).address() == old(self).address(),
            final(self).key() == old(self).key(),
    ;

    /// The message that names the model.
    fn send_session_update_model(&self, model: &str) -> (r: Result<String, Error>)
        ensures
            sends(self.open(), r, session_update(model@)),
    ;

    /// The message that brings audio, which must not be empty.
    fn send_audio_chunk(&self, pcm16: &[i16]) -> (r: Result<String, Error>)
        ensures
            if pcm16@.len() == 0 {
                fails_with(r, "audio chunk cannot be empty"@)
            } else {
                sends(self.open(), r, audio_append(pcm16@))
            },
    ;

    /// The message that commits the audio sent so far.
    fn send_commit(&self) -> (r: Result<String, Error>)
        ensures
            sends(self.open(), r, audio_commit(false)),
    ;

    /// What is to be done with what came from the socket, or with the end of the time that was
    /// given to it.
    fn read_event_with_timeout(&self, came: SocketRead) -> (r: Result<SocketEvent, Error>)
        ensures
            takes_in(self.open(), came, r),
    ;

    /// Takes note that the connection is closed now, and says whether it was open.
    fn close(&mut self) -> (was_open: bool)
        ensures
            was_open == old(self).open(),
            !final(self).open(),
            final(self).address() == old(self).address(),
            final(self).key() == old(self).key(),
    ;
}

impl RealtimeTransport for OpenAiRealtimeTransport {
    closed spec fn address(&self) -> Seq<char> {
        self.endpoint@
    }

    closed spec fn key(&self) -> Seq<char> {
        self.api_key@
    }

    closed spec fn open(&self) -> bool {
        self.connected
    }

    fn endpoint(&self) -> (r: &str) {
        self.endpoint.as_str()
    }

    fn connect(&self) -> (r: Option<ConnectRequest>) {
        if self.connected {
            return None;
        }
        let authorization = if self.api_key.as_str().is_empty() {
            None
        } else {
            let mut value = "Bearer ".to_string();
            value.append(self.api_key.as_str());
            Some(value)
        };
        Some(
            ConnectRequest {
                url: self.endpoint.clone(),
                beta: "realtime=v1".to_string(),
                authorization,
            },
        )
    }

    fn opened(&mut self) {
        self.connected = true;
    }

    fn send_session_update_model(&self, model: &str) -> (r: Result<String, Error>) {
        let session = Json::object().with("model", Json::text(model));
        self.send_json(
            Json::object().with("type", Json::text("session.update")).with(
                "model",
                Json::text(model),
            ).with("session", session),
        )
    }

    fn send_audio_chunk(&self, pcm16: &[i16]) -> (r: Result<String, Error>) {
        if pcm16.len() == 0 {
            return Err(Error::new("audio chunk cannot be empty"));
        }
        let audio = base64_encode(&pcm16_bytes(pcm16));
        self.send_json(
            Json::object().with("type", Json::text("input_audio_buffer.append")).with(
                "audio",
                Json::String(audio),
            ),
        )
    }

    fn send_commit(&self) -> (r: Result<String, Error>) {
        self.send_commit_with_final(false)
    }

    fn read_event_with_timeout(&self, came: SocketRead) -> (r: Result<SocketEvent, Error>) {
        if !self.connected {
            return Err(Error::new("transport is not connected"));
        }
        match came {
            SocketRead::Text(text) => match Json::parse(text.as_str()) {
                Ok(value) => Ok(SocketEvent::Event(value)),
                Err(problem) => Err(
                    Error::caused("failed parsing realtime websocket JSON event", problem),
                ),
            },
            SocketRead::Ping => Ok(SocketEvent::AnswerPing),
            SocketRead::Failed(reason) => Err(
                Error::caused("failed reading websocket event", reason),
            ),
            _ => Ok(SocketEvent::Nothing),
        }
    }

    fn close(&mut self) -> (was_open: bool) {
        let was_open = self.connected;
        self.connected = false;
        was_open
    }
}

impl OpenAiRealtimeTransport {
    /// The message that commits the audio sent so far, and says whether it was the last.
    pub fn send_commit_with_final(&self, final_chunk: bool) -> (r: Result<String, Error>)
        ensures
            sends(self.open(), r, audio_commit(final_chunk)),
    {
        let payload = Json::object().with("type", Json::text("input_audio_buffer.commit"));
        if final_chunk {
            self.send_json(payload.with("final", Json::Bool(true)))
        } else {
            self.send_json(payload)
        }
    }

    fn send_json(&self, payload: Json) -> (r: Result<String, Error>)
        requires
            tidy(payload@),
        ensures
            sends(self.open(), r, payload@),
    {
        if !self.connected {
            return Err(Error::new("transport is not connected"));
        }
        Ok(payload.to_text())
    }
}

// ---------------------------------------------------------------------------------------------
// Laws of the samples
// ---------------------------------------------------------------------------------------------

/// Whether two bytes are a sample, the lower of them first.
pub open spec fn is_sample(x: i16, lower: u8, upper: u8) -> bool {
    ||| lower + 256 * upper == x
    ||| lower + 256 * upper == x + 65_536
}

/// The bytes of samples are those of each sample in turn.
pub proof fn bytes_are_of_the_samples(s: Seq<i16>, i: int)
    requires
        0 <= i < s.len(),
    ensures
        sample_bytes(s).len() == 2 * s.len(),
        is_sample(s[i], sample_bytes(s)[2 * i], sample_bytes(s)[2 * i + 1]),
{
    assert((2 * i) / 2 == i && (2 * i) % 2 == 0);
    assert((2 * i + 1) / 2 == i && (2 * i + 1) % 2 == 1);
    let bits = sample_bits(s[i]);
    assert(0 <= bits / 256 < 256);
}

// ---------------------------------------------------------------------------------------------
// Laws of the addresses and the configuration
// ---------------------------------------------------------------------------------------------

/// Whether a base address is `core`, which does not end with a slash, and any number of slashes.
pub open spec fn is_base(base: Seq<char>, core: Seq<char>) -> bool {
    &&& core.len() > 0 && core.last() != '/'
    &&& core.len() <= base.len()
    &&& base.take(core.len() as int) == core
    &&& forall|i: int| core.len() <= i < base.len() ==> #[trigger] base[i] == '/'
}

proof fn base_is_trimmed(base: Seq<char>, core: Seq<char>)
    requires
        is_base(base, core),
    ensures
        trimmed_end_of(base, '/') == core,
{
    let run = base.skip(core.len() as int);
    assert(base =~= core + run);
    run_at_the_end_is_taken_off(core, run, '/');
}

/// The realtime endpoint lies under the base address, with the scheme of a websocket that is as
/// secure as that of the address, and with the model of the configuration.
pub proof fn realtime_endpoint_is_under_the_base(
    backend: &OpenAiRealtimeBackend,
    core: Seq<char>,
    host: Seq<char>,
    r: String,
)
    requires
        call_ensures(OpenAiRealtimeBackend::ws_url, (backend,), r),
        is_base(backend.base_url@, core),
    ensures
        core == "http://"@ + host ==> r@ == "ws://"@ + host + "/realtime?model="@ + backend.model@,
        core == "https://"@ + host ==> r@ == "wss://"@ + host + "/realtime?model="@
            + backend.model@,
        !begins_with(core, "http://"@) && !begins_with(core, "https://"@) ==> r@ == core
            + "/realtime?model="@ + backend.model@,
{
    base_is_trimmed(backend.base_url@, core);
    reveal_strlit("http://");
    reveal_strlit("https://");
    if core == "http://"@ + host {
        assert(core.subrange(0, 7) =~= "http://"@);
        assert(core.skip(7) =~= host);
        assert(core[4] == "http://"@[4]);
        if begins_with(core, "https://"@) {
            assert(core.subrange(0, 8)[4] == "https://"@[4]);
        }
    }
    if core == "https://"@ + host {
        assert(core.subrange(0, 8) =~= "https://"@);
        assert(core.skip(8) =~= host);
    }
}

/// The endpoints for whole recordings and for the models lie under the base address, whose scheme
/// they keep.
pub proof fn endpoints_are_under_the_base(
    backend: &OpenAiRealtimeBackend,
    core: Seq<char>,
    transcription: String,
    models: String,
)
    requires
        call_ensures(OpenAiRealtimeBackend::transcription_url, (backend,), transcription),
        call_ensures(OpenAiRealtimeBackend::models_url, (backend,), models),
        is_base(backend.base_url@, core),
    ensures
        transcription@ == core + "/audio/transcriptions"@,
        models@ == core + "/models"@,
{
    base_is_trimmed(backend.base_url@, core);
}

/// What the configuration says of the server is what is used, to the character; what it does not
/// say is the local server, no key and the usual model.
pub proof fn server_is_as_configured(
    config: &ConfigValue,
    r: Result<OpenAiRealtimeBackend, Error>,
    url: Seq<char>,
    key: Seq<char>,
    model: Seq<char>,
)
    requires
        call_ensures(OpenAiRealtimeBackend::from_config, (config,), r),
        value_at(config@, "server.llmApi"@) is None || value_at(config@, "server.llmApi"@) == Some(
            Tree::Text("openai-realtime"@),
        ),
    ensures
        ({
            &&& value_at(config@, "server.baseUrl"@) == Some(Tree::Text(url))
            &&& value_at(config@, "server.apiKey"@) == Some(Tree::Text(key))
            &&& value_at(config@, "server.model"@) == Some(Tree::Text(model))
        }) ==> r is Ok && r->Ok_0.base_url@ == url && r->Ok_0.api_key@ == key && r->Ok_0.model@
            == model && r->Ok_0.llm_api@ == "openai-realtime"@,
        ({
            &&& value_at(config@, "server.baseUrl"@) is None
            &&& value_at(config@, "server.apiKey"@) is None
            &&& value_at(config@, "server.model"@) is None
        }) ==> r is Ok && r->Ok_0.base_url@ == "http://127.0.0.1:8000/v1"@
            && r->Ok_0.api_key@.len() == 0 && r->Ok_0.model@ == "voxtral"@,
{
    reveal_strlit("");
}

/// No other interface is accepted, and it is named in the refusal; nor is a value that is no text.
pub proof fn other_servers_are_refused(
    config: &ConfigValue,
    r: Result<OpenAiRealtimeBackend, Error>,
    api: Seq<char>,
)
    requires
        call_ensures(OpenAiRealtimeBackend::from_config, (config,), r),
    ensures
        ({
            &&& value_at(config@, "server.llmApi"@) == Some(Tree::Text(api))
            &&& api != "openai-realtime"@
            &&& value_at(config@, "server.baseUrl"@) is None
            &&& value_at(config@, "server.apiKey"@) is None
            &&& value_at(config@, "server.model"@) is None
        }) ==> r is Err && r->Err_0.message@ == "unsupported server.llmApi="@ + api
            + "; omni v1 only supports openai-realtime"@,
        r is Ok ==> {
            &&& r->Ok_0.llm_api@ == "openai-realtime"@
            &&& value_at(config@, "server.baseUrl"@) is Some ==> value_at(
                config@,
                "server.baseUrl"@,
            )->0 is Text
            &&& value_at(config@, "server.apiKey"@) is Some ==> value_at(
                config@,
                "server.apiKey"@,
            )->0 is Text
            &&& value_at(config@, "server.model"@) is Some ==> value_at(
                config@,
                "server.model"@,
            )->0 is Text
        },
{
}

/// A recording is sent whole, for the model and with the key of the server.
pub proof fn recording_is_sent_whole(
    backend: &OpenAiRealtimeBackend,
    wav: Vec<u8>,
    url: String,
    r: TranscriptionRequest,
)
    requires
        call_ensures(OpenAiRealtimeBackend::transcribe_wav_bytes, (backend, wav), r),
        call_ensures(OpenAiRealtimeBackend::transcription_url, (backend,), url),
    ensures
        r.wav@ == wav@,
        r.url@ == url@,
        r.model@ == backend.model@,
        backend.api_key@.len() > 0 ==> r.bearer is Some && r.bearer->0@ == backend.api_key@,
        backend.api_key@.len() == 0 ==> r.bearer is None,
{
}

// ---------------------------------------------------------------------------------------------
// Laws of the connection
// ---------------------------------------------------------------------------------------------

/// A connection that is not open yet asks for the realtime endpoint of its server, with the key of
/// the server where it has one.
pub proof fn connection_is_to_the_server(
    backend: &OpenAiRealtimeBackend,
    url: String,
    transport: OpenAiRealtimeTransport,
    r: Option<ConnectRequest>,
)
    requires
        call_ensures(OpenAiRealtimeBackend::build_transport, (backend,), transport),
        call_ensures(OpenAiRealtimeBackend::ws_url, (backend,), url),
        call_ensures(OpenAiRealtimeTransport::connect, (&transport,), r),
    ensures
        r is Some,
        r->0.url@ == url@,
        r->0.beta@ == "realtime=v1"@,
        backend.api_key@.len() > 0 ==> r->0.authorization is Some && r->0.authorization->0@
            == "Bearer "@ + backend.api_key@,
        backend.api_key@.len() == 0 ==> r->0.authorization is None,
{
}

/// Whether a message is that of an object with these fields.
pub open spec fn is_message(message: Seq<char>, fields: Seq<(Seq<char>, JsonTree)>) -> bool {
    message == json_text(JsonTree::Object(fields))
}

/// Over an open connection a chunk of audio goes as one message with all its samples, in their
/// order and each as its two bytes.
pub proof fn audio_goes_whole(
    transport: &OpenAiRealtimeTransport,
    pcm16: &[i16],
    r: Result<String, Error>,
) -> (sent: (Seq<(Seq<char>, JsonTree)>, Seq<u8>))
    requires
        call_ensures(OpenAiRealtimeTransport::send_audio_chunk, (transport, pcm16), r),
        transport.open(),
        pcm16@.len() > 0,
    ensures
        r is Ok,
        is_message(r->Ok_0@, sent.0),
        sent.0.len() == 2,
        lookup(sent.0, "type"@) == Some(JsonTree::Text("input_audio_buffer.append"@)),
        lookup(sent.0, "audio"@) == Some(JsonTree::Text(base64_of(sent.1))),
        sent.1.len() == 2 * pcm16@.len(),
        forall|i: int|
            #![trigger pcm16@[i]]
            0 <= i < pcm16@.len() ==> is_sample(pcm16@[i], sent.1[2 * i], sent.1[2 * i + 1]),
{
    reveal_strlit("type");
    reveal_strlit("audio");
    assert("type"@.len() == 4 && "audio"@.len() == 5);
    let bytes = sample_bytes(pcm16@);
    let kind = JsonTree::Text("input_audio_buffer.append"@);
    let audio = JsonTree::Text(base64_of(bytes));
    let a = put(no_fields(), "type"@, kind);
    lookups_after_put(no_fields(), "type"@, kind);
    lookups_after_put(a, "audio"@, audio);
    two_fields("type"@, kind, "audio"@, audio);
    assert forall|i: int|
        #![trigger pcm16@[i]]
        0 <= i < pcm16@.len() implies is_sample(pcm16@[i], bytes[2 * i], bytes[2 * i + 1]) by {
        bytes_are_of_the_samples(pcm16@, i);
    }
    (put(a, "audio"@, audio), bytes)
}

proof fn two_fields(k: Seq<char>, v: JsonTree, l: Seq<char>, w: JsonTree)
    requires
        k != l,
    ensures
        put(no_fields(), k, v).len() == 1,
        put(put(no_fields(), k, v), l, w).len() == 2,
{
    let a = put(no_fields(), k, v);
    crate::fields::slot_bounds(no_fields(), k);
    crate::fields::slot_bounds(a, l);
    assert(a[0].0 == k);
}

/// Each byte triple goes as four characters, and what follows it follows them.
pub proof fn encoding_goes_on(a: Seq<u8>, b: Seq<u8>)
    requires
        a.len() % 3 == 0,
    ensures
        base64_of(a + b) == base64_of(a) + base64_of(b),
        base64_of(a).len() == 4 * (a.len() / 3),
    decreases a.len(),
{
    if a.len() == 0 {
        assert(a + b =~= b);
        assert(base64_of(a) + base64_of(b) =~= base64_of(b));
    } else {
        encoding_goes_on(a.skip(3), b);
        let all = a + b;
        assert(all.skip(3) =~= a.skip(3) + b);
        assert(base64_of(all) =~= base64_of(a) + base64_of(b));
    }
}

/// A commit goes as a message of its own that says whether it is the last; the message that names
/// the model names it in the session too.
pub proof fn commit_and_model_go(
    transport: &OpenAiRealtimeTransport,
    final_chunk: bool,
    model: &str,
    commit: Result<String, Error>,
    update: Result<String, Error>,
) -> (sent: (Seq<(Seq<char>, JsonTree)>, Seq<(Seq<char>, JsonTree)>))
    requires
        call_ensures(
            OpenAiRealtimeTransport::send_commit_with_final,
            (transport, final_chunk),
            commit,
        ),
        call_ensures(
            OpenAiRealtimeTransport::send_session_update_model,
            (transport, model),
            update,
        ),
        transport.open(),
    ensures
        commit is Ok,
        is_message(commit->Ok_0@, sent.0),
        lookup(sent.0, "type"@) == Some(JsonTree::Text("input_audio_buffer.commit"@)),
        final_chunk ==> lookup(sent.0, "final"@) == Some(JsonTree::Bool(true)),
        !final_chunk ==> lookup(sent.0, "final"@) is None,
        update is Ok,
        is_message(update->Ok_0@, sent.1),
        lookup(sent.1, "type"@) == Some(JsonTree::Text("session.update"@)),
        lookup(sent.1, "model"@) == Some(JsonTree::Text(model@)),
        lookup(sent.1, "session"@) is Some,
        lookup(sent.1, "session"@)->0 is Object,
        lookup(lookup(sent.1, "session"@)->0->Object_0, "model"@) == Some(JsonTree::Text(model@)),
{
    reveal_strlit("type");
    reveal_strlit("final");
    reveal_strlit("model");
    reveal_strlit("session");
    assert("type"@.len() == 4 && "final"@.len() == 5 && "model"@.len() == 5);
    assert("session"@.len() == 7);
    let c = put(no_fields(), "type"@, JsonTree::Text("input_audio_buffer.commit"@));
    lookups_after_put(no_fields(), "type"@, JsonTree::Text("input_audio_buffer.commit"@));
    lookups_after_put(c, "final"@, JsonTree::Bool(true));
    let named = JsonTree::Text(model@);
    let session = JsonTree::Object(put(no_fields(), "model"@, named));
    lookups_after_put(no_fields(), "model"@, named);
    let u = put(no_fields(), "type"@, JsonTree::Text("session.update"@));
    lookups_after_put(no_fields(), "type"@, JsonTree::Text("session.update"@));
    let v = put(u, "model"@, named);
    lookups_after_put(u, "model"@, named);
    lookups_after_put(v, "session"@, session);
    (
        if final_chunk {
            put(c, "final"@, JsonTree::Bool(true))
        } else {
            c
        },
        put(v, "session"@, session),
    )
}

/// Nothing is sent over a connection that is not open, or was closed.
pub proof fn nothing_goes_over_a_closed_connection(
    transport: &mut OpenAiRealtimeTransport,
    was_open: bool,
    after: &OpenAiRealtimeTransport,
    pcm16: &[i16],
    final_chunk: bool,
    came: SocketRead,
    audio: Result<String, Error>,
    commit: Result<String, Error>,
    event: Result<SocketEvent, Error>,
)
    requires
        call_ensures(OpenAiRealtimeTransport::close, (transport,), was_open),
        *after == *final(transport),
        call_ensures(OpenAiRealtimeTransport::send_audio_chunk, (after, pcm16), audio),
        call_ensures(OpenAiRealtimeTransport::send_commit_with_final, (after, final_chunk), commit),
        call_ensures(OpenAiRealtimeTransport::read_event_with_timeout, (after, came), event),
    ensures
        audio is Err,
        commit is Err,
        event is Err,
        commit->Err_0.message@ == "transport is not connected"@,
        event->Err_0.message@ == "transport is not connected"@,
        pcm16@.len() > 0 ==> audio->Err_0.message@ == "transport is not connected"@,
{
}

/// Once a connection is open, what is sent goes out, and events are taken in: a text that is JSON
/// is the event that it holds, a ping is answered, and what is neither is passed over.
pub proof fn events_are_taken_in(
    transport: &mut OpenAiRealtimeTransport,
    after: &OpenAiRealtimeTransport,
    came: SocketRead,
    r: Result<SocketEvent, Error>,
)
    requires
        call_ensures(OpenAiRealtimeTransport::opened, (transport,), ()),
        *after == *final(transport),
        call_ensures(OpenAiRealtimeTransport::read_event_with_timeout, (after, came), r),
    ensures
        after.open(),
        came matches SocketRead::Text(text) ==> match json_parsed(text@) {
            Some(event) => r is Ok && r->Ok_0 is Event && r->Ok_0->Event_0@ == event,
            None => r is Err,
        },
        came is Ping ==> r is Ok && r->Ok_0 is AnswerPing,
        came is Failed ==> r is Err,
        came is Pong || came is Binary || came is Frame || came is TimedOut || came is Closed
            || came is Close ==> r is Ok && r->Ok_0 is Nothing,
{
}

// ---------------------------------------------------------------------------------------------
// Laws of the replies
// ---------------------------------------------------------------------------------------------

/// The transcript of a reply is the text that stands in it, to the character: under `text`, else
/// under `transcript`, else under `text` of the result.
pub proof fn reply_text_is_taken_whole(
    payload: &Json,
    fields: Seq<(Seq<char>, JsonTree)>,
    result: Seq<(Seq<char>, JsonTree)>,
    text: Seq<char>,
    r: Result<String, Error>,
)
    requires
        call_ensures(extract_transcription_text, (payload,), r),
        payload@ == JsonTree::Object(fields),
    ensures
        lookup(fields, "text"@) == Some(JsonTree::Text(text)) ==> r is Ok && r->Ok_0@ == text,
        lookup(fields, "text"@) is None && lookup(fields, "transcript"@) == Some(
            JsonTree::Text(text),
        ) ==> r is Ok && r->Ok_0@ == text,
        lookup(fields, "text"@) is None && lookup(fields, "transcript"@) is None && lookup(
            fields,
            "result"@,
        ) == Some(JsonTree::Object(result)) && lookup(result, "text"@) == Some(JsonTree::Text(text))
            ==> r is Ok && r->Ok_0@ == text,
        lookup(fields, "text"@) is None && lookup(fields, "transcript"@) is None && lookup(
            fields,
            "result"@,
        ) is None ==> r is Err,
{
}

/// A reply of success is read as the JSON it holds; one of failure fails with its status and what
/// came with it.
pub proof fn reply_means_what_it_holds(
    reply: &TranscriptionReply,
    r: Result<String, Error>,
    payload: &Json,
    text: Result<String, Error>,
)
    requires
        call_ensures(transcription_reply, (reply,), r),
        call_ensures(extract_transcription_text, (payload,), text),
    ensures
        reply matches TranscriptionReply::Received(bytes) ==> {
            &&& json_decoded(bytes@) == Some(payload@) ==> {
                &&& r is Ok <==> text is Ok
                &&& r is Ok ==> r->Ok_0@ == text->Ok_0@
            }
            &&& json_decoded(bytes@) is None ==> r is Err
        },
        reply is Unreadable ==> r is Err,
        reply matches TranscriptionReply::Refused { status, body } ==> r is Err && (
        body is Some ==> r->Err_0.message@ == "transcription request failed: "@ + status@ + " "@
            + body->0@),
{
}

} // verus!
