//! What is known of a transcription while it runs.
use vstd::prelude::*;

use crate::cli::option_view;
use crate::fields::lookup;
use crate::json::{tidy, Json, JsonTree};
use crate::text::{ink_is_unique, is_ink_of, is_white_char, same, stands_at, trim, trimmed};
use crate::transcript::{
    error_code, error_event, error_message, event_error_metadata, event_raw_excerpt,
    event_text_fragment, event_type, noted_excerpt, noted_text,
};

verus! {

/// How many events are kept.
pub const EVENT_BUFFER: usize = 256;

/// The level up to which a chunk counts as silent, as the bits of the floating-point number 0.008.
pub const SILENCE_THRESHOLD_BITS: u32 = 0x3C03_126F;

/// What is noted of an event of the server.
#[derive(Debug)]
pub struct RealtimeDebugEvent {
    pub seq: u64,
    pub event_type: String,
    pub at_ms: u64,
    pub text_fragment: Option<String>,
    pub error_code: Option<String>,
    pub error_message: Option<String>,
    pub error_event_id: Option<String>,
    pub raw_excerpt: Option<String>,
}

/// What is noted of the audio. The levels are the bits of floating-point numbers.
#[derive(Debug, Clone, Copy)]
pub struct RealtimeAudioDebugInfo {
    pub chunks_observed: u64,
    pub samples_observed: u64,
    pub last_rms: u32,
    pub avg_rms: u32,
    pub last_peak: u32,
    pub max_peak: u32,
    pub silent_chunks: u64,
    pub silence_threshold: u32,
}

/// The levels of a chunk, and what they make of the average so far, as the bits of floating-point
/// numbers. Levels are not negative, so that their bits are in the order of the levels.
#[derive(Debug, Clone, Copy)]
pub struct AudioLevels {
    pub rms: u32,
    pub peak: u32,
    pub avg_rms: u32,
}

/// Whether a chunk of this level is silent.
pub fn is_silent(rms: u32) -> (r: bool)
    ensures
        r == (rms <= SILENCE_THRESHOLD_BITS),
{
    rms <= SILENCE_THRESHOLD_BITS
}

/// What is noted of a transcription.
#[derive(Debug)]
pub struct RealtimeDebugInfo {
    pub chunks_sent: u64,
    pub commits_sent: u64,
    pub events_received: u64,
    pub errors_received: u64,
    pub last_event_type: Option<String>,
    pub last_event_at_ms: Option<u64>,
    pub last_error_code: Option<String>,
    pub last_error_message: Option<String>,
    pub last_error_event_id: Option<String>,
    pub recent_events: Vec<RealtimeDebugEvent>,
    pub audio: RealtimeAudioDebugInfo,
    pub transcript_source: Option<String>,
    pub transcript_fallback_attempted: bool,
    pub transcript_fallback_used: bool,
    pub transcript_fallback_error: Option<String>,
}

/// What is known of a transcription while it runs.
#[derive(Debug)]
pub struct RealtimeProgress {
    pub transcript_preview: String,
    pub last_non_empty_transcript: Option<String>,
    pub updated_at_ms: Option<u64>,
    pub debug: RealtimeDebugInfo,
}

/// The audio before any chunk.
pub open spec fn no_audio() -> RealtimeAudioDebugInfo {
    RealtimeAudioDebugInfo {
        chunks_observed: 0,
        samples_observed: 0,
        last_rms: 0,
        avg_rms: 0,
        last_peak: 0,
        max_peak: 0,
        silent_chunks: 0,
        silence_threshold: SILENCE_THRESHOLD_BITS,
    }
}

impl Default for RealtimeAudioDebugInfo {
    fn default() -> (r: Self)
        ensures
            r == no_audio(),
    {
        RealtimeAudioDebugInfo {
            chunks_observed: 0,
            samples_observed: 0,
            last_rms: 0,
            avg_rms: 0,
            last_peak: 0,
            max_peak: 0,
            silent_chunks: 0,
            silence_threshold: SILENCE_THRESHOLD_BITS,
        }
    }
}

/// Whether nothing has been noted yet.
pub open spec fn nothing_noted(d: RealtimeDebugInfo) -> bool {
    &&& d.chunks_sent == 0
    &&& d.commits_sent == 0
    &&& d.events_received == 0
    &&& d.errors_received == 0
    &&& d.last_event_type is None
    &&& d.last_event_at_ms is None
    &&& d.last_error_code is None
    &&& d.last_error_message is None
    &&& d.last_error_event_id is None
    &&& d.recent_events@.len() == 0
    &&& d.audio == no_audio()
    &&& d.transcript_source is None
    &&& !d.transcript_fallback_attempted
    &&& !d.transcript_fallback_used
    &&& d.transcript_fallback_error is None
}

impl Default for RealtimeDebugInfo {
    fn default() -> (r: Self)
        ensures
            nothing_noted(r),
    {
        RealtimeDebugInfo {
            chunks_sent: 0,
            commits_sent: 0,
            events_received: 0,
            errors_received: 0,
            last_event_type: None,
            last_event_at_ms: None,
            last_error_code: None,
            last_error_message: None,
            last_error_event_id: None,
            recent_events: Vec::new(),
            audio: RealtimeAudioDebugInfo::default(),
            transcript_source: None,
            transcript_fallback_attempted: false,
            transcript_fallback_used: false,
            transcript_fallback_error: None,
        }
    }
}

impl Default for RealtimeProgress {
    fn default() -> (r: Self)
        ensures
            r.transcript_preview@.len() == 0,
            r.last_non_empty_transcript is None,
            r.updated_at_ms is None,
            nothing_noted(r.debug),
    {
        RealtimeProgress {
            transcript_preview: String::new(),
            last_non_empty_transcript: None,
            updated_at_ms: None,
            debug: RealtimeDebugInfo::default(),
        }
    }
}

/// Whether two notes say the same.
pub open spec fn same_notes(a: RealtimeDebugInfo, b: RealtimeDebugInfo) -> bool {
    &&& a.chunks_sent == b.chunks_sent
    &&& a.commits_sent == b.commits_sent
    &&& a.events_received == b.events_received
    &&& a.errors_received == b.errors_received
    &&& a.last_event_type == b.last_event_type
    &&& a.last_event_at_ms == b.last_event_at_ms
    &&& a.last_error_code == b.last_error_code
    &&& a.last_error_message == b.last_error_message
    &&& a.last_error_event_id == b.last_error_event_id
    &&& a.recent_events@ == b.recent_events@
    &&& a.audio == b.audio
    &&& a.transcript_source == b.transcript_source
    &&& a.transcript_fallback_attempted == b.transcript_fallback_attempted
    &&& a.transcript_fallback_used == b.transcript_fallback_used
    &&& a.transcript_fallback_error == b.transcript_fallback_error
}

fn copy_text(s: &Option<String>) -> (r: Option<String>)
    ensures
        r == *s,
{
    match s {
        Some(s) => Some(s.clone()),
        None => None,
    }
}

fn copy_event(e: &RealtimeDebugEvent) -> (r: RealtimeDebugEvent)
    ensures
        r == *e,
{
    RealtimeDebugEvent {
        seq: e.seq,
        event_type: e.event_type.clone(),
        at_ms: e.at_ms,
        text_fragment: copy_text(&e.text_fragment),
        error_code: copy_text(&e.error_code),
        error_message: copy_text(&e.error_message),
        error_event_id: copy_text(&e.error_event_id),
        raw_excerpt: copy_text(&e.raw_excerpt),
    }
}

impl RealtimeDebugInfo {
    /// A copy of the notes.
    pub fn copy(&self) -> (r: RealtimeDebugInfo)
        ensures
            same_notes(r, *self),
    {
        let mut recent_events: Vec<RealtimeDebugEvent> = Vec::new();
        let mut i: usize = 0;
        while i < self.recent_events.len()
            invariant
                i <= self.recent_events@.len(),
                recent_events@ == self.recent_events@.take(i as int),
            decreases self.recent_events@.len() - i,
        {
            assert(self.recent_events@.take(i + 1) =~= self.recent_events@.take(i as int).push(
                self.recent_events@[i as int],
            ));
            recent_events.push(copy_event(&self.recent_events[i]));
            i = i + 1;
        }
        assert(self.recent_events@.take(i as int) =~= self.recent_events@);
        RealtimeDebugInfo {
            chunks_sent: self.chunks_sent,
            commits_sent: self.commits_sent,
            events_received: self.events_received,
            errors_received: self.errors_received,
            last_event_type: copy_text(&self.last_event_type),
            last_event_at_ms: self.last_event_at_ms,
            last_error_code: copy_text(&self.last_error_code),
            last_error_message: copy_text(&self.last_error_message),
            last_error_event_id: copy_text(&self.last_error_event_id),
            recent_events,
            audio: self.audio,
            transcript_source: copy_text(&self.transcript_source),
            transcript_fallback_attempted: self.transcript_fallback_attempted,
            transcript_fallback_used: self.transcript_fallback_used,
            transcript_fallback_error: copy_text(&self.transcript_fallback_error),
        }
    }
}

// ---------------------------------------------------------------------------------------------
// The transcript so far
// ---------------------------------------------------------------------------------------------

/// Whether `after` has the texts of `before`.
pub open spec fn same_texts(before: RealtimeProgress, after: RealtimeProgress) -> bool {
    &&& after.transcript_preview == before.transcript_preview
    &&& after.last_non_empty_transcript == before.last_non_empty_transcript
    &&& after.updated_at_ms == before.updated_at_ms
}

/// Whether `after` has the texts of `before` once this transcript has been noted: one without text
/// changes nothing.
pub open spec fn text_noted(
    before: RealtimeProgress,
    after: RealtimeProgress,
    transcript: Seq<char>,
    now_ms: u64,
) -> bool {
    if trimmed(transcript).len() == 0 {
        same_texts(before, after)
    } else {
        &&& after.transcript_preview@ == trimmed(transcript)
        &&& option_view(after.last_non_empty_transcript) == Some(trimmed(transcript))
        &&& after.updated_at_ms == Some(now_ms)
    }
}

/// Notes the transcript so far; one without text changes nothing.
pub fn set_progress_snapshot(progress: &mut RealtimeProgress, transcript: &str, now_ms: u64)
    ensures
        final(progress).debug == old(progress).debug,
        text_noted(*old(progress), *final(progress), transcript@, now_ms),
{
    let text = trim(transcript);
    if text.is_empty() {
        return;
    }
    progress.transcript_preview = text.to_string();
    progress.last_non_empty_transcript = Some(text.to_string());
    progress.updated_at_ms = Some(now_ms);
}

/// The last text that is known, where there is one.
pub open spec fn best_known(p: RealtimeProgress) -> Option<Seq<char>> {
    if p.last_non_empty_transcript is Some && p.last_non_empty_transcript->0@.len() > 0 {
        option_view(p.last_non_empty_transcript)
    } else {
        preview_known(p)
    }
}

/// The preview, where there is one.
pub open spec fn preview_known(p: RealtimeProgress) -> Option<Seq<char>> {
    if p.transcript_preview@.len() == 0 {
        None
    } else {
        Some(p.transcript_preview@)
    }
}

/// The last text that is known, where there is one.
pub fn best_progress_transcript(progress: &RealtimeProgress) -> (r: Option<String>)
    ensures
        option_view(r) == best_known(*progress),
{
    if let Some(value) = &progress.last_non_empty_transcript {
        if !value.as_str().is_empty() {
            return Some(value.clone());
        }
    }
    if progress.transcript_preview.as_str().is_empty() {
        None
    } else {
        Some(progress.transcript_preview.clone())
    }
}

/// What is known at the moment: the preview, when it changed last, and the notes.
pub fn progress_snapshot(progress: &RealtimeProgress) -> (r: (
    Option<String>,
    Option<u64>,
    RealtimeDebugInfo,
))
    ensures
        option_view(r.0) == preview_known(*progress),
        r.1 == progress.updated_at_ms,
        same_notes(r.2, progress.debug),
{
    let preview = if progress.transcript_preview.as_str().is_empty() {
        None
    } else {
        Some(progress.transcript_preview.clone())
    };
    (preview, progress.updated_at_ms, progress.debug.copy())
}

// ---------------------------------------------------------------------------------------------
// Notes
// ---------------------------------------------------------------------------------------------

/// One more, up to the limit of the type.
pub open spec fn one_more(n: u64) -> u64 {
    if n == u64::MAX {
        n
    } else {
        (n + 1) as u64
    }
}

fn count(n: u64) -> (r: u64)
    ensures
        r == one_more(n),
{
    n.saturating_add(1)
}

/// The audio once a chunk has been noted.
pub open spec fn audio_after(
    a: RealtimeAudioDebugInfo,
    samples: int,
    levels: AudioLevels,
) -> RealtimeAudioDebugInfo {
    RealtimeAudioDebugInfo {
        chunks_observed: one_more(a.chunks_observed),
        samples_observed: if a.samples_observed + samples > u64::MAX {
            u64::MAX
        } else {
            (a.samples_observed + samples) as u64
        },
        last_rms: levels.rms,
        avg_rms: levels.avg_rms,
        last_peak: levels.peak,
        max_peak: if a.max_peak >= levels.peak {
            a.max_peak
        } else {
            levels.peak
        },
        silent_chunks: if levels.rms <= SILENCE_THRESHOLD_BITS {
            one_more(a.silent_chunks)
        } else {
            a.silent_chunks
        },
        silence_threshold: SILENCE_THRESHOLD_BITS,
    }
}

/// The notes once a chunk of audio has been noted: an empty one changes nothing.
pub open spec fn chunk_noted(
    d: RealtimeDebugInfo,
    samples: int,
    levels: AudioLevels,
) -> RealtimeDebugInfo {
    if samples == 0 {
        d
    } else {
        RealtimeDebugInfo {
            chunks_sent: one_more(d.chunks_sent),
            audio: audio_after(d.audio, samples, levels),
            ..d
        }
    }
}

/// Notes a chunk of audio that was sent; an empty one changes nothing.
pub fn progress_note_chunk(progress: &mut RealtimeProgress, samples: usize, levels: AudioLevels)
    ensures
        same_texts(*old(progress), *final(progress)),
        final(progress).debug == chunk_noted(old(progress).debug, samples as int, levels),
{
    if samples == 0 {
        return;
    }
    let audio = progress.debug.audio;
    let silent_chunks = if is_silent(levels.rms) {
        count(audio.silent_chunks)
    } else {
        audio.silent_chunks
    };
    let max_peak = if audio.max_peak >= levels.peak {
        audio.max_peak
    } else {
        levels.peak
    };
    progress.debug.chunks_sent = count(progress.debug.chunks_sent);
    progress.debug.audio = RealtimeAudioDebugInfo {
        chunks_observed: count(audio.chunks_observed),
        samples_observed: audio.samples_observed.saturating_add(samples as u64),
        last_rms: levels.rms,
        avg_rms: levels.avg_rms,
        last_peak: levels.peak,
        max_peak,
        silent_chunks,
        silence_threshold: SILENCE_THRESHOLD_BITS,
    };
}

/// The notes once a commit has been noted.
pub open spec fn commit_noted(d: RealtimeDebugInfo) -> RealtimeDebugInfo {
    RealtimeDebugInfo { commits_sent: one_more(d.commits_sent), ..d }
}

/// Notes a commit that was sent.
pub fn progress_note_commit(progress: &mut RealtimeProgress)
    ensures
        same_texts(*old(progress), *final(progress)),
        final(progress).debug == commit_noted(old(progress).debug),
{
    progress.debug.commits_sent = count(progress.debug.commits_sent);
}

/// The name that is noted for the type of an event.
pub open spec fn noted_type(e: JsonTree) -> Seq<char> {
    match event_type(e) {
        Some(t) => t,
        None => "<unknown>"@,
    }
}

/// Whether an event counts as an error.
pub open spec fn is_error(e: JsonTree) -> bool {
    error_code(e) is Some || error_message(e) is Some || noted_type(e) == "error"@
}

/// Whether `n` is what is noted of an event.
pub open spec fn is_note(n: RealtimeDebugEvent, e: JsonTree, seq: u64, now_ms: u64) -> bool {
    &&& n.seq == seq
    &&& n.event_type@ == noted_type(e)
    &&& n.at_ms == now_ms
    &&& option_view(n.text_fragment) == noted_text(e)
    &&& option_view(n.error_code) == error_code(e)
    &&& option_view(n.error_message) == error_message(e)
    &&& option_view(n.error_event_id) == error_event(e)
    &&& option_view(n.raw_excerpt) == noted_excerpt(e, noted_type(e))
}

/// The last of these events, as many as are kept.
pub open spec fn kept_events(s: Seq<RealtimeDebugEvent>) -> Seq<RealtimeDebugEvent> {
    if s.len() <= EVENT_BUFFER {
        s
    } else {
        s.skip(s.len() - EVENT_BUFFER)
    }
}

/// Whether `after` are the notes `before` once this event has been noted.
pub open spec fn noted(
    before: RealtimeDebugInfo,
    after: RealtimeDebugInfo,
    e: JsonTree,
    now_ms: u64,
) -> bool {
    &&& after.chunks_sent == before.chunks_sent
    &&& after.commits_sent == before.commits_sent
    &&& after.audio == before.audio
    &&& after.transcript_source == before.transcript_source
    &&& after.transcript_fallback_attempted == before.transcript_fallback_attempted
    &&& after.transcript_fallback_used == before.transcript_fallback_used
    &&& after.transcript_fallback_error == before.transcript_fallback_error
    &&& after.events_received == one_more(before.events_received)
    &&& option_view(after.last_event_type) == Some(noted_type(e))
    &&& after.last_event_at_ms == Some(now_ms)
    &&& after.recent_events@.len() > 0
    &&& is_note(after.recent_events@.last(), e, after.events_received, now_ms)
    &&& after.recent_events@ == kept_events(
        before.recent_events@.push(after.recent_events@.last()),
    )
    &&& if is_error(e) {
        &&& after.errors_received == one_more(before.errors_received)
        &&& option_view(after.last_error_code) == error_code(e)
        &&& option_view(after.last_error_message) == error_message(e)
        &&& option_view(after.last_error_event_id) == error_event(e)
    } else {
        &&& after.errors_received == before.errors_received
        &&& after.last_error_code == before.last_error_code
        &&& after.last_error_message == before.last_error_message
        &&& after.last_error_event_id == before.last_error_event_id
    }
}

/// Notes an event of the server.
pub fn progress_note_event(progress: &mut RealtimeProgress, event: &Json, now_ms: u64)
    requires
        tidy(event@),
    ensures
        same_texts(*old(progress), *final(progress)),
        noted(old(progress).debug, final(progress).debug, event@, now_ms),
{
    let seq = count(progress.debug.events_received);
    let kind = match event.get_str("type") {
        Some(t) => t.to_string(),
        None => "<unknown>".to_string(),
    };
    let text_fragment = event_text_fragment(event);
    let error = event_error_metadata(event);
    let raw_excerpt = event_raw_excerpt(event, kind.as_str());
    progress.debug.events_received = seq;
    progress.debug.last_event_type = Some(kind.clone());
    progress.debug.last_event_at_ms = Some(now_ms);
    if error.code.is_some() || error.message.is_some() || same(kind.as_str(), "error") {
        progress.debug.errors_received = count(progress.debug.errors_received);
        progress.debug.last_error_code = copy_text(&error.code);
        progress.debug.last_error_message = copy_text(&error.message);
        progress.debug.last_error_event_id = copy_text(&error.event_id);
    }
    let note = RealtimeDebugEvent {
        seq,
        event_type: kind,
        at_ms: now_ms,
        text_fragment,
        error_code: error.code,
        error_message: error.message,
        error_event_id: error.event_id,
        raw_excerpt,
    };
    let mut events: Vec<RealtimeDebugEvent> = Vec::new();
    std::mem::swap(&mut events, &mut progress.debug.recent_events);
    let ghost before = events@;
    events.push(note);
    let ghost all = events@;
    if events.len() > EVENT_BUFFER {
        let overflow: usize = events.len() - EVENT_BUFFER;
        let tail = events.split_off(overflow);
        assert(tail@ =~= all.skip(overflow as int));
        progress.debug.recent_events = tail;
    } else {
        progress.debug.recent_events = events;
    }
    assert(progress.debug.recent_events@.last() == note);
}

/// Whether the kept events are the last ones, none missing between them: each has the number that
/// follows that of the one before, and the last has the number of events so far.
pub open spec fn events_are_the_last(d: RealtimeDebugInfo) -> bool {
    &&& d.recent_events@.len() <= EVENT_BUFFER
    &&& forall|i: int|
        0 <= i < d.recent_events@.len() ==> (#[trigger] d.recent_events@[i]).seq
            == d.events_received - (d.recent_events@.len() - 1 - i)
}

/// The kept events are always the last ones: they are so before anything is noted, and noting one
/// more event keeps it so.
pub proof fn noting_keeps_the_last_events(
    before: RealtimeDebugInfo,
    after: RealtimeDebugInfo,
    e: JsonTree,
    now_ms: u64,
)
    requires
        before.events_received < u64::MAX,
        noted(before, after, e, now_ms),
    ensures
        nothing_noted(before) ==> events_are_the_last(before),
        events_are_the_last(before) ==> events_are_the_last(after),
{
    if events_are_the_last(before) {
        let all = before.recent_events@.push(after.recent_events@.last());
        let n = after.recent_events@.len();
        assert forall|i: int| 0 <= i < n implies (#[trigger] after.recent_events@[i]).seq
            == after.events_received - (n - 1 - i) by {
            let j = i + (all.len() - n);
            assert(after.recent_events@[i] == all[j]);
            if j < before.recent_events@.len() {
                assert(all[j] == before.recent_events@[j]);
            }
        }
    }
}

/// A count, up to the limit of the type.
pub open spec fn counted(n: int) -> u64 {
    if n > u64::MAX {
        u64::MAX
    } else {
        n as u64
    }
}

/// How many of the events count as errors. Each event comes with its time.
pub open spec fn errors_in(events: Seq<(JsonTree, u64)>) -> int
    decreases events.len(),
{
    if events.len() == 0 {
        0
    } else {
        errors_in(events.drop_last()) + if is_error(events.last().0) {
            1int
        } else {
            0int
        }
    }
}

/// Whether `notes` are the notes from the start on, after each of the events. Each event comes with
/// its time.
pub open spec fn all_noted(notes: Seq<RealtimeDebugInfo>, events: Seq<(JsonTree, u64)>) -> bool {
    &&& notes.len() == events.len() + 1
    &&& nothing_noted(notes[0])
    &&& forall|i: int|
        0 <= i < events.len() ==> noted(
            notes[i],
            notes[i + 1],
            (#[trigger] events[i]).0,
            events[i].1,
        )
}

/// The notes after any number of events: the events are counted, and so are the errors among them;
/// the last ones are kept, as many as there is room for, in their order and with their numbers; and
/// the type and the time are those of the last one.
pub proof fn notes_are_of_the_events(
    notes: Seq<RealtimeDebugInfo>,
    events: Seq<(JsonTree, u64)>,
)
    requires
        all_noted(notes, events),
    ensures
        notes.last().events_received == counted(events.len() as int),
        notes.last().errors_received == counted(errors_in(events)),
        notes.last().recent_events@.len() == if events.len() <= EVENT_BUFFER {
            events.len()
        } else {
            EVENT_BUFFER as nat
        },
        forall|i: int|
            0 <= i < notes.last().recent_events@.len() ==> {
                let n = events.len() - notes.last().recent_events@.len() + i;
                is_note(
                    #[trigger] notes.last().recent_events@[i],
                    events[n].0,
                    counted(n + 1),
                    events[n].1,
                )
            },
        events.len() > 0 ==> {
            &&& option_view(notes.last().last_event_type) == Some(noted_type(events.last().0))
            &&& notes.last().last_event_at_ms == Some(events.last().1)
        },
    decreases events.len(),
{
    errors_are_not_negative(events);
    if events.len() > 0 {
        let n = events.len() as int;
        let earlier = notes.drop_last();
        let front = events.drop_last();
        assert forall|i: int| 0 <= i < front.len() implies noted(
            earlier[i],
            earlier[i + 1],
            (#[trigger] front[i]).0,
            front[i].1,
        ) by {
            assert(front[i] == events[i]);
        }
        notes_are_of_the_events(earlier, front);
        errors_are_not_negative(front);
        let before = earlier.last();
        let after = notes.last();
        assert(events[n - 1] == events.last());
        assert(noted(notes[n - 1], notes[n], events[n - 1].0, events[n - 1].1));
        assert(before == notes[n - 1] && after == notes[n]);
        let old_events = before.recent_events@;
        let kept = after.recent_events@;
        let all = old_events.push(kept.last());
        assert forall|i: int| 0 <= i < kept.len() implies ({
            let m = n - kept.len() + i;
            is_note(#[trigger] kept[i], events[m].0, counted(m + 1), events[m].1)
        }) by {
            let m = n - kept.len() + i;
            let j = i + (all.len() - kept.len());
            assert(kept[i] == all[j]);
            if j < old_events.len() {
                assert(all[j] == old_events[j]);
                assert(front[m] == events[m]);
            }
        }
    }
}

proof fn errors_are_not_negative(events: Seq<(JsonTree, u64)>)
    ensures
        0 <= errors_in(events),
    decreases events.len(),
{
    if events.len() > 0 {
        errors_are_not_negative(events.drop_last());
    }
}

// ---------------------------------------------------------------------------------------------
// Laws of the progress
// ---------------------------------------------------------------------------------------------

/// Once a transcript with ink was noted, the preview and the best transcript known are exactly that
/// transcript without the white space around it, and the time is that of the note.
pub proof fn noted_transcript_is_known(
    progress: &mut RealtimeProgress,
    transcript: &str,
    now_ms: u64,
    after: &RealtimeProgress,
    snapshot: (Option<String>, Option<u64>, RealtimeDebugInfo),
    best: Option<String>,
    ink: Seq<char>,
)
    requires
        call_ensures(set_progress_snapshot, (progress, transcript, now_ms), ()),
        *after == *final(progress),
        is_ink_of(ink, transcript@),
        ink.len() > 0,
        call_ensures(progress_snapshot, (after,), snapshot),
        call_ensures(best_progress_transcript, (after,), best),
    ensures
        snapshot.0 is Some,
        snapshot.0->0@ == ink,
        snapshot.1 == Some(now_ms),
        best is Some,
        best->0@ == ink,
{
    ink_is_unique(ink, transcript@);
}

/// A transcript of white space alone takes nothing back: what was known before is known after it.
pub proof fn white_transcript_changes_nothing(
    progress: &mut RealtimeProgress,
    transcript: &str,
    now_ms: u64,
    before: &RealtimeProgress,
    after: &RealtimeProgress,
    first: (Option<String>, Option<u64>, RealtimeDebugInfo),
    second: (Option<String>, Option<u64>, RealtimeDebugInfo),
)
    requires
        *before == *old(progress),
        call_ensures(set_progress_snapshot, (progress, transcript, now_ms), ()),
        *after == *final(progress),
        forall|i: int| 0 <= i < transcript@.len() ==> is_white_char(#[trigger] transcript@[i]),
        call_ensures(progress_snapshot, (before,), first),
        call_ensures(progress_snapshot, (after,), second),
    ensures
        first.0 is Some <==> second.0 is Some,
        first.0 is Some ==> first.0->0@ == second.0->0@,
        first.1 == second.1,
        *after == *before,
{
    let none = Seq::<char>::empty();
    assert(transcript@.subrange(0, 0) =~= none);
    assert(stands_at(transcript@, none, 0));
    assert(is_ink_of(none, transcript@));
    ink_is_unique(none, transcript@);
}

/// Noting chunks, commits and events leaves the transcript that is known.
pub proof fn notes_leave_the_transcript(
    progress: &mut RealtimeProgress,
    samples: usize,
    levels: AudioLevels,
    event: &Json,
    now_ms: u64,
    before: &RealtimeProgress,
    after: &RealtimeProgress,
    first: Option<String>,
    second: Option<String>,
)
    requires
        *before == *old(progress),
        *after == *final(progress),
        ({
            ||| call_ensures(progress_note_chunk, (progress, samples, levels), ())
            ||| call_ensures(progress_note_commit, (progress,), ())
            ||| call_ensures(progress_note_event, (progress, event, now_ms), ())
        }),
        call_ensures(best_progress_transcript, (before,), first),
        call_ensures(best_progress_transcript, (after,), second),
    ensures
        first is Some <==> second is Some,
        first is Some ==> first->0@ == second->0@,
        after.transcript_preview@ == before.transcript_preview@,
        after.updated_at_ms == before.updated_at_ms,
{
}

/// A chunk with samples counts one chunk and all its samples, and its levels are the last ones; it
/// counts as silent if and only if its level is no higher than the threshold; the highest peak is
/// the highest so far. No commit and no event is counted with it.
pub proof fn chunk_is_counted(progress: &mut RealtimeProgress, samples: usize, levels: AudioLevels)
    requires
        call_ensures(progress_note_chunk, (progress, samples, levels), ()),
        samples > 0,
        old(progress).debug.chunks_sent < u64::MAX,
        old(progress).debug.audio.chunks_observed < u64::MAX,
        old(progress).debug.audio.silent_chunks < u64::MAX,
        old(progress).debug.audio.samples_observed + samples <= u64::MAX,
    ensures
        final(progress).debug.chunks_sent == old(progress).debug.chunks_sent + 1,
        final(progress).debug.audio.chunks_observed == old(progress).debug.audio.chunks_observed
            + 1,
        final(progress).debug.audio.samples_observed == old(progress).debug.audio.samples_observed
            + samples,
        final(progress).debug.audio.last_rms == levels.rms,
        final(progress).debug.audio.avg_rms == levels.avg_rms,
        final(progress).debug.audio.last_peak == levels.peak,
        final(progress).debug.audio.max_peak >= levels.peak,
        final(progress).debug.audio.max_peak >= old(progress).debug.audio.max_peak,
        final(progress).debug.audio.max_peak == levels.peak
            || final(progress).debug.audio.max_peak == old(progress).debug.audio.max_peak,
        levels.rms <= 0x3C03_126F ==> final(progress).debug.audio.silent_chunks
            == old(progress).debug.audio.silent_chunks + 1,
        levels.rms > 0x3C03_126F ==> final(progress).debug.audio.silent_chunks
            == old(progress).debug.audio.silent_chunks,
        final(progress).debug.audio.silence_threshold == 0x3C03_126F,
        final(progress).debug.commits_sent == old(progress).debug.commits_sent,
        final(progress).debug.events_received == old(progress).debug.events_received,
        final(progress).debug.errors_received == old(progress).debug.errors_received,
{
}

/// An empty chunk counts nothing.
pub proof fn empty_chunk_counts_nothing(progress: &mut RealtimeProgress, levels: AudioLevels)
    requires
        call_ensures(progress_note_chunk, (progress, 0usize, levels), ()),
    ensures
        final(progress).debug == old(progress).debug,
{
}

/// A commit counts one commit and nothing else.
pub proof fn commit_is_counted(progress: &mut RealtimeProgress)
    requires
        call_ensures(progress_note_commit, (progress,), ()),
        old(progress).debug.commits_sent < u64::MAX,
    ensures
        final(progress).debug.commits_sent == old(progress).debug.commits_sent + 1,
        final(progress).debug.chunks_sent == old(progress).debug.chunks_sent,
        final(progress).debug.events_received == old(progress).debug.events_received,
        final(progress).debug.audio == old(progress).debug.audio,
{
}

/// An event counts one event; it is the last that is kept, with its number, its type and its time;
/// the events that were kept before it stay in their order, up to the last 256.
pub proof fn event_is_counted(
    progress: &mut RealtimeProgress,
    event: &Json,
    now_ms: u64,
    fields: Seq<(Seq<char>, JsonTree)>,
    kind: Seq<char>,
)
    requires
        call_ensures(progress_note_event, (progress, event, now_ms), ()),
        old(progress).debug.events_received < u64::MAX,
        old(progress).debug.recent_events@.len() <= 256,
        event@ == JsonTree::Object(fields),
        lookup(fields, "type"@) == Some(JsonTree::Text(kind)),
    ensures
        final(progress).debug.events_received == old(progress).debug.events_received + 1,
        final(progress).debug.last_event_type is Some,
        final(progress).debug.last_event_type->0@ == kind,
        final(progress).debug.last_event_at_ms == Some(now_ms),
        final(progress).debug.chunks_sent == old(progress).debug.chunks_sent,
        final(progress).debug.commits_sent == old(progress).debug.commits_sent,
        ({
            let before = old(progress).debug.recent_events@;
            let after = final(progress).debug.recent_events@;
            &&& after.len() == if before.len() < 256 {
                before.len() + 1
            } else {
                256
            }
            &&& after.drop_last() == before.skip(before.len() + 1 - after.len())
            &&& after.last().seq == final(progress).debug.events_received
            &&& after.last().event_type@ == kind
            &&& after.last().at_ms == now_ms
        }),
{
    let before = old(progress).debug.recent_events@;
    let after = final(progress).debug.recent_events@;
    assert(after.drop_last() =~= before.skip(before.len() + 1 - after.len()));
}

/// An event of the type `error` counts as one more error.
pub proof fn errors_are_counted(
    progress: &mut RealtimeProgress,
    event: &Json,
    now_ms: u64,
    fields: Seq<(Seq<char>, JsonTree)>,
)
    requires
        call_ensures(progress_note_event, (progress, event, now_ms), ()),
        old(progress).debug.errors_received < u64::MAX,
        event@ == JsonTree::Object(fields),
        lookup(fields, "type"@) == Some(JsonTree::Text("error"@)),
    ensures
        final(progress).debug.errors_received == old(progress).debug.errors_received + 1,
{
}

/// The error of an event is the last one that is known: its code and its message, also in the note
/// of the event. An event without an error leaves the last one.
pub proof fn last_error_is_known(
    progress: &mut RealtimeProgress,
    event: &Json,
    now_ms: u64,
    fields: Seq<(Seq<char>, JsonTree)>,
    error: Seq<(Seq<char>, JsonTree)>,
    code: Seq<char>,
    message: Seq<char>,
)
    requires
        call_ensures(progress_note_event, (progress, event, now_ms), ()),
        event@ == JsonTree::Object(fields),
    ensures
        ({
            &&& lookup(fields, "error"@) == Some(JsonTree::Object(error))
            &&& lookup(error, "code"@) == Some(JsonTree::Text(code))
            &&& lookup(error, "message"@) == Some(JsonTree::Text(message))
        }) ==> {
            &&& option_view(final(progress).debug.last_error_code) == Some(code)
            &&& option_view(final(progress).debug.last_error_message) == Some(message)
            &&& option_view(final(progress).debug.recent_events@.last().error_code) == Some(code)
            &&& option_view(final(progress).debug.recent_events@.last().error_message) == Some(
                message,
            )
        },
        ({
            &&& lookup(fields, "error"@) is None
            &&& lookup(fields, "code"@) is None
            &&& lookup(fields, "message"@) is None
            &&& lookup(fields, "type"@) is Some
            &&& lookup(fields, "type"@) != Some(JsonTree::Text("error"@))
        }) ==> {
            &&& final(progress).debug.errors_received == old(progress).debug.errors_received
            &&& final(progress).debug.last_error_code == old(progress).debug.last_error_code
            &&& final(progress).debug.last_error_message == old(progress).debug.last_error_message
        },
{
    reveal_strlit("error");
    reveal_strlit("<unknown>");
    assert("error"@.len() != "<unknown>"@.len());
}

/// The best transcript that is known is the last one with text, and else the preview, to the
/// character.
pub proof fn last_transcript_is_best(progress: &RealtimeProgress, r: Option<String>)
    requires
        call_ensures(best_progress_transcript, (progress,), r),
    ensures
        progress.last_non_empty_transcript is Some
            && progress.last_non_empty_transcript->0@.len() > 0 ==> r is Some && r->0@
            == progress.last_non_empty_transcript->0@,
        progress.last_non_empty_transcript is None && progress.transcript_preview@.len() > 0
            ==> r is Some && r->0@ == progress.transcript_preview@,
        progress.last_non_empty_transcript is None && progress.transcript_preview@.len() == 0
            ==> r is None,
{
}

} // verus!
