//! The worker of a recording that goes to the server: when audio is committed, what events do to
//! the transcript, and how long the last of it is waited for.
use vstd::prelude::*;

use crate::fields::{lookup, lookups_after_put, put};
use crate::json::{no_fields, tidy, Json, JsonTree};
use crate::progress::{
    chunk_noted, commit_noted, noted, progress_note_chunk, progress_note_commit,
    progress_note_event, same_texts, set_progress_snapshot, text_noted, AudioLevels,
    RealtimeDebugInfo, RealtimeProgress,
};
use crate::text::{ink_is_unique, is_ink_of, trim, trimmed, trimming_keeps_the_ink};
use crate::transcript::{
    apply_transcript_update, delta_event_updates, delta_without_status_is_no_end,
    emit_transcript_update_for_ui, event_indicates_completion, event_update, is_completion,
    is_delta_event, is_whole_event, merged, merged_finishes_with_snapshot, merging_loses_nothing,
    message_view, transcript_update_from_event, ui_update, updated, whole_event_updates, UiMessage,
};

verus! {

/// How long audio waits to be committed, in milliseconds.
pub const COMMIT_INTERVAL_MS: u64 = 450;

/// How long one wait for audio lasts.
pub const RECEIVE_TIMEOUT_MS: u64 = 35;

/// How long one wait for an event lasts between chunks, and how many events are taken at most.
pub const DRAIN_TIMEOUT_MS: u64 = 10;

pub const DRAIN_EVENTS: usize = 24;

/// The same after a commit.
pub const COMMIT_DRAIN_TIMEOUT_MS: u64 = 30;

pub const COMMIT_DRAIN_EVENTS: usize = 96;

/// The same after an event that says that the transcript is complete.
pub const COMPLETION_DRAIN_TIMEOUT_MS: u64 = 15;

pub const COMPLETION_DRAIN_EVENTS: usize = 64;

/// How long the last of the transcript is waited for in all.
pub const COLLECT_LIMIT_MS: u64 = 6_000;

/// How long it is waited for where nothing comes.
pub const COLLECT_IDLE_MS: u64 = 700;

/// How long it is waited for where nothing comes after it was said to be complete.
pub const COMPLETED_IDLE_MS: u64 = 250;

/// How long one wait for an event lasts at the end.
pub const COLLECT_TIMEOUT_MS: u64 = 200;

/// A moment later, up to the limit of the clock.
pub open spec fn later(clock_ms: u64, by: u64) -> u64 {
    if clock_ms + by > u64::MAX {
        u64::MAX
    } else {
        (clock_ms + by) as u64
    }
}

/// What follows once the events that are there have been taken.
#[derive(Debug, Clone, Copy, PartialEq, Eq, Structural)]
pub enum AfterDrain {
    /// Audio is committed if its time has come.
    Audio,
    /// The next chunk is waited for.
    Commit,
    /// The last of the transcript is waited for, until this moment at the latest.
    Completion { limit_ms: u64 },
}

/// What the worker is at.
#[derive(Debug, Clone, Copy, PartialEq, Eq, Structural)]
pub enum WorkerPhase {
    /// It waits for a chunk.
    Receiving,
    /// It sends a chunk.
    Sending,
    /// It takes events, at most so many more.
    Draining { left: usize, then: AfterDrain },
    /// It commits the audio so far.
    Committing,
    /// It commits the last audio.
    Finishing,
    /// It waits for the last of the transcript: until the first moment at the latest, and until the
    /// second where nothing comes.
    Collecting { limit_ms: u64, idle_ms: u64 },
    /// It is done.
    Closed,
}

/// What is to be done for the worker.
#[derive(Debug, Clone, Copy, PartialEq, Eq, Structural)]
pub enum WorkerAction {
    /// Wait for a chunk, for as long as one wait lasts.
    Receive,
    /// Send the chunk that came.
    SendChunk,
    /// Wait for an event, for so many milliseconds.
    ReadEvent(u64),
    /// Commit the audio so far.
    SendCommit,
    /// Commit the last audio.
    SendFinalCommit,
    /// Close the connection.
    Close,
}

/// What came of it.
pub enum WorkerEvent {
    /// A chunk of this many samples came.
    Chunk(usize),
    /// No chunk came in time.
    NoChunk,
    /// The capture is over.
    CaptureOver,
    /// A chunk of this many samples was sent; it has these levels.
    ChunkSent(usize, AudioLevels),
    /// Audio was committed.
    CommitSent,
    /// An event came from the server.
    Event(Json),
    /// No event came in time.
    NoEvent,
}

/// What came of it, apart from how it is held.
pub enum WorkerInput {
    Chunk(usize),
    NoChunk,
    CaptureOver,
    ChunkSent(usize, AudioLevels),
    CommitSent,
    Event(JsonTree),
    NoEvent,
}

impl View for WorkerEvent {
    type V = WorkerInput;

    open spec fn view(&self) -> WorkerInput {
        match self {
            WorkerEvent::Chunk(n) => WorkerInput::Chunk(*n),
            WorkerEvent::NoChunk => WorkerInput::NoChunk,
            WorkerEvent::CaptureOver => WorkerInput::CaptureOver,
            WorkerEvent::ChunkSent(n, levels) => WorkerInput::ChunkSent(*n, *levels),
            WorkerEvent::CommitSent => WorkerInput::CommitSent,
            WorkerEvent::Event(e) => WorkerInput::Event(e@),
            WorkerEvent::NoEvent => WorkerInput::NoEvent,
        }
    }
}

/// The worker of a recording.
#[derive(Debug)]
pub struct RealtimeWorker {
    transcript: String,
    pending: bool,
    next_commit_ms: u64,
    phase: WorkerPhase,
}

/// The worker of a recording, apart from how its transcript is held.
pub struct Worker {
    pub transcript: Seq<char>,
    /// Audio was sent that is not committed yet.
    pub pending: bool,
    pub next_commit_ms: u64,
    pub phase: WorkerPhase,
}

impl View for RealtimeWorker {
    type V = Worker;

    closed spec fn view(&self) -> Worker {
        Worker {
            transcript: self.transcript@,
            pending: self.pending,
            next_commit_ms: self.next_commit_ms,
            phase: self.phase,
        }
    }
}

/// The transcript after an event.
pub open spec fn after_event(transcript: Seq<char>, e: JsonTree) -> Seq<char> {
    match event_update(e) {
        Some(update) => updated(transcript, update),
        None => transcript,
    }
}

/// The transcript after events.
pub open spec fn after_events(transcript: Seq<char>, events: Seq<JsonTree>) -> Seq<char>
    decreases events.len(),
{
    if events.len() == 0 {
        transcript
    } else {
        after_event(after_events(transcript, events.drop_last()), events.last())
    }
}

/// How many events are taken at most, by what follows.
pub open spec fn drain_events(then: AfterDrain) -> usize {
    match then {
        AfterDrain::Audio => DRAIN_EVENTS,
        AfterDrain::Commit => COMMIT_DRAIN_EVENTS,
        AfterDrain::Completion { .. } => COMPLETION_DRAIN_EVENTS,
    }
}

/// How long one wait for an event lasts, by what follows.
pub open spec fn drain_timeout(then: AfterDrain) -> u64 {
    match then {
        AfterDrain::Audio => DRAIN_TIMEOUT_MS,
        AfterDrain::Commit => COMMIT_DRAIN_TIMEOUT_MS,
        AfterDrain::Completion { .. } => COMPLETION_DRAIN_TIMEOUT_MS,
    }
}

/// What is to be done in a phase.
pub open spec fn action_in(phase: WorkerPhase) -> WorkerAction {
    match phase {
        WorkerPhase::Receiving => WorkerAction::Receive,
        WorkerPhase::Sending => WorkerAction::SendChunk,
        WorkerPhase::Draining { then, .. } => WorkerAction::ReadEvent(drain_timeout(then)),
        WorkerPhase::Committing => WorkerAction::SendCommit,
        WorkerPhase::Finishing => WorkerAction::SendFinalCommit,
        WorkerPhase::Collecting { .. } => WorkerAction::ReadEvent(COLLECT_TIMEOUT_MS),
        WorkerPhase::Closed => WorkerAction::Close,
    }
}

/// The phase in which the events that are there are taken.
pub open spec fn drain(then: AfterDrain) -> WorkerPhase {
    WorkerPhase::Draining { left: drain_events(then), then }
}

/// The phase in which the last of the transcript is waited for, unless its time is over.
pub open spec fn collect(limit_ms: u64, idle_ms: u64, clock_ms: u64) -> WorkerPhase {
    if clock_ms <= limit_ms {
        WorkerPhase::Collecting { limit_ms, idle_ms }
    } else {
        WorkerPhase::Closed
    }
}

/// The phase at the start of waiting for the last of the transcript.
pub open spec fn begin_collecting(clock_ms: u64) -> WorkerPhase {
    collect(later(clock_ms, COLLECT_LIMIT_MS), later(clock_ms, COLLECT_IDLE_MS), clock_ms)
}

/// The phase once the events that were there have been taken.
pub open spec fn drained(w: Worker, then: AfterDrain, clock_ms: u64) -> WorkerPhase {
    match then {
        AfterDrain::Audio => if w.pending && clock_ms >= w.next_commit_ms {
            WorkerPhase::Committing
        } else {
            WorkerPhase::Receiving
        },
        AfterDrain::Commit => WorkerPhase::Receiving,
        AfterDrain::Completion { limit_ms } => collect(
            limit_ms,
            later(clock_ms, COMPLETED_IDLE_MS),
            clock_ms,
        ),
    }
}

/// The worker after what came of the last action. What does not belong to its phase changes
/// nothing.
pub open spec fn worker_after(w: Worker, came: WorkerInput, clock_ms: u64) -> Worker {
    match (w.phase, came) {
        (WorkerPhase::Receiving, WorkerInput::Chunk(samples)) => if samples == 0 {
            w
        } else {
            Worker { phase: WorkerPhase::Sending, ..w }
        },
        (WorkerPhase::Receiving, WorkerInput::NoChunk) => Worker {
            phase: drain(AfterDrain::Audio),
            ..w
        },
        (WorkerPhase::Receiving, WorkerInput::CaptureOver) => Worker {
            phase: if w.pending {
                WorkerPhase::Finishing
            } else {
                begin_collecting(clock_ms)
            },
            ..w
        },
        (WorkerPhase::Sending, WorkerInput::ChunkSent(_, _)) => Worker {
            pending: true,
            phase: drain(AfterDrain::Audio),
            ..w
        },
        (WorkerPhase::Committing, WorkerInput::CommitSent) => Worker {
            pending: false,
            next_commit_ms: later(clock_ms, COMMIT_INTERVAL_MS),
            phase: drain(AfterDrain::Commit),
            ..w
        },
        (WorkerPhase::Finishing, WorkerInput::CommitSent) => Worker {
            phase: begin_collecting(clock_ms),
            ..w
        },
        (WorkerPhase::Draining { left, then }, WorkerInput::NoEvent) => Worker {
            phase: drained(w, then, clock_ms),
            ..w
        },
        (WorkerPhase::Draining { left, then }, WorkerInput::Event(e)) => Worker {
            transcript: after_event(w.transcript, e),
            phase: if left > 1 {
                WorkerPhase::Draining { left: (left - 1) as usize, then }
            } else {
                drained(w, then, clock_ms)
            },
            ..w
        },
        (WorkerPhase::Collecting { limit_ms, idle_ms }, WorkerInput::NoEvent) => Worker {
            phase: if clock_ms >= idle_ms {
                WorkerPhase::Closed
            } else {
                collect(limit_ms, idle_ms, clock_ms)
            },
            ..w
        },
        (WorkerPhase::Collecting { limit_ms, idle_ms }, WorkerInput::Event(e)) => Worker {
            transcript: after_event(w.transcript, e),
            phase: if is_completion(e) {
                drain(AfterDrain::Completion { limit_ms })
            } else {
                collect(limit_ms, later(clock_ms, COLLECT_IDLE_MS), clock_ms)
            },
            ..w
        },
        _ => w,
    }
}

/// The event that the worker takes, where it takes one.
pub open spec fn taken_event(phase: WorkerPhase, came: WorkerInput) -> Option<JsonTree> {
    match (phase, came) {
        (WorkerPhase::Draining { .. }, WorkerInput::Event(e)) => Some(e),
        (WorkerPhase::Collecting { .. }, WorkerInput::Event(e)) => Some(e),
        _ => None,
    }
}

/// Whether `after` are the notes `before` once the worker has taken this in.
pub open spec fn notes_after(
    before: RealtimeDebugInfo,
    after: RealtimeDebugInfo,
    phase: WorkerPhase,
    came: WorkerInput,
    now_ms: u64,
) -> bool {
    match (phase, came) {
        (WorkerPhase::Sending, WorkerInput::ChunkSent(samples, levels)) => after == chunk_noted(
            before,
            samples as int,
            levels,
        ),
        (WorkerPhase::Committing, WorkerInput::CommitSent) => after == commit_noted(before),
        (WorkerPhase::Finishing, WorkerInput::CommitSent) => after == commit_noted(before),
        _ => match taken_event(phase, came) {
            Some(e) => noted(before, after, e, now_ms),
            None => after == before,
        },
    }
}

/// What is to be done next for a worker, and what the user interface is told.
pub struct WorkerStep {
    pub action: WorkerAction,
    pub message: Option<UiMessage>,
}

fn later_ms(clock_ms: u64, by: u64) -> (r: u64)
    ensures
        r == later(clock_ms, by),
{
    clock_ms.saturating_add(by)
}

fn draining(then: AfterDrain) -> (r: WorkerPhase)
    ensures
        r == drain(then),
{
    let left: usize = match then {
        AfterDrain::Audio => DRAIN_EVENTS,
        AfterDrain::Commit => COMMIT_DRAIN_EVENTS,
        AfterDrain::Completion { .. } => COMPLETION_DRAIN_EVENTS,
    };
    WorkerPhase::Draining { left, then }
}

fn collecting(limit_ms: u64, idle_ms: u64, clock_ms: u64) -> (r: WorkerPhase)
    ensures
        r == collect(limit_ms, idle_ms, clock_ms),
{
    if clock_ms <= limit_ms {
        WorkerPhase::Collecting { limit_ms, idle_ms }
    } else {
        WorkerPhase::Closed
    }
}

fn start_collecting(clock_ms: u64) -> (r: WorkerPhase)
    ensures
        r == begin_collecting(clock_ms),
{
    collecting(
        later_ms(clock_ms, COLLECT_LIMIT_MS),
        later_ms(clock_ms, COLLECT_IDLE_MS),
        clock_ms,
    )
}

fn action_of(phase: WorkerPhase) -> (r: WorkerAction)
    ensures
        r == action_in(phase),
{
    match phase {
        WorkerPhase::Receiving => WorkerAction::Receive,
        WorkerPhase::Sending => WorkerAction::SendChunk,
        WorkerPhase::Draining { then, .. } => {
            let timeout_ms: u64 = match then {
                AfterDrain::Audio => DRAIN_TIMEOUT_MS,
                AfterDrain::Commit => COMMIT_DRAIN_TIMEOUT_MS,
                AfterDrain::Completion { .. } => COMPLETION_DRAIN_TIMEOUT_MS,
            };
            WorkerAction::ReadEvent(timeout_ms)
        },
        WorkerPhase::Committing => WorkerAction::SendCommit,
        WorkerPhase::Finishing => WorkerAction::SendFinalCommit,
        WorkerPhase::Collecting { .. } => WorkerAction::ReadEvent(COLLECT_TIMEOUT_MS),
        WorkerPhase::Closed => WorkerAction::Close,
    }
}

impl RealtimeWorker {
    /// The worker at the start of a recording.
    pub fn new(clock_ms: u64) -> (w: RealtimeWorker)
        ensures
            w@ == (Worker {
                transcript: Seq::empty(),
                pending: false,
                next_commit_ms: later(clock_ms, COMMIT_INTERVAL_MS),
                phase: WorkerPhase::Receiving,
            }),
    {
        let w = RealtimeWorker {
            transcript: String::new(),
            pending: false,
            next_commit_ms: later_ms(clock_ms, COMMIT_INTERVAL_MS),
            phase: WorkerPhase::Receiving,
        };
        assert(w@.transcript =~= Seq::empty());
        w
    }

    /// What is to be done for the worker.
    pub fn action(&self) -> (r: WorkerAction)
        ensures
            r == action_in(self@.phase),
    {
        action_of(self.phase)
    }

    fn phase_after_drain(&self, then: AfterDrain, clock_ms: u64) -> (r: WorkerPhase)
        ensures
            r == drained(self@, then, clock_ms),
    {
        match then {
            AfterDrain::Audio => {
                if self.pending && clock_ms >= self.next_commit_ms {
                    WorkerPhase::Committing
                } else {
                    WorkerPhase::Receiving
                }
            },
            AfterDrain::Commit => WorkerPhase::Receiving,
            AfterDrain::Completion { limit_ms } => collecting(
                limit_ms,
                later_ms(clock_ms, COMPLETED_IDLE_MS),
                clock_ms,
            ),
        }
    }

    /// Takes an event: notes it, and takes its text into the transcript.
    fn take_event(&mut self, progress: &mut RealtimeProgress, event: &Json, now_ms: u64) -> (r:
        Option<UiMessage>)
        requires
            tidy(event@),
        ensures
            final(self)@ == (Worker {
                transcript: after_event(old(self)@.transcript, event@),
                ..old(self)@
            }),
            noted(old(progress).debug, final(progress).debug, event@, now_ms),
            r is Some ==> tidy(r->0.payload@),
            match event_update(event@) {
                Some(update) => {
                    &&& message_view(r) == ui_update(update, final(self)@.transcript)
                    &&& text_noted(
                        *old(progress),
                        *final(progress),
                        final(self)@.transcript,
                        now_ms,
                    )
                },
                None => r is None && same_texts(*old(progress), *final(progress)),
            },
    {
        progress_note_event(progress, event, now_ms);
        match transcript_update_from_event(event) {
            Some(update) => {
                apply_transcript_update(&mut self.transcript, &update);
                set_progress_snapshot(progress, self.transcript.as_str(), now_ms);
                emit_transcript_update_for_ui(&update, self.transcript.as_str())
            },
            None => None,
        }
    }

    /// Takes in what came of the last action, and says what is to be done next.
    pub fn step(
        &mut self,
        progress: &mut RealtimeProgress,
        came: WorkerEvent,
        clock_ms: u64,
        now_ms: u64,
    ) -> (r: WorkerStep)
        requires
            came is Event ==> tidy(came->Event_0@),
        ensures
            final(self)@ == worker_after(old(self)@, came@, clock_ms),
            r.action == action_in(final(self)@.phase),
            r.message is Some ==> tidy(r.message->0.payload@),
            message_view(r.message) == match taken_event(old(self)@.phase, came@) {
                Some(e) => match event_update(e) {
                    Some(update) => ui_update(update, final(self)@.transcript),
                    None => None,
                },
                None => None,
            },
            notes_after(
                old(progress).debug,
                final(progress).debug,
                old(self)@.phase,
                came@,
                now_ms,
            ),
            if (final(self)@.phase is Closed && !(old(self)@.phase is Closed)) || (taken_event(
                old(self)@.phase,
                came@,
            ) is Some && event_update(taken_event(old(self)@.phase, came@)->0) is Some) {
                text_noted(*old(progress), *final(progress), final(self)@.transcript, now_ms)
            } else {
                same_texts(*old(progress), *final(progress))
            },
    {
        let was_closed = match self.phase {
            WorkerPhase::Closed => true,
            _ => false,
        };
        let mut message: Option<UiMessage> = None;
        match (self.phase, came) {
            (WorkerPhase::Receiving, WorkerEvent::Chunk(samples)) => {
                if samples > 0 {
                    self.phase = WorkerPhase::Sending;
                }
            },
            (WorkerPhase::Receiving, WorkerEvent::NoChunk) => {
                self.phase = draining(AfterDrain::Audio);
            },
            (WorkerPhase::Receiving, WorkerEvent::CaptureOver) => {
                self.phase = if self.pending {
                    WorkerPhase::Finishing
                } else {
                    start_collecting(clock_ms)
                };
            },
            (WorkerPhase::Sending, WorkerEvent::ChunkSent(samples, levels)) => {
                progress_note_chunk(progress, samples, levels);
                self.pending = true;
                self.phase = draining(AfterDrain::Audio);
            },
            (WorkerPhase::Committing, WorkerEvent::CommitSent) => {
                progress_note_commit(progress);
                self.pending = false;
                self.next_commit_ms = later_ms(clock_ms, COMMIT_INTERVAL_MS);
                self.phase = draining(AfterDrain::Commit);
            },
            (WorkerPhase::Finishing, WorkerEvent::CommitSent) => {
                progress_note_commit(progress);
                self.phase = start_collecting(clock_ms);
            },
            (WorkerPhase::Draining { left, then }, WorkerEvent::NoEvent) => {
                self.phase = self.phase_after_drain(then, clock_ms);
            },
            (WorkerPhase::Draining { left, then }, WorkerEvent::Event(event)) => {
                message = self.take_event(progress, &event, now_ms);
                self.phase = if left > 1 {
                    WorkerPhase::Draining { left: left - 1, then }
                } else {
                    self.phase_after_drain(then, clock_ms)
                };
            },
            (WorkerPhase::Collecting { limit_ms, idle_ms }, WorkerEvent::NoEvent) => {
                self.phase = if clock_ms >= idle_ms {
                    WorkerPhase::Closed
                } else {
                    collecting(limit_ms, idle_ms, clock_ms)
                };
            },
            (WorkerPhase::Collecting { limit_ms, idle_ms }, WorkerEvent::Event(event)) => {
                message = self.take_event(progress, &event, now_ms);
                self.phase = if event_indicates_completion(&event) {
                    draining(AfterDrain::Completion { limit_ms })
                } else {
                    collecting(limit_ms, later_ms(clock_ms, COLLECT_IDLE_MS), clock_ms)
                };
            },
            _ => {},
        }
        if let WorkerPhase::Closed = self.phase {
            if !was_closed {
                set_progress_snapshot(progress, self.transcript.as_str(), now_ms);
            }
        }
        WorkerStep { action: action_of(self.phase), message }
    }

    /// The transcript at the end.
    pub fn finish(&self) -> (r: String)
        ensures
            r@ == trimmed(self@.transcript),
    {
        trim(self.transcript.as_str()).to_string()
    }
}

/// Events without text leave the transcript as it is.
pub proof fn events_without_text_change_nothing(transcript: Seq<char>, events: Seq<JsonTree>)
    requires
        forall|i: int| 0 <= i < events.len() ==> event_update(#[trigger] events[i]) is None,
    ensures
        after_events(transcript, events) == transcript,
    decreases events.len(),
{
    if events.len() > 0 {
        events_without_text_change_nothing(transcript, events.drop_last());
    }
}

/// Taking events in two parts is taking them all.
pub proof fn events_in_two_parts(transcript: Seq<char>, first: Seq<JsonTree>, second: Seq<JsonTree>)
    ensures
        after_events(transcript, first + second) == after_events(
            after_events(transcript, first),
            second,
        ),
    decreases second.len(),
{
    if second.len() == 0 {
        assert(first + second =~= first);
    } else {
        assert((first + second).drop_last() =~= first + second.drop_last());
        events_in_two_parts(transcript, first, second.drop_last());
    }
}

/// The worker after all that came, each at its time.
pub open spec fn worker_after_all(w: Worker, came: Seq<(WorkerInput, u64)>) -> Worker
    decreases came.len(),
{
    if came.len() == 0 {
        w
    } else {
        worker_after(
            worker_after_all(w, came.drop_last()),
            came.last().0,
            came.last().1,
        )
    }
}

/// The events that a worker takes out of all that came.
pub open spec fn taken_events(w: Worker, came: Seq<(WorkerInput, u64)>) -> Seq<JsonTree>
    decreases came.len(),
{
    if came.len() == 0 {
        Seq::empty()
    } else {
        let before = taken_events(w, came.drop_last());
        match taken_event(worker_after_all(w, came.drop_last()).phase, came.last().0) {
            Some(e) => before.push(e),
            None => before,
        }
    }
}

/// Whatever comes, the transcript of a worker is what the events that it took make of it, in their
/// order.
pub proof fn transcript_is_made_of_the_events(w: Worker, came: Seq<(WorkerInput, u64)>)
    ensures
        worker_after_all(w, came).transcript == after_events(
            w.transcript,
            taken_events(w, came),
        ),
    decreases came.len(),
{
    if came.len() > 0 {
        transcript_is_made_of_the_events(w, came.drop_last());
        let before = worker_after_all(w, came.drop_last());
        let taken = taken_events(w, came.drop_last());
        if let Some(e) = taken_event(before.phase, came.last().0) {
            assert(taken.push(e).drop_last() =~= taken);
        }
    }
}

/// A worker that is done stays so, with its transcript.
pub proof fn closed_stays_closed(w: Worker, came: WorkerInput, clock_ms: u64)
    requires
        w.phase is Closed,
    ensures
        worker_after(w, came, clock_ms) == w,
{
}

/// Whether audio was sent that no commit followed.
pub open spec fn audio_waits(w: Worker, came: Seq<(WorkerInput, u64)>) -> bool
    decreases came.len(),
{
    if came.len() == 0 {
        w.pending
    } else {
        match (worker_after_all(w, came.drop_last()).phase, came.last().0) {
            (WorkerPhase::Sending, WorkerInput::ChunkSent(_, _)) => true,
            (WorkerPhase::Committing, WorkerInput::CommitSent) => false,
            (WorkerPhase::Finishing, WorkerInput::CommitSent) => false,
            _ => audio_waits(w, came.drop_last()),
        }
    }
}

/// Whether a worker is past the end of the capture: it waits for the last of the transcript, or is
/// done.
pub open spec fn is_past_capture(phase: WorkerPhase) -> bool {
    match phase {
        WorkerPhase::Collecting { .. } => true,
        WorkerPhase::Closed => true,
        WorkerPhase::Draining { then, .. } => then is Completion,
        _ => false,
    }
}

/// Whatever comes, all audio that was sent is committed before the last of the transcript is waited
/// for.
pub proof fn all_audio_is_committed(w: Worker, came: Seq<(WorkerInput, u64)>)
    requires
        w.phase is Receiving,
    ensures
        is_past_capture(worker_after_all(w, came).phase) ==> !audio_waits(w, came),
{
    what_waits_is_known(w, came);
}

proof fn what_waits_is_known(w: Worker, came: Seq<(WorkerInput, u64)>)
    requires
        w.phase is Receiving,
    ensures
        if is_past_capture(worker_after_all(w, came).phase) {
            !audio_waits(w, came)
        } else {
            audio_waits(w, came) == worker_after_all(w, came).pending
        },
    decreases came.len(),
{
    if came.len() > 0 {
        what_waits_is_known(w, came.drop_last());
    }
}

/// A worker waits for the last of the transcript no longer than its limit: once that is over, it is
/// done with what comes next, unless that says that the transcript is complete and more of it may
/// be there.
pub proof fn collecting_ends(w: Worker, came: WorkerInput, clock_ms: u64)
    requires
        w.phase is Collecting,
        came is Event || came is NoEvent,
        clock_ms > w.phase->Collecting_limit_ms,
        !(came is Event && is_completion(came->Event_0)),
    ensures
        worker_after(w, came, clock_ms).phase is Closed,
{
}

// ---------------------------------------------------------------------------------------------
// Laws of the worker
// ---------------------------------------------------------------------------------------------

/// After a stream of events that bring more text, the transcript is what it was, followed by those
/// texts.
pub proof fn deltas_follow_each_other(
    transcript: Seq<char>,
    events: Seq<JsonTree>,
    deltas: Seq<Seq<char>>,
)
    requires
        events.len() == deltas.len(),
        forall|i: int| 0 <= i < events.len() ==> is_delta_event(#[trigger] events[i], deltas[i]),
    ensures
        after_events(transcript, events) == transcript + deltas.flatten_alt(),
    decreases events.len(),
{
    if events.len() == 0 {
        assert(transcript + deltas.flatten_alt() =~= transcript);
    } else {
        let front = events.drop_last();
        assert forall|i: int| 0 <= i < front.len() implies is_delta_event(
            #[trigger] front[i],
            deltas.drop_last()[i],
        ) by {
            assert(is_delta_event(events[i], deltas[i]));
        }
        deltas_follow_each_other(transcript, front, deltas.drop_last());
        assert(is_delta_event(events[events.len() - 1], deltas[events.len() - 1]));
        delta_event_updates(events.last(), deltas.last());
        assert(deltas.flatten_alt() =~= deltas.drop_last().flatten_alt() + deltas.last());
        assert(after_events(transcript, events) =~= transcript + deltas.flatten_alt());
    }
}

/// The worker at its start waits for audio, has nothing to commit before 450 milliseconds have
/// passed, and has no text.
pub proof fn worker_at_its_start(clock_ms: u64, w: RealtimeWorker)
    requires
        call_ensures(RealtimeWorker::new, (clock_ms,), w),
        clock_ms + 450 <= u64::MAX,
    ensures
        w@.transcript.len() == 0,
        !w@.pending,
        w@.phase is Receiving,
        w@.next_commit_ms == clock_ms + 450,
{
}

/// While it captures, the worker sends every chunk that holds samples, reads what the server says
/// where none came, and once the capture is over commits what was sent and not committed, or waits
/// for the last of the transcript: for 6 seconds at most, and for 700 milliseconds where nothing
/// comes.
pub proof fn worker_receives(
    w: &mut RealtimeWorker,
    progress: &mut RealtimeProgress,
    came: WorkerEvent,
    clock_ms: u64,
    now_ms: u64,
    r: WorkerStep,
)
    requires
        call_ensures(RealtimeWorker::step, (w, progress, came, clock_ms, now_ms), r),
        old(w)@.phase is Receiving,
        clock_ms + 6_000 <= u64::MAX,
    ensures
        final(w)@.transcript == old(w)@.transcript,
        final(w)@.pending == old(w)@.pending,
        final(w)@.next_commit_ms == old(w)@.next_commit_ms,
        came is Chunk && came->Chunk_0 > 0 ==> r.action is SendChunk,
        came is Chunk && came->Chunk_0 == 0 ==> r.action is Receive,
        came is NoChunk ==> r.action == WorkerAction::ReadEvent(10),
        came is CaptureOver && old(w)@.pending ==> r.action is SendFinalCommit,
        came is CaptureOver && !old(w)@.pending ==> {
            &&& r.action == WorkerAction::ReadEvent(200)
            &&& final(w)@.phase == (WorkerPhase::Collecting {
                limit_ms: (clock_ms + 6_000) as u64,
                idle_ms: (clock_ms + 700) as u64,
            })
        },
{
}

/// Once a chunk was sent there is audio to commit, and the server is listened to. Once audio was
/// committed there is none, and the next commit is 450 milliseconds away; after the last commit the
/// last of the transcript is waited for.
pub proof fn worker_sends_and_commits(
    w: &mut RealtimeWorker,
    progress: &mut RealtimeProgress,
    came: WorkerEvent,
    clock_ms: u64,
    now_ms: u64,
    r: WorkerStep,
)
    requires
        call_ensures(RealtimeWorker::step, (w, progress, came, clock_ms, now_ms), r),
        clock_ms + 6_000 <= u64::MAX,
    ensures
        old(w)@.phase is Sending && came is ChunkSent ==> {
            &&& final(w)@.pending
            &&& r.action == WorkerAction::ReadEvent(10)
            &&& final(w)@.transcript == old(w)@.transcript
            &&& final(w)@.next_commit_ms == old(w)@.next_commit_ms
            &&& came->ChunkSent_0 > 0 && old(progress).debug.chunks_sent < u64::MAX
                ==> final(progress).debug.chunks_sent == old(progress).debug.chunks_sent + 1
        },
        old(w)@.phase is Committing && came is CommitSent ==> {
            &&& !final(w)@.pending
            &&& final(w)@.next_commit_ms == clock_ms + 450
            &&& r.action == WorkerAction::ReadEvent(30)
            &&& final(w)@.transcript == old(w)@.transcript
            &&& old(progress).debug.commits_sent < u64::MAX ==> final(progress).debug.commits_sent
                == old(progress).debug.commits_sent + 1
        },
        old(w)@.phase is Finishing && came is CommitSent ==> {
            &&& r.action == WorkerAction::ReadEvent(200)
            &&& final(w)@.phase == (WorkerPhase::Collecting {
                limit_ms: (clock_ms + 6_000) as u64,
                idle_ms: (clock_ms + 700) as u64,
            })
            &&& final(w)@.transcript == old(w)@.transcript
        },
{
}

/// Between chunks the worker reads on for as long as events come, up to as many as it takes at
/// once. Then it commits where there is audio to commit and its time has come, and else waits for
/// the next chunk.
pub proof fn worker_listens_between_chunks(
    w: &mut RealtimeWorker,
    progress: &mut RealtimeProgress,
    came: WorkerEvent,
    clock_ms: u64,
    now_ms: u64,
    r: WorkerStep,
)
    requires
        call_ensures(RealtimeWorker::step, (w, progress, came, clock_ms, now_ms), r),
        old(w)@.phase is Draining,
        old(w)@.phase->then is Audio || old(w)@.phase->then is Commit,
    ensures
        final(w)@.pending == old(w)@.pending,
        final(w)@.next_commit_ms == old(w)@.next_commit_ms,
        came is Event && old(w)@.phase->left > 1 ==> r.action is ReadEvent && final(w)@.phase
            == (WorkerPhase::Draining {
            left: (old(w)@.phase->left - 1) as usize,
            then: old(w)@.phase->then,
        }),
        came is NoEvent || (came is Event && old(w)@.phase->left <= 1) ==> r.action
            == if old(w)@.phase->then is Audio && old(w)@.pending && clock_ms
            >= old(w)@.next_commit_ms {
            WorkerAction::SendCommit
        } else {
            WorkerAction::Receive
        },
{
}

/// How many events the worker takes at once: 24 between chunks, 96 after a commit and 64 after an
/// end of the transcript.
pub proof fn worker_takes_so_many_events(
    w: &mut RealtimeWorker,
    progress: &mut RealtimeProgress,
    came: WorkerEvent,
    clock_ms: u64,
    now_ms: u64,
    r: WorkerStep,
)
    requires
        call_ensures(RealtimeWorker::step, (w, progress, came, clock_ms, now_ms), r),
        !(old(w)@.phase is Draining),
        final(w)@.phase is Draining,
    ensures
        final(w)@.phase->left == match final(w)@.phase->then {
            AfterDrain::Audio => 24int,
            AfterDrain::Commit => 96int,
            AfterDrain::Completion { .. } => 64int,
        },
{
}

/// While the worker waits for the last of the transcript and its time is not over, no event ends
/// the waiting: each is followed by reading on. One that does not say that the transcript is
/// complete gives it another 700 milliseconds. Where nothing comes, the waiting ends exactly when
/// the idle moment has come or the time is over.
pub proof fn collecting_goes_on(
    w: &mut RealtimeWorker,
    progress: &mut RealtimeProgress,
    came: WorkerEvent,
    clock_ms: u64,
    now_ms: u64,
    r: WorkerStep,
    limit_ms: u64,
    idle_ms: u64,
)
    requires
        call_ensures(RealtimeWorker::step, (w, progress, came, clock_ms, now_ms), r),
        old(w)@.phase == (WorkerPhase::Collecting { limit_ms, idle_ms }),
        clock_ms + 700 <= u64::MAX,
    ensures
        came is Event && clock_ms <= limit_ms ==> {
            &&& !(final(w)@.phase is Closed)
            &&& r.action is ReadEvent
            &&& final(w)@.phase is Collecting ==> final(w)@.phase == (WorkerPhase::Collecting {
                limit_ms,
                idle_ms: (clock_ms + 700) as u64,
            }) && r.action == WorkerAction::ReadEvent(200)
            &&& !(final(w)@.phase is Collecting) ==> final(w)@.phase == (WorkerPhase::Draining {
                left: 64,
                then: AfterDrain::Completion { limit_ms },
            }) && r.action == WorkerAction::ReadEvent(15)
            &&& forall|d: Seq<char>|
                #[trigger] is_delta_event(came->Event_0@, d) && lookup(
                    came->Event_0@->Object_0,
                    "status"@,
                ) is None && lookup(came->Event_0@->Object_0, "response"@) is None
                    ==> final(w)@.phase is Collecting
        },
        came is NoEvent ==> {
            &&& final(w)@.transcript == old(w)@.transcript
            &&& final(w)@.phase is Closed <==> clock_ms >= idle_ms || clock_ms > limit_ms
            &&& !(final(w)@.phase is Closed) ==> final(w)@.phase == old(w)@.phase && r.action
                == WorkerAction::ReadEvent(200)
            &&& final(w)@.phase is Closed ==> r.action is Close
        },
{
    if let WorkerEvent::Event(event) = came {
        assert forall|d: Seq<char>| #[trigger] is_delta_event(event@, d) && lookup(
            event@->Object_0,
            "status"@,
        ) is None && lookup(event@->Object_0, "response"@) is None implies !is_completion(
            event@,
        ) by {
            delta_without_status_is_no_end(event@, d);
        }
    }
}

/// What is left after an end of the transcript is read too; then another 250 milliseconds are
/// waited where nothing comes, unless the time is over.
pub proof fn collecting_goes_on_after_an_end(
    w: &mut RealtimeWorker,
    progress: &mut RealtimeProgress,
    came: WorkerEvent,
    clock_ms: u64,
    now_ms: u64,
    r: WorkerStep,
    left: usize,
    limit_ms: u64,
)
    requires
        call_ensures(RealtimeWorker::step, (w, progress, came, clock_ms, now_ms), r),
        old(w)@.phase == (WorkerPhase::Draining { left, then: AfterDrain::Completion { limit_ms } }),
        clock_ms + 250 <= u64::MAX,
    ensures
        came is Event && left > 1 ==> final(w)@.phase == (WorkerPhase::Draining {
            left: (left - 1) as usize,
            then: AfterDrain::Completion { limit_ms },
        }) && r.action == WorkerAction::ReadEvent(15),
        came is NoEvent || (came is Event && left <= 1) ==> {
            &&& clock_ms <= limit_ms ==> final(w)@.phase == (WorkerPhase::Collecting {
                limit_ms,
                idle_ms: (clock_ms + 250) as u64,
            }) && r.action == WorkerAction::ReadEvent(200)
            &&& clock_ms > limit_ms ==> final(w)@.phase is Closed && r.action is Close
        },
{
}

/// Whatever the worker is at, an event that comes while it reads is taken into the transcript: more
/// text is added at its end, and the interface is told that text and the transcript so far.
pub proof fn event_is_taken(
    w: &mut RealtimeWorker,
    progress: &mut RealtimeProgress,
    came: WorkerEvent,
    clock_ms: u64,
    now_ms: u64,
    r: WorkerStep,
    delta: Seq<char>,
)
    requires
        call_ensures(RealtimeWorker::step, (w, progress, came, clock_ms, now_ms), r),
        came is Event,
        old(w)@.phase is Draining || old(w)@.phase is Collecting,
        is_delta_event(came->Event_0@, delta),
    ensures
        final(w)@.transcript == old(w)@.transcript + delta,
        !is_ink_of(Seq::empty(), final(w)@.transcript) ==> {
            &&& r.message is Some
            &&& r.message->0.event_type@ == "transcript.delta"@
            &&& r.message->0.payload@ is Object
            &&& lookup(r.message->0.payload@->Object_0, "delta"@) == Some(JsonTree::Text(delta))
            &&& lookup(r.message->0.payload@->Object_0, "preview"@) == Some(
                JsonTree::Text(final(progress).transcript_preview@),
            )
            &&& is_ink_of(final(progress).transcript_preview@, final(w)@.transcript)
            &&& final(progress).updated_at_ms == Some(now_ms)
        },
        old(progress).debug.events_received < u64::MAX ==> final(progress).debug.events_received
            == old(progress).debug.events_received + 1,
{
    let event = came->Event_0@;
    delta_event_updates(event, delta);
    trimming_keeps_the_ink(final(w)@.transcript);
    let preview = JsonTree::Text(trimmed(final(w)@.transcript));
    let first = put(no_fields(), "delta"@, JsonTree::Text(delta));
    assert("delta"@ != "preview"@) by {
        reveal_strlit("delta");
        reveal_strlit("preview");
        assert("delta"@.len() == 5 && "preview"@.len() == 7);
    }
    lookups_after_put(no_fields(), "delta"@, JsonTree::Text(delta));
    lookups_after_put(first, "preview"@, preview);
    if trimmed(final(w)@.transcript).len() == 0 {
        assert(trimmed(final(w)@.transcript) =~= Seq::empty());
    }
}

/// An event that brings the whole of what was said is taken into the transcript too, which then
/// begins with what it was and ends with that whole.
pub proof fn whole_event_is_taken(
    w: &mut RealtimeWorker,
    progress: &mut RealtimeProgress,
    came: WorkerEvent,
    clock_ms: u64,
    now_ms: u64,
    r: WorkerStep,
    whole: Seq<char>,
    ink: Seq<char>,
    before: Seq<char>,
)
    requires
        call_ensures(RealtimeWorker::step, (w, progress, came, clock_ms, now_ms), r),
        came is Event,
        old(w)@.phase is Draining || old(w)@.phase is Collecting,
        is_whole_event(came->Event_0@, whole),
        is_ink_of(ink, whole),
        is_ink_of(before, old(w)@.transcript),
    ensures
        ink == before ==> final(w)@.transcript == old(w)@.transcript,
        ink.len() > 0 && before.len() == 0 ==> final(w)@.transcript == ink,
        forall|after: Seq<char>|
            #[trigger] is_ink_of(after, final(w)@.transcript) && ink.len() > 0 ==> {
                &&& after.len() >= ink.len()
                &&& after.skip(after.len() - ink.len()) == ink
                &&& after.len() >= before.len()
                &&& after.take(before.len() as int) == before
            },
{
    whole_event_updates(came->Event_0@, whole);
    ink_is_unique(ink, whole);
    ink_is_unique(before, old(w)@.transcript);
    assert(final(w)@.transcript == merged(old(w)@.transcript, whole));
    if ink.len() > 0 {
        merged_finishes_with_snapshot(old(w)@.transcript, whole);
        merging_loses_nothing(old(w)@.transcript, whole);
        assert forall|after: Seq<char>| #[trigger] is_ink_of(after, final(w)@.transcript) implies {
            &&& after.len() >= ink.len()
            &&& after.skip(after.len() - ink.len()) == ink
            &&& after.len() >= before.len()
            &&& after.take(before.len() as int) == before
        } by {
            ink_is_unique(after, final(w)@.transcript);
            assert(after.subrange(after.len() - ink.len(), after.len() as int) =~= after.skip(
                after.len() - ink.len(),
            ));
            assert(after.subrange(0, before.len() as int) =~= after.take(before.len() as int));
        }
    }
}

/// Every event that comes in time while the last of the transcript is waited for is taken: after
/// any number of events that bring more text, none of them later than the limit, the worker still
/// reads, and its transcript is what it was, followed by all of those texts.
pub proof fn nothing_is_lost_while_collecting(
    w: Worker,
    events: Seq<(WorkerInput, u64)>,
    deltas: Seq<Seq<char>>,
    limit_ms: u64,
)
    requires
        w.phase is Collecting,
        w.phase->Collecting_limit_ms == limit_ms,
        events.len() == deltas.len(),
        forall|i: int|
            0 <= i < events.len() ==> {
                &&& (#[trigger] events[i]).0 is Event
                &&& is_delta_event(events[i].0->Event_0, deltas[i])
                &&& events[i].1 <= limit_ms
            },
    ensures
        worker_after_all(w, events).transcript == w.transcript + deltas.flatten_alt(),
        !(worker_after_all(w, events).phase is Closed),
{
    still_collecting(w, events, deltas, limit_ms);
}

proof fn still_collecting(
    w: Worker,
    events: Seq<(WorkerInput, u64)>,
    deltas: Seq<Seq<char>>,
    limit_ms: u64,
)
    requires
        w.phase is Collecting,
        w.phase->Collecting_limit_ms == limit_ms,
        events.len() == deltas.len(),
        forall|i: int|
            0 <= i < events.len() ==> {
                &&& (#[trigger] events[i]).0 is Event
                &&& is_delta_event(events[i].0->Event_0, deltas[i])
                &&& events[i].1 <= limit_ms
            },
    ensures
        worker_after_all(w, events).transcript == w.transcript + deltas.flatten_alt(),
        match worker_after_all(w, events).phase {
            WorkerPhase::Collecting { limit_ms: l, .. } => l == limit_ms,
            WorkerPhase::Draining { then, .. } => then == (AfterDrain::Completion { limit_ms }),
            _ => false,
        },
    decreases events.len(),
{
    if events.len() == 0 {
        assert(w.transcript + deltas.flatten_alt() =~= w.transcript);
    } else {
        let front = events.drop_last();
        assert forall|i: int| 0 <= i < front.len() implies {
            &&& (#[trigger] front[i]).0 is Event
            &&& is_delta_event(front[i].0->Event_0, deltas.drop_last()[i])
            &&& front[i].1 <= limit_ms
        } by {
            assert(events[i].0 is Event);
        }
        still_collecting(w, front, deltas.drop_last(), limit_ms);
        let last = events[events.len() - 1];
        assert(last.0 is Event && is_delta_event(last.0->Event_0, deltas[events.len() - 1]));
        delta_event_updates(last.0->Event_0, deltas.last());
        assert(deltas.flatten_alt() =~= deltas.drop_last().flatten_alt() + deltas.last());
        assert(worker_after_all(w, events).transcript =~= w.transcript + deltas.flatten_alt());
    }
}

/// What the worker gives at its end is its transcript without the white space around it.
pub proof fn end_gives_the_transcript(w: &RealtimeWorker, r: String)
    requires
        call_ensures(RealtimeWorker::finish, (w,), r),
    ensures
        is_ink_of(r@, w@.transcript),
{
    trimming_keeps_the_ink(w@.transcript);
}

} // verus!
