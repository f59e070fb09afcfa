use omni::json::Json;
use omni::progress::{AudioLevels, RealtimeProgress};
use omni::realtime::{RealtimeWorker, WorkerAction, WorkerEvent, WorkerStep};

fn event(text: &str) -> WorkerEvent {
    WorkerEvent::Event(Json::parse(text).expect("text should be JSON"))
}

fn quiet() -> AudioLevels {
    AudioLevels {
        rms: 0,
        peak: 0,
        avg_rms: 0,
    }
}

struct Run {
    worker: RealtimeWorker,
    progress: RealtimeProgress,
}

impl Run {
    fn new() -> Run {
        Run {
            worker: RealtimeWorker::new(0),
            progress: RealtimeProgress::default(),
        }
    }

    fn step(&mut self, came: WorkerEvent, clock_ms: u64) -> WorkerStep {
        self.worker.step(&mut self.progress, came, clock_ms, 1_000 + clock_ms)
    }

    fn action(&mut self, came: WorkerEvent, clock_ms: u64) -> WorkerAction {
        self.step(came, clock_ms).action
    }
}

#[test]
fn audio_is_sent_and_committed_in_time() {
    let mut run = Run::new();
    assert_eq!(run.worker.action(), WorkerAction::Receive);
    assert_eq!(run.action(WorkerEvent::Chunk(0), 1), WorkerAction::Receive);
    assert_eq!(run.action(WorkerEvent::Chunk(4), 2), WorkerAction::SendChunk);
    assert_eq!(
        run.action(WorkerEvent::ChunkSent(4, quiet()), 3),
        WorkerAction::ReadEvent(10)
    );
    assert_eq!(run.progress.debug.chunks_sent, 1);
    assert_eq!(run.action(WorkerEvent::NoEvent, 20), WorkerAction::Receive);
    assert_eq!(run.action(WorkerEvent::NoChunk, 449), WorkerAction::ReadEvent(10));
    assert_eq!(run.action(WorkerEvent::NoEvent, 450), WorkerAction::SendCommit);
    assert_eq!(
        run.action(WorkerEvent::CommitSent, 451),
        WorkerAction::ReadEvent(30)
    );
    assert_eq!(run.progress.debug.commits_sent, 1);
    assert_eq!(run.action(WorkerEvent::NoEvent, 460), WorkerAction::Receive);
    // Nothing waits to be committed any more.
    assert_eq!(run.action(WorkerEvent::NoChunk, 2_000), WorkerAction::ReadEvent(10));
    assert_eq!(run.action(WorkerEvent::NoEvent, 2_001), WorkerAction::Receive);
}

#[test]
fn events_are_taken_up_to_a_limit() {
    let mut run = Run::new();
    run.action(WorkerEvent::NoChunk, 1);
    for _ in 0..23 {
        assert_eq!(run.action(event("{}"), 2), WorkerAction::ReadEvent(10));
    }
    assert_eq!(run.action(event("{}"), 2), WorkerAction::Receive);
    assert_eq!(run.progress.debug.events_received, 24);
}

#[test]
fn text_goes_into_the_transcript_and_to_the_interface() {
    let mut run = Run::new();
    run.action(WorkerEvent::NoChunk, 1);
    let step = run.step(event(r#"{"type":"transcription.delta","delta":"hello"}"#), 2);
    let message = step.message.expect("told");
    assert_eq!(message.event_type, "transcript.delta");
    assert_eq!(message.payload.to_text(), r#"{"delta":"hello","preview":"hello"}"#);
    assert_eq!(run.progress.transcript_preview, "hello");
    assert_eq!(run.progress.updated_at_ms, Some(1_002));
    let step = run.step(event(r#"{"type":"transcription.done","text":"hello world"}"#), 3);
    assert_eq!(step.message.expect("told").event_type, "transcript.snapshot");
    assert_eq!(run.worker.finish(), "hello world");
}

#[test]
fn the_last_audio_is_committed() {
    let mut run = Run::new();
    run.action(WorkerEvent::Chunk(4), 1);
    run.action(WorkerEvent::ChunkSent(4, quiet()), 2);
    run.action(WorkerEvent::NoEvent, 3);
    assert_eq!(
        run.action(WorkerEvent::CaptureOver, 4),
        WorkerAction::SendFinalCommit
    );
    assert_eq!(
        run.action(WorkerEvent::CommitSent, 5),
        WorkerAction::ReadEvent(200)
    );
}

#[test]
fn waiting_for_the_last_text_ends_where_nothing_comes() {
    let mut run = Run::new();
    assert_eq!(
        run.action(WorkerEvent::CaptureOver, 0),
        WorkerAction::ReadEvent(200)
    );
    assert_eq!(run.action(WorkerEvent::NoEvent, 699), WorkerAction::ReadEvent(200));
    assert_eq!(run.action(WorkerEvent::NoEvent, 700), WorkerAction::Close);
    assert_eq!(run.action(WorkerEvent::NoEvent, 900), WorkerAction::Close);
}

#[test]
fn waiting_for_the_last_text_goes_on_while_events_come() {
    let mut run = Run::new();
    run.action(WorkerEvent::CaptureOver, 0);
    assert_eq!(run.action(event("{}"), 600), WorkerAction::ReadEvent(200));
    assert_eq!(run.action(WorkerEvent::NoEvent, 1_200), WorkerAction::ReadEvent(200));
    assert_eq!(run.action(event("{}"), 6_000), WorkerAction::ReadEvent(200));
    assert_eq!(run.action(event("{}"), 6_001), WorkerAction::Close);
}

#[test]
fn after_the_end_of_the_text_little_time_is_left() {
    let mut run = Run::new();
    run.action(WorkerEvent::CaptureOver, 0);
    assert_eq!(
        run.action(event(r#"{"type":"transcription.done","text":"bye"}"#), 10),
        WorkerAction::ReadEvent(15)
    );
    assert_eq!(run.action(WorkerEvent::NoEvent, 30), WorkerAction::ReadEvent(200));
    assert_eq!(run.action(WorkerEvent::NoEvent, 279), WorkerAction::ReadEvent(200));
    assert_eq!(run.action(WorkerEvent::NoEvent, 280), WorkerAction::Close);
    assert_eq!(run.worker.finish(), "bye");
    assert_eq!(run.progress.transcript_preview, "bye");
    assert_eq!(run.progress.updated_at_ms, Some(1_280));
}
