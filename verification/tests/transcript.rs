//! From recognised words to requests.

use mague_rc::app::boundary::{boundary_deferral, BoundaryDeferral};
use mague_rc::app::transcript_worker::{
    handle_deepgram_event, handle_stt_status, queue_transcript_chunk, Lookup, TranscriptStep,
};
use mague_rc::app::{TranscriptCommand, TranscriptStats, TranscriptWorker, TranscriptWorkerError};
use mague_rc::events::{
    AppErrorView, DeepgramEvent, KnowledgeContext, KnowledgeSnippet, LlmRequest, Mode,
    OutputComponent, OutputEvent, QueueKind, QueueState, Speaker, StatusKind, StatusMessage,
    SttObservation, SttStatus, TranscriptChunk, TranscriptView,
};
use mague_rc::llm::LlmQueueError;
use mague_rc::numbers::Single;
use mague_rc::transcript::window::novel_text;
use mague_rc::transcript::TranscriptWindowAssembler;

fn assembler() -> TranscriptWindowAssembler {
    TranscriptWindowAssembler::new(3)
}

fn text(chunk: Option<TranscriptChunk>) -> Option<String> {
    chunk.map(|chunk| chunk.text)
}

#[test]
fn flushes_only_final_text() {
    let mut assembler = assembler();
    assembler.push_transcript("Что такое HashMap?", true);

    assert_eq!(
        text(assembler.flush()),
        Some("Что такое HashMap?".to_owned())
    );
}

#[test]
fn flushes_only_new_tail_of_growing_interim() {
    let mut assembler = assembler();
    assembler.push_transcript("расскажите про hash", false);
    assert_eq!(
        text(assembler.flush()),
        Some("расскажите про hash".to_owned())
    );

    assembler.push_transcript("расскажите про hash map и устройство", false);
    assert_eq!(text(assembler.flush()), Some("map и устройство".to_owned()));
}

#[test]
fn matching_final_does_not_repeat_sent_interim() {
    let mut assembler = assembler();
    assembler.push_transcript("расскажите про HashMap", false);
    assert!(assembler.flush().is_some());

    assembler.push_transcript("расскажите про HashMap", true);

    assert_eq!(assembler.flush(), None);
}

#[test]
fn corrected_final_is_sent_in_full() {
    let mut assembler = assembler();
    assembler.push_transcript("расскажите про HashSet", false);
    assert!(assembler.flush().is_some());

    assembler.push_transcript("расскажите про HashMap", true);

    assert_eq!(
        text(assembler.flush()),
        Some("расскажите про HashMap".to_owned())
    );
}

#[test]
fn joins_multiple_finals_inside_one_window() {
    let mut assembler = assembler();
    assembler.push_transcript("Как устроен HashMap?", true);
    assembler.push_transcript("Почему нужен hashCode?", true);

    assert_eq!(
        text(assembler.flush()),
        Some("Как устроен HashMap? Почему нужен hashCode?".to_owned())
    );
}

#[test]
fn empty_window_produces_no_chunk() {
    assert_eq!(assembler().flush(), None);
}

#[test]
fn shutdown_flush_returns_accumulated_text() {
    let mut assembler = assembler();
    assembler.push_transcript("незаконченный вопрос", false);

    assert_eq!(
        text(assembler.finish()),
        Some("незаконченный вопрос".to_owned())
    );
}

#[test]
fn shutdown_flush_combines_pending_final_and_new_interim() {
    let mut assembler = assembler();
    assembler.push_transcript("подтвержденная часть", true);
    assembler.push_transcript("новый незаконченный хвост", false);

    assert_eq!(
        text(assembler.finish()),
        Some("подтвержденная часть новый незаконченный хвост".to_owned())
    );
    assert_eq!(assembler.finish(), None);
}

#[test]
fn repeated_growing_prefix_is_not_duplicated() {
    let mut assembler = assembler();
    assembler.push_transcript("как работает", false);
    assert_eq!(text(assembler.flush()), Some("как работает".to_owned()));

    assembler.push_transcript("как работает сборщик мусора", false);
    assert_eq!(text(assembler.flush()), Some("сборщик мусора".to_owned()));
    assert_eq!(assembler.flush(), None);
}

#[test]
fn short_tail_waits_for_more_interim_text() {
    let mut assembler = TranscriptWindowAssembler::new(5);
    assembler.push_transcript("что такое hash", false);
    assert!(assembler.flush().is_some());

    assembler.push_transcript("что такое hash map", false);
    assert_eq!(assembler.flush(), None);

    assembler.push_transcript("что такое hash map внутри", false);
    assert_eq!(text(assembler.flush()), Some("map внутри".to_owned()));
}

#[test]
fn final_has_priority_over_new_interim() {
    let mut assembler = assembler();
    assembler.push_transcript("первая часть", true);
    assembler.push_transcript("следующая часть вопроса", false);

    assert_eq!(text(assembler.flush()), Some("первая часть".to_owned()));
    assert_eq!(
        text(assembler.flush()),
        Some("следующая часть вопроса".to_owned())
    );
}

#[test]
fn chunks_are_numbered_in_order() {
    let mut assembler = assembler();
    assembler.push_transcript("первый вопрос", true);
    assert_eq!(assembler.flush().map(|chunk| chunk.sequence), Some(0));
    assembler.push_transcript("второй вопрос", true);
    assert_eq!(assembler.flush().map(|chunk| chunk.sequence), Some(1));
}

#[test]
fn preview_shows_what_is_heard_and_discarding_drops_it() {
    let mut assembler = assembler();
    assembler.push_transcript("первая часть", true);
    assembler.push_transcript("вторая", false);
    assert_eq!(assembler.preview(), "первая часть вторая");
    assert!(assembler.has_unfinalized_interim());

    assembler.discard_pending();
    assert_eq!(assembler.preview(), "");
    assert!(!assembler.has_unfinalized_interim());
    assert_eq!(assembler.finish(), None);
}

#[test]
fn only_words_that_grow_are_new() {
    assert_eq!(novel_text("", "что такое"), Some("что такое".to_owned()));
    assert_eq!(novel_text("что такое", "что такое"), None);
    assert_eq!(
        novel_text("что такое", "что такое HashMap"),
        Some("HashMap".to_owned())
    );
    assert_eq!(
        novel_text("что такое", "как устроен HashMap"),
        Some("как устроен HashMap".to_owned())
    );
}

#[test]
fn classifies_only_suspicious_boundaries_as_incomplete() {
    assert_eq!(
        boundary_deferral("Расскажите, за счет ЧЕГО..."),
        Some(BoundaryDeferral::DanglingSuffix)
    );
    assert_eq!(
        boundary_deferral("Какие операции выполняются и какие"),
        Some(BoundaryDeferral::DanglingSuffix)
    );
    assert_eq!(
        boundary_deferral("Если у нас"),
        Some(BoundaryDeferral::DanglingSuffix)
    );
    assert_eq!(
        boundary_deferral("Представим, что два приложения обновляют запись."),
        Some(BoundaryDeferral::Setup)
    );
    assert_eq!(
        boundary_deferral("Так, ну, давайте, наверное, начнём со Spring Boot."),
        Some(BoundaryDeferral::Introduction)
    );
    assert_eq!(
        boundary_deferral("Хорошо, теперь Java."),
        Some(BoundaryDeferral::ShortFragment)
    );
    assert_eq!(
        boundary_deferral("В чем разница между"),
        Some(BoundaryDeferral::DanglingSuffix)
    );
    assert_eq!(boundary_deferral("Что такое HashMap?"), None);
    assert_eq!(boundary_deferral("Что произойдет после?"), None);
    assert_eq!(boundary_deferral("И что?"), None);
    assert_eq!(boundary_deferral("Между чем?"), None);
    assert_eq!(boundary_deferral("Расскажите о Java."), None);
}

#[test]
fn a_text_without_words_is_complete() {
    assert_eq!(boundary_deferral(""), None);
    assert_eq!(boundary_deferral("..."), None);
}

struct Run {
    worker: TranscriptWorker,
    outputs: Vec<OutputEvent>,
    requests: Vec<LlmRequest>,
}

fn run_of(speaker: Speaker) -> Run {
    Run {
        worker: TranscriptWorker::new(3, speaker, false),
        outputs: Vec::new(),
        requests: Vec::new(),
    }
}

impl Run {
    fn perform(&mut self, step: TranscriptStep) {
        self.outputs.extend(step.outputs);
        if let Some(submission) = step.submission {
            let (reports, request) = submission.resolved(Lookup::Skipped);
            self.outputs.extend(reports);
            self.requests.push(request);
            let waiting = self.requests.len();
            let queued = self.worker.queued(waiting);
            assert!(!queued.reset_retrieval);
            self.outputs.push(queued.report);
        }
        if let Some(event) = step.closing {
            self.outputs.push(event);
        }
    }

    fn hear(&mut self, event: DeepgramEvent) {
        let step = self.worker.hear(event);
        self.perform(step);
    }

    fn end(&mut self) {
        let step = self.worker.end();
        self.perform(step);
    }

    fn texts(&self) -> Vec<&str> {
        self.requests.iter().map(|request| request.text.as_str()).collect()
    }

    fn submitted(&self) -> Vec<&TranscriptView> {
        self.outputs
            .iter()
            .filter_map(|event| match event {
                OutputEvent::Transcript(view) => Some(view),
                _ => None,
            })
            .collect()
    }
}

fn words(
    text: &str,
    is_final: bool,
    speech_final: bool,
    timing: Option<(u64, u64, u64)>,
) -> DeepgramEvent {
    DeepgramEvent::Transcript {
        text: text.to_owned(),
        is_final,
        speech_final,
        audio_start_ms: timing.map(|timing| timing.0),
        audio_duration_ms: timing.map(|timing| timing.1),
        last_word_end_ms: timing.map(|timing| timing.2),
    }
}

#[test]
fn speech_final_queues_a_voice_request_immediately() {
    let mut run = run_of(Speaker::Interviewer);
    run.hear(words("Что такое HashMap?", true, true, Some((100, 900, 900))));
    run.end();

    assert_eq!(run.worker.stats().chunks, 1);
    assert_eq!(run.requests.len(), 1);
    assert_eq!(run.requests[0].request_id, 0);
    assert_eq!(run.requests[0].mode, Mode::Voice);
    assert_eq!(run.requests[0].text, "Что такое HashMap?");
    assert_eq!(
        run.outputs[0],
        OutputEvent::SttObservation {
            speaker: Speaker::Interviewer,
            observation: SttObservation::Transcript {
                text: "Что такое HashMap?".to_owned(),
                is_final: true,
                speech_final: true,
                speech_final_deferred: false,
                audio_start_ms: Some(100),
                audio_duration_ms: Some(900),
                last_word_end_ms: Some(900),
            },
        }
    );
    assert!(matches!(
        &run.outputs[1],
        OutputEvent::TranscriptDraft { text, .. } if text == "Что такое HashMap?"
    ));
    assert!(matches!(
        &run.outputs[2],
        OutputEvent::Transcript(TranscriptView {
            sequence: 0,
            mode: Mode::Voice,
            text,
            flush_reason,
            ..
        }) if text == "Что такое HashMap?" && flush_reason == "speech_final"
    ));
}

#[test]
fn dangling_text_survives_utterance_end_and_joins_continuation() {
    let mut run = run_of(Speaker::Interviewer);
    run.hear(words("Расскажите, за счет чего", true, true, Some((100, 900, 900))));
    run.hear(DeepgramEvent::UtteranceEnd { last_word_end_ms: Some(900) });
    run.hear(words(
        "ConcurrentHashMap обеспечивает потокобезопасность?",
        true,
        true,
        Some((2_000, 1_000, 2_900)),
    ));
    run.end();

    assert_eq!(run.worker.stats().chunks, 1);
    assert_eq!(
        run.texts(),
        vec!["Расскажите, за счет чего ConcurrentHashMap обеспечивает потокобезопасность?"]
    );
    let mut deferred = false;
    let mut utterance_end_deferred = false;
    for event in &run.outputs {
        match event {
            OutputEvent::SttObservation {
                observation: SttObservation::Transcript { speech_final_deferred, .. },
                ..
            } => deferred |= *speech_final_deferred,
            OutputEvent::SttObservation {
                observation: SttObservation::UtteranceEnd { deferred, .. },
                ..
            } => utterance_end_deferred |= *deferred,
            _ => {}
        }
    }
    assert!(deferred);
    assert!(utterance_end_deferred);
    assert_eq!(run.submitted().last().unwrap().flush_reason, "speech_final");
}

#[test]
fn continued_speech_is_joined_after_dangling_speech_final() {
    let mut run = run_of(Speaker::Interviewer);
    run.hear(words("Расскажите о", true, true, Some((100, 900, 900))));
    run.hear(words("ConcurrentHashMap?", true, true, Some((1_000, 800, 1_700))));
    run.end();

    assert_eq!(run.worker.stats().chunks, 1);
    assert_eq!(run.texts(), vec!["Расскажите о ConcurrentHashMap?"]);
}

#[test]
fn utterance_end_flushes_accumulated_final_transcripts_once() {
    let mut run = run_of(Speaker::Interviewer);
    run.hear(words("Чем HashMap отличается", true, false, None));
    run.hear(words("от ConcurrentHashMap?", true, false, None));
    run.hear(DeepgramEvent::UtteranceEnd { last_word_end_ms: Some(2_000) });
    run.end();

    assert_eq!(run.worker.stats().chunks, 1);
    assert_eq!(run.texts(), vec!["Чем HashMap отличается от ConcurrentHashMap?"]);
    let submitted = run.submitted();
    assert_eq!(submitted.len(), 1);
    assert_eq!(submitted[0].text, "Чем HashMap отличается от ConcurrentHashMap?");
    assert_eq!(submitted[0].flush_reason, "utterance_end");
}

#[test]
fn inactivity_timeout_flushes_final_text() {
    let mut run = run_of(Speaker::Interviewer);
    run.hear(words("незавершенная фраза", true, false, None));
    assert!(run.worker.timer_runs());

    let step = run.worker.timeout();
    run.perform(step);
    assert_eq!(run.texts(), vec!["незавершенная фраза"]);

    run.end();
    assert_eq!(run.worker.stats().chunks, 1);
}

#[test]
fn inactivity_timeout_defers_unfinalized_interim_once() {
    let mut run = run_of(Speaker::Interviewer);
    run.hear(words("незавершенная фраза", false, false, None));

    let step = run.worker.timeout();
    assert!(step.restart_timer);
    run.perform(step);
    assert!(run.requests.is_empty());

    let step = run.worker.timeout();
    run.perform(step);
    assert_eq!(run.texts(), vec!["незавершенная фраза"]);

    run.end();
    assert_eq!(run.worker.stats().chunks, 1);
}

#[test]
fn stale_utterance_end_does_not_flush_new_speech() {
    let mut run = run_of(Speaker::Interviewer);
    run.hear(words("И еще короткий", false, false, Some((3_200, 300, 3_450))));
    run.hear(DeepgramEvent::UtteranceEnd { last_word_end_ms: Some(3_100) });
    run.hear(words("И еще короткий вопрос", true, true, Some((3_200, 800, 3_950))));
    run.end();

    assert_eq!(run.worker.stats().chunks, 1);
    assert_eq!(run.texts(), vec!["И еще короткий вопрос"]);
    assert!(run.outputs.contains(&OutputEvent::SttObservation {
        speaker: Speaker::Interviewer,
        observation: SttObservation::UtteranceEnd {
            last_word_end_ms: Some(3_100),
            ignored: true,
            deferred: false,
        },
    }));
}

#[test]
fn forwards_growing_interim_text_as_a_draft() {
    let mut output: Vec<OutputEvent> = Vec::new();
    let mut assembler = TranscriptWindowAssembler::new(3);
    let mut pending_last_word_end_ms = None;
    let mut stats = TranscriptStats::default();

    for heard in ["что такое", "что такое HashMap"] {
        let boundary = handle_deepgram_event(
            words(heard, false, false, None),
            &mut assembler,
            &mut pending_last_word_end_ms,
            &mut output,
            &mut stats,
            Speaker::Interviewer,
        );
        assert!(boundary.is_none());
    }

    let expected = |text: &str| {
        [
            OutputEvent::SttObservation {
                speaker: Speaker::Interviewer,
                observation: SttObservation::Transcript {
                    text: text.to_owned(),
                    is_final: false,
                    speech_final: false,
                    speech_final_deferred: false,
                    audio_start_ms: None,
                    audio_duration_ms: None,
                    last_word_end_ms: None,
                },
            },
            OutputEvent::TranscriptDraft {
                speaker: Speaker::Interviewer,
                text: text.to_owned(),
            },
        ]
    };
    assert_eq!(output.len(), 4);
    assert_eq!(output[..2], expected("что такое"));
    assert_eq!(output[2..], expected("что такое HashMap"));
    assert_eq!(stats.transcripts, 2);
    assert_eq!(stats.final_transcripts, 0);
}

#[test]
fn maps_reconnect_status_and_audio_queue_for_output_sink() {
    let mut output: Vec<OutputEvent> = Vec::new();

    handle_stt_status(
        SttStatus::Reconnecting {
            retry_count: 3,
            delay_secs: 4,
            queue_len: 17,
        },
        &mut output,
        Speaker::Interviewer,
    );

    assert_eq!(
        output,
        vec![
            OutputEvent::Status(StatusMessage {
                kind: StatusKind::Reconnecting,
                text: "Deepgram interviewer reconnect in 4s (retry 3)".to_owned(),
            }),
            OutputEvent::QueueState(QueueState {
                queue: QueueKind::Audio,
                len: 17,
            }),
        ]
    );
}

#[test]
fn connections_are_reported() {
    let words = |status: SttStatus, speaker: Speaker| {
        let mut output: Vec<OutputEvent> = Vec::new();
        handle_stt_status(status, &mut output, speaker);
        match output.remove(0) {
            OutputEvent::Status(message) => message.text,
            _ => panic!("a status must be reported"),
        }
    };
    let connecting = |retry_count: u32| SttStatus::Connecting {
        retry_count,
        queue_len: 0,
    };
    let connected = SttStatus::Connected { queue_len: 0 };
    assert_eq!(
        words(connecting(0), Speaker::Interviewer),
        "connecting to Deepgram"
    );
    assert_eq!(
        words(connecting(2), Speaker::Interviewer),
        "connecting to Deepgram (attempt 3)"
    );
    assert_eq!(
        words(connecting(0), Speaker::Candidate),
        "connecting candidate speech to Deepgram"
    );
    assert_eq!(
        words(connected, Speaker::Interviewer),
        "Deepgram connected; listening"
    );
    assert_eq!(
        words(connected, Speaker::Candidate),
        "Deepgram connected; listening to candidate"
    );
}

#[test]
fn candidate_requests_are_numbered_apart() {
    let mut run = run_of(Speaker::Candidate);
    run.hear(words("Я бы использовал HashMap.", true, true, None));
    run.end();

    assert_eq!(run.requests.len(), 1);
    assert_eq!(run.requests[0].request_id, 1 << 63);
    assert_eq!(run.requests[0].speaker, Speaker::Candidate);
}

#[test]
fn a_paused_worker_submits_nothing() {
    let mut run = run_of(Speaker::Interviewer);
    run.hear(words("Что такое", true, false, None));
    let step = run.worker.command(TranscriptCommand::SetPaused(true));
    run.perform(step);
    run.hear(words("Что такое HashMap?", true, true, None));
    run.end();
    assert!(run.requests.is_empty());
    assert_eq!(run.worker.stats().chunks, 0);
}

#[test]
fn live_coding_requests_carry_their_mode() {
    let mut run = run_of(Speaker::Interviewer);
    let step = run.worker.command(TranscriptCommand::SetMode(Mode::LiveCoding));
    run.perform(step);
    run.hear(words("Какая сложность у этого решения?", true, true, None));
    assert_eq!(run.requests[0].mode, Mode::LiveCoding);
}

#[test]
fn only_interview_questions_look_for_knowledge() {
    let chunk = || Some(TranscriptChunk { sequence: 0, text: "Что такое HashMap?".to_owned() });
    let mut output: Vec<OutputEvent> = Vec::new();
    let asked =
        queue_transcript_chunk(chunk(), &mut output, "test", Mode::Voice, Speaker::Interviewer, true)
            .unwrap();
    assert!(asked.look_up);
    let told =
        queue_transcript_chunk(chunk(), &mut output, "test", Mode::Voice, Speaker::Candidate, true)
            .unwrap();
    assert!(!told.look_up);
    let coded = queue_transcript_chunk(
        chunk(),
        &mut output,
        "test",
        Mode::LiveCoding,
        Speaker::Interviewer,
        true,
    )
    .unwrap();
    assert!(!coded.look_up);
    assert!(queue_transcript_chunk(None, &mut output, "test", Mode::Voice, Speaker::Interviewer, true)
        .is_none());
}

#[test]
fn a_look_up_is_reported_before_the_request_is_queued() {
    let submission_of = |text: &str, speaker: Speaker| {
        let mut output: Vec<OutputEvent> = Vec::new();
        queue_transcript_chunk(
            Some(TranscriptChunk { sequence: 5, text: text.to_owned() }),
            &mut output,
            "test",
            Mode::Voice,
            speaker,
            true,
        )
        .unwrap()
    };
    let submission = |text: &str| submission_of(text, Speaker::Interviewer);
    let context = KnowledgeContext {
        snippets: vec![KnowledgeSnippet {
            id: "one".to_owned(),
            source: "java.md".to_owned(),
            heading: "Java".to_owned(),
            text: "passage".to_owned(),
            score: Single { bits: 0.5f32.to_bits() },
        }],
        searches: 1,
        embedding_calls: 1,
        embedding_prompt_tokens: 2,
        embedding_total_tokens: 3,
        embedding_ms: 4,
        search_ms: 5,
        final_wait_ms: 6,
    };
    let (reports, request) =
        submission_of("реплика", Speaker::Candidate).resolved(Lookup::Found(context.clone()));
    assert_eq!(reports.len(), 1);
    assert!(request.knowledge.is_none());
    let (reports, request) = submission("вопрос").resolved(Lookup::Found(context));
    assert!(matches!(&reports[0], OutputEvent::Retrieval(view) if view.request_id == 5));
    assert_eq!(reports[1], OutputEvent::LlmQueued { request_id: 5 });
    assert_eq!(request.knowledge.unwrap().snippets.len(), 1);

    let (reports, request) = submission("вопрос").resolved(Lookup::Failed("timeout".to_owned()));
    assert_eq!(
        reports[0],
        OutputEvent::Error(AppErrorView {
            component: OutputComponent::Knowledge,
            message: "timeout".to_owned(),
        })
    );
    assert!(request.knowledge.is_none());
}

#[test]
fn worker_errors_name_their_channel() {
    assert_eq!(
        TranscriptWorkerError::LlmQueue(LlmQueueError).message(),
        "LLM request queue closed"
    );
    assert_ne!(
        TranscriptWorkerError::OutputChannelClosed.message(),
        TranscriptWorkerError::SttReadinessClosed.message()
    );
}
