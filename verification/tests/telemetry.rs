//! Records of a run.

use mague_rc::config::{Config, Readings};
use mague_rc::events::{
    AnswerMeta, KnowledgeContext, KnowledgeSnippet, LlmUsage, Mode, OutputComponent, OutputEvent,
    RetrievalView, Speaker, StatusKind, StatusMessage, SttObservation, TranscriptView,
};
use mague_rc::numbers::{Double, Single};
use mague_rc::telemetry::accuracy::{
    edit_distance_chars, edit_distance_words, normalize_transcript, AccuracyScores,
    AccuracySummary,
};
use mague_rc::telemetry::metrics::{duration, metric_summary};
use mague_rc::telemetry::recorder::{FieldValue, RequestMetrics};
use mague_rc::telemetry::summary::{
    file_names, run_id, sanitize_label, AggregateSummary, ConfigurationSnapshot, RequestSummary,
};
use mague_rc::telemetry::TelemetryRecorder;

#[test]
fn calculates_metric_distribution() {
    let summary = metric_summary(&vec![100, 500, 200, 300, 400]);

    assert_eq!(summary.count, 5);
    assert_eq!(summary.min, Some(100));
    assert_eq!(summary.sum as f64 / summary.count as f64, 300.0);
    assert_eq!(summary.p50, Some(300));
    assert_eq!(summary.p95, Some(500));
    assert_eq!(summary.max, Some(500));
}

#[test]
fn nothing_measured_has_no_distribution() {
    let summary = metric_summary(&Vec::new());
    assert_eq!(summary.count, 0);
    assert_eq!(summary.sum, 0);
    assert_eq!(summary.min, None);
    assert_eq!(summary.p50, None);
    assert_eq!(summary.p95, None);
    assert_eq!(summary.max, None);
    assert_eq!(duration(Some(5), Some(3)), Some(2));
    assert_eq!(duration(Some(3), Some(5)), None);
    assert_eq!(duration(None, Some(5)), None);
}

#[test]
fn sanitizes_experiment_label_for_file_names() {
    assert_eq!(
        sanitize_label("utterance end / 1200ms"),
        "utterance-end-1200ms"
    );
    assert_eq!(sanitize_label("..."), "run");
}

#[test]
fn runs_have_their_own_files() {
    let id = run_id(1_700_000_000_000, 42);
    assert!(id.contains("1700000000000"));
    assert!(id.contains("42"));
    let (events, summary) = file_names(&id, "base line");
    assert!(events.contains("base-line"));
    assert!(events.ends_with(".jsonl"));
    assert!(summary.ends_with(".json"));
    assert_ne!(events, summary);
}

#[test]
fn calculates_case_and_punctuation_insensitive_accuracy() {
    let scores = AccuracyScores::new(
        "Что такое HashMap?\nОбъясни Java Stream API.",
        "что такое hashmap объясни java streams api",
    );

    assert_eq!(scores.reference_words, 7);
    assert_eq!(scores.word_errors, 1);
    assert_eq!(
        scores.word_errors as f64 / scores.reference_words as f64,
        1.0 / 7.0
    );
    assert!(scores.character_errors > 0);
    assert!(scores.reference_characters > 0);
    assert_eq!(normalize_transcript("Ёлка, JAVA!"), "елка java");
}

#[test]
fn counts_the_fewest_edits() {
    let letters = |text: &str| text.chars().collect::<Vec<char>>();
    assert_eq!(edit_distance_chars(&letters("kitten"), &letters("sitting")), 3);
    assert_eq!(edit_distance_chars(&letters(""), &letters("abc")), 3);
    let words = |text: &str| {
        text.split(' ')
            .map(|word| word.to_owned())
            .collect::<Vec<String>>()
    };
    assert_eq!(
        edit_distance_words(&words("what is a hash map"), &words("what is hash map")),
        1
    );
    assert_eq!(edit_distance_words(&words("a b"), &words("a b")), 0);
}

#[test]
fn accuracy_is_told_by_segment() {
    let summary = AccuracySummary::new(
        "Что такое HashMap?\nЧто такое поток?",
        &vec!["Что такое HashMap?".to_owned(), "что такое ток".to_owned()],
    );
    assert_eq!(summary.segments.len(), 2);
    assert_eq!(summary.segments[0].scores.word_errors, 0);
    assert_eq!(summary.segments[1].scores.word_errors, 1);
    assert_eq!(summary.scores.word_errors, 1);
}

fn observed(observation: SttObservation) -> OutputEvent {
    OutputEvent::SttObservation {
        speaker: Speaker::Interviewer,
        observation,
    }
}

#[test]
fn calculates_delivery_lag_from_audio_stream_position() {
    let mut recorder = TelemetryRecorder::new("run-1");
    recorder.record(100, &observed(SttObservation::AudioStreamStarted));

    assert_eq!(recorder.delivery_lag_ms(1_600, Some(1_000)), Some(500));
    assert_eq!(recorder.delivery_lag_ms(900, Some(1_000)), None);
}

#[test]
fn separates_boundary_and_last_word_latency() {
    let summary = RequestSummary::from_metrics(
        7,
        RequestMetrics {
            speech_final_ms: Some(1_600),
            last_word_end_audio_ms: Some(1_000),
            last_word_to_boundary_ms: Some(500),
            first_token_ms: Some(2_200),
            ..RequestMetrics::default()
        },
    );

    assert_eq!(summary.speech_boundary_to_first_token_ms, Some(600));
    assert_eq!(summary.last_word_to_first_token_ms, Some(1_100));
    assert_eq!(summary.last_word_end_audio_ms, Some(1_000));
    assert_eq!(summary.last_word_to_boundary_ms, Some(500));
}

fn config() -> Config {
    let values = vec![
        ("DEEPGRAM_API_KEY".to_owned(), "deepgram-secret".to_owned()),
        ("OPENROUTER_API_KEY".to_owned(), "openrouter-secret".to_owned()),
        ("ENABLE_OCR".to_owned(), "false".to_owned()),
        ("FFMPEG_BIN".to_owned(), "ffmpeg".to_owned()),
    ];
    let readings = Readings {
        text_temperature: None,
        coding_temperature: None,
        rag_min_score: None,
        ocr_max_image_mb: None,
    };
    match Config::from_values(&values, &readings, None) {
        Ok(config) => config,
        Err(error) => panic!("{}", error.message()),
    }
}

#[test]
fn writes_correlated_events_and_summary_without_secrets() {
    let mut recorder = TelemetryRecorder::new("run-1");
    let mut lines = vec![recorder.start()];
    let events = vec![
        observed(SttObservation::SpeechStarted {
            audio_timestamp_ms: Some(100),
        }),
        observed(SttObservation::Transcript {
            text: "Что такое HashMap?".to_owned(),
            is_final: true,
            speech_final: true,
            speech_final_deferred: false,
            audio_start_ms: Some(100),
            audio_duration_ms: Some(900),
            last_word_end_ms: Some(900),
        }),
        observed(SttObservation::UtteranceEnd {
            last_word_end_ms: Some(1_000),
            ignored: false,
            deferred: false,
        }),
        OutputEvent::TranscriptDraft {
            speaker: Speaker::Interviewer,
            text: "Что такое HashMap?".to_owned(),
        },
        OutputEvent::Transcript(TranscriptView {
            sequence: 0,
            mode: Mode::Voice,
            speaker: Speaker::Interviewer,
            text: "Что такое HashMap?".to_owned(),
            flush_reason: "timer".to_owned(),
        }),
        OutputEvent::Retrieval(RetrievalView {
            request_id: 0,
            context: KnowledgeContext {
                snippets: vec![KnowledgeSnippet {
                    id: "hash-map".to_owned(),
                    source: "knowledge/java.md".to_owned(),
                    heading: "Java > HashMap".to_owned(),
                    text: "HashMap хранит пары ключ-значение.".to_owned(),
                    score: Single { bits: 0.91f32.to_bits() },
                }],
                searches: 2,
                embedding_calls: 2,
                embedding_prompt_tokens: 24,
                embedding_total_tokens: 24,
                embedding_ms: 16,
                search_ms: 2,
                final_wait_ms: 7,
            },
        }),
        OutputEvent::LlmQueued { request_id: 0 },
        OutputEvent::AnswerStarted(AnswerMeta {
            request_id: 0,
            mode: Mode::Voice,
            speaker: Speaker::Interviewer,
        }),
        OutputEvent::AnswerDelta {
            request_id: 0,
            text: "HashMap хранит пары ключ-значение.".to_owned(),
        },
        OutputEvent::AnswerUsage {
            request_id: 0,
            usage: LlmUsage {
                prompt_tokens: 100,
                completion_tokens: 20,
                total_tokens: 120,
                cost: Some(Double { bits: 0.001f64.to_bits() }),
            },
        },
        OutputEvent::AnswerCompleted { request_id: 0 },
    ];
    for (position, event) in events.iter().enumerate() {
        assert!(recorder.can_record());
        lines.push(recorder.record(position as u64 * 10, event));
    }
    let (last, summary) = recorder.finish(200, None);
    lines.push(last);

    assert_eq!(
        summary.stt.transcripts,
        summary.stt.interim_transcripts + summary.stt.final_transcripts
    );
    assert_eq!(summary.stt.speech_final_transcripts, 1);
    assert_eq!(summary.aggregates.request_count, 1);
    assert_eq!(summary.aggregates.total_tokens, 120);
    assert_eq!(summary.aggregates.rag_request_count, 1);
    assert_eq!(summary.aggregates.rag_searches, 2);
    assert_eq!(summary.recognition_segments[0], "Что такое HashMap?");
    assert_eq!(summary.requests[0].flush_reason, "timer");
    let retrieval = summary.requests[0].retrieval.as_ref().unwrap();
    assert_eq!(retrieval.snippets, 1);
    assert_eq!(retrieval.searches, 2);
    assert_eq!(
        summary.requests[0].answer,
        "HashMap хранит пары ключ-значение."
    );
    assert_eq!(summary.utterances[0].final_text, "Что такое HashMap?");
    assert!(lines.len() >= 10);
    for (position, line) in lines.iter().enumerate() {
        assert_eq!(line.sequence, position as u64 + 1);
        assert_eq!(line.run_id, "run-1");
    }
    let snapshot = ConfigurationSnapshot::of(&config());
    let texts = format!("{snapshot:?} {summary:?} {lines:?}");
    assert!(!texts.contains("deepgram-secret"));
    assert!(!texts.contains("openrouter-secret"));
}

#[test]
fn answers_are_timed() {
    let mut recorder = TelemetryRecorder::new("run-1");
    recorder.record(
        100,
        &OutputEvent::Transcript(TranscriptView {
            sequence: 3,
            mode: Mode::Voice,
            speaker: Speaker::Interviewer,
            text: "Вопрос".to_owned(),
            flush_reason: "speech_final".to_owned(),
        }),
    );
    recorder.record(110, &OutputEvent::LlmQueued { request_id: 3 });
    recorder.record(
        150,
        &OutputEvent::AnswerStarted(AnswerMeta {
            request_id: 3,
            mode: Mode::Voice,
            speaker: Speaker::Interviewer,
        }),
    );
    recorder.record(
        400,
        &OutputEvent::AnswerDelta {
            request_id: 3,
            text: "От".to_owned(),
        },
    );
    recorder.record(
        500,
        &OutputEvent::AnswerDelta {
            request_id: 3,
            text: "вет".to_owned(),
        },
    );
    recorder.record(600, &OutputEvent::AnswerCompleted { request_id: 3 });
    let summary = recorder.summarize(1_000, Some("Вопрос"));
    let request = &summary.requests[0];
    assert_eq!(request.request_id, 3);
    assert_eq!(request.queue_wait_ms, Some(40));
    assert_eq!(request.ttft_ms, Some(250));
    assert_eq!(request.generation_ms, Some(200));
    assert_eq!(request.answer, "Ответ");
    assert_eq!(request.answer_chars, 5);
    assert_eq!(summary.aggregates.ttft_ms.p50, Some(250));
    assert_eq!(summary.elapsed_ms, 1_000);
    assert!(summary.accuracy.is_some());
}

#[test]
fn statuses_and_failures_are_written_down() {
    let mut recorder = TelemetryRecorder::new("run-1");
    let line = recorder.record(
        5,
        &OutputEvent::Status(StatusMessage {
            kind: StatusKind::Started,
            text: "started".to_owned(),
        }),
    );
    assert_eq!(line.elapsed_ms, 5);
    assert!(line
        .fields
        .iter()
        .any(|field| matches!(&field.value, FieldValue::Text(text) if text == "started")));
    let line = recorder.record(
        6,
        &OutputEvent::Error(mague_rc::events::AppErrorView {
            component: OutputComponent::Llm,
            message: "timeout".to_owned(),
        }),
    );
    assert_eq!(line.sequence, 2);
    assert!(line
        .fields
        .iter()
        .any(|field| matches!(&field.value, FieldValue::Text(text) if text == "timeout")));
}

#[test]
fn summaries_of_parts_add_up() {
    let summary = |id: u64, completed: Option<u64>| {
        RequestSummary::from_metrics(
            id,
            RequestMetrics {
                llm_started_ms: Some(10),
                first_token_ms: Some(10 * id + 20),
                completed_ms: completed,
                usage: Some(LlmUsage {
                    prompt_tokens: 10 * id,
                    completion_tokens: id,
                    total_tokens: 11 * id,
                    cost: None,
                }),
                ..RequestMetrics::default()
            },
        )
    };
    let first = AggregateSummary::new(&vec![summary(1, Some(100)), summary(2, None)]);
    let second = AggregateSummary::new(&vec![summary(3, Some(100))]);
    let all =
        AggregateSummary::new(&vec![summary(1, Some(100)), summary(2, None), summary(3, Some(100))]);
    let turned =
        AggregateSummary::new(&vec![summary(3, Some(100)), summary(2, None), summary(1, Some(100))]);
    assert_eq!(all.request_count, first.request_count + second.request_count);
    assert_eq!(all.total_tokens, first.total_tokens + second.total_tokens);
    assert_eq!(all.total_tokens, 66);
    assert_eq!(all.completed_count, 2);
    assert_eq!(all.ttft_ms.count, first.ttft_ms.count + second.ttft_ms.count);
    assert_eq!(all, turned);
    assert_eq!(AggregateSummary::new(&Vec::new()).request_count, 0);
}

#[test]
fn requests_are_summed_up_in_order_of_their_numbers() {
    let mut recorder = TelemetryRecorder::new("run-1");
    for request_id in [7, 1 << 63, 2] {
        recorder.record(5, &OutputEvent::LlmQueued { request_id });
    }
    let summary = recorder.summarize(10, None);
    let numbers = summary
        .requests
        .iter()
        .map(|request| request.request_id)
        .collect::<Vec<_>>();
    assert_eq!(numbers, vec![2, 7, 1 << 63]);
}

#[test]
fn what_the_candidate_says_is_only_written_down() {
    let mut recorder = TelemetryRecorder::new("run");
    let heard = SttObservation::SpeechStarted {
        audio_timestamp_ms: Some(10),
    };
    let line = recorder.record_stt(5, Speaker::Candidate, &heard);
    assert_eq!(line.sequence, 1);
    let line = recorder.record_stt(6, Speaker::Interviewer, &heard);
    assert_eq!(line.sequence, 2);
    assert_eq!(line.elapsed_ms, 6);
}
