//! The dialogue with the language model.

use mague_rc::config::{LlmConfig, SecretString};
use mague_rc::events::{
    CodeEdit, KnowledgeContext, KnowledgeSnippet, LiveCodingState, LlmCommand, LlmRequest,
    LlmUsage, Mode, OutputEvent, Speaker,
};
use mague_rc::llm::code_diff::{apply_code_edits, changed_line_numbers, code_edits};
use mague_rc::llm::live_coding::{strip_code_fence, LiveCodingResponse};
use mague_rc::llm::openrouter::{
    generation_options, interpret_chunk, parse_stream_data, response_error, truncate, ApiError,
    ApiErrorEnvelope, ChatCompletionChunk, ErrorCode, StreamData, StreamReader, StreamingChoice,
    StreamingDelta,
};
use mague_rc::llm::worker::AnswerEnd;
use mague_rc::llm::{
    build_chat_completions_url, knowledge_context_prompt, live_coding_system_prompt,
    live_coding_user_prompt, parse_live_coding_response, voice_system_prompt, voice_user_prompt,
    ChatMessage, ChatRequest, ChatRole, ConversationHistories, LlmError, LlmQueueError,
    LlmStreamEvent, LlmWorker, LlmWorkerError,
};
use mague_rc::numbers::{Double, Single};
use mague_rc::web::UrlFault;
use serde_json::Value;

fn parsed(text: &str) -> Result<Value, String> {
    serde_json::from_str(text).map_err(|error| error.to_string())
}

fn text_at(value: &Value, name: &str) -> Option<String> {
    value.get(name).and_then(Value::as_str).map(str::to_owned)
}

fn error_in(value: &Value) -> Option<ApiError> {
    let error = value.get("error").filter(|error| error.is_object())?;
    Some(ApiError {
        code: match error.get("code")? {
            Value::String(text) => ErrorCode::Text(text.clone()),
            other => ErrorCode::Notation(other.to_string()),
        },
        message: text_at(error, "message")?,
    })
}

fn read_chunk(text: &str) -> Result<ChatCompletionChunk, String> {
    let value = parsed(text)?;
    let choices = value
        .get("choices")
        .and_then(Value::as_array)
        .cloned()
        .unwrap_or_default();
    Ok(ChatCompletionChunk {
        choices: choices
            .iter()
            .map(|choice| StreamingChoice {
                delta: StreamingDelta {
                    content: choice.get("delta").and_then(|delta| text_at(delta, "content")),
                },
            })
            .collect(),
        error: error_in(&value),
        usage: value.get("usage").map(|usage| {
            let count = |name: &str| usage.get(name).and_then(Value::as_u64).unwrap_or(0);
            LlmUsage {
                prompt_tokens: count("prompt_tokens"),
                completion_tokens: count("completion_tokens"),
                total_tokens: count("total_tokens"),
                cost: usage.get("cost").and_then(Value::as_f64).map(|cost| Double {
                    bits: cost.to_bits(),
                }),
            }
        }),
    })
}

fn read_error(text: &str) -> Option<ApiErrorEnvelope> {
    let value = parsed(text).ok()?;
    Some(ApiErrorEnvelope {
        error: error_in(&value),
    })
}

fn read_live_coding(text: &str) -> Result<LiveCodingResponse, String> {
    let value = parsed(text)?;
    let text_or_nothing = |name: &str| text_at(&value, name).unwrap_or_default();
    Ok(LiveCodingResponse {
        summary: text_at(&value, "summary").ok_or_else(|| "missing field `summary`".to_owned())?,
        candidate_context: text_or_nothing("candidate_context"),
        explanation: text_or_nothing("explanation"),
        language: text_or_nothing("language"),
        code_changed: value
            .get("code_changed")
            .and_then(Value::as_bool)
            .ok_or_else(|| "missing field `code_changed`".to_owned())?,
        code: text_at(&value, "code"),
        change_note: text_or_nothing("change_note"),
    })
}

fn single(value: f32) -> Single {
    Single { bits: value.to_bits() }
}

fn contents(messages: Vec<ChatMessage>) -> Vec<(ChatRole, String)> {
    messages
        .into_iter()
        .map(|message| (message.role, message.content))
        .collect()
}

#[test]
fn retains_only_the_latest_pairs() {
    let mut histories = ConversationHistories::new(2, true);
    histories.record(Mode::Voice, "u1".to_owned(), "a1".to_owned());
    histories.record(Mode::Voice, "u2".to_owned(), "a2".to_owned());
    histories.record(Mode::Voice, "u3".to_owned(), "a3".to_owned());

    assert_eq!(
        contents(histories.messages(Mode::Voice)),
        vec![
            (ChatRole::User, "u2".to_owned()),
            (ChatRole::Assistant, "a2".to_owned()),
            (ChatRole::User, "u3".to_owned()),
            (ChatRole::Assistant, "a3".to_owned()),
        ]
    );
}

#[test]
fn keeps_voice_and_ocr_histories_separate() {
    let mut histories = ConversationHistories::new(4, true);
    histories.record(Mode::Voice, "voice".to_owned(), "voice answer".to_owned());
    histories.record(Mode::Ocr, "ocr".to_owned(), "ocr answer".to_owned());

    assert_eq!(histories.messages(Mode::Voice).len(), 2);
    assert_eq!(histories.messages(Mode::Ocr).len(), 2);
    assert_eq!(
        histories.messages(Mode::Voice)[0].content,
        "voice".to_owned()
    );
    assert_eq!(histories.messages(Mode::Ocr)[0].content, "ocr".to_owned());
}

#[test]
fn shares_history_when_separation_is_disabled() {
    let mut histories = ConversationHistories::new(4, false);
    histories.record(Mode::Voice, "voice".to_owned(), "answer".to_owned());

    assert_eq!(
        histories.messages(Mode::Ocr),
        histories.messages(Mode::Voice)
    );
    assert_eq!(histories.messages(Mode::Ocr).len(), 2);
}

#[test]
fn clears_all_histories() {
    let mut histories = ConversationHistories::new(4, true);
    histories.record(Mode::Voice, "voice".to_owned(), "answer".to_owned());
    histories.record(Mode::Ocr, "ocr".to_owned(), "answer".to_owned());

    histories.clear();

    assert!(histories.messages(Mode::Voice).is_empty());
    assert!(histories.messages(Mode::Ocr).is_empty());
}

#[test]
fn a_history_without_a_limit_keeps_every_pair() {
    let mut histories = ConversationHistories::new(0, true);
    for number in 0..20 {
        histories.record(Mode::Voice, format!("u{number}"), format!("a{number}"));
    }
    assert_eq!(histories.messages(Mode::Voice).len(), 40);
}

fn coding_state() -> LiveCodingState {
    LiveCodingState {
        revision: 2,
        summary: "old".to_owned(),
        candidate_context: String::new(),
        explanation: String::new(),
        language: "java".to_owned(),
        code: "a\nb\nc".to_owned(),
        change_note: String::new(),
        changed_lines: Vec::new(),
        code_edits: Vec::new(),
    }
}

#[test]
fn updates_state_from_fenced_json_and_marks_changed_lines() {
    let current = coding_state();
    let raw = r#"```json
{"summary":"new","language":"java","code_changed":true,"code":"a\nB\nc","change_note":"changed b"}
```"#;

    let updated = parse_live_coding_response(&current, Speaker::Interviewer, raw, read_live_coding)
        .expect("response must parse");

    assert_eq!(updated.revision, 3);
    assert_eq!(updated.code, "a\nB\nc");
    assert_eq!(updated.changed_lines, vec![2]);
    assert_eq!(apply_code_edits(&current.code, &updated.code_edits), updated.code);
}

#[test]
fn preserves_code_when_response_only_updates_summary() {
    let current = LiveCodingState {
        code: "class Solution {}".to_owned(),
        ..LiveCodingState::default()
    };
    let raw = r#"{"summary":"constraint added","language":"","code_changed":false,"code":null,"change_note":"summary only"}"#;

    let updated = parse_live_coding_response(&current, Speaker::Interviewer, raw, read_live_coding)
        .expect("response must parse");

    assert_eq!(updated.code, current.code);
    assert!(updated.changed_lines.is_empty());
}

#[test]
fn the_candidate_does_not_change_the_summary() {
    let current = coding_state();
    let raw = r#"{"summary":"rewritten","candidate_context":"thinks aloud","language":"java","code_changed":false,"code":null,"change_note":"none"}"#;
    let updated = parse_live_coding_response(&current, Speaker::Candidate, raw, read_live_coding)
        .expect("response must parse");
    assert_eq!(updated.summary, "old");
    assert_eq!(updated.candidate_context, "thinks aloud");
}

#[test]
fn a_broken_response_is_refused() {
    assert!(matches!(
        parse_live_coding_response(
            &coding_state(),
            Speaker::Interviewer,
            "not json",
            read_live_coding
        ),
        Err(LlmError::Protocol(_))
    ));
    assert_eq!(
        parse_live_coding_response(&coding_state(), Speaker::Interviewer, "{}", read_live_coding)
            .map(|state| state.revision),
        Err(LlmError::Protocol(
            "invalid live-coding JSON: missing field `summary`".to_owned()
        ))
    );
}

#[test]
fn the_reader_gets_the_answer_without_its_fence() {
    let echo = |text: &str| -> Result<LiveCodingResponse, String> { Err(text.to_owned()) };
    assert_eq!(
        parse_live_coding_response(
            &coding_state(),
            Speaker::Candidate,
            "```json\n{\"a\":1}\n```",
            echo
        )
        .map(|state| state.revision),
        Err(LlmError::Protocol(
            "invalid live-coding JSON: {\"a\":1}".to_owned()
        ))
    );
}

#[test]
fn a_fence_is_taken_off() {
    assert_eq!(strip_code_fence("```json\n{}\n```"), "{}");
    assert_eq!(strip_code_fence(" {} "), "{}");
}

#[test]
fn edits_turn_one_version_into_the_other() {
    let old = "a\nb\nc\nd\n";
    let new = "a\nx\nc\ne\nf\n";
    let edits = code_edits(old, new);
    assert_eq!(
        edits,
        vec![
            CodeEdit {
                start_offset: 2,
                end_offset: 4,
                replacement: "x\n".to_owned(),
            },
            CodeEdit {
                start_offset: 6,
                end_offset: 8,
                replacement: "e\nf\n".to_owned(),
            },
        ]
    );
    assert_eq!(apply_code_edits(old, &edits), new);
    assert_eq!(changed_line_numbers(old, new), vec![2, 4, 5]);
    assert!(code_edits(old, old).is_empty());
    assert!(changed_line_numbers(old, old).is_empty());
}

#[test]
fn edits_count_characters_not_bytes() {
    let old = "ключ\nзначение";
    let new = "ключ\nдругое";
    let edits = code_edits(old, new);
    assert_eq!(edits.len(), 1);
    assert_eq!(edits[0].start_offset, 5);
    assert_eq!(edits[0].end_offset, 13);
    assert_eq!(apply_code_edits(old, &edits), new);
}

#[test]
fn appends_chat_completions_to_base_path() {
    assert_eq!(
        build_chat_completions_url("https://openrouter.ai/api/v1"),
        Ok("https://openrouter.ai/api/v1/chat/completions".to_owned())
    );
}

#[test]
fn a_slash_at_the_end_of_the_base_is_not_doubled() {
    assert_eq!(
        build_chat_completions_url("https://openrouter.ai/api/v1/?key=1#part"),
        Ok("https://openrouter.ai/api/v1/chat/completions".to_owned())
    );
    assert_eq!(
        build_chat_completions_url("no address"),
        Err(UrlFault::NotAUrl)
    );
}

#[test]
fn parses_streaming_delta_and_done_marker() {
    let data = r#"{"choices":[{"delta":{"content":"Привет"}}]}"#;

    assert!(matches!(
        parse_stream_data(data, read_chunk).expect("delta must parse"),
        StreamData::Delta(text) if text == "Привет"
    ));
    assert!(matches!(
        parse_stream_data("[DONE]", read_chunk).expect("marker must parse"),
        StreamData::Done
    ));
    assert!(matches!(
        parse_stream_data(
            r#"{"choices":[],"usage":{"prompt_tokens":12,"completion_tokens":4,"total_tokens":16,"cost":0.0002}}"#,
            read_chunk
        )
        .expect("usage must parse"),
        StreamData::Usage(LlmUsage {
            prompt_tokens: 12,
            completion_tokens: 4,
            total_tokens: 16,
            cost: Some(cost),
        }) if (f64::from_bits(cost.bits) - 0.0002).abs() < f64::EPSILON
    ));
}

#[test]
fn reports_mid_stream_provider_error() {
    let data = r#"{
            "error":{"code":429,"message":"Rate limit exceeded"},
            "choices":[{"delta":{"content":""}}]
        }"#;

    assert!(matches!(
        parse_stream_data(data, read_chunk),
        Err(LlmError::Provider { code, message })
            if code == "429" && message == "Rate limit exceeded"
    ));
}

#[test]
fn an_unreadable_part_of_the_stream_is_an_error() {
    assert!(matches!(
        parse_stream_data("{", read_chunk),
        Err(LlmError::Protocol(_))
    ));
    assert!(matches!(
        parse_stream_data(r#"{"choices":[{"delta":{}}]}"#, read_chunk),
        Ok(StreamData::Empty)
    ));
}

#[test]
fn an_error_counts_before_costs_and_text() {
    let usage = LlmUsage {
        prompt_tokens: 1,
        completion_tokens: 2,
        total_tokens: 3,
        cost: None,
    };
    let chunk = |error: Option<ApiError>, usage: Option<LlmUsage>| ChatCompletionChunk {
        choices: ["a", "b"]
            .iter()
            .map(|text| StreamingChoice {
                delta: StreamingDelta {
                    content: Some((*text).to_owned()),
                },
            })
            .collect(),
        error,
        usage,
    };
    let error = ApiError {
        code: ErrorCode::Text("overloaded".to_owned()),
        message: "later".to_owned(),
    };
    assert!(matches!(
        interpret_chunk(chunk(Some(error), Some(usage))),
        Err(LlmError::Provider { code, message }) if code == "overloaded" && message == "later"
    ));
    assert!(matches!(
        interpret_chunk(chunk(None, Some(usage))),
        Ok(StreamData::Usage(LlmUsage { total_tokens: 3, .. }))
    ));
    assert!(matches!(
        interpret_chunk(chunk(None, None)),
        Ok(StreamData::Delta(text)) if text == "ab"
    ));
}

#[test]
fn truncates_error_body_on_character_boundary() {
    assert_eq!(truncate("абвг", 3), "абв...");
    assert_eq!(truncate("abc", 3), "abc");
}

#[test]
fn a_refused_request_tells_the_reason() {
    assert_eq!(
        response_error(
            401,
            r#"{"error":{"code":401,"message":"No auth"}}"#,
            read_error
        ),
        LlmError::HttpStatus {
            status: 401,
            message: "No auth".to_owned(),
        }
    );
    assert_eq!(
        response_error(502, "bad gateway", read_error),
        LlmError::HttpStatus {
            status: 502,
            message: "bad gateway".to_owned(),
        }
    );
}

#[test]
fn streams_deltas_from_mock_openrouter() {
    let mut reader = StreamReader::new();
    let mut text = String::new();
    for data in [
        r#"{"choices":[{"delta":{"content":"Первый"}}]}"#,
        r#"{"choices":[{"delta":{"content":" ответ"}}]}"#,
        "[DONE]",
    ] {
        let event = reader.accept(parse_stream_data(data, read_chunk).expect("data must parse"));
        if let Some(LlmStreamEvent::Delta(delta)) = event {
            text.push_str(&delta);
        }
    }
    assert_eq!(text, "Первый ответ");
    assert!(reader.is_done());
    assert!(reader.end().is_ok());

    assert_eq!(StreamReader::new().end(), Err(LlmError::IncompleteStream));
}

#[test]
fn pins_the_current_project_in_voice_prompt() {
    let prompt = voice_system_prompt("АО Консалт Плюс");

    assert!(prompt.contains("Текущий проект кандидата: АО Консалт Плюс"));
    assert!(prompt.contains("завершённый вопрос"));
    assert!(prompt.contains("актуальное поведение современных стабильных версий"));
    assert!(prompt.contains("Не выдумывай опыт"));
    assert!(prompt.contains("не упоминай текущий проект"));
    assert!(!prompt.contains("примерно по 5 секунд"));
}

#[test]
fn labels_candidate_speech_explicitly() {
    assert_eq!(
        voice_user_prompt(Speaker::Candidate, "Я не понял условие"),
        "<SPEECH speaker=\"candidate\">\nЯ не понял условие\n</SPEECH>"
    );
}

fn context() -> KnowledgeContext {
    KnowledgeContext {
        snippets: vec![KnowledgeSnippet {
            id: "one".to_owned(),
            source: "knowledge/java.md".to_owned(),
            heading: "Java > HashMap".to_owned(),
            text: "HashMap хранит пары ключ-значение.".to_owned(),
            score: single(0.9),
        }],
        searches: 1,
        embedding_calls: 1,
        embedding_prompt_tokens: 12,
        embedding_total_tokens: 12,
        embedding_ms: 8,
        search_ms: 1,
        final_wait_ms: 0,
    }
}

#[test]
fn formats_knowledge_as_reference_context() {
    let prompt = knowledge_context_prompt(&context());

    assert!(prompt.contains("Java > HashMap"));
    assert!(prompt.contains("HashMap хранит пары"));
    assert!(!prompt.contains("score"));
}

#[test]
fn live_coding_prompts_hold_the_state_and_the_new_words() {
    let prompt = live_coding_user_prompt(&coding_state(), Speaker::Candidate, "Добавлю проверку");
    assert!(prompt.contains("Добавлю проверку"));
    assert!(prompt.contains("a\nb\nc"));
    assert!(prompt.contains("candidate"));
    assert!(!live_coding_system_prompt().is_empty());
}

fn config() -> LlmConfig {
    LlmConfig {
        api_key: SecretString::new("secret".to_owned()),
        base_url: "https://openrouter.ai/api/v1".to_owned(),
        model: "openai/gpt-4o-mini".to_owned(),
        queue_max: 0,
        max_history_pairs: 4,
        separate_histories: true,
        temperature: single(0.2),
        max_tokens: 450,
        timeout_sec: 1,
        coding_temperature: single(0.1),
        coding_max_tokens: 1_800,
        coding_timeout_sec: 60,
        current_project: "АО Консалт Плюс".to_owned(),
    }
}

fn request(request_id: u64) -> LlmRequest {
    LlmRequest {
        request_id,
        mode: Mode::Voice,
        speaker: Speaker::Interviewer,
        text: format!("question {request_id}"),
        knowledge: None,
    }
}

fn process(
    worker: &mut LlmWorker,
    request: &LlmRequest,
    deltas: &[&str],
    end: AnswerEnd,
) -> (ChatRequest, Vec<OutputEvent>) {
    assert!(worker.can_go_on());
    let (started, chat, mut progress) = worker.start(request);
    let mut outputs = vec![started];
    for delta in deltas {
        if let Some(event) = progress.accept(LlmStreamEvent::Delta((*delta).to_owned())) {
            outputs.push(event);
        }
    }
    outputs.extend(worker.finish(request, progress, end, read_live_coding));
    (chat, outputs)
}

#[test]
fn processes_requests_in_order_and_updates_history() {
    let mut worker = LlmWorker::new(config());
    let (first, outputs) = process(
        &mut worker,
        &request(1),
        &["answer 1", " done"],
        AnswerEnd::Complete,
    );
    assert!(outputs.contains(&OutputEvent::AnswerCompleted { request_id: 1 }));
    let (second, outputs) = process(
        &mut worker,
        &request(2),
        &["answer 2", " done"],
        AnswerEnd::Complete,
    );
    assert!(outputs.contains(&OutputEvent::AnswerCompleted { request_id: 2 }));

    assert_eq!(worker.stats().completed, 2);
    assert_eq!(first.messages.len(), 2);
    assert_eq!(second.messages.len(), 4);
    assert_eq!(second.messages[1].role, ChatRole::User);
    assert_eq!(second.messages[1].content, "question 1");
    assert_eq!(second.messages[2].role, ChatRole::Assistant);
    assert_eq!(second.messages[2].content, "answer 1 done");
    assert_eq!(generation_options(&config(), &second), (single(0.2), 450));
}

#[test]
fn clear_command_removes_history_before_next_request() {
    let mut worker = LlmWorker::new(config());
    process(&mut worker, &request(1), &["answer"], AnswerEnd::Complete);
    worker.command(LlmCommand::ClearHistory);
    let (second, _) = process(&mut worker, &request(2), &["answer"], AnswerEnd::Complete);
    assert_eq!(second.messages.len(), 2);
}

#[test]
fn inserts_knowledge_before_question_without_storing_it_in_history() {
    let mut worker = LlmWorker::new(config());
    let mut asked = request(1);
    asked.knowledge = Some(context());
    let (first, _) = process(&mut worker, &asked, &["answer"], AnswerEnd::Complete);
    let (second, _) = process(&mut worker, &request(2), &["answer"], AnswerEnd::Complete);

    assert_eq!(first.messages.len(), 3);
    assert_eq!(first.messages[1].role, ChatRole::System);
    assert!(first.messages[1].content.contains("Java > HashMap"));
    assert_eq!(first.messages[2].content, "question 1");
    assert_eq!(second.messages.len(), 4);
    assert_eq!(second.messages[1].content, "question 1");
}

#[test]
fn the_conversation_keeps_words_as_they_were_spoken() {
    let mut worker = LlmWorker::new(config());
    let said = LlmRequest {
        speaker: Speaker::Candidate,
        ..request(1)
    };
    let (first, _) = process(&mut worker, &said, &["hint"], AnswerEnd::Complete);
    assert_eq!(
        first.messages[1].content,
        "<SPEECH speaker=\"candidate\">\nquestion 1\n</SPEECH>"
    );
    let (second, _) = process(&mut worker, &request(2), &["answer"], AnswerEnd::Complete);
    assert_eq!(second.messages[1].content, "question 1");
    assert_eq!(second.messages[2].content, "hint");
}

#[test]
fn every_request_of_a_queue_is_counted() {
    let mut worker = LlmWorker::new(config());
    for id in 1..=7 {
        let end = if id % 3 == 0 {
            AnswerEnd::TimedOut
        } else {
            AnswerEnd::Complete
        };
        let text = format!("answer {id}");
        let (_, outputs) = process(&mut worker, &request(id), &[text.as_str()], end);
        assert!(matches!(
            outputs.first(),
            Some(OutputEvent::AnswerStarted(meta)) if meta.request_id == id
        ));
    }
    let stats = worker.stats();
    assert_eq!(stats.requests, 7);
    assert_eq!(stats.completed, 5);
    assert_eq!(stats.failed, 2);
    let (chat, _) = process(&mut worker, &request(8), &["answer"], AnswerEnd::Complete);
    let questions = chat
        .messages
        .iter()
        .filter(|message| message.role == ChatRole::User)
        .map(|message| message.content.as_str())
        .collect::<Vec<_>>();
    assert_eq!(
        questions,
        vec!["question 2", "question 4", "question 5", "question 7", "question 8"]
    );
}

#[test]
fn a_failed_answer_is_not_remembered() {
    let mut worker = LlmWorker::new(config());
    let (_, outputs) = process(&mut worker, &request(1), &["part"], AnswerEnd::TimedOut);
    assert!(matches!(
        outputs.last(),
        Some(OutputEvent::Error(error))
            if error.message == "request #1 failed: OpenRouter response timed out after 1 seconds"
    ));
    let (_, outputs) = process(&mut worker, &request(2), &["  "], AnswerEnd::Complete);
    assert!(matches!(
        outputs.last(),
        Some(OutputEvent::Error(error))
            if error.message == "request #2 failed: OpenRouter produced an empty response"
    ));
    let (third, _) = process(
        &mut worker,
        &request(3),
        &["answer"],
        AnswerEnd::Failed(LlmError::IncompleteStream),
    );
    assert_eq!(third.messages.len(), 2);
    assert_eq!(worker.stats().failed, 3);
    assert_eq!(worker.stats().completed, 0);
}

#[test]
fn live_coding_answers_update_the_task() {
    let mut worker = LlmWorker::new(config());
    let asked = LlmRequest {
        mode: Mode::LiveCoding,
        ..request(1)
    };
    assert_eq!(worker.timeout_sec(Mode::LiveCoding), 60);
    let (chat, outputs) = process(
        &mut worker,
        &asked,
        &[r#"{"summary":"s","language":"java","code_changed":true,"#, r#""code":"a","change_note":"n"}"#],
        AnswerEnd::Complete,
    );
    assert_eq!(generation_options(&config(), &chat), (single(0.1), 1_800));
    assert!(outputs
        .iter()
        .any(|event| matches!(event, OutputEvent::LiveCodingUpdated(state) if state.code == "a")));
    assert!(!outputs
        .iter()
        .any(|event| matches!(event, OutputEvent::AnswerDelta { .. })));
}

#[test]
fn dialogue_errors_say_what_failed() {
    assert_eq!(
        LlmError::Client("tls".to_owned()).message(),
        "could not build the OpenRouter HTTP client: tls"
    );
    assert_eq!(
        LlmError::Request("reset".to_owned()).message(),
        "OpenRouter request failed: reset"
    );
    assert_eq!(
        LlmError::Sse("utf-8".to_owned()).message(),
        "invalid OpenRouter SSE event: utf-8"
    );
    assert_eq!(
        LlmError::HttpStatus {
            status: 500,
            message: "oops".to_owned(),
        }
        .message(),
        "OpenRouter returned HTTP 500: oops"
    );
    assert_eq!(
        LlmError::Provider {
            code: "429".to_owned(),
            message: "slow".to_owned(),
        }
        .message(),
        "OpenRouter provider error 429: slow"
    );
    assert_eq!(LlmQueueError.message(), "LLM request queue closed");
    assert_eq!(
        LlmWorkerError::OutputChannelClosed.message(),
        "LLM output channel closed"
    );
    assert_eq!(ChatRole::Assistant.label(), "assistant");
    assert_eq!(
        ChatRequest::new(vec![
            ChatMessage::system("s".to_owned()),
            ChatMessage::user("u".to_owned()),
        ])
        .messages
        .len(),
        2
    );
}
