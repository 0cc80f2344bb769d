//! The comparison of language models.

use mague_rc::benchmark::{
    distribution, file_questions, knowledge_context, parse_options, prompt_messages, run_outcome,
    summarize, Completion, CompletionReader,
};
use mague_rc::config::{EmbeddingConfig, KnowledgeConfig, SecretString};
use mague_rc::events::LlmUsage;
use mague_rc::knowledge::{QueryReport, SearchHit};
use mague_rc::llm::{voice_system_prompt, ChatRole, LlmError, LlmStreamEvent};
use mague_rc::numbers::{Double, Single};

fn arguments(list: &[&str]) -> Vec<String> {
    list.iter().map(|argument| (*argument).to_owned()).collect()
}

fn single(value: f32) -> Single {
    Single { bits: value.to_bits() }
}

#[test]
fn everything_has_a_usual_value() {
    let options = parse_options(&Vec::new()).expect("no arguments must do");
    assert_eq!(options.question_files.len(), 6);
    assert_eq!(options.question_files[0], "benchmark_human.expected.txt");
    assert_eq!(options.models.len(), 4);
    assert_eq!(options.models[0], "openai/gpt-4o-mini");
    assert_eq!(options.repeat, 1);
    assert_eq!(options.output, "telemetry/llm-benchmark.json");
}

#[test]
fn arguments_say_what_is_compared() {
    let options = parse_options(&arguments(&[
        "--model", "a", "--questions", "q.txt", "--model", "b", "--repeat", "3", "--output", "out",
    ]))
    .expect("arguments must be understood");
    assert_eq!(options.question_files, vec!["q.txt"]);
    assert_eq!(options.models, vec!["a", "b"]);
    assert_eq!(options.repeat, 3);
    assert_eq!(options.output, "out");
}

#[test]
fn arguments_that_cannot_be_used_are_refused() {
    for (given, reason) in [
        (vec!["--questions"], "--questions requires a file"),
        (vec!["--model"], "--model requires a model slug"),
        (vec!["--repeat"], "--repeat requires a number"),
        (vec!["--output"], "--output requires a file"),
        (vec!["--repeat", "x"], "--repeat must be a positive number"),
        (vec!["--repeat", "0"], "--repeat must be greater than zero"),
        (vec!["--fast", "x"], "unexpected argument: --fast"),
    ] {
        assert_eq!(parse_options(&arguments(&given)), Err(reason.to_owned()));
    }
}

#[test]
fn blank_lines_are_no_questions() {
    let questions = file_questions(Some("set"), "dir/set.txt", "  one \n\n\t\ntwo\r\n");
    let found = questions
        .iter()
        .map(|question| {
            (
                question.id.as_str(),
                question.source.as_str(),
                question.question.as_str(),
            )
        })
        .collect::<Vec<_>>();
    assert_eq!(
        found,
        vec![("set-1", "dir/set.txt", "one"), ("set-2", "dir/set.txt", "two")]
    );
    assert_eq!(file_questions(None, "", "x")[0].id, "questions-1");
}

fn hit(id: &str, text: &str, score: f32) -> SearchHit {
    SearchHit {
        id: id.to_owned(),
        source: "notes.md".to_owned(),
        heading: "Java".to_owned(),
        text: text.to_owned(),
        dense_score: single(0.0),
        lexical_score: single(0.0),
        combined_score: single(score),
    }
}

fn knowledge(top_k: usize, max_context_chars: usize) -> KnowledgeConfig {
    KnowledgeConfig {
        enabled: true,
        embedding: EmbeddingConfig {
            api_key: SecretString::new("test".to_owned()),
            base_url: "https://example.test/api/v1".to_owned(),
            model: "test-embedding".to_owned(),
            dimensions: 2,
            query_input_type: "search_query".to_owned(),
            document_input_type: "search_document".to_owned(),
            timeout_sec: 30,
        },
        top_k,
        max_context_chars,
        min_score: single(0.5),
        refresh_ms: 1,
        final_wait_ms: 1,
        debug: false,
    }
}

fn report() -> QueryReport {
    QueryReport {
        embedding_ms: 11,
        embedding_calls: 1,
        prompt_tokens: 7,
        total_tokens: 8,
        search_ms: 2,
        hits: vec![
            hit("a", "abc", 0.9),
            hit("b", "weak", 0.4),
            hit("c", "defg", 0.5),
            hit("d", "hij", 0.8),
        ],
        index_path: "index.json".to_owned(),
    }
}

#[test]
fn passages_are_cut_to_their_limits() {
    let texts = |top_k: usize, room: usize| {
        knowledge_context(&knowledge(top_k, room), &report())
            .snippets
            .iter()
            .map(|snippet| snippet.text.clone())
            .collect::<Vec<_>>()
    };
    assert_eq!(texts(5, 100), vec!["abc", "defg", "hij"]);
    assert_eq!(texts(2, 100), vec!["abc", "defg"]);
    assert_eq!(texts(5, 5), vec!["abc", "de"]);
    assert!(texts(0, 100).is_empty());

    let context = knowledge_context(&knowledge(5, 100), &report());
    assert_eq!(context.searches, 1);
    assert_eq!(context.embedding_calls, 1);
    assert_eq!(context.embedding_prompt_tokens, 7);
    assert_eq!(context.embedding_total_tokens, 8);
    assert_eq!(context.embedding_ms, 11);
    assert_eq!(context.search_ms, 2);
    assert_eq!(context.final_wait_ms, 0);
}

#[test]
fn a_prompt_has_passages_only_where_there_are_some() {
    let with = knowledge_context(&knowledge(5, 100), &report());
    let without = knowledge_context(&knowledge(0, 100), &report());
    let bare = prompt_messages("project", &without, "why?");
    assert_eq!(bare.len(), 2);
    assert_eq!(bare[0].role, ChatRole::System);
    assert_eq!(bare[0].content, voice_system_prompt("project"));
    assert_eq!(bare[1].role, ChatRole::User);
    assert_eq!(bare[1].content, "why?");
    let full = prompt_messages("project", &with, "why?");
    assert_eq!(full.len(), 3);
    assert!(full[1].content.contains("defg"));
}

#[test]
fn the_first_text_that_is_not_empty_is_timed() {
    let usage = |total_tokens: u64| LlmUsage {
        prompt_tokens: 1,
        completion_tokens: 2,
        total_tokens,
        cost: None,
    };
    let mut reader = CompletionReader::new();
    reader.accept(LlmStreamEvent::Delta(String::new()), 5);
    reader.accept(LlmStreamEvent::Delta("an".to_owned()), 9);
    reader.accept(LlmStreamEvent::Usage(usage(3)), 10);
    reader.accept(LlmStreamEvent::Delta("swer".to_owned()), 12);
    reader.accept(LlmStreamEvent::Usage(usage(4)), 13);
    let completion = reader.finish(20).expect("the answer must be complete");
    assert_eq!(completion.ttft_ms, Some(9));
    assert_eq!(completion.total_ms, 20);
    assert_eq!(completion.answer, "answer");
    assert_eq!(completion.usage, Some(usage(4)));

    let mut blank = CompletionReader::new();
    blank.accept(LlmStreamEvent::Delta(" \n".to_owned()), 1);
    assert!(matches!(blank.finish(2), Err(LlmError::EmptyResponse)));
}

#[test]
fn times_are_spread_from_the_least_to_the_greatest() {
    let spread = distribution(&vec![40, 10, 30, 20]);
    assert_eq!(spread.count, 4);
    assert_eq!(spread.min, 10);
    assert_eq!(spread.sum, 100);
    assert_eq!(spread.p50, 30);
    assert_eq!(spread.p95, 40);
    assert_eq!(spread.max, 40);
    let many = (0..=100).collect::<Vec<u64>>();
    for count in 1..=many.len() {
        let spread = distribution(&many[..count].to_vec());
        let index = |share: f64| ((count - 1) as f64 * share).ceil() as u64;
        assert_eq!(spread.p50, index(0.50));
        assert_eq!(spread.p95, index(0.95));
    }
    assert_eq!(distribution(&Vec::new()).max, 0);
}

#[test]
fn a_summary_counts_every_question_once() {
    let answered = |ttft_ms: u64, total_ms: u64, cost: Option<f64>| {
        run_outcome(Ok(Completion {
            ttft_ms: Some(ttft_ms),
            total_ms,
            answer: "yes".to_owned(),
            usage: Some(LlmUsage {
                prompt_tokens: 10,
                completion_tokens: 5,
                total_tokens: 15,
                cost: cost.map(|cost| Double {
                    bits: cost.to_bits(),
                }),
            }),
        }))
    };
    let failed = run_outcome(Err("deadline has elapsed".to_owned()));
    assert_eq!(failed.error.as_deref(), Some("deadline has elapsed"));
    assert_eq!(failed.total_ms, 0);
    assert!(failed.answer.is_empty());
    let summary = summarize(&vec![
        answered(3, 30, Some(0.5)),
        failed,
        answered(1, 10, None),
    ]);
    assert_eq!(summary.successful, 2);
    assert_eq!(summary.failed, 1);
    assert_eq!(summary.ttft_ms.min, 1);
    assert_eq!(summary.ttft_ms.max, 3);
    assert_eq!(summary.total_ms.count, 2);
    assert_eq!(summary.total_ms.sum, 40);
    assert_eq!(summary.prompt_tokens, 20);
    assert_eq!(summary.completion_tokens, 10);
    assert_eq!(summary.total_tokens, 30);
    assert_eq!(
        summary.costs,
        vec![Double {
            bits: 0.5_f64.to_bits()
        }]
    );
}
