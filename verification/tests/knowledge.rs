//! The local knowledge base.

use mague_rc::app::retrieval::{ResolvePlan, RetrievalLimits};
use mague_rc::app::RetrievalPipeline;
use mague_rc::config::{EmbeddingConfig, KnowledgeConfig, SecretString};
use mague_rc::knowledge::chunking::{chunk_text, split_long_block, MAX_CHUNK_CHARS};
use mague_rc::knowledge::embedding::{
    build_embeddings_url, check_embedding_body, embedding_output, embedding_request,
    embedding_status_error, input_type_for, is_transient, order_embeddings, retry_delay_ms,
    EmbeddingData, EmbeddingError, EmbeddingErrorEnvelope, EmbeddingOutput, EmbeddingResponse,
    EmbeddingUsage,
};
use mague_rc::knowledge::index::{
    check_query, check_query_vector, document_input, fingerprint, is_markdown_extension,
    query_input, rank_hits, validate_index, IndexBuild, KnowledgeIndex,
};
use mague_rc::knowledge::lexical::{lexical_matches, lexical_terms};
use mague_rc::knowledge::markdown::parse_markdown;
use mague_rc::knowledge::types::EmbeddingPurpose;
use mague_rc::knowledge::{
    KnowledgeError, KnowledgePaths, KnowledgeSearchRequest, KnowledgeSearchResult,
    KnowledgeWorker, QueryReport, SearchHit,
};
use mague_rc::numbers::Single;

fn single(value: f32) -> Single {
    Single { bits: value.to_bits() }
}

fn embedding_config() -> EmbeddingConfig {
    EmbeddingConfig {
        api_key: SecretString::new("test".to_owned()),
        base_url: "https://example.test/api/v1".to_owned(),
        model: "test-embedding".to_owned(),
        dimensions: 2,
        query_input_type: "search_query".to_owned(),
        document_input_type: "search_document".to_owned(),
        timeout_sec: 30,
    }
}

#[test]
fn markdown_parser_keeps_heading_hierarchy_and_drops_images() {
    let markdown = r#"
# Java

## HashMap

Текст до картинки.

![diagram][map]

Текст после картинки.

[map]: <data:image/png;base64,AAAAvery-large-payloadBBBB>
"#;

    let sections = parse_markdown(markdown);

    assert_eq!(sections.len(), 1);
    assert_eq!(sections[0].heading, "Java > HashMap");
    assert!(sections[0].text.contains("Текст до картинки."));
    assert!(sections[0].text.contains("Текст после картинки."));
    assert!(!sections[0].text.contains("diagram"));
    assert!(!sections[0].text.contains("base64"));
    assert!(!sections[0].text.contains("AAAA"));
}

#[test]
fn a_higher_heading_closes_the_ones_below() {
    let sections = parse_markdown("# A\n\n## B\n\nfirst\n\n# C\n\nsecond `code`\n");

    assert_eq!(sections.len(), 2);
    assert_eq!(sections[0].heading, "A > B");
    assert_eq!(sections[0].text, "first");
    assert_eq!(sections[1].heading, "C");
    assert_eq!(sections[1].text, "second code");
}

#[test]
fn chunking_respects_unicode_and_size_limit() {
    let text = "абв ".repeat(1_000);
    let chunks = chunk_text(&text);

    assert!(chunks.len() > 1);
    assert!(chunks
        .iter()
        .all(|chunk| chunk.chars().count() <= MAX_CHUNK_CHARS));
    assert_eq!(
        chunks
            .iter()
            .map(|chunk| chunk.split_whitespace().count())
            .sum::<usize>(),
        1_000
    );
}

#[test]
fn short_paragraphs_share_a_chunk() {
    assert_eq!(chunk_text("one\n\ntwo"), vec!["one\n\ntwo".to_owned()]);
    assert_eq!(chunk_text(""), Vec::<String>::new());
    assert_eq!(split_long_block("short"), vec!["short".to_owned()]);

    let long = "a".repeat(1_200);
    assert_eq!(
        chunk_text(&format!("{long}\n\nnext")),
        vec![long, "next".to_owned()]
    );
}

#[test]
fn lexical_score_rewards_matching_technical_terms() {
    let query = lexical_terms("Чем отличается HashMap от ConcurrentHashMap?");
    let score = |text: &str| lexical_matches(&query, text) as f32 / query.len() as f32;

    let relevant = score("HashMap и ConcurrentHashMap отличаются потокобезопасностью");
    let irrelevant = score("Сборщик мусора освобождает память");

    assert!(relevant > irrelevant);
}

#[test]
fn terms_are_lower_case_long_enough_and_not_common() {
    let mut terms = lexical_terms("Как ХЕШ and The HashMap, HashMap ab");
    terms.sort();
    assert_eq!(terms, vec!["hashmap".to_owned(), "хеш".to_owned()]);
}

#[test]
fn retrieval_instruction_is_only_added_to_queries() {
    let query = query_input("Как работает ConcurrentHashMap?");
    let document = document_input(
        "Java > ConcurrentHashMap",
        "ConcurrentHashMap поддерживает конкурентный доступ.",
    );

    assert!(query.starts_with("Instruct: "));
    assert!(query.contains("\nQuery: Как работает ConcurrentHashMap?"));
    assert!(!document.contains("Instruct:"));
    assert_eq!(
        document,
        "Java > ConcurrentHashMap\nConcurrentHashMap поддерживает конкурентный доступ."
    );
    assert_eq!(document_input("", "text"), "text");
}

#[test]
fn appends_embeddings_to_base_path() {
    assert_eq!(
        build_embeddings_url("https://openrouter.ai/api/v1"),
        Ok("https://openrouter.ai/api/v1/embeddings".to_owned())
    );
}

#[test]
fn embeds_batch_and_preserves_provider_order() {
    let config = EmbeddingConfig {
        api_key: SecretString::new("openrouter-secret".to_owned()),
        base_url: "http://127.0.0.1:8080/api/v1".to_owned(),
        model: "qwen/qwen3-embedding-8b".to_owned(),
        dimensions: 3,
        query_input_type: "search_query".to_owned(),
        document_input_type: "search_document".to_owned(),
        timeout_sec: 1,
    };
    assert_eq!(
        build_embeddings_url(&config.base_url),
        Ok("http://127.0.0.1:8080/api/v1/embeddings".to_owned())
    );
    let inputs = vec!["first".to_owned(), "second".to_owned()];
    let request = embedding_request(&config, &inputs, EmbeddingPurpose::Query);
    assert_eq!(request.model, "qwen/qwen3-embedding-8b");
    assert_eq!(request.dimensions, 3);
    assert_eq!(request.input_type, "search_query");
    assert_eq!(request.sort, "latency");
    assert_eq!(request.input[0], "first");
    assert_eq!(request.input[1], "second");

    let vector = |values: [f32; 3]| values.iter().map(|value| single(*value)).collect();
    let response = EmbeddingResponse {
        data: vec![
            EmbeddingData {
                index: 1,
                embedding: vector([0.0, 1.0, 0.0]),
            },
            EmbeddingData {
                index: 0,
                embedding: vector([1.0, 0.0, 0.0]),
            },
        ],
        usage: EmbeddingUsage {
            prompt_tokens: 4,
            total_tokens: 4,
        },
    };
    let output =
        embedding_output(response, inputs.len(), 3).expect("embedding request must succeed");

    assert_eq!(
        output.embeddings[0],
        vec![single(1.0), single(0.0), single(0.0)]
    );
    assert_eq!(
        output.embeddings[1],
        vec![single(0.0), single(1.0), single(0.0)]
    );
    assert_eq!(output.prompt_tokens, 4);
    assert_eq!(output.total_tokens, 4);
}

#[test]
fn refuses_vectors_of_another_size_or_number() {
    let data = || {
        vec![EmbeddingData {
            index: 0,
            embedding: vec![single(1.0)],
        }]
    };
    assert_eq!(
        order_embeddings(data(), 1, 2),
        Err(KnowledgeError::EmbeddingDimension {
            expected: 2,
            actual: 1,
        })
    );
    assert!(matches!(
        order_embeddings(data(), 2, 1),
        Err(KnowledgeError::EmbeddingProtocol(_))
    ));
}

#[test]
fn input_types_depend_on_the_purpose() {
    let config = embedding_config();
    assert_eq!(
        input_type_for(&config, EmbeddingPurpose::Query),
        "search_query"
    );
    assert_eq!(
        input_type_for(&config, EmbeddingPurpose::Document),
        "search_document"
    );
}

fn read_envelope(text: &str) -> Option<EmbeddingErrorEnvelope> {
    let value: serde_json::Value = serde_json::from_str(text).ok()?;
    Some(EmbeddingErrorEnvelope {
        error: value
            .get("error")
            .and_then(|error| error.get("message"))
            .and_then(|message| message.as_str())
            .map(|message| EmbeddingError {
                message: message.to_owned(),
            }),
    })
}

#[test]
fn only_passing_failures_are_tried_again() {
    let overloaded = embedding_status_error(503, "busy", read_envelope);
    assert_eq!(
        overloaded,
        KnowledgeError::EmbeddingHttpStatus {
            status: 503,
            message: "busy".to_owned(),
        }
    );
    assert!(is_transient(&overloaded));
    let refused = embedding_status_error(
        401,
        r#"{"error":{"message":"bad key"}}"#,
        read_envelope,
    );
    assert!(!is_transient(&refused));
    assert_eq!(
        refused,
        KnowledgeError::EmbeddingHttpStatus {
            status: 401,
            message: "bad key".to_owned(),
        }
    );
    assert!(retry_delay_ms(EmbeddingPurpose::Document, 1, &overloaded).is_some());
    assert_eq!(
        retry_delay_ms(EmbeddingPurpose::Document, 1, &refused),
        None
    );
}

#[test]
fn an_error_in_a_good_answer_is_found() {
    let read = |bytes: &Vec<u8>| read_envelope(&String::from_utf8_lossy(bytes));
    let check = |text: &str| check_embedding_body(&text.as_bytes().to_vec(), read);
    assert!(check(r#"{"data":[]}"#).is_ok());
    assert_eq!(
        check(r#"{"error":{"message":"no model"}}"#),
        Err(KnowledgeError::EmbeddingProtocol(
            "provider returned error: no model".to_owned()
        ))
    );
    assert!(check("not json").is_ok());
}

#[test]
fn fingerprints_are_fnv_hashes() {
    assert_eq!(fingerprint(&Vec::new()), 0xcbf29ce484222325);
    assert_eq!(fingerprint(&b"a".to_vec()), 0xaf63dc4c8601ec8c);
}

fn built() -> IndexBuild {
    let mut build = IndexBuild::new();
    build.add_source("java.md", &"# Java\n\nHashMap\n".as_bytes().to_vec());
    build
}

#[test]
fn an_index_is_built_from_sources_and_vectors() {
    let mut build = built();
    assert_eq!(build.batch_count(), 1);
    assert_eq!(build.batch_inputs(0), vec!["Java\nHashMap".to_owned()]);
    let output = EmbeddingOutput {
        embeddings: vec![vec![single(1.0), single(0.0)]],
        prompt_tokens: 4,
        total_tokens: 5,
    };
    assert!(build.can_accept(&output));
    build.accept(output);
    let report = build.report(2, 10, 20, "index.json", 300);
    assert_eq!(report.source_count, 1);
    assert_eq!(report.section_count, 1);
    assert_eq!(report.chunk_count, 1);
    assert_eq!(report.embedding_calls, 1);
    assert_eq!(report.prompt_tokens, 4);
    assert_eq!(report.total_tokens, 5);

    let index = match build.finish("test-embedding", "search_document") {
        Ok(index) => index,
        Err(error) => panic!("{}", error.message()),
    };
    assert_eq!(index.dimension, 2);
    assert_eq!(index.chunks.len(), 1);
    assert_eq!(index.chunks[0].heading, "Java");
    assert_eq!(index.chunks[0].source, "java.md");
    assert!(index.chunks[0].id.ends_with("-0000-000"));
    assert_eq!(index.sources[0].fingerprint.len(), 16);
    assert!(validate_index(&index, &embedding_config()).is_ok());
}

#[test]
fn bytes_that_are_no_text_are_replaced() {
    let mut build = IndexBuild::new();
    build.add_source("java.md", &vec![b'a', 0xff, b'b']);
    assert_eq!(build.batch_inputs(0), vec!["a\u{fffd}b".to_owned()]);
}

#[test]
fn an_index_needs_a_vector_for_every_chunk() {
    match built().finish("test-embedding", "search_document") {
        Ok(_) => panic!("vectors are missing"),
        Err(error) => assert_eq!(
            error,
            KnowledgeError::EmbeddingProtocol(
                "model returned 0 vectors for 1 chunks".to_owned()
            )
        ),
    }
}

fn empty_index() -> KnowledgeIndex {
    KnowledgeIndex {
        schema_version: 3,
        model: "test-embedding".to_owned(),
        dimension: 2,
        document_input_type: "search_document".to_owned(),
        sources: Vec::new(),
        chunks: Vec::new(),
    }
}

#[test]
fn an_index_of_other_settings_is_refused() {
    let config = embedding_config();
    assert!(validate_index(&empty_index(), &config).is_ok());

    let mut index = empty_index();
    index.schema_version = 2;
    assert_eq!(
        validate_index(&index, &config),
        Err(KnowledgeError::IncompatibleIndex(
            "schema version is 2, expected 3".to_owned()
        ))
    );
    let mut index = empty_index();
    index.model = "other".to_owned();
    assert_eq!(
        validate_index(&index, &config),
        Err(KnowledgeError::IncompatibleIndex(
            "model is other, expected test-embedding".to_owned()
        ))
    );
    let mut index = empty_index();
    index.document_input_type = "other".to_owned();
    assert!(validate_index(&index, &config).is_err());
    let mut index = empty_index();
    index.dimension = 3;
    assert_eq!(
        validate_index(&index, &config),
        Err(KnowledgeError::IncompatibleIndex(
            "stored vector dimension is 3, expected 2".to_owned()
        ))
    );
}

#[test]
fn queries_need_words_and_a_vector_that_fits() {
    assert_eq!(check_query("  HashMap "), Ok("HashMap".to_owned()));
    assert_eq!(check_query(" \n"), Err(KnowledgeError::EmptyQuery));

    let index = empty_index();
    assert!(check_query_vector(&index, &vec![vec![single(1.0), single(0.0)]]).is_ok());
    assert_eq!(
        check_query_vector(&index, &Vec::new()),
        Err(KnowledgeError::EmbeddingProtocol(
            "model returned no query vector".to_owned()
        ))
    );
    assert_eq!(
        check_query_vector(&index, &vec![vec![single(1.0)]]),
        Err(KnowledgeError::IncompatibleIndex(
            "index dimension is 2, model returned 1".to_owned()
        ))
    );
}

fn hit(id: &str, score: f32) -> SearchHit {
    SearchHit {
        id: id.to_owned(),
        source: "knowledge/java.md".to_owned(),
        heading: "Java".to_owned(),
        text: format!("passage {id}"),
        dense_score: single(score),
        lexical_score: single(0.0),
        combined_score: single(score),
    }
}

fn ids(hits: &Vec<SearchHit>) -> Vec<&str> {
    hits.iter().map(|hit| hit.id.as_str()).collect()
}

#[test]
fn the_best_passages_come_first() {
    let hits = vec![hit("a", 0.2), hit("b", 0.9), hit("c", -0.5), hit("d", 0.9)];
    assert_eq!(ids(&rank_hits(&hits, 3)), vec!["b", "d", "a"]);
    assert_eq!(ids(&rank_hits(&hits, 10)), vec!["b", "d", "a", "c"]);
    assert!(rank_hits(&hits, 0).is_empty());
}

#[test]
fn markdown_files_are_known_by_their_extension() {
    assert!(is_markdown_extension("md"));
    assert!(is_markdown_extension("MD"));
    assert!(!is_markdown_extension("txt"));
}

#[test]
fn the_index_lives_in_the_cache_directory() {
    assert_eq!(
        KnowledgePaths::discover(Some("/cache".to_owned()), Some("/home/u".to_owned()), "/tmp")
            .index_file,
        "/cache/mague-rc/knowledge/index-v3.json"
    );
    assert_eq!(
        KnowledgePaths::discover(None, Some("/home/u".to_owned()), "/tmp").index_file,
        "/home/u/.cache/mague-rc/knowledge/index-v3.json"
    );
    assert_eq!(
        KnowledgePaths::discover(None, None, "/tmp").index_file,
        "/tmp/mague-rc-cache/mague-rc/knowledge/index-v3.json"
    );
}

fn knowledge_config() -> KnowledgeConfig {
    KnowledgeConfig {
        enabled: true,
        embedding: embedding_config(),
        top_k: 2,
        max_context_chars: 2_000,
        min_score: single(0.75),
        refresh_ms: 1_000,
        final_wait_ms: 50,
        debug: false,
    }
}

fn pipeline() -> RetrievalPipeline {
    RetrievalPipeline::new(RetrievalLimits::of(&knowledge_config(), single(0.75 + 0.08)))
}

fn query_report(id: &str, heading: &str, text: &str, score: f32) -> QueryReport {
    QueryReport {
        embedding_ms: 8,
        embedding_calls: 1,
        prompt_tokens: 4,
        total_tokens: 4,
        search_ms: 1,
        hits: vec![SearchHit {
            id: id.to_owned(),
            source: "knowledge/java.md".to_owned(),
            heading: heading.to_owned(),
            text: text.to_owned(),
            dense_score: single(score),
            lexical_score: single(0.0),
            combined_score: single(score),
        }],
        index_path: "index.json".to_owned(),
    }
}

fn answer(request: &KnowledgeSearchRequest, report: QueryReport) -> KnowledgeSearchResult {
    KnowledgeSearchResult {
        search_id: request.search_id,
        turn_id: request.turn_id,
        query: request.query.clone(),
        report: Ok(report),
    }
}

#[test]
fn retrieval_accumulates_interim_hits_and_prioritizes_final_query() {
    let mut retrieval = pipeline();

    let first = retrieval
        .prefetch("Что такое блокировка", true, 0)
        .expect("prefetch must send");
    retrieval.dispatched(&first, true, 0);
    retrieval.accept_result(answer(
        &first,
        query_report("old", "Общие сведения", "Старый interim-фрагмент", 0.86),
    ));

    let final_query = "Чем отличается optimistic locking от pessimistic locking?";
    let second = retrieval
        .prefetch(final_query, true, 1)
        .expect("final prefetch must send");
    retrieval.dispatched(&second, true, 1);
    retrieval.accept_result(answer(
        &second,
        query_report(
            "final",
            "Hibernate > Блокировки",
            "Optimistic использует version, pessimistic блокирует данные.",
            0.91,
        ),
    ));

    let search_id = match retrieval.plan_resolve(final_query) {
        ResolvePlan::Known(search_id) => search_id,
        ResolvePlan::Search(_) => panic!("the question was looked up already"),
    };
    assert!(!retrieval.must_wait(search_id));
    let context = retrieval
        .resolve(search_id, 7)
        .expect("retrieval must succeed");

    assert_eq!(context.searches, 2);
    assert_eq!(context.snippets.len(), 2);
    assert_eq!(context.snippets[0].id, "final");
    assert_eq!(context.snippets[1].id, "old");
    assert_eq!(context.final_wait_ms, 7);
    assert_eq!(context.embedding_prompt_tokens, 8);
}

#[test]
fn results_of_an_earlier_turn_are_dropped() {
    let mut retrieval = pipeline();
    let request = retrieval
        .prefetch("Что такое блокировка", true, 0)
        .expect("prefetch must send");
    retrieval.dispatched(&request, true, 0);
    retrieval.reset();
    retrieval.accept_result(answer(&request, query_report("old", "A", "text", 0.9)));

    let next = match retrieval.plan_resolve("Другой вопрос о потоках") {
        ResolvePlan::Known(_) => panic!("nothing was looked up yet"),
        ResolvePlan::Search(request) => request,
    };
    let search_id = retrieval.dispatched(&next, true, 5);
    assert!(retrieval.must_wait(search_id));
    let mut found = answer(&next, query_report("new", "B", "text", 0.9));
    found.search_id = next.search_id;
    assert!(retrieval.ends_wait(search_id, &found));
    retrieval.accept_result(found);
    assert!(!retrieval.must_wait(search_id));
    let context = retrieval.resolve(search_id, 0).expect("it was found");
    assert_eq!(context.snippets.len(), 1);
    assert_eq!(context.snippets[0].id, "new");
}

#[test]
fn a_stopped_worker_fails_the_look_up() {
    let mut retrieval = pipeline();
    let next = match retrieval.plan_resolve("Вопрос о потоках и блокировках") {
        ResolvePlan::Known(_) => panic!("nothing was looked up yet"),
        ResolvePlan::Search(request) => request,
    };
    let search_id = retrieval.dispatched(&next, true, 5);
    retrieval.worker_stopped();
    assert!(retrieval.resolve(search_id, 0).is_err());
}

#[test]
fn weak_passages_are_left_out() {
    let mut retrieval = pipeline();
    let next = match retrieval.plan_resolve("Вопрос о потоках и блокировках") {
        ResolvePlan::Known(_) => panic!("nothing was looked up yet"),
        ResolvePlan::Search(request) => request,
    };
    let search_id = retrieval.dispatched(&next, true, 5);
    retrieval.accept_result(answer(&next, query_report("weak", "A", "text", 0.5)));
    let context = retrieval.resolve(search_id, 0).expect("it was found");
    assert!(context.snippets.is_empty());
}

#[test]
fn only_the_newest_waiting_search_is_made() {
    let request = |search_id: u64| KnowledgeSearchRequest {
        search_id,
        turn_id: 1,
        query: format!("query {search_id}"),
        top_k: 3,
    };
    let mut worker = KnowledgeWorker::default();
    assert!(worker.can_go_on(3));
    let chosen = worker
        .choose_request(vec![request(1), request(2), request(3)])
        .expect("one must be chosen");
    assert_eq!(chosen.search_id, 3);
    assert_eq!(worker.stats.searches, 1);
    assert_eq!(worker.stats.coalesced, 2);
    assert!(worker.choose_request(Vec::new()).is_none());

    let found = worker.conclude(request(3), Ok(query_report("a", "A", "text", 0.9)));
    assert_eq!(found.search_id, 3);
    assert_eq!(found.query, "query 3");
    assert!(found.report.is_ok());
    assert_eq!(worker.stats.failed, 0);

    let failed = worker.conclude(request(4), Err(KnowledgeError::EmptyQuery));
    assert_eq!(
        failed.report,
        Err("knowledge query must not be empty".to_owned())
    );
    assert_eq!(worker.stats.failed, 1);
}

#[test]
fn knowledge_errors_say_what_failed() {
    assert_eq!(
        KnowledgeError::SourceMissing("notes".to_owned()).message(),
        "knowledge source does not exist: notes"
    );
    assert_eq!(
        KnowledgeError::NoMarkdown("notes".to_owned()).message(),
        "no Markdown files found under knowledge source: notes"
    );
    assert_eq!(
        KnowledgeError::Io {
            action: "could not read file".to_owned(),
            path: "a.md".to_owned(),
            source: "denied".to_owned(),
        }
        .message(),
        "could not read file `a.md`: denied"
    );
    assert_eq!(
        KnowledgeError::EmbeddingHttpStatus {
            status: 429,
            message: "slow down".to_owned(),
        }
        .message(),
        "OpenRouter embeddings returned HTTP 429: slow down"
    );
    assert_eq!(
        KnowledgeError::EmbeddingDimension {
            expected: 2,
            actual: 1,
        }
        .message(),
        "embedding dimension mismatch: expected 2, received 1"
    );
    assert_eq!(
        KnowledgeError::IndexMissing("index.json".to_owned()).message(),
        "knowledge index is missing at `index.json`; run `cargo run -- rag index knowledge/` first"
    );
    assert_eq!(
        KnowledgeError::IncompatibleIndex("old".to_owned()).message(),
        "knowledge index is incompatible: old; rebuild it with `rag index`"
    );
    assert_eq!(
        KnowledgeError::Decode {
            path: "index.json".to_owned(),
            source: "eof".to_owned(),
        }
        .message(),
        "could not decode knowledge index `index.json`: eof"
    );
    assert_eq!(
        KnowledgeError::Encode("eof".to_owned()).message(),
        "could not encode knowledge index: eof"
    );
    assert_eq!(
        KnowledgeError::EmbeddingClient("tls".to_owned()).message(),
        "could not build OpenRouter embedding client: tls"
    );
    assert_eq!(
        KnowledgeError::EmbeddingRequest("timeout".to_owned()).message(),
        "OpenRouter embedding request failed: timeout"
    );
    assert_eq!(
        KnowledgeError::EmbeddingProtocol("shape".to_owned()).message(),
        "could not parse OpenRouter embedding response: shape"
    );
}
