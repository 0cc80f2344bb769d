//! Compares language models on the same questions: what is asked of which
//! model, and what is reported of the answers.
use vstd::prelude::*;

use crate::app::retrieval::{hit_models, snippet_models, total_chars};
use crate::config::assistant::KnowledgeConfig;
use crate::events::{
    KnowledgeContext, KnowledgeContextModel, KnowledgeSnippet, KnowledgeSnippetModel, LlmUsage,
};
use crate::knowledge::types::{QueryReport, SearchHitModel};
use crate::llm::prompts::{
    knowledge_context_prompt, knowledge_prompt, voice_system_prompt, VOICE_PROMPT_HEAD,
    VOICE_PROMPT_TAIL,
};
use crate::llm::provider::{
    message_models, ChatMessage, ChatMessageModel, ChatRole, LlmError, LlmErrorModel,
    LlmStreamEvent, LlmStreamEventModel,
};
use crate::llm::worker::said;
use crate::numbers::{Double, Single};
use crate::telemetry::metrics::{
    rising, rising_is_sorted, sort, sum, the_extremes_are_among_the_values, total,
};
use crate::text::{
    char_len, decimal, decimal_text, first, first_chars, is_blank, lines, number_value,
    parse_number, same_text, split_lines, trim, trimmed, views,
};

verus! {

// ---------------------------------------------------------------------------
// What is compared
// ---------------------------------------------------------------------------

/// What is compared, how often, and where the report goes.
#[derive(Debug, PartialEq, Eq)]
pub struct BenchmarkOptions {
    pub question_files: Vec<String>,
    pub models: Vec<String>,
    pub repeat: usize,
    pub output: String,
}

/// The value of [`BenchmarkOptions`].
#[verifier::ext_equal]
pub struct OptionsModel {
    pub question_files: Seq<Seq<char>>,
    pub models: Seq<Seq<char>>,
    pub repeat: usize,
    pub output: Seq<char>,
}

impl View for BenchmarkOptions {
    type V = OptionsModel;

    open spec fn view(&self) -> OptionsModel {
        OptionsModel {
            question_files: views(self.question_files@),
            models: views(self.models@),
            repeat: self.repeat,
            output: self.output@,
        }
    }
}

/// The files with questions where none are given.
pub open spec fn default_question_files() -> Seq<Seq<char>> {
    seq![
        "benchmark_human.expected.txt"@,
        "benchmark_dangling.expected.txt"@,
        "benchmark_dangling_complete.expected.txt"@,
        "benchmark_expressive.expected.txt"@,
        "benchmark_disfluent.expected.txt"@,
        "benchmark_technical.expected.txt"@,
    ]
}

/// The models where none are given.
pub open spec fn default_models() -> Seq<Seq<char>> {
    seq![
        "openai/gpt-4o-mini"@,
        "deepseek/deepseek-v4-flash"@,
        "xiaomi/mimo-v2.5"@,
        "google/gemini-3.5-flash-lite"@,
    ]
}

/// What is compared where nothing was said yet.
pub open spec fn no_options() -> OptionsModel {
    OptionsModel {
        question_files: Seq::empty(),
        models: Seq::empty(),
        repeat: 1,
        output: "telemetry/llm-benchmark.json"@,
    }
}

/// What the value behind an argument changes, or why it cannot be used.
pub open spec fn with_option(before: OptionsModel, argument: Seq<char>, value: Seq<char>) -> Result<
    OptionsModel,
    Seq<char>,
> {
    if argument == "--questions"@ {
        Ok(OptionsModel { question_files: before.question_files.push(value), ..before })
    } else if argument == "--model"@ {
        Ok(OptionsModel { models: before.models.push(value), ..before })
    } else if argument == "--repeat"@ {
        match number_value(value, usize::MAX as nat) {
            Err(_) => Err("--repeat must be a positive number"@),
            Ok(number) => if number == 0 {
                Err("--repeat must be greater than zero"@)
            } else {
                Ok(OptionsModel { repeat: number as usize, ..before })
            },
        }
    } else {
        Ok(OptionsModel { output: value, ..before })
    }
}

/// Why an argument cannot be the last one, or cannot be used at all.
pub open spec fn lone_argument(argument: Seq<char>) -> Seq<char> {
    if argument == "--questions"@ {
        "--questions requires a file"@
    } else if argument == "--model"@ {
        "--model requires a model slug"@
    } else if argument == "--repeat"@ {
        "--repeat requires a number"@
    } else if argument == "--output"@ {
        "--output requires a file"@
    } else {
        "unexpected argument: "@ + argument
    }
}

/// Whether an argument is followed by a value.
pub open spec fn takes_value(argument: Seq<char>) -> bool {
    argument == "--questions"@ || argument == "--model"@ || argument == "--repeat"@ || argument
        == "--output"@
}

/// What is read of arguments, behind what was read before.
pub open spec fn options_read(args: Seq<Seq<char>>, before: OptionsModel) -> Result<
    OptionsModel,
    Seq<char>,
>
    decreases args.len(),
{
    if args.len() == 0 {
        Ok(before)
    } else if args.len() == 1 || !takes_value(args[0]) {
        Err(lone_argument(args[0]))
    } else {
        match with_option(before, args[0], args[1]) {
            Err(reason) => Err(reason),
            Ok(options) => options_read(args.skip(2), options),
        }
    }
}

/// What the arguments ask for: files and models that are not given are the
/// usual ones.
pub open spec fn options_wish(args: Seq<Seq<char>>) -> Result<OptionsModel, Seq<char>> {
    match options_read(args, no_options()) {
        Err(reason) => Err(reason),
        Ok(options) => Ok(
            OptionsModel {
                question_files: if options.question_files.len() == 0 {
                    default_question_files()
                } else {
                    options.question_files
                },
                models: if options.models.len() == 0 {
                    default_models()
                } else {
                    options.models
                },
                ..options
            },
        ),
    }
}

fn usual_question_files() -> (r: Vec<String>)
    ensures
        views(r@) == default_question_files(),
{
    let r = vec![
        "benchmark_human.expected.txt".to_owned(),
        "benchmark_dangling.expected.txt".to_owned(),
        "benchmark_dangling_complete.expected.txt".to_owned(),
        "benchmark_expressive.expected.txt".to_owned(),
        "benchmark_disfluent.expected.txt".to_owned(),
        "benchmark_technical.expected.txt".to_owned(),
    ];
    assert(views(r@) =~= default_question_files());
    r
}

fn usual_models() -> (r: Vec<String>)
    ensures
        views(r@) == default_models(),
{
    let r = vec![
        "openai/gpt-4o-mini".to_owned(),
        "deepseek/deepseek-v4-flash".to_owned(),
        "xiaomi/mimo-v2.5".to_owned(),
        "google/gemini-3.5-flash-lite".to_owned(),
    ];
    assert(views(r@) =~= default_models());
    r
}

fn refuse_argument(argument: &str) -> (r: String)
    ensures
        r@ == lone_argument(argument@),
{
    if same_text(argument, "--questions") {
        "--questions requires a file".to_owned()
    } else if same_text(argument, "--model") {
        "--model requires a model slug".to_owned()
    } else if same_text(argument, "--repeat") {
        "--repeat requires a number".to_owned()
    } else if same_text(argument, "--output") {
        "--output requires a file".to_owned()
    } else {
        let mut reason = "unexpected argument: ".to_owned();
        reason.append(argument);
        reason
    }
}

fn set_option(options: &mut BenchmarkOptions, argument: &str, value: &str) -> (r: Result<
    (),
    String,
>)
    ensures
        match r {
            Ok(_) => with_option(old(options)@, argument@, value@) == Ok::<
                OptionsModel,
                Seq<char>,
            >(final(options)@),
            Err(reason) => with_option(old(options)@, argument@, value@) == Err::<
                OptionsModel,
                Seq<char>,
            >(reason@),
        },
{
    let ghost before = options@;
    if same_text(argument, "--questions") {
        options.question_files.push(value.to_owned());
        assert(options@.question_files =~= before.question_files.push(value@));
    } else if same_text(argument, "--model") {
        options.models.push(value.to_owned());
        assert(options@.models =~= before.models.push(value@));
    } else if same_text(argument, "--repeat") {
        match parse_number(value, usize::MAX as u64) {
            Err(_) => {
                return Err("--repeat must be a positive number".to_owned());
            },
            Ok(number) => {
                if number == 0 {
                    return Err("--repeat must be greater than zero".to_owned());
                }
                options.repeat = number as usize;
            },
        }
    } else {
        options.output = value.to_owned();
    }
    Ok(())
}

/// What the arguments ask for.
pub fn parse_options(arguments: &Vec<String>) -> (r: Result<BenchmarkOptions, String>)
    ensures
        match r {
            Ok(options) => options_wish(views(arguments@)) == Ok::<OptionsModel, Seq<char>>(
                options@,
            ),
            Err(reason) => options_wish(views(arguments@)) == Err::<OptionsModel, Seq<char>>(
                reason@,
            ),
        },
{
    let ghost all = views(arguments@);
    let mut options = BenchmarkOptions {
        question_files: Vec::new(),
        models: Vec::new(),
        repeat: 1,
        output: "telemetry/llm-benchmark.json".to_owned(),
    };
    assert(options@ =~= no_options());
    let mut i: usize = 0;
    assert(all.skip(0) =~= all);
    while i < arguments.len()
        invariant
            all == views(arguments@),
            i <= arguments@.len(),
            options_read(all, no_options()) == options_read(all.skip(i as int), options@),
        decreases arguments@.len() - i,
    {
        let ghost rest = all.skip(i as int);
        assert(rest[0] == arguments@[i as int]@);
        let argument = arguments[i].as_str();
        let known = same_text(argument, "--questions") || same_text(argument, "--model")
            || same_text(argument, "--repeat") || same_text(argument, "--output");
        if arguments.len() - i == 1 || !known {
            return Err(refuse_argument(argument));
        }
        assert(rest[1] == arguments@[i + 1]@);
        assert(rest.skip(2) =~= all.skip(i + 2));
        if let Err(reason) = set_option(&mut options, argument, arguments[i + 1].as_str()) {
            return Err(reason);
        }
        i += 2;
    }
    let BenchmarkOptions { question_files, models, repeat, output } = options;
    assert(views(question_files@).len() == question_files@.len());
    assert(views(models@).len() == models@.len());
    Ok(
        BenchmarkOptions {
            question_files: if question_files.len() == 0 {
                usual_question_files()
            } else {
                question_files
            },
            models: if models.len() == 0 {
                usual_models()
            } else {
                models
            },
            repeat,
            output,
        },
    )
}

/// There is always something to compare: questions, models and at least one
/// round.
pub proof fn comparisons_are_never_empty(args: Seq<Seq<char>>)
    ensures
        options_wish(args) matches Ok(options) ==> options.question_files.len() > 0
            && options.models.len() > 0 && options.repeat > 0,
{
    rounds_stay_positive(args, no_options());
}

proof fn rounds_stay_positive(args: Seq<Seq<char>>, before: OptionsModel)
    requires
        before.repeat > 0,
    ensures
        options_read(args, before) matches Ok(options) ==> options.repeat > 0,
    decreases args.len(),
{
    if args.len() > 1 && takes_value(args[0]) {
        if let Ok(options) = with_option(before, args[0], args[1]) {
            rounds_stay_positive(args.skip(2), options);
        }
    }
}

// ---------------------------------------------------------------------------
// The questions
// ---------------------------------------------------------------------------

/// A question with its name and the file that it is from.
#[derive(Debug, PartialEq, Eq)]
pub struct Question {
    pub id: String,
    pub source: String,
    pub question: String,
}

/// The value of a [`Question`].
#[verifier::ext_equal]
pub struct QuestionModel {
    pub id: Seq<char>,
    pub source: Seq<char>,
    pub question: Seq<char>,
}

impl View for Question {
    type V = QuestionModel;

    open spec fn view(&self) -> QuestionModel {
        QuestionModel { id: self.id@, source: self.source@, question: self.question@ }
    }
}

/// The lines that are not blank, without white space around them.
pub open spec fn asked_lines(all: Seq<Seq<char>>) -> Seq<Seq<char>>
    decreases all.len(),
{
    if all.len() == 0 {
        Seq::empty()
    } else {
        let before = asked_lines(all.drop_last());
        if trim(all.last()).len() == 0 {
            before
        } else {
            before.push(trim(all.last()))
        }
    }
}

/// The questions of a file: its lines, numbered from one behind the name of the
/// file without its ending.
pub open spec fn questions_in(stem: Seq<char>, source: Seq<char>, contents: Seq<char>) -> Seq<
    QuestionModel,
> {
    let asked = asked_lines(lines(contents));
    Seq::new(
        asked.len(),
        |i: int|
            QuestionModel {
                id: stem + "-"@ + decimal((i + 1) as nat),
                source,
                question: asked[i],
            },
    )
}

/// The values of questions.
pub open spec fn question_models(questions: Seq<Question>) -> Seq<QuestionModel> {
    Seq::new(questions.len(), |i: int| questions[i]@)
}

proof fn asked_lines_are_some(all: Seq<Seq<char>>, i: int)
    requires
        0 <= i < all.len(),
    ensures
        asked_lines(all.take(i)).len() <= i,
        trim(all[i]).len() > 0 ==> asked_lines(all.take(i + 1)) == asked_lines(all.take(i)).push(
            trim(all[i]),
        ),
        trim(all[i]).len() == 0 ==> asked_lines(all.take(i + 1)) == asked_lines(all.take(i)),
    decreases i,
{
    assert(all.take(i + 1).drop_last() =~= all.take(i));
    assert(all.take(i + 1).last() == all[i]);
    if i > 0 {
        asked_lines_are_some(all, i - 1);
    } else {
        assert(all.take(0) =~= Seq::empty());
    }
}

/// The questions of a file with the given name, which may have no part before
/// its ending.
pub fn file_questions(stem: Option<&str>, source: &str, contents: &str) -> (r: Vec<Question>)
    ensures
        question_models(r@) == questions_in(
            match stem {
                Some(stem) => stem@,
                None => "questions"@,
            },
            source@,
            contents@,
        ),
{
    let name = match stem {
        Some(stem) => stem,
        None => "questions",
    };
    let ghost asked = asked_lines(lines(contents@));
    let all = split_lines(contents);
    let ghost texts = views(all@);
    let mut out: Vec<Question> = Vec::new();
    let mut i: usize = 0;
    assert(texts.take(0) =~= Seq::empty());
    while i < all.len()
        invariant
            texts == views(all@),
            i <= all@.len(),
            out@.len() == asked_lines(texts.take(i as int)).len(),
            out@.len() <= i,
            forall|k: int|
                0 <= k < out@.len() ==> #[trigger] out@[k]@ == (QuestionModel {
                    id: name@ + "-"@ + decimal((k + 1) as nat),
                    source: source@,
                    question: asked_lines(texts.take(i as int))[k],
                }),
        decreases all@.len() - i,
    {
        proof {
            asked_lines_are_some(texts, i as int);
            assert(texts[i as int] == all@[i as int]@);
        }
        let question = trimmed(all[i].as_str());
        if !question.as_str().is_empty() {
            let mut id = name.to_owned();
            id.append("-");
            id.append(decimal_text(out.len() as u64 + 1).as_str());
            out.push(Question { id, source: source.to_owned(), question });
        }
        i += 1;
    }
    assert(texts.take(i as int) =~= texts);
    assert(question_models(out@) =~= questions_in(name@, source@, contents@));
    out
}

/// The passages for a question: the best hits of the least score, at most
/// `count` of them and at most `room` characters; the last one is cut where it
/// does not fit.
pub open spec fn hit_passages(
    hits: Seq<SearchHitModel>,
    min_score: Single,
    count: nat,
    room: nat,
) -> Seq<KnowledgeSnippetModel>
    decreases hits.len(),
{
    if hits.len() == 0 || count == 0 || room == 0 {
        Seq::empty()
    } else if hits[0].combined_score.at_least(min_score) {
        let passage = KnowledgeSnippetModel {
            id: hits[0].id,
            source: hits[0].source,
            heading: hits[0].heading,
            text: first(hits[0].text, room),
            score: hits[0].combined_score,
        };
        seq![passage] + hit_passages(
            hits.drop_first(),
            min_score,
            (count - 1) as nat,
            (room - passage.text.len()) as nat,
        )
    } else {
        hit_passages(hits.drop_first(), min_score, count, room)
    }
}

/// The passages for a question, and what finding them took.
pub fn knowledge_context(config: &KnowledgeConfig, report: &QueryReport) -> (r: KnowledgeContext)
    ensures
        r@ == (KnowledgeContextModel {
            snippets: hit_passages(
                report@.hits,
                config@.min_score,
                config@.top_k as nat,
                config@.max_context_chars as nat,
            ),
            searches: 1,
            embedding_calls: report@.embedding_calls,
            embedding_prompt_tokens: report@.prompt_tokens,
            embedding_total_tokens: report@.total_tokens,
            embedding_ms: report@.embedding_ms,
            search_ms: report@.search_ms,
            final_wait_ms: 0,
        }),
{
    let ghost all = hit_models(report.hits@);
    let ghost meant = hit_passages(
        all,
        config.min_score,
        config.top_k as nat,
        config.max_context_chars as nat,
    );
    assert(all =~= report@.hits);
    let mut snippets: Vec<KnowledgeSnippet> = Vec::new();
    let mut left: usize = config.top_k;
    let mut room: usize = config.max_context_chars;
    let mut i: usize = 0;
    assert(all.skip(0) =~= all);
    assert(snippet_models(snippets@) + meant =~= meant);
    while i < report.hits.len() && left > 0 && room > 0
        invariant
            all == hit_models(report.hits@),
            i <= report.hits@.len(),
            meant == snippet_models(snippets@) + hit_passages(
                all.skip(i as int),
                config.min_score,
                left as nat,
                room as nat,
            ),
        decreases report.hits@.len() - i,
    {
        let hit = &report.hits[i];
        let ghost rest = all.skip(i as int);
        assert(rest[0] == hit@);
        assert(rest.drop_first() =~= all.skip(i + 1));
        if hit.combined_score.reaches(config.min_score) {
            let text = first_chars(hit.text.as_str(), room);
            let used: usize = char_len(text.as_str());
            let passage = KnowledgeSnippet {
                id: hit.id.clone(),
                source: hit.source.clone(),
                heading: hit.heading.clone(),
                text,
                score: hit.combined_score,
            };
            let ghost before = snippet_models(snippets@);
            let ghost model = passage@;
            snippets.push(passage);
            left -= 1;
            room -= used;
            assert(snippet_models(snippets@) =~= before.push(model));
            let ghost behind = hit_passages(
                all.skip(i + 1),
                config.min_score,
                left as nat,
                room as nat,
            );
            assert(before + (seq![model] + behind) =~= before.push(model) + behind);
        }
        i += 1;
    }
    assert(snippet_models(snippets@) + Seq::empty() =~= snippet_models(snippets@));
    let context = KnowledgeContext {
        snippets,
        searches: 1,
        embedding_calls: report.embedding_calls,
        embedding_prompt_tokens: report.prompt_tokens,
        embedding_total_tokens: report.total_tokens,
        embedding_ms: report.embedding_ms,
        search_ms: report.search_ms,
        final_wait_ms: 0,
    };
    assert(context@.snippets =~= snippet_models(snippets@));
    context
}

/// The passages for a question are at most as many, and have together at most
/// as many characters, as they may.
pub proof fn passages_stay_within_limits(
    hits: Seq<SearchHitModel>,
    min_score: Single,
    count: nat,
    room: nat,
)
    ensures
        hit_passages(hits, min_score, count, room).len() <= count,
        total_chars(hit_passages(hits, min_score, count, room)) <= room,
    decreases hits.len(),
{
    if hits.len() > 0 && count > 0 && room > 0 {
        let rest = hits.drop_first();
        if hits[0].combined_score.at_least(min_score) {
            let used = first(hits[0].text, room).len();
            let behind = hit_passages(rest, min_score, (count - 1) as nat, (room - used) as nat);
            passages_stay_within_limits(
                rest,
                min_score,
                (count - 1) as nat,
                (room - used) as nat,
            );
            let all = hit_passages(hits, min_score, count, room);
            assert(all.drop_first() =~= behind);
        } else {
            passages_stay_within_limits(rest, min_score, count, room);
        }
    }
}

/// What every model is asked for a question: the same, and without any
/// conversation.
pub open spec fn question_prompt(
    current_project: Seq<char>,
    context: KnowledgeContextModel,
    question: Seq<char>,
) -> Seq<ChatMessageModel> {
    let system = said(
        ChatRole::System,
        VOICE_PROMPT_HEAD@ + current_project + VOICE_PROMPT_TAIL@,
    );
    let user = said(ChatRole::User, question);
    if context.snippets.len() == 0 {
        seq![system, user]
    } else {
        seq![system, said(ChatRole::System, knowledge_prompt(context)), user]
    }
}

/// What every model is asked for the question.
pub fn prompt_messages(current_project: &str, context: &KnowledgeContext, question: &str) -> (r: Vec<
    ChatMessage,
>)
    ensures
        message_models(r@) == question_prompt(current_project@, context@, question@),
{
    let mut messages: Vec<ChatMessage> = Vec::new();
    messages.push(ChatMessage::system(voice_system_prompt(current_project)));
    if context.snippets.len() > 0 {
        messages.push(ChatMessage::system(knowledge_context_prompt(context)));
    }
    messages.push(ChatMessage::user(question.to_owned()));
    assert(message_models(messages@) =~= question_prompt(current_project@, context@, question@));
    messages
}

// ---------------------------------------------------------------------------
// The answers
// ---------------------------------------------------------------------------

/// An answer as far as it has come.
#[derive(Debug)]
pub struct CompletionReader {
    first_token_ms: Option<u64>,
    answer: String,
    usage: Option<LlmUsage>,
}

/// The value of a [`CompletionReader`].
#[verifier::ext_equal]
pub struct CompletionReaderModel {
    pub first_token_ms: Option<u64>,
    pub answer: Seq<char>,
    pub usage: Option<LlmUsage>,
}

impl View for CompletionReader {
    type V = CompletionReaderModel;

    closed spec fn view(&self) -> CompletionReaderModel {
        CompletionReaderModel {
            first_token_ms: self.first_token_ms,
            answer: self.answer@,
            usage: self.usage,
        }
    }
}

/// A whole answer, with the times to its first text and to its end.
#[derive(Debug)]
pub struct Completion {
    pub ttft_ms: Option<u64>,
    pub total_ms: u64,
    pub answer: String,
    pub usage: Option<LlmUsage>,
}

/// An answer after one more part, which came at the given time. The moment of
/// the first text that is not empty stays, and the last costs count.
pub open spec fn with_part(
    before: CompletionReaderModel,
    part: LlmStreamEventModel,
    elapsed_ms: u64,
) -> CompletionReaderModel {
    match part {
        LlmStreamEventModel::Delta(text) => CompletionReaderModel {
            first_token_ms: if before.first_token_ms is None && text.len() > 0 {
                Some(elapsed_ms)
            } else {
                before.first_token_ms
            },
            answer: before.answer + text,
            ..before
        },
        LlmStreamEventModel::Usage(usage) => CompletionReaderModel { usage: Some(usage), ..before },
    }
}

impl CompletionReader {
    /// An answer of which nothing has come.
    pub fn new() -> (r: Self)
        ensures
            r@ == (CompletionReaderModel {
                first_token_ms: None,
                answer: Seq::empty(),
                usage: None,
            }),
    {
        CompletionReader { first_token_ms: None, answer: String::new(), usage: None }
    }

    /// Takes in one more part, which came at the given time.
    pub fn accept(&mut self, part: LlmStreamEvent, elapsed_ms: u64)
        ensures
            final(self)@ == with_part(old(self)@, part@, elapsed_ms),
    {
        match part {
            LlmStreamEvent::Delta(text) => {
                if self.first_token_ms.is_none() && !text.as_str().is_empty() {
                    self.first_token_ms = Some(elapsed_ms);
                }
                self.answer.append(text.as_str());
            },
            LlmStreamEvent::Usage(usage) => {
                self.usage = Some(usage);
            },
        }
    }

    /// The answer has ended at the given time. A blank one is none.
    pub fn finish(self, elapsed_ms: u64) -> (r: Result<Completion, LlmError>)
        ensures
            match r {
                Ok(completion) => {
                    &&& trim(self@.answer).len() > 0
                    &&& completion.answer@ == self@.answer
                    &&& completion.ttft_ms == self@.first_token_ms
                    &&& completion.total_ms == elapsed_ms
                    &&& completion.usage == self@.usage
                },
                Err(error) => trim(self@.answer).len() == 0 && error@
                    == LlmErrorModel::EmptyResponse,
            },
    {
        if is_blank(self.answer.as_str()) {
            return Err(LlmError::EmptyResponse);
        }
        Ok(
            Completion {
                ttft_ms: self.first_token_ms,
                total_ms: elapsed_ms,
                answer: self.answer,
                usage: self.usage,
            },
        )
    }
}

// ---------------------------------------------------------------------------
// The report
// ---------------------------------------------------------------------------

/// What became of a question to a model.
#[derive(Debug)]
pub struct RunOutcome {
    pub ttft_ms: Option<u64>,
    pub total_ms: u64,
    pub answer: String,
    pub usage: Option<LlmUsage>,
    pub error: Option<String>,
}

/// The value of a [`RunOutcome`].
#[verifier::ext_equal]
pub struct OutcomeModel {
    pub ttft_ms: Option<u64>,
    pub total_ms: u64,
    pub answer: Seq<char>,
    pub usage: Option<LlmUsage>,
    pub error: Option<Seq<char>>,
}

impl View for RunOutcome {
    type V = OutcomeModel;

    open spec fn view(&self) -> OutcomeModel {
        OutcomeModel {
            ttft_ms: self.ttft_ms,
            total_ms: self.total_ms,
            answer: self.answer@,
            usage: self.usage,
            error: match self.error {
                Some(reason) => Some(reason@),
                None => None,
            },
        }
    }
}

/// What became of a question: the answer, or only why there is none.
pub fn run_outcome(result: Result<Completion, String>) -> (r: RunOutcome)
    ensures
        r@ == match result {
            Ok(completion) => OutcomeModel {
                ttft_ms: completion.ttft_ms,
                total_ms: completion.total_ms,
                answer: completion.answer@,
                usage: completion.usage,
                error: None,
            },
            Err(reason) => OutcomeModel {
                ttft_ms: None,
                total_ms: 0,
                answer: Seq::empty(),
                usage: None,
                error: Some(reason@),
            },
        },
{
    match result {
        Ok(completion) => RunOutcome {
            ttft_ms: completion.ttft_ms,
            total_ms: completion.total_ms,
            answer: completion.answer,
            usage: completion.usage,
            error: None,
        },
        Err(reason) => RunOutcome {
            ttft_ms: None,
            total_ms: 0,
            answer: String::new(),
            usage: None,
            error: Some(reason),
        },
    }
}

/// How times are distributed; all zero where there are none. Their mean is the
/// sum by the count.
#[derive(Clone, Copy, Debug, PartialEq, Eq, Structural)]
pub struct Distribution {
    pub count: usize,
    pub min: u64,
    pub sum: u128,
    pub p50: u64,
    pub p95: u64,
    pub max: u64,
}

/// How the values are distributed: half of the way, or nineteen twentieths of
/// it, from the least to the greatest, rounded up to a value.
pub open spec fn spread(values: Seq<u64>) -> Distribution {
    let sorted = rising(values);
    let last = sorted.len() - 1;
    if values.len() == 0 {
        Distribution { count: 0, min: 0, sum: 0, p50: 0, p95: 0, max: 0 }
    } else {
        Distribution {
            count: values.len() as usize,
            min: sorted[0],
            sum: total(values) as u128,
            p50: sorted[(last + 1) / 2],
            p95: sorted[(19 * last + 19) / 20],
            max: sorted[last],
        }
    }
}

/// How the values are distributed.
pub fn distribution(values: &Vec<u64>) -> (r: Distribution)
    ensures
        r == spread(values@),
{
    if values.len() == 0 {
        return Distribution { count: 0, min: 0, sum: 0, p50: 0, p95: 0, max: 0 };
    }
    let sorted = sort(values);
    proof {
        rising_is_sorted(values@);
    }
    let last: usize = sorted.len() - 1;
    let high: u128 = (19 * last as u128 + 19) / 20;
    assert(high <= last);
    Distribution {
        count: values.len(),
        min: sorted[0],
        sum: sum(values),
        p50: sorted[last / 2 + last % 2],
        p95: sorted[high as usize],
        max: sorted[last],
    }
}

/// Of any values, the least is not above the middle, the middle not above the
/// high one, and that not above the greatest.
pub proof fn spreads_are_in_order(values: Seq<u64>)
    ensures
        spread(values).min <= spread(values).p50 <= spread(values).p95 <= spread(values).max,
{
    rising_is_sorted(values);
}

/// What the answers of a model took, in all.
#[derive(Debug)]
pub struct ModelSummary {
    pub successful: usize,
    pub failed: usize,
    pub ttft_ms: Distribution,
    pub total_ms: Distribution,
    pub prompt_tokens: u128,
    pub completion_tokens: u128,
    pub total_tokens: u128,
    pub costs: Vec<Double>,
}

/// The times to the first text, of the answers that have one.
pub open spec fn first_times(runs: Seq<OutcomeModel>) -> Seq<u64>
    decreases runs.len(),
{
    if runs.len() == 0 {
        Seq::empty()
    } else {
        match runs.last().ttft_ms {
            Some(time) => first_times(runs.drop_last()).push(time),
            None => first_times(runs.drop_last()),
        }
    }
}

/// The times to the end, of the questions that were answered.
pub open spec fn end_times(runs: Seq<OutcomeModel>) -> Seq<u64>
    decreases runs.len(),
{
    if runs.len() == 0 {
        Seq::empty()
    } else if runs.last().error is None {
        end_times(runs.drop_last()).push(runs.last().total_ms)
    } else {
        end_times(runs.drop_last())
    }
}

/// What the answers cost, of those that say it.
pub open spec fn usages(runs: Seq<OutcomeModel>) -> Seq<LlmUsage>
    decreases runs.len(),
{
    if runs.len() == 0 {
        Seq::empty()
    } else {
        match runs.last().usage {
            Some(usage) => usages(runs.drop_last()).push(usage),
            None => usages(runs.drop_last()),
        }
    }
}

/// The prices among costs.
pub open spec fn prices(usages: Seq<LlmUsage>) -> Seq<Double>
    decreases usages.len(),
{
    if usages.len() == 0 {
        Seq::empty()
    } else {
        match usages.last().cost {
            Some(cost) => prices(usages.drop_last()).push(cost),
            None => prices(usages.drop_last()),
        }
    }
}

/// The values of outcomes.
pub open spec fn outcome_models(runs: Seq<RunOutcome>) -> Seq<OutcomeModel> {
    Seq::new(runs.len(), |i: int| runs[i]@)
}

/// What the answers of a model took, in all. Every question counts as answered
/// or failed, and the prices stand in the order of the answers.
pub fn summarize(runs: &Vec<RunOutcome>) -> (r: ModelSummary)
    ensures
        ({
            let all = outcome_models(runs@);
            let paid = usages(all);
            &&& r.successful == end_times(all).len()
            &&& r.successful + r.failed == runs@.len()
            &&& r.ttft_ms == spread(first_times(all))
            &&& r.total_ms == spread(end_times(all))
            &&& r.prompt_tokens == total(paid.map_values(|u: LlmUsage| u.prompt_tokens))
            &&& r.completion_tokens == total(paid.map_values(|u: LlmUsage| u.completion_tokens))
            &&& r.total_tokens == total(paid.map_values(|u: LlmUsage| u.total_tokens))
            &&& r.costs@ == prices(paid)
        }),
{
    let ghost all = outcome_models(runs@);
    let mut first_text: Vec<u64> = Vec::new();
    let mut end: Vec<u64> = Vec::new();
    let mut prompt: Vec<u64> = Vec::new();
    let mut completion: Vec<u64> = Vec::new();
    let mut both: Vec<u64> = Vec::new();
    let mut costs: Vec<Double> = Vec::new();
    let mut i: usize = 0;
    assert(all.take(0) =~= Seq::empty());
    assert(prompt@ =~= usages(all.take(0)).map_values(|u: LlmUsage| u.prompt_tokens));
    assert(completion@ =~= usages(all.take(0)).map_values(|u: LlmUsage| u.completion_tokens));
    assert(both@ =~= usages(all.take(0)).map_values(|u: LlmUsage| u.total_tokens));
    while i < runs.len()
        invariant
            all == outcome_models(runs@),
            i <= runs@.len(),
            first_text@ == first_times(all.take(i as int)),
            end@ == end_times(all.take(i as int)),
            end@.len() <= i,
            prompt@ == usages(all.take(i as int)).map_values(|u: LlmUsage| u.prompt_tokens),
            completion@ == usages(all.take(i as int)).map_values(|u: LlmUsage| u.completion_tokens),
            both@ == usages(all.take(i as int)).map_values(|u: LlmUsage| u.total_tokens),
            costs@ == prices(usages(all.take(i as int))),
        decreases runs@.len() - i,
    {
        let run = &runs[i];
        let ghost before = usages(all.take(i as int));
        assert(all.take(i + 1).drop_last() =~= all.take(i as int));
        assert(all.take(i + 1).last() == run@);
        if let Some(time) = run.ttft_ms {
            first_text.push(time);
        }
        if run.error.is_none() {
            end.push(run.total_ms);
        }
        if let Some(usage) = run.usage {
            prompt.push(usage.prompt_tokens);
            completion.push(usage.completion_tokens);
            both.push(usage.total_tokens);
            if let Some(cost) = usage.cost {
                costs.push(cost);
            }
            assert(before.push(usage).drop_last() =~= before);
            assert(prompt@ =~= before.push(usage).map_values(|u: LlmUsage| u.prompt_tokens));
            assert(completion@ =~= before.push(usage).map_values(
                |u: LlmUsage| u.completion_tokens,
            ));
            assert(both@ =~= before.push(usage).map_values(|u: LlmUsage| u.total_tokens));
        }
        i += 1;
    }
    assert(all.take(i as int) =~= all);
    ModelSummary {
        successful: end.len(),
        failed: runs.len() - end.len(),
        ttft_ms: distribution(&first_text),
        total_ms: distribution(&end),
        prompt_tokens: sum(&prompt),
        completion_tokens: sum(&completion),
        total_tokens: sum(&both),
        costs,
    }
}

/// The questions of a file are its lines that are not blank, in order, without
/// the white space around them, and numbered from one.
pub proof fn questions_are_lines(stem: Seq<char>, source: Seq<char>, contents: Seq<char>, k: int)
    requires
        0 <= k < asked_lines(lines(contents)).len(),
    ensures
        asked_lines(lines(contents)) == lines(contents).map_values(
            |line: Seq<char>| trim(line),
        ).filter(|line: Seq<char>| line.len() > 0),
        questions_in(stem, source, contents).len() == asked_lines(lines(contents)).len(),
        questions_in(stem, source, contents)[k].question == asked_lines(lines(contents))[k],
        questions_in(stem, source, contents)[k].source == source,
        questions_in(stem, source, contents)[k].id == stem + seq!['-'] + decimal((k + 1) as nat),
{
    reveal_strlit("-");
    assert("-"@ =~= seq!['-']);
    asked_lines_are_chosen(lines(contents));
}

proof fn asked_lines_are_chosen(all: Seq<Seq<char>>)
    ensures
        asked_lines(all) == all.map_values(|line: Seq<char>| trim(line)).filter(
            |line: Seq<char>| line.len() > 0,
        ),
    decreases all.len(),
{
    reveal(Seq::filter);
    let trims = |line: Seq<char>| trim(line);
    if all.len() > 0 {
        asked_lines_are_chosen(all.drop_last());
        assert(all.map_values(trims).drop_last() =~= all.drop_last().map_values(trims));
        assert(all.map_values(trims).last() == trim(all.last()));
    }
}

/// Hits are handed over in order, those that are good enough, each as it is,
/// until there are enough of them or no room is left; the last is cut to the
/// room.
pub proof fn good_hits_are_handed_over_in_order(
    hits: Seq<SearchHitModel>,
    min_score: Single,
    count: nat,
    room: nat,
)
    ensures
        ({
            let all = hit_passages(hits, min_score, count, room);
            let good = hits.filter(|hit: SearchHitModel| hit.combined_score.at_least(min_score));
            &&& all.len() <= good.len()
            &&& all.len() < good.len() ==> all.len() == count || total_chars(all) == room
            &&& all.len() <= count
            &&& total_chars(all) <= room
            &&& forall|k: int|
                0 <= k < all.len() ==> {
                    &&& (#[trigger] all[k]).id == good[k].id
                    &&& all[k].source == good[k].source
                    &&& all[k].heading == good[k].heading
                    &&& all[k].score == good[k].combined_score
                    &&& all[k].text.len() <= good[k].text.len()
                    &&& all[k].text == good[k].text.take(all[k].text.len() as int)
                    &&& all[k].text.len() < good[k].text.len() ==> k == all.len() - 1
                        && total_chars(all) == room
                }
        }),
    decreases hits.len(),
{
    let keeps = |hit: SearchHitModel| hit.combined_score.at_least(min_score);
    let all = hit_passages(hits, min_score, count, room);
    let good = hits.filter(keeps);
    if hits.len() > 0 {
        let rest = hits.drop_first();
        let one = seq![hits[0]];
        assert(hits =~= one + rest);
        Seq::filter_distributes_over_add(one, rest, keeps);
        assert(one.filter(keeps) =~= if keeps(hits[0]) {
            one
        } else {
            Seq::<SearchHitModel>::empty()
        }) by {
            reveal_with_fuel(Seq::filter, 2);
            assert(one.drop_last() =~= Seq::empty());
        }
        if count > 0 && room > 0 {
            if keeps(hits[0]) {
                let text = first(hits[0].text, room);
                let left = (room - text.len()) as nat;
                let more = hit_passages(rest, min_score, (count - 1) as nat, left);
                good_hits_are_handed_over_in_order(rest, min_score, (count - 1) as nat, left);
                assert(all =~= seq![all[0]] + more);
                assert(all.drop_first() =~= more);
                assert(good =~= one + rest.filter(keeps));
                assert forall|k: int| 0 <= k < all.len() implies {
                    &&& (#[trigger] all[k]).id == good[k].id
                    &&& all[k].source == good[k].source
                    &&& all[k].heading == good[k].heading
                    &&& all[k].score == good[k].combined_score
                    &&& all[k].text.len() <= good[k].text.len()
                    &&& all[k].text == good[k].text.take(all[k].text.len() as int)
                    &&& all[k].text.len() < good[k].text.len() ==> k == all.len() - 1
                        && total_chars(all) == room
                } by {
                    if k == 0 {
                        assert(good[0] == hits[0]);
                        assert(all[0].text =~= good[0].text.take(all[0].text.len() as int));
                        if all[0].text.len() < good[0].text.len() {
                            assert(left == 0);
                            assert(more.len() == 0);
                        }
                    } else {
                        assert(all[k] == more[k - 1]);
                        assert(good[k] == rest.filter(keeps)[k - 1]);
                    }
                }
            } else {
                good_hits_are_handed_over_in_order(rest, min_score, count, room);
                assert(good =~= rest.filter(keeps));
            }
        } else {
            assert(all.len() == 0);
        }
    } else {
        assert(all.len() == 0);
        reveal(Seq::filter);
        assert(good.len() == 0);
    }
}

/// A question is asked behind the instructions, with the passages between them
/// where there are any.
pub proof fn passages_stand_before_the_question(
    project: Seq<char>,
    context: KnowledgeContextModel,
    question: Seq<char>,
)
    ensures
        ({
            let all = question_prompt(project, context, question);
            let n = all.len() as int;
            &&& n == (if context.snippets.len() == 0 {
                2int
            } else {
                3
            })
            &&& all[0].role == ChatRole::System
            &&& all[0].content == VOICE_PROMPT_HEAD@ + project + VOICE_PROMPT_TAIL@
            &&& all[n - 1].role == ChatRole::User
            &&& all[n - 1].content == question
            &&& n == 3 ==> all[1].role == ChatRole::System && all[1].content == knowledge_prompt(
                context,
            )
        }),
{
}

/// An answer grows by its parts; its first moment is that of the first part with
/// text, and what it cost is what was said last.
pub proof fn completions_grow_by_their_parts(
    before: CompletionReaderModel,
    text: Seq<char>,
    usage: LlmUsage,
    elapsed_ms: u64,
)
    ensures
        ({
            let r = with_part(before, LlmStreamEventModel::Delta(text), elapsed_ms);
            &&& r.answer == before.answer + text
            &&& r.usage == before.usage
            &&& before.first_token_ms is Some ==> r.first_token_ms == before.first_token_ms
            &&& before.first_token_ms is None && text.len() > 0 ==> r.first_token_ms == Some(
                elapsed_ms,
            )
            &&& text.len() == 0 ==> r.first_token_ms == before.first_token_ms
        }),
        with_part(before, LlmStreamEventModel::Usage(usage), elapsed_ms) == (CompletionReaderModel {
            usage: Some(usage),
            ..before
        }),
{
}

/// Where the values lie is told by their least and their greatest, by the one in
/// the middle and by the one at nineteen twentieths of the way, each rounded up
/// to a place.
pub proof fn spreads_lie_among_the_values(values: Seq<u64>, k: int)
    requires
        0 <= k < values.len(),
    ensures
        ({
            let s = spread(values);
            let d = crate::telemetry::metrics::distribution(values);
            &&& d.min == Some(s.min)
            &&& d.max == Some(s.max)
            &&& s.min <= values[k] <= s.max
            &&& values.len() <= usize::MAX ==> s.count == values.len()
            &&& total(values) <= u128::MAX ==> s.sum == total(values)
            &&& exists|m: int|
                0 <= m < values.len() && s.p50 == #[trigger] rising(values)[m] && 2 * m - 1
                    <= values.len() - 1 <= 2 * m
            &&& exists|m: int|
                0 <= m < values.len() && s.p95 == #[trigger] rising(values)[m] && 20 * (m - 1) < 19
                    * (values.len() - 1) <= 20 * m
        }),
        spread(Seq::empty()).count == 0,
        spread(Seq::empty()).max == 0,
{
    rising_is_sorted(values);
    the_extremes_are_among_the_values(values, k);
    let last = values.len() - 1;
    assert(spread(values).p50 == rising(values)[(last + 1) / 2]);
    assert(spread(values).p95 == rising(values)[(19 * last + 19) / 20]);
}

/// Of several runs the first moments, the ends and the costs are those of each
/// that has them, in order; a run that failed has no end.
pub proof fn runs_tell_what_they_have(runs: Seq<OutcomeModel>, run: OutcomeModel)
    ensures
        run.ttft_ms matches Some(time) ==> first_times(runs.push(run)) == first_times(runs).push(
            time,
        ),
        run.ttft_ms is None ==> first_times(runs.push(run)) == first_times(runs),
        run.error is None ==> end_times(runs.push(run)) == end_times(runs).push(run.total_ms),
        run.error is Some ==> end_times(runs.push(run)) == end_times(runs),
        run.usage matches Some(usage) ==> usages(runs.push(run)) == usages(runs).push(usage),
        run.usage is None ==> usages(runs.push(run)) == usages(runs),
        run.usage matches Some(usage) ==> (usage.cost matches Some(cost) ==> prices(
            usages(runs).push(usage),
        ) == prices(usages(runs)).push(cost)),
        run.usage matches Some(usage) ==> (usage.cost is None ==> prices(usages(runs).push(usage))
            == prices(usages(runs))),
        first_times(Seq::empty()).len() == 0,
        end_times(Seq::empty()).len() == 0,
        usages(Seq::empty()).len() == 0,
        prices(Seq::empty()).len() == 0,
{
    assert(runs.push(run).drop_last() =~= runs);
    if let Some(usage) = run.usage {
        assert(usages(runs).push(usage).drop_last() =~= usages(runs));
    }
}

/// Options are read one after the other, each with its value: files and models
/// are added, and numbers and the output replaced; anything else is refused.
pub proof fn options_are_read_in_order(
    args: Seq<Seq<char>>,
    before: OptionsModel,
    argument: Seq<char>,
    value: Seq<char>,
)
    ensures
        options_read(args, before) matches Ok(options) ==> {
            &&& takes_value(argument) ==> options_read(args.push(argument).push(value), before)
                == with_option(options, argument, value)
            &&& options_read(args.push(argument), before) == Err::<OptionsModel, Seq<char>>(
                lone_argument(argument),
            )
        },
        options_read(Seq::empty(), before) == Ok::<OptionsModel, Seq<char>>(before),
    decreases args.len(),
{
    let longer = args.push(argument).push(value);
    let lone = args.push(argument);
    if args.len() == 0 {
        assert(longer[0] == argument && longer[1] == value);
        assert(longer.skip(2) =~= Seq::empty());
        assert(lone[0] == argument);
        if takes_value(argument) {
            if let Ok(options) = with_option(before, argument, value) {
                assert(options_read(longer.skip(2), options) == Ok::<OptionsModel, Seq<char>>(
                    options,
                ));
            }
        }
    } else if args.len() > 1 && takes_value(args[0]) {
        assert(longer[0] == args[0] && longer[1] == args[1]);
        assert(lone[0] == args[0] && lone[1] == args[1]);
        assert(longer.skip(2) =~= args.skip(2).push(argument).push(value));
        assert(lone.skip(2) =~= args.skip(2).push(argument));
        if let Ok(options) = with_option(before, args[0], args[1]) {
            options_are_read_in_order(args.skip(2), options, argument, value);
        }
    }
}

/// Each option does what its name says.
pub proof fn options_do_what_they_say(before: OptionsModel, value: Seq<char>)
    ensures
        with_option(before, "--questions"@, value) == Ok::<OptionsModel, Seq<char>>(
            OptionsModel { question_files: before.question_files.push(value), ..before },
        ),
        with_option(before, "--model"@, value) == Ok::<OptionsModel, Seq<char>>(
            OptionsModel { models: before.models.push(value), ..before },
        ),
        with_option(before, "--output"@, value) == Ok::<OptionsModel, Seq<char>>(
            OptionsModel { output: value, ..before },
        ),
        number_value(value, usize::MAX as nat) matches Ok(number) ==> (number > 0 ==> with_option(
            before,
            "--repeat"@,
            value,
        ) == Ok::<OptionsModel, Seq<char>>(OptionsModel { repeat: number as usize, ..before })),
        number_value(value, usize::MAX as nat) == Ok::<nat, crate::text::NumberFault>(0)
            ==> with_option(before, "--repeat"@, value) == Err::<OptionsModel, Seq<char>>(
            "--repeat must be greater than zero"@,
        ),
        number_value(value, usize::MAX as nat) is Err ==> with_option(before, "--repeat"@, value)
            == Err::<OptionsModel, Seq<char>>("--repeat must be a positive number"@),
        takes_value("--questions"@),
        takes_value("--model"@),
        takes_value("--repeat"@),
        takes_value("--output"@),
        no_options().repeat == 1,
        no_options().models.len() == 0,
        no_options().question_files.len() == 0,
        no_options().output == "telemetry/llm-benchmark.json"@,
{
    reveal_strlit("--questions");
    reveal_strlit("--model");
    reveal_strlit("--repeat");
    reveal_strlit("--output");
    assert("--model"@.len() == 7 && "--questions"@.len() == 11);
    assert("--repeat"@.len() == 8 && "--output"@.len() == 8);
    assert("--repeat"@[2] == 'r' && "--output"@[2] == 'o');
}

} // verus!
