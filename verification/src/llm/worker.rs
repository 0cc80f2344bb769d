//! Answers questions one after the other: what is asked, what is reported of
//! the answer, and what is kept of it.
use vstd::prelude::*;

use crate::config::assistant::{LlmConfig, LlmConfigModel};
use crate::events::{
    blank_live_coding, event_models, AnswerMeta, AppErrorView, AppErrorViewModel, LiveCodingState,
    LiveCodingStateModel, LlmCommand, LlmRequest, LlmRequestModel, Mode, OutputComponent,
    OutputEvent, OutputEventModel, Speaker,
};
use crate::llm::history::{
    all_recorded, history_holds_the_latest_pairs, pair_messages, ConversationHistories,
    HistoriesModel, PairModel,
};
use crate::json::reading;
use crate::llm::live_coding::{
    parse_live_coding_response, unfenced, updated_by_reading, LiveCodingResponse, ResponseModel,
};
use crate::llm::prompts::{
    knowledge_context_prompt, knowledge_prompt, live_coding_question, live_coding_system_prompt,
    live_coding_user_prompt, marked_speech, voice_system_prompt, voice_user_prompt,
    LIVE_CODING_PROMPT, VOICE_PROMPT_HEAD, VOICE_PROMPT_TAIL,
};
use crate::llm::provider::{
    message_models, ChatMessage, ChatMessageModel, ChatRequest, ChatRequestModel, ChatRole,
    LlmError, LlmErrorModel, LlmStreamEvent, LlmStreamEventModel,
};
use crate::text::{decimal, decimal_text, is_blank, trim};

verus! {

/// Why the worker stopped.
#[derive(Clone, Copy, Debug, PartialEq, Eq, Structural)]
pub enum LlmWorkerError {
    OutputChannelClosed,
}

impl LlmWorkerError {
    /// The failure in words.
    pub fn message(self) -> (r: String)
        ensures
            r@ == "LLM output channel closed"@,
    {
        "LLM output channel closed".to_owned()
    }
}

/// How many questions were answered.
#[derive(Clone, Copy, Debug, PartialEq, Eq, Structural)]
pub struct LlmWorkerStats {
    pub requests: u64,
    pub completed: u64,
    pub failed: u64,
}

impl Default for LlmWorkerStats {
    fn default() -> (r: Self)
        ensures
            r == (LlmWorkerStats { requests: 0, completed: 0, failed: 0 }),
    {
        LlmWorkerStats { requests: 0, completed: 0, failed: 0 }
    }
}

/// What the worker knows between two questions.
pub struct LlmWorker {
    config: LlmConfig,
    histories: ConversationHistories,
    live_coding: LiveCodingState,
    stats: LlmWorkerStats,
}

/// The value of an [`LlmWorker`].
#[verifier::ext_equal]
pub struct LlmWorkerModel {
    pub config: LlmConfigModel,
    pub histories: HistoriesModel,
    pub live_coding: LiveCodingStateModel,
    pub stats: LlmWorkerStats,
}

impl View for LlmWorker {
    type V = LlmWorkerModel;

    closed spec fn view(&self) -> LlmWorkerModel {
        LlmWorkerModel {
            config: self.config@,
            histories: self.histories@,
            live_coding: self.live_coding@,
            stats: self.stats,
        }
    }
}

/// A message of the given role.
pub open spec fn said(role: ChatRole, content: Seq<char>) -> ChatMessageModel {
    ChatMessageModel { role, content }
}

/// A spoken question as it is put to the model: what the candidate says is
/// marked as such.
pub open spec fn asked(request: LlmRequestModel) -> Seq<char> {
    match request.speaker {
        Speaker::Interviewer => request.text,
        Speaker::Candidate => marked_speech(Speaker::Candidate, request.text),
    }
}

/// What the model is given for a spoken question: the instructions, the
/// conversation so far, the passages that go along with the question, and the
/// question.
pub open spec fn question_messages(w: LlmWorkerModel, request: LlmRequestModel) -> Seq<
    ChatMessageModel,
> {
    let instructions = said(
        ChatRole::System,
        VOICE_PROMPT_HEAD@ + w.config.current_project + VOICE_PROMPT_TAIL@,
    );
    let question = said(ChatRole::User, asked(request));
    let before = seq![instructions] + pair_messages(w.histories.of(request.mode));
    match request.knowledge {
        Some(context) => before.push(said(ChatRole::System, knowledge_prompt(context))).push(
            question,
        ),
        None => before.push(question),
    }
}

/// What the model is given for a live-coding task: neither conversation nor
/// passages.
pub open spec fn coding_messages(w: LlmWorkerModel, request: LlmRequestModel) -> Seq<
    ChatMessageModel,
> {
    seq![
        said(ChatRole::System, LIVE_CODING_PROMPT@),
        said(
            ChatRole::User,
            live_coding_question(w.live_coding, request.speaker, request.text),
        ),
    ]
}

/// What the model is asked.
pub open spec fn chat_request(w: LlmWorkerModel, request: LlmRequestModel) -> ChatRequestModel {
    if request.mode == Mode::LiveCoding {
        ChatRequestModel {
            messages: coding_messages(w, request),
            temperature: Some(w.config.coding_temperature),
            max_tokens: Some(w.config.coding_max_tokens),
        }
    } else {
        ChatRequestModel {
            messages: question_messages(w, request),
            temperature: None,
            max_tokens: None,
        }
    }
}

/// How many seconds an answer may take.
pub open spec fn time_limit(w: LlmWorkerModel, mode: Mode) -> u64 {
    if mode == Mode::LiveCoding {
        w.config.coding_timeout_sec
    } else {
        w.config.timeout_sec
    }
}

/// A question that is being answered.
#[derive(Debug)]
pub struct AnswerProgress {
    request_id: u64,
    mode: Mode,
    full_text: String,
}

/// The value of an [`AnswerProgress`].
#[verifier::ext_equal]
pub struct ProgressModel {
    pub request_id: u64,
    pub mode: Mode,
    pub full_text: Seq<char>,
}

impl View for AnswerProgress {
    type V = ProgressModel;

    closed spec fn view(&self) -> ProgressModel {
        ProgressModel {
            request_id: self.request_id,
            mode: self.mode,
            full_text: self.full_text@,
        }
    }
}

/// What a part of an answer is reported as. The answer for a live-coding task
/// is reported only when it is complete.
pub open spec fn progress_report(p: ProgressModel, event: LlmStreamEventModel) -> Option<
    OutputEventModel,
> {
    match event {
        LlmStreamEventModel::Delta(text) => if text.len() == 0 || p.mode == Mode::LiveCoding {
            None
        } else {
            Some(OutputEventModel::AnswerDelta { request_id: p.request_id, text })
        },
        LlmStreamEventModel::Usage(usage) => Some(
            OutputEventModel::AnswerUsage { request_id: p.request_id, usage },
        ),
    }
}

/// The text of an answer after one more part.
pub open spec fn progress_text(p: ProgressModel, event: LlmStreamEventModel) -> Seq<char> {
    match event {
        LlmStreamEventModel::Delta(text) => p.full_text + text,
        LlmStreamEventModel::Usage(_) => p.full_text,
    }
}

impl AnswerProgress {
    /// The text so far.
    pub fn text(&self) -> (r: &str)
        ensures
            r@ == self@.full_text,
    {
        self.full_text.as_str()
    }

    /// Takes in a part of the answer and returns what is reported of it.
    pub fn accept(&mut self, event: LlmStreamEvent) -> (r: Option<OutputEvent>)
        ensures
            final(self)@ == (ProgressModel {
                full_text: progress_text(old(self)@, event@),
                ..old(self)@
            }),
            match r {
                Some(output) => progress_report(old(self)@, event@) == Some(output@),
                None => progress_report(old(self)@, event@) is None,
            },
    {
        match event {
            LlmStreamEvent::Delta(text) => {
                self.full_text.append(text.as_str());
                if text.as_str().is_empty() || self.mode == Mode::LiveCoding {
                    proof {
                        if text@.len() == 0 {
                            assert(old(self)@.full_text + text@ =~= old(self)@.full_text);
                        }
                    }
                    None
                } else {
                    Some(OutputEvent::AnswerDelta { request_id: self.request_id, text })
                }
            },
            LlmStreamEvent::Usage(usage) => Some(
                OutputEvent::AnswerUsage { request_id: self.request_id, usage },
            ),
        }
    }
}

/// How the stream of an answer ended.
#[derive(Debug)]
pub enum AnswerEnd {
    /// All of it came.
    Complete,
    /// It broke off.
    Failed(LlmError),
    /// It took too long.
    TimedOut,
}

/// The value of an [`AnswerEnd`].
pub enum AnswerEndModel {
    Complete,
    Failed(LlmErrorModel),
    TimedOut,
}

impl View for AnswerEnd {
    type V = AnswerEndModel;

    open spec fn view(&self) -> AnswerEndModel {
        match *self {
            AnswerEnd::Complete => AnswerEndModel::Complete,
            AnswerEnd::Failed(error) => AnswerEndModel::Failed(error@),
            AnswerEnd::TimedOut => AnswerEndModel::TimedOut,
        }
    }
}

/// The text of an answer that has ended, or why there is none.
pub open spec fn answer_text(w: LlmWorkerModel, p: ProgressModel, end: AnswerEndModel) -> Result<
    Seq<char>,
    LlmErrorModel,
> {
    match end {
        AnswerEndModel::Failed(error) => Err(error),
        AnswerEndModel::TimedOut => Err(LlmErrorModel::Timeout(time_limit(w, p.mode))),
        AnswerEndModel::Complete => if trim(p.full_text).len() == 0 {
            Err(LlmErrorModel::EmptyResponse)
        } else {
            Ok(p.full_text)
        },
    }
}

/// The worker after a question that could not be answered.
pub open spec fn after_failure(w: LlmWorkerModel, request_id: u64, error: LlmErrorModel) -> (
    LlmWorkerModel,
    Seq<OutputEventModel>,
) {
    (
        LlmWorkerModel {
            stats: LlmWorkerStats { failed: (w.stats.failed + 1) as u64, ..w.stats },
            ..w
        },
        seq![
            OutputEventModel::Error(
                AppErrorViewModel {
                    component: OutputComponent::Llm,
                    message: "request #"@ + decimal(request_id as nat) + " failed: "@
                        + error.words(),
                },
            ),
        ],
    )
}

/// Whether an answer has ended that changes a live-coding task.
pub open spec fn reads_task(
    w: LlmWorkerModel,
    request: LlmRequestModel,
    p: ProgressModel,
    end: AnswerEndModel,
) -> bool {
    request.mode == Mode::LiveCoding && answer_text(w, p, end) is Ok
}

/// The worker and its reports after a question was answered, or could not be.
/// `response` is what was read of an answer that changes a live-coding task, or
/// why it could not be.
pub open spec fn after_answer(
    w: LlmWorkerModel,
    request: LlmRequestModel,
    p: ProgressModel,
    end: AnswerEndModel,
    response: Result<ResponseModel, Seq<char>>,
) -> (LlmWorkerModel, Seq<OutputEventModel>) {
    let done = LlmWorkerStats { completed: (w.stats.completed + 1) as u64, ..w.stats };
    let completed = OutputEventModel::AnswerCompleted { request_id: request.request_id };
    match answer_text(w, p, end) {
        Err(error) => after_failure(w, request.request_id, error),
        Ok(text) => if request.mode == Mode::LiveCoding {
            match updated_by_reading(w.live_coding, request.speaker, response) {
                Err(error) => after_failure(w, request.request_id, error),
                Ok(state) => (
                    LlmWorkerModel { live_coding: state, stats: done, ..w },
                    seq![OutputEventModel::LiveCodingUpdated(state), completed],
                ),
            }
        } else {
            (
                LlmWorkerModel {
                    histories: w.histories.with_pair(
                        request.mode,
                        PairModel { user: request.text, assistant: text },
                    ),
                    stats: done,
                    ..w
                },
                seq![completed],
            )
        },
    }
}

/// The worker after it was told to forget: without conversation and task.
pub open spec fn forgetful(w: LlmWorkerModel) -> LlmWorkerModel {
    LlmWorkerModel {
        histories: w.histories.cleared(),
        live_coding: blank_live_coding(),
        ..w
    }
}

/// The worker once it has turned to a question.
pub open spec fn started(w: LlmWorkerModel) -> LlmWorkerModel {
    LlmWorkerModel {
        stats: LlmWorkerStats { requests: (w.stats.requests + 1) as u64, ..w.stats },
        ..w
    }
}

/// The report that the worker has turned to a question.
pub open spec fn start_report(request: LlmRequestModel) -> OutputEventModel {
    OutputEventModel::AnswerStarted(
        AnswerMeta {
            request_id: request.request_id,
            mode: request.mode,
            speaker: request.speaker,
        },
    )
}

/// An answer without any text yet.
pub open spec fn no_progress(request: LlmRequestModel) -> ProgressModel {
    ProgressModel { request_id: request.request_id, mode: request.mode, full_text: Seq::empty() }
}

fn ask(request: &LlmRequest) -> (r: String)
    ensures
        r@ == asked(request@),
{
    match request.speaker {
        Speaker::Interviewer => request.text.clone(),
        Speaker::Candidate => voice_user_prompt(Speaker::Candidate, request.text.as_str()),
    }
}

impl LlmWorker {
    /// Whether one more question can be counted and a task updated.
    pub open spec fn has_room(&self) -> bool {
        self@.stats.requests < u64::MAX && self@.stats.completed < u64::MAX && self@.stats.failed
            < u64::MAX && self@.live_coding.revision < u64::MAX
    }

    /// A worker without any conversation.
    pub fn new(config: LlmConfig) -> (r: Self)
        ensures
            r@ == (LlmWorkerModel {
                config: config@,
                histories: HistoriesModel {
                    maximum_pairs: config.max_history_pairs as nat,
                    separate: config.separate_histories,
                    voice: Seq::empty(),
                    ocr: Seq::empty(),
                },
                live_coding: blank_live_coding(),
                stats: LlmWorkerStats { requests: 0, completed: 0, failed: 0 },
            }),
    {
        let histories = ConversationHistories::new(
            config.max_history_pairs,
            config.separate_histories,
        );
        LlmWorker {
            config,
            histories,
            live_coding: LiveCodingState::default(),
            stats: LlmWorkerStats::default(),
        }
    }

    /// How many questions were answered.
    pub fn stats(&self) -> (r: LlmWorkerStats)
        ensures
            r == self@.stats,
    {
        self.stats
    }

    /// Whether one more question can be counted and a task updated.
    pub fn can_go_on(&self) -> (r: bool)
        ensures
            r == self.has_room(),
    {
        self.stats.requests < u64::MAX && self.stats.completed < u64::MAX && self.stats.failed
            < u64::MAX && self.live_coding.revision < u64::MAX
    }

    /// Takes in a command.
    pub fn command(&mut self, command: LlmCommand)
        ensures
            final(self)@ == forgetful(old(self)@),
    {
        match command {
            LlmCommand::ClearHistory => {
                self.histories.clear();
                self.live_coding = LiveCodingState::default();
            },
        }
    }

    fn messages(&self, request: &LlmRequest) -> (r: Vec<ChatMessage>)
        ensures
            message_models(r@) == question_messages(self@, request@),
    {
        let mut messages: Vec<ChatMessage> = Vec::new();
        messages.push(
            ChatMessage::system(voice_system_prompt(self.config.current_project.as_str())),
        );
        let mut history = self.histories.messages(request.mode);
        let ghost pairs = message_models(history@);
        let ghost instructions = message_models(messages@);
        messages.append(&mut history);
        assert(message_models(messages@) =~= instructions + pairs);
        let ghost before = message_models(messages@);
        assert(instructions =~= seq![
            said(
                ChatRole::System,
                VOICE_PROMPT_HEAD@ + self@.config.current_project + VOICE_PROMPT_TAIL@,
            ),
        ]);
        match &request.knowledge {
            Some(context) => {
                let passages = ChatMessage::system(knowledge_context_prompt(context));
                let ghost model = passages@;
                messages.push(passages);
                assert(message_models(messages@) =~= before.push(model));
            },
            None => {},
        }
        let ghost with_passages = message_models(messages@);
        let question = ChatMessage::user(ask(request));
        let ghost model = question@;
        messages.push(question);
        assert(message_models(messages@) =~= with_passages.push(model));
        messages
    }

    /// What the model is asked.
    pub fn build_request(&self, request: &LlmRequest) -> (r: ChatRequest)
        ensures
            r@ == chat_request(self@, request@),
    {
        if request.mode == Mode::LiveCoding {
            let mut messages: Vec<ChatMessage> = Vec::new();
            messages.push(ChatMessage::system(live_coding_system_prompt().to_owned()));
            messages.push(
                ChatMessage::user(
                    live_coding_user_prompt(
                        &self.live_coding,
                        request.speaker,
                        request.text.as_str(),
                    ),
                ),
            );
            assert(message_models(messages@) =~= coding_messages(self@, request@));
            ChatRequest::new(messages).with_generation_options(
                self.config.coding_temperature,
                self.config.coding_max_tokens,
            )
        } else {
            ChatRequest::new(self.messages(request))
        }
    }

    /// How many seconds an answer may take.
    pub fn timeout_sec(&self, mode: Mode) -> (r: u64)
        ensures
            r == time_limit(self@, mode),
    {
        if mode == Mode::LiveCoding {
            self.config.coding_timeout_sec
        } else {
            self.config.timeout_sec
        }
    }

    /// Turns to a question: counts it and returns the report, what the model
    /// is asked, and the answer without any text yet.
    pub fn start(&mut self, request: &LlmRequest) -> (r: (OutputEvent, ChatRequest, AnswerProgress))
        requires
            old(self).has_room(),
        ensures
            final(self)@ == started(old(self)@),
            r.0@ == start_report(request@),
            r.1@ == chat_request(old(self)@, request@),
            r.2@ == no_progress(request@),
    {
        let chat = self.build_request(request);
        self.stats.requests += 1;
        let started = OutputEvent::AnswerStarted(
            AnswerMeta {
                request_id: request.request_id,
                mode: request.mode,
                speaker: request.speaker,
            },
        );
        let progress = AnswerProgress {
            request_id: request.request_id,
            mode: request.mode,
            full_text: String::new(),
        };
        (started, chat, progress)
    }

    fn fail(&mut self, request_id: u64, error: LlmError) -> (r: Vec<OutputEvent>)
        requires
            old(self)@.stats.failed < u64::MAX,
        ensures
            (final(self)@, event_models(r@)) == after_failure(old(self)@, request_id, error@),
    {
        self.stats.failed += 1;
        let mut message = "request #".to_owned();
        message.append(decimal_text(request_id).as_str());
        message.append(" failed: ");
        message.append(error.message().as_str());
        let mut out: Vec<OutputEvent> = Vec::new();
        out.push(OutputEvent::Error(AppErrorView { component: OutputComponent::Llm, message }));
        assert(event_models(out@) =~= after_failure(old(self)@, request_id, error@).1);
        out
    }

    /// The stream of the answer has ended: keeps what is kept of it and
    /// returns the reports. `read` reads what the model says of a live-coding
    /// task from its JSON text, or says why it cannot be read.
    pub fn finish<F>(
        &mut self,
        request: &LlmRequest,
        progress: AnswerProgress,
        end: AnswerEnd,
        read: F,
    ) -> (r: Vec<OutputEvent>) where F: Fn(&str) -> Result<LiveCodingResponse, String>
        requires
            old(self).has_room(),
            forall|text: &str| call_requires(read, (text,)),
        ensures
            reads_task(old(self)@, request@, progress@, end@) ==> exists|
                text: &str,
                response: Result<LiveCodingResponse, String>,
            |
                {
                    &&& text@ == unfenced(progress@.full_text)
                    &&& #[trigger] call_ensures(read, (text,), response)
                    &&& (final(self)@, event_models(r@)) == after_answer(
                        old(self)@,
                        request@,
                        progress@,
                        end@,
                        reading(response),
                    )
                },
            !reads_task(old(self)@, request@, progress@, end@) ==> forall|
                response: Result<ResponseModel, Seq<char>>,
            |
                (final(self)@, event_models(r@)) == #[trigger] after_answer(
                    old(self)@,
                    request@,
                    progress@,
                    end@,
                    response,
                ),
    {
        let text = match end {
            AnswerEnd::Failed(error) => {
                return self.fail(request.request_id, error);
            },
            AnswerEnd::TimedOut => {
                let seconds: u64 = self.timeout_sec(progress.mode);
                return self.fail(request.request_id, LlmError::Timeout(seconds));
            },
            AnswerEnd::Complete => progress.full_text,
        };
        if is_blank(text.as_str()) {
            return self.fail(request.request_id, LlmError::EmptyResponse);
        }
        let mut out: Vec<OutputEvent> = Vec::new();
        let ghost mut updates: Seq<OutputEventModel> = Seq::empty();
        if request.mode == Mode::LiveCoding {
            match parse_live_coding_response(
                &self.live_coding,
                request.speaker,
                text.as_str(),
                read,
            ) {
                Err(error) => {
                    return self.fail(request.request_id, error);
                },
                Ok(state) => {
                    self.live_coding = state.clone();
                    proof {
                        updates = seq![OutputEventModel::LiveCodingUpdated(state@)];
                    }
                    out.push(OutputEvent::LiveCodingUpdated(state));
                },
            }
        } else {
            self.histories.record(request.mode, request.text.clone(), text);
        }
        self.stats.completed += 1;
        out.push(OutputEvent::AnswerCompleted { request_id: request.request_id });
        proof {
            let completed = OutputEventModel::AnswerCompleted { request_id: request.request_id };
            assert(event_models(out@) =~= updates.push(completed));
            assert(updates.push(completed) =~= if request.mode == Mode::LiveCoding {
                seq![updates[0], completed]
            } else {
                seq![completed]
            });
        }
        out
    }
}

/// An answer that failed, came too late or is empty leaves no trace in the
/// conversation or the task: the model is asked the next question as if that
/// one had not been asked.
pub proof fn failures_leave_no_trace(
    w: LlmWorkerModel,
    request: LlmRequestModel,
    p: ProgressModel,
    end: AnswerEndModel,
    response: Result<ResponseModel, Seq<char>>,
    next: LlmRequestModel,
)
    requires
        answer_text(w, p, end) is Err,
    ensures
        chat_request(after_answer(w, request, p, end, response).0, next) == chat_request(w, next),
{
}

/// Passages go along with a question only: a later question has the same
/// conversation whether there were passages or not.
pub proof fn passages_are_not_kept(
    w: LlmWorkerModel,
    request: LlmRequestModel,
    p: ProgressModel,
    end: AnswerEndModel,
    response: Result<ResponseModel, Seq<char>>,
)
    ensures
        after_answer(w, request, p, end, response).0 == after_answer(
            w,
            LlmRequestModel { knowledge: None, ..request },
            p,
            end,
            response,
        ).0,
{
}

/// Live coding goes without the conversation: questions and answers neither
/// get into it nor come out of it.
pub proof fn live_coding_goes_without_conversation(
    w: LlmWorkerModel,
    request: LlmRequestModel,
    p: ProgressModel,
    end: AnswerEndModel,
    response: Result<ResponseModel, Seq<char>>,
    other: HistoriesModel,
)
    requires
        request.mode == Mode::LiveCoding,
    ensures
        after_answer(w, request, p, end, response).0.histories == w.histories,
        chat_request(LlmWorkerModel { histories: other, ..w }, request) == chat_request(w, request),
{
}

/// A task keeps its code until a complete answer was found good.
pub proof fn code_stays_until_an_answer_is_good(
    w: LlmWorkerModel,
    request: LlmRequestModel,
    p: ProgressModel,
    end: AnswerEndModel,
    response: Result<ResponseModel, Seq<char>>,
)
    requires
        request.mode == Mode::LiveCoding,
        answer_text(w, p, end) is Err || updated_by_reading(
            w.live_coding,
            request.speaker,
            response,
        ) is Err,
    ensures
        after_answer(w, request, p, end, response).0.live_coding == w.live_coding,
{
}

// ---------------------------------------------------------------------------
// A whole queue
// ---------------------------------------------------------------------------

/// What the worker meets in a row: the command to forget, or a question with
/// the parts of its answer, how that ended, and what was read of it.
pub enum TurnModel {
    Forget,
    Ask {
        request: LlmRequestModel,
        parts: Seq<LlmStreamEventModel>,
        end: AnswerEndModel,
        response: Result<ResponseModel, Seq<char>>,
    },
}

/// An answer after more parts.
pub open spec fn progressed(p: ProgressModel, parts: Seq<LlmStreamEventModel>) -> ProgressModel
    decreases parts.len(),
{
    if parts.len() == 0 {
        p
    } else {
        let before = progressed(p, parts.drop_last());
        ProgressModel { full_text: progress_text(before, parts.last()), ..before }
    }
}

/// What is reported of the parts of an answer.
pub open spec fn progress_reports(p: ProgressModel, parts: Seq<LlmStreamEventModel>) -> Seq<
    OutputEventModel,
>
    decreases parts.len(),
{
    if parts.len() == 0 {
        Seq::empty()
    } else {
        let before = progress_reports(p, parts.drop_last());
        match progress_report(progressed(p, parts.drop_last()), parts.last()) {
            Some(report) => before.push(report),
            None => before,
        }
    }
}

/// The worker and its reports after one more turn.
pub open spec fn after_turn(w: LlmWorkerModel, turn: TurnModel) -> (
    LlmWorkerModel,
    Seq<OutputEventModel>,
) {
    match turn {
        TurnModel::Forget => (forgetful(w), Seq::empty()),
        TurnModel::Ask { request, parts, end, response } => {
            let p = no_progress(request);
            let (next, reports) = after_answer(started(w), request, progressed(p, parts), end, response);
            (next, seq![start_report(request)] + progress_reports(p, parts) + reports)
        },
    }
}

/// The worker and its reports after turns in a row.
pub open spec fn after_turns(w: LlmWorkerModel, turns: Seq<TurnModel>) -> (
    LlmWorkerModel,
    Seq<OutputEventModel>,
)
    decreases turns.len(),
{
    if turns.len() == 0 {
        (w, Seq::empty())
    } else {
        let (before, reports) = after_turns(w, turns.drop_last());
        let (next, more) = after_turn(before, turns.last());
        (next, reports + more)
    }
}

/// How many of the turns are questions.
pub open spec fn question_count(turns: Seq<TurnModel>) -> nat
    decreases turns.len(),
{
    if turns.len() == 0 {
        0
    } else {
        question_count(turns.drop_last()) + if turns.last() is Ask {
            1nat
        } else {
            0nat
        }
    }
}

/// Every question of a queue is counted once as asked, and once as answered or
/// failed.
pub proof fn every_question_is_answered_or_failed(w: LlmWorkerModel, turns: Seq<TurnModel>)
    requires
        w.stats.requests + turns.len() <= u64::MAX,
        w.stats.completed + turns.len() <= u64::MAX,
        w.stats.failed + turns.len() <= u64::MAX,
    ensures
        ({
            let after = after_turns(w, turns).0.stats;
            &&& after.requests == w.stats.requests + question_count(turns)
            &&& after.completed + after.failed == w.stats.completed + w.stats.failed
                + question_count(turns)
            &&& w.stats.completed <= after.completed <= w.stats.completed + turns.len()
            &&& w.stats.failed <= after.failed <= w.stats.failed + turns.len()
            &&& question_count(turns) <= turns.len()
        }),
    decreases turns.len(),
{
    if turns.len() > 0 {
        every_question_is_answered_or_failed(w, turns.drop_last());
    }
}

/// Whether an event is a report on the parts of the answer to a request.
pub open spec fn is_part_of(event: OutputEventModel, id: u64) -> bool {
    match event {
        OutputEventModel::AnswerDelta { request_id, .. } => request_id == id,
        OutputEventModel::AnswerUsage { request_id, .. } => request_id == id,
        _ => false,
    }
}

proof fn parts_belong_to_their_answer(p: ProgressModel, parts: Seq<LlmStreamEventModel>)
    ensures
        progressed(p, parts).request_id == p.request_id,
        progressed(p, parts).mode == p.mode,
        forall|k: int|
            0 <= k < progress_reports(p, parts).len() ==> is_part_of(
                #[trigger] progress_reports(p, parts)[k],
                p.request_id,
            ),
    decreases parts.len(),
{
    if parts.len() > 0 {
        parts_belong_to_their_answer(p, parts.drop_last());
        let before = progress_reports(p, parts.drop_last());
        let all = progress_reports(p, parts);
        assert forall|k: int| 0 <= k < all.len() implies is_part_of(
            #[trigger] all[k],
            p.request_id,
        ) by {
            if k < before.len() {
                assert(all[k] == before[k]);
            }
        }
    }
}

/// A question is finished before the next one begins: its reports begin with
/// its start, end with its completion or a failure, and between them hold
/// nothing but the parts of its answer and, for a live-coding task, the task.
pub proof fn questions_are_finished_in_turn(
    w: LlmWorkerModel,
    request: LlmRequestModel,
    parts: Seq<LlmStreamEventModel>,
    end: AnswerEndModel,
    response: Result<ResponseModel, Seq<char>>,
)
    ensures
        ({
            let reports = after_turn(w, TurnModel::Ask { request, parts, end, response }).1;
            &&& reports.len() >= 2
            &&& reports[0] == start_report(request)
            &&& match reports.last() {
                OutputEventModel::AnswerCompleted { request_id } => request_id
                    == request.request_id,
                OutputEventModel::Error(error) => error.component == OutputComponent::Llm,
                _ => false,
            }
            &&& forall|k: int|
                1 <= k < reports.len() - 1 ==> is_part_of(
                    #[trigger] reports[k],
                    request.request_id,
                ) || (request.mode == Mode::LiveCoding && reports[k] is LiveCodingUpdated)
        }),
{
    let p = no_progress(request);
    parts_belong_to_their_answer(p, parts);
    let middle = progress_reports(p, parts);
    let tail = after_answer(started(w), request, progressed(p, parts), end, response).1;
    let reports = after_turn(w, TurnModel::Ask { request, parts, end, response }).1;
    assert(reports.last() == tail.last());
    assert forall|k: int| 1 <= k < reports.len() - 1 implies is_part_of(
        #[trigger] reports[k],
        request.request_id,
    ) || (request.mode == Mode::LiveCoding && reports[k] is LiveCodingUpdated) by {
        if k < 1 + middle.len() {
            assert(reports[k] == middle[k - 1]);
        } else {
            assert(reports[k] == tail[k - 1 - middle.len()]);
        }
    }
}

/// Whether questions of two modes belong to one conversation.
pub open spec fn same_conversation(separate: bool, a: Mode, b: Mode) -> bool {
    !separate || (a == Mode::Ocr <==> b == Mode::Ocr)
}

/// The questions and answers of a conversation since the worker was last told
/// to forget: only those with a complete answer that is not empty.
pub open spec fn successes(turns: Seq<TurnModel>, separate: bool, mode: Mode) -> Seq<PairModel>
    decreases turns.len(),
{
    if turns.len() == 0 {
        Seq::empty()
    } else {
        let before = successes(turns.drop_last(), separate, mode);
        match turns.last() {
            TurnModel::Forget => Seq::empty(),
            TurnModel::Ask { request, parts, end, .. } => {
                let text = progressed(no_progress(request), parts).full_text;
                if request.mode != Mode::LiveCoding && same_conversation(
                    separate,
                    request.mode,
                    mode,
                ) && end is Complete && trim(text).len() > 0 {
                    before.push(PairModel { user: request.text, assistant: text })
                } else {
                    before
                }
            },
        }
    }
}

proof fn conversation_is_recorded(w: LlmWorkerModel, turns: Seq<TurnModel>, mode: Mode)
    requires
        w.histories.voice.len() == 0,
        w.histories.ocr.len() == 0,
    ensures
        ({
            let after = after_turns(w, turns).0.histories;
            &&& after.maximum_pairs == w.histories.maximum_pairs
            &&& after.separate == w.histories.separate
            &&& after.of(mode) == all_recorded(
                successes(turns, w.histories.separate, mode),
                w.histories.maximum_pairs,
            )
        }),
    decreases turns.len(),
{
    if turns.len() == 0 {
        assert(w.histories.of(mode) =~= Seq::empty());
    } else {
        conversation_is_recorded(w, turns.drop_last(), mode);
        let before = after_turns(w, turns.drop_last()).0;
        let pairs = successes(turns.drop_last(), w.histories.separate, mode);
        match turns.last() {
            TurnModel::Forget => {
                assert(before.histories.cleared().of(mode) =~= Seq::empty());
            },
            TurnModel::Ask { request, parts, end, .. } => {
                let text = progressed(no_progress(request), parts).full_text;
                let pair = PairModel { user: request.text, assistant: text };
                assert(pairs.push(pair).drop_last() =~= pairs);
            },
        }
    }
}

/// What a question is put together with is the latest questions and answers of
/// its conversation, as many as may be: only ones that were answered, only
/// since the worker was last told to forget, and each question as it was
/// spoken.
pub proof fn conversation_is_the_latest_successes(
    w: LlmWorkerModel,
    turns: Seq<TurnModel>,
    mode: Mode,
)
    requires
        w.histories.voice.len() == 0,
        w.histories.ocr.len() == 0,
        w.histories.maximum_pairs > 0,
    ensures
        ({
            let pairs = successes(turns, w.histories.separate, mode);
            let maximum = w.histories.maximum_pairs;
            after_turns(w, turns).0.histories.of(mode) == if pairs.len() <= maximum {
                pairs
            } else {
                pairs.skip(pairs.len() - maximum)
            }
        }),
{
    conversation_is_recorded(w, turns, mode);
    history_holds_the_latest_pairs(
        successes(turns, w.histories.separate, mode),
        w.histories.maximum_pairs,
    );
}

/// An answer is the texts of its parts in a row; each that is not empty is
/// reported at once, except for live coding, and what it cost is always
/// reported.
pub proof fn answers_are_their_parts_in_a_row(
    p: ProgressModel,
    parts: Seq<LlmStreamEventModel>,
    text: Seq<char>,
    usage: crate::events::LlmUsage,
)
    ensures
        ({
            let more = parts.push(LlmStreamEventModel::Delta(text));
            let priced = parts.push(LlmStreamEventModel::Usage(usage));
            let reports = progress_reports(p, parts);
            &&& progressed(p, more).full_text == progressed(p, parts).full_text + text
            &&& progressed(p, priced).full_text == progressed(p, parts).full_text
            &&& progressed(p, Seq::empty()) == p
            &&& progressed(p, parts).request_id == p.request_id
            &&& progressed(p, parts).mode == p.mode
            &&& text.len() > 0 && p.mode != Mode::LiveCoding ==> progress_reports(p, more)
                == reports.push(
                OutputEventModel::AnswerDelta { request_id: p.request_id, text },
            )
            &&& text.len() == 0 || p.mode == Mode::LiveCoding ==> progress_reports(p, more)
                == reports
            &&& progress_reports(p, priced) == reports.push(
                OutputEventModel::AnswerUsage { request_id: p.request_id, usage },
            )
        }),
        no_progress(
            LlmRequestModel {
                request_id: p.request_id,
                mode: p.mode,
                speaker: Speaker::Interviewer,
                text,
                knowledge: None,
            },
        ).full_text.len() == 0,
    decreases parts.len(),
{
    let more = parts.push(LlmStreamEventModel::Delta(text));
    let priced = parts.push(LlmStreamEventModel::Usage(usage));
    assert(more.drop_last() =~= parts);
    assert(priced.drop_last() =~= parts);
    if parts.len() > 0 {
        answers_are_their_parts_in_a_row(p, parts.drop_last(), text, usage);
        let before = progressed(p, parts.drop_last());
        assert(before.request_id == p.request_id);
    }
}

/// An answer has succeeded exactly where it is complete and not blank; where it
/// took too long, the limit of its mode was passed.
pub proof fn answers_succeed_where_they_have_text(
    w: LlmWorkerModel,
    p: ProgressModel,
    end: AnswerEndModel,
)
    ensures
        answer_text(w, p, end) is Ok <==> end is Complete && trim(p.full_text).len() > 0,
        answer_text(w, p, end) matches Ok(text) ==> text == p.full_text,
        end matches AnswerEndModel::Failed(error) ==> answer_text(w, p, end) == Err::<
            Seq<char>,
            LlmErrorModel,
        >(error),
        end is TimedOut && p.mode == Mode::LiveCoding ==> answer_text(w, p, end) == Err::<
            Seq<char>,
            LlmErrorModel,
        >(LlmErrorModel::Timeout(w.config.coding_timeout_sec)),
        end is TimedOut && p.mode != Mode::LiveCoding ==> answer_text(w, p, end) == Err::<
            Seq<char>,
            LlmErrorModel,
        >(LlmErrorModel::Timeout(w.config.timeout_sec)),
        end is Complete && trim(p.full_text).len() == 0 ==> answer_text(w, p, end) == Err::<
            Seq<char>,
            LlmErrorModel,
        >(LlmErrorModel::EmptyResponse),
{
}

/// A question is asked behind the instructions and the conversation of its mode,
/// with what was looked up for it just before it.
pub proof fn questions_stand_behind_their_conversation(w: LlmWorkerModel, request: LlmRequestModel)
    requires
        request.mode != Mode::LiveCoding,
    ensures
        ({
            let r = chat_request(w, request);
            let past = pair_messages(w.histories.of(request.mode));
            let n = past.len() as int;
            &&& r.temperature is None
            &&& r.max_tokens is None
            &&& r.messages[0].role == ChatRole::System
            &&& r.messages[0].content == VOICE_PROMPT_HEAD@ + w.config.current_project
                + VOICE_PROMPT_TAIL@
            &&& r.messages.subrange(1, 1 + n) == past
            &&& request.knowledge is None ==> r.messages.len() == n + 2
            &&& request.knowledge matches Some(context) ==> {
                &&& r.messages.len() == n + 3
                &&& r.messages[n + 1].role == ChatRole::System
                &&& r.messages[n + 1].content == knowledge_prompt(context)
            }
            &&& r.messages.last().role == ChatRole::User
            &&& request.speaker == Speaker::Interviewer ==> r.messages.last().content
                == request.text
            &&& request.speaker == Speaker::Candidate ==> r.messages.last().content
                == marked_speech(Speaker::Candidate, request.text)
        }),
{
    let r = chat_request(w, request);
    let past = pair_messages(w.histories.of(request.mode));
    assert(r.messages.subrange(1, 1 + past.len() as int) =~= past);
}

/// A live-coding task is asked by its state and what was just said, with limits
/// of its own.
pub proof fn tasks_are_asked_by_their_state(w: LlmWorkerModel, request: LlmRequestModel)
    requires
        request.mode == Mode::LiveCoding,
    ensures
        ({
            let r = chat_request(w, request);
            &&& r.messages.len() == 2
            &&& r.messages[0].role == ChatRole::System
            &&& r.messages[0].content == LIVE_CODING_PROMPT@
            &&& r.messages[1].role == ChatRole::User
            &&& r.messages[1].content == live_coding_question(
                w.live_coding,
                request.speaker,
                request.text,
            )
            &&& r.temperature == Some(w.config.coding_temperature)
            &&& r.max_tokens == Some(w.config.coding_max_tokens)
        }),
        time_limit(w, Mode::LiveCoding) == w.config.coding_timeout_sec,
        time_limit(w, Mode::Voice) == w.config.timeout_sec,
        time_limit(w, Mode::Ocr) == w.config.timeout_sec,
{
}

/// A good answer is kept as a pair with its question, or as the next state of
/// the task; a failure is reported under the number of its request.
pub proof fn answers_are_kept_or_reported(
    w: LlmWorkerModel,
    request: LlmRequestModel,
    p: ProgressModel,
    end: AnswerEndModel,
    response: Result<ResponseModel, Seq<char>>,
)
    requires
        w.stats.completed < u64::MAX,
        w.stats.failed < u64::MAX,
    ensures
        ({
            let (next, reports) = after_answer(w, request, p, end, response);
            let answered = answer_text(w, p, end) is Ok;
            let read = updated_by_reading(w.live_coding, request.speaker, response);
            let done = OutputEventModel::AnswerCompleted { request_id: request.request_id };
            &&& answered && request.mode != Mode::LiveCoding ==> {
                &&& next.histories == w.histories.with_pair(
                    request.mode,
                    PairModel { user: request.text, assistant: p.full_text },
                )
                &&& next.live_coding == w.live_coding
                &&& reports == seq![done]
                &&& next.stats.completed == w.stats.completed + 1
                &&& next.stats.failed == w.stats.failed
            }
            &&& answered && request.mode == Mode::LiveCoding ==> (read matches Ok(state) ==> {
                &&& next.live_coding == state
                &&& next.histories == w.histories
                &&& reports == seq![OutputEventModel::LiveCodingUpdated(state), done]
                &&& next.stats.completed == w.stats.completed + 1
                &&& next.stats.failed == w.stats.failed
            })
            &&& answered && request.mode == Mode::LiveCoding ==> (read matches Err(error) ==> {
                &&& next.stats.failed == w.stats.failed + 1
                &&& next.stats.completed == w.stats.completed
                &&& reports == seq![
                    OutputEventModel::Error(
                        AppErrorViewModel {
                            component: OutputComponent::Llm,
                            message: "request #"@ + decimal(request.request_id as nat)
                                + " failed: "@ + error.words(),
                        },
                    ),
                ]
            })
            &&& answer_text(w, p, end) matches Err(error) ==> {
                &&& next.stats.failed == w.stats.failed + 1
                &&& next.stats.completed == w.stats.completed
                &&& next.histories == w.histories
                &&& next.live_coding == w.live_coding
                &&& reports == seq![
                    OutputEventModel::Error(
                        AppErrorViewModel {
                            component: OutputComponent::Llm,
                            message: "request #"@ + decimal(request.request_id as nat)
                                + " failed: "@ + error.words(),
                        },
                    ),
                ]
            }
            &&& next.config == w.config
            &&& next.stats.requests == w.stats.requests
        }),
{
}

/// Forgetting empties every conversation and the task, and nothing else; each
/// request that is started counts and is reported.
pub proof fn forgetting_empties_everything(w: LlmWorkerModel, request: LlmRequestModel)
    requires
        w.stats.requests < u64::MAX,
    ensures
        forgetful(w).histories.voice.len() == 0,
        forgetful(w).histories.ocr.len() == 0,
        forgetful(w).live_coding == blank_live_coding(),
        forgetful(w).stats == w.stats,
        forgetful(w).config == w.config,
        started(w).stats.requests == w.stats.requests + 1,
        started(w).stats.completed == w.stats.completed,
        started(w).stats.failed == w.stats.failed,
        started(w).histories == w.histories,
        started(w).live_coding == w.live_coding,
        start_report(request) == OutputEventModel::AnswerStarted(
            AnswerMeta {
                request_id: request.request_id,
                mode: request.mode,
                speaker: request.speaker,
            },
        ),
{
}

} // verus!
