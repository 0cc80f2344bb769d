//! The values that the parts of the assistant hand to one another.
//!
//! A type that owns text has a model: the same value with each string as its
//! sequence of characters. Contracts speak of the models.
use vstd::prelude::*;

use crate::numbers::{Double, Single};

verus! {

/// A copy of the numbers, in order.
pub fn copy_numbers(items: &Vec<usize>) -> (r: Vec<usize>)
    ensures
        r@ == items@,
{
    let mut out: Vec<usize> = Vec::new();
    let mut i: usize = 0;
    while i < items.len()
        invariant
            i <= items@.len(),
            out@ == items@.take(i as int),
        decreases items@.len() - i,
    {
        out.push(items[i]);
        i += 1;
        assert(out@ =~= items@.take(i as int));
    }
    assert(out@ =~= items@);
    out
}

/// A run of sound samples, numbered in the order of capture.
#[derive(Debug)]
pub struct AudioFrame {
    pub sequence: u64,
    pub pcm: Vec<u8>,
}

/// Whose speech a channel carries.
#[derive(Clone, Copy, Debug, PartialEq, Eq, Structural)]
pub enum Speaker {
    Interviewer,
    Candidate,
}

impl Speaker {
    /// The word for the speaker.
    pub open spec fn name(self) -> Seq<char> {
        match self {
            Speaker::Interviewer => "interviewer"@,
            Speaker::Candidate => "candidate"@,
        }
    }

    /// The word for the speaker.
    pub fn label(self) -> (r: &'static str)
        ensures
            r@ == self.name(),
    {
        match self {
            Speaker::Interviewer => "interviewer",
            Speaker::Candidate => "candidate",
        }
    }
}

/// How transcripts are put to use.
#[derive(Clone, Copy, Debug, PartialEq, Eq, Structural)]
pub enum Mode {
    Voice,
    Ocr,
    LiveCoding,
}

impl Mode {
    /// The word for the mode.
    pub open spec fn name(self) -> Seq<char> {
        match self {
            Mode::Voice => "voice"@,
            Mode::Ocr => "ocr"@,
            Mode::LiveCoding => "live-coding"@,
        }
    }

    /// The word for the mode.
    pub fn label(self) -> (r: &'static str)
        ensures
            r@ == self.name(),
    {
        match self {
            Mode::Voice => "voice",
            Mode::Ocr => "ocr",
            Mode::LiveCoding => "live-coding",
        }
    }
}

impl Default for Mode {
    fn default() -> (r: Self)
        ensures
            r == Mode::Voice,
    {
        Mode::Voice
    }
}

/// Where the connection to the speech recogniser stands.
#[derive(Clone, Copy, Debug, PartialEq, Eq, Structural)]
pub enum SttStatus {
    Connecting { retry_count: u32, queue_len: usize },
    Connected { queue_len: usize },
    Reconnecting { retry_count: u32, delay_secs: u64, queue_len: usize },
}

/// What the speech recogniser reports.
#[derive(Debug, PartialEq, Eq)]
pub enum DeepgramEvent {
    /// The state of the connection.
    Status(SttStatus),
    /// The first sound of a connection was sent.
    AudioStreamStarted,
    /// Recognised words.
    Transcript {
        text: String,
        is_final: bool,
        speech_final: bool,
        audio_start_ms: Option<u64>,
        audio_duration_ms: Option<u64>,
        last_word_end_ms: Option<u64>,
    },
    /// Someone began to speak.
    SpeechStarted {
        audio_timestamp_ms: Option<u64>,
    },
    /// A pause followed the last word.
    UtteranceEnd {
        last_word_end_ms: Option<u64>,
    },
    /// A message without content for the pipeline.
    Metadata,
    /// The service or the connection failed.
    Error(String),
}

/// The value of a [`DeepgramEvent`].
#[verifier::ext_equal]
pub enum DeepgramEventModel {
    Status(SttStatus),
    AudioStreamStarted,
    Transcript {
        text: Seq<char>,
        is_final: bool,
        speech_final: bool,
        audio_start_ms: Option<u64>,
        audio_duration_ms: Option<u64>,
        last_word_end_ms: Option<u64>,
    },
    SpeechStarted {
        audio_timestamp_ms: Option<u64>,
    },
    UtteranceEnd {
        last_word_end_ms: Option<u64>,
    },
    Metadata,
    Error(Seq<char>),
}

impl View for DeepgramEvent {
    type V = DeepgramEventModel;

    open spec fn view(&self) -> DeepgramEventModel {
        match *self {
            DeepgramEvent::Status(inner) => DeepgramEventModel::Status(inner),
            DeepgramEvent::AudioStreamStarted => DeepgramEventModel::AudioStreamStarted,
            DeepgramEvent::Transcript { text, is_final, speech_final, audio_start_ms, audio_duration_ms, last_word_end_ms } => DeepgramEventModel::Transcript {
                text: text@,
                is_final: is_final,
                speech_final: speech_final,
                audio_start_ms: audio_start_ms,
                audio_duration_ms: audio_duration_ms,
                last_word_end_ms: last_word_end_ms,
            },
            DeepgramEvent::SpeechStarted { audio_timestamp_ms } => DeepgramEventModel::SpeechStarted {
                audio_timestamp_ms: audio_timestamp_ms,
            },
            DeepgramEvent::UtteranceEnd { last_word_end_ms } => DeepgramEventModel::UtteranceEnd {
                last_word_end_ms: last_word_end_ms,
            },
            DeepgramEvent::Metadata => DeepgramEventModel::Metadata,
            DeepgramEvent::Error(inner) => DeepgramEventModel::Error(inner@),
        }
    }
}

impl Clone for DeepgramEvent {
    fn clone(&self) -> (r: Self)
        ensures
            r@ == self@,
    {
        match self {
            DeepgramEvent::Status(inner) => DeepgramEvent::Status(*inner),
            DeepgramEvent::AudioStreamStarted => DeepgramEvent::AudioStreamStarted,
            DeepgramEvent::Transcript { text, is_final, speech_final, audio_start_ms, audio_duration_ms, last_word_end_ms } => DeepgramEvent::Transcript {
                text: text.clone(),
                is_final: *is_final,
                speech_final: *speech_final,
                audio_start_ms: *audio_start_ms,
                audio_duration_ms: *audio_duration_ms,
                last_word_end_ms: *last_word_end_ms,
            },
            DeepgramEvent::SpeechStarted { audio_timestamp_ms } => DeepgramEvent::SpeechStarted {
                audio_timestamp_ms: *audio_timestamp_ms,
            },
            DeepgramEvent::UtteranceEnd { last_word_end_ms } => DeepgramEvent::UtteranceEnd {
                last_word_end_ms: *last_word_end_ms,
            },
            DeepgramEvent::Metadata => DeepgramEvent::Metadata,
            DeepgramEvent::Error(inner) => DeepgramEvent::Error(inner.clone()),
        }
    }
}

/// A piece of speech that is complete enough to answer.
#[derive(Debug, PartialEq, Eq)]
pub struct TranscriptChunk {
    pub sequence: u64,
    pub text: String,
}

/// The value of a [`TranscriptChunk`].
#[verifier::ext_equal]
pub struct TranscriptChunkModel {
    pub sequence: u64,
    pub text: Seq<char>,
}

impl View for TranscriptChunk {
    type V = TranscriptChunkModel;

    open spec fn view(&self) -> TranscriptChunkModel {
        TranscriptChunkModel {
            sequence: self.sequence,
            text: self.text@,
        }
    }
}

impl Clone for TranscriptChunk {
    fn clone(&self) -> (r: Self)
        ensures
            r@ == self@,
    {
        TranscriptChunk {
            sequence: self.sequence,
            text: self.text.clone(),
        }
    }
}

/// A passage of the knowledge base that bears on a question.
#[derive(Debug, PartialEq, Eq)]
pub struct KnowledgeSnippet {
    pub id: String,
    pub source: String,
    pub heading: String,
    pub text: String,
    pub score: Single,
}

/// The value of a [`KnowledgeSnippet`].
#[verifier::ext_equal]
pub struct KnowledgeSnippetModel {
    pub id: Seq<char>,
    pub source: Seq<char>,
    pub heading: Seq<char>,
    pub text: Seq<char>,
    pub score: Single,
}

impl View for KnowledgeSnippet {
    type V = KnowledgeSnippetModel;

    open spec fn view(&self) -> KnowledgeSnippetModel {
        KnowledgeSnippetModel {
            id: self.id@,
            source: self.source@,
            heading: self.heading@,
            text: self.text@,
            score: self.score,
        }
    }
}

impl Clone for KnowledgeSnippet {
    fn clone(&self) -> (r: Self)
        ensures
            r@ == self@,
    {
        KnowledgeSnippet {
            id: self.id.clone(),
            source: self.source.clone(),
            heading: self.heading.clone(),
            text: self.text.clone(),
            score: self.score,
        }
    }
}

/// A copy of each of the values, in order.
pub fn copy_snippets(items: &Vec<KnowledgeSnippet>) -> (r: Vec<KnowledgeSnippet>)
    ensures
        r@.len() == items@.len(),
        forall|i: int| 0 <= i < items@.len() ==> #[trigger] r@[i]@ == items@[i]@,
{
    let mut out: Vec<KnowledgeSnippet> = Vec::new();
    let mut i: usize = 0;
    while i < items.len()
        invariant
            i <= items@.len(),
            out@.len() == i,
            forall|j: int| 0 <= j < i ==> #[trigger] out@[j]@ == items@[j]@,
        decreases items@.len() - i,
    {
        out.push(items[i].clone());
        i += 1;
    }
    out
}

/// The passages found for a question, and what finding them took.
#[derive(Debug, PartialEq, Eq)]
pub struct KnowledgeContext {
    pub snippets: Vec<KnowledgeSnippet>,
    pub searches: u64,
    pub embedding_calls: u64,
    pub embedding_prompt_tokens: u64,
    pub embedding_total_tokens: u64,
    pub embedding_ms: u64,
    pub search_ms: u64,
    pub final_wait_ms: u64,
}

/// The value of a [`KnowledgeContext`].
#[verifier::ext_equal]
pub struct KnowledgeContextModel {
    pub snippets: Seq<KnowledgeSnippetModel>,
    pub searches: u64,
    pub embedding_calls: u64,
    pub embedding_prompt_tokens: u64,
    pub embedding_total_tokens: u64,
    pub embedding_ms: u64,
    pub search_ms: u64,
    pub final_wait_ms: u64,
}

impl View for KnowledgeContext {
    type V = KnowledgeContextModel;

    open spec fn view(&self) -> KnowledgeContextModel {
        KnowledgeContextModel {
            snippets: Seq::new(self.snippets@.len(), |i: int| self.snippets@[i]@),
            searches: self.searches,
            embedding_calls: self.embedding_calls,
            embedding_prompt_tokens: self.embedding_prompt_tokens,
            embedding_total_tokens: self.embedding_total_tokens,
            embedding_ms: self.embedding_ms,
            search_ms: self.search_ms,
            final_wait_ms: self.final_wait_ms,
        }
    }
}

impl Clone for KnowledgeContext {
    fn clone(&self) -> (r: Self)
        ensures
            r@ == self@,
    {
        KnowledgeContext {
            snippets: copy_snippets(&self.snippets),
            searches: self.searches,
            embedding_calls: self.embedding_calls,
            embedding_prompt_tokens: self.embedding_prompt_tokens,
            embedding_total_tokens: self.embedding_total_tokens,
            embedding_ms: self.embedding_ms,
            search_ms: self.search_ms,
            final_wait_ms: self.final_wait_ms,
        }
    }
}

/// The passages attached to a request.
#[derive(Debug, PartialEq, Eq)]
pub struct RetrievalView {
    pub request_id: u64,
    pub context: KnowledgeContext,
}

/// The value of a [`RetrievalView`].
#[verifier::ext_equal]
pub struct RetrievalViewModel {
    pub request_id: u64,
    pub context: KnowledgeContextModel,
}

impl View for RetrievalView {
    type V = RetrievalViewModel;

    open spec fn view(&self) -> RetrievalViewModel {
        RetrievalViewModel {
            request_id: self.request_id,
            context: self.context@,
        }
    }
}

impl Clone for RetrievalView {
    fn clone(&self) -> (r: Self)
        ensures
            r@ == self@,
    {
        RetrievalView {
            request_id: self.request_id,
            context: self.context.clone(),
        }
    }
}

/// A question on its way to the language model.
#[derive(Debug, PartialEq, Eq)]
pub struct LlmRequest {
    pub request_id: u64,
    pub mode: Mode,
    pub speaker: Speaker,
    pub text: String,
    pub knowledge: Option<KnowledgeContext>,
}

/// The value of a [`LlmRequest`].
#[verifier::ext_equal]
pub struct LlmRequestModel {
    pub request_id: u64,
    pub mode: Mode,
    pub speaker: Speaker,
    pub text: Seq<char>,
    pub knowledge: Option<KnowledgeContextModel>,
}

impl View for LlmRequest {
    type V = LlmRequestModel;

    open spec fn view(&self) -> LlmRequestModel {
        LlmRequestModel {
            request_id: self.request_id,
            mode: self.mode,
            speaker: self.speaker,
            text: self.text@,
            knowledge: match self.knowledge { Some(inner) => Some(inner@), None => None },
        }
    }
}

/// What a status message is about.
#[derive(Clone, Copy, Debug, PartialEq, Eq, Structural)]
pub enum StatusKind {
    Started,
    Connecting,
    Listening,
    Paused,
    Reconnecting,
    HistoryCleared,
    Stopped,
}

/// A change of the pipeline, in words.
#[derive(Debug, PartialEq, Eq)]
pub struct StatusMessage {
    pub kind: StatusKind,
    pub text: String,
}

/// The value of a [`StatusMessage`].
#[verifier::ext_equal]
pub struct StatusMessageModel {
    pub kind: StatusKind,
    pub text: Seq<char>,
}

impl View for StatusMessage {
    type V = StatusMessageModel;

    open spec fn view(&self) -> StatusMessageModel {
        StatusMessageModel {
            kind: self.kind,
            text: self.text@,
        }
    }
}

impl Clone for StatusMessage {
    fn clone(&self) -> (r: Self)
        ensures
            r@ == self@,
    {
        StatusMessage {
            kind: self.kind,
            text: self.text.clone(),
        }
    }
}

/// A submitted piece of speech, and why it was submitted.
#[derive(Debug, PartialEq, Eq)]
pub struct TranscriptView {
    pub sequence: u64,
    pub mode: Mode,
    pub speaker: Speaker,
    pub text: String,
    pub flush_reason: String,
}

/// The value of a [`TranscriptView`].
#[verifier::ext_equal]
pub struct TranscriptViewModel {
    pub sequence: u64,
    pub mode: Mode,
    pub speaker: Speaker,
    pub text: Seq<char>,
    pub flush_reason: Seq<char>,
}

impl View for TranscriptView {
    type V = TranscriptViewModel;

    open spec fn view(&self) -> TranscriptViewModel {
        TranscriptViewModel {
            sequence: self.sequence,
            mode: self.mode,
            speaker: self.speaker,
            text: self.text@,
            flush_reason: self.flush_reason@,
        }
    }
}

impl Clone for TranscriptView {
    fn clone(&self) -> (r: Self)
        ensures
            r@ == self@,
    {
        TranscriptView {
            sequence: self.sequence,
            mode: self.mode,
            speaker: self.speaker,
            text: self.text.clone(),
            flush_reason: self.flush_reason.clone(),
        }
    }
}

/// A recogniser event as it is recorded.
#[derive(Debug, PartialEq, Eq)]
pub enum SttObservation {
    /// The first sound of a connection was sent.
    AudioStreamStarted,
    /// Recognised words.
    Transcript {
        text: String,
        is_final: bool,
        speech_final: bool,
        speech_final_deferred: bool,
        audio_start_ms: Option<u64>,
        audio_duration_ms: Option<u64>,
        last_word_end_ms: Option<u64>,
    },
    /// Someone began to speak.
    SpeechStarted {
        audio_timestamp_ms: Option<u64>,
    },
    /// A pause followed the last word.
    UtteranceEnd {
        last_word_end_ms: Option<u64>,
        ignored: bool,
        deferred: bool,
    },
}

/// The value of a [`SttObservation`].
#[verifier::ext_equal]
pub enum SttObservationModel {
    AudioStreamStarted,
    Transcript {
        text: Seq<char>,
        is_final: bool,
        speech_final: bool,
        speech_final_deferred: bool,
        audio_start_ms: Option<u64>,
        audio_duration_ms: Option<u64>,
        last_word_end_ms: Option<u64>,
    },
    SpeechStarted {
        audio_timestamp_ms: Option<u64>,
    },
    UtteranceEnd {
        last_word_end_ms: Option<u64>,
        ignored: bool,
        deferred: bool,
    },
}

impl View for SttObservation {
    type V = SttObservationModel;

    open spec fn view(&self) -> SttObservationModel {
        match *self {
            SttObservation::AudioStreamStarted => SttObservationModel::AudioStreamStarted,
            SttObservation::Transcript { text, is_final, speech_final, speech_final_deferred, audio_start_ms, audio_duration_ms, last_word_end_ms } => SttObservationModel::Transcript {
                text: text@,
                is_final: is_final,
                speech_final: speech_final,
                speech_final_deferred: speech_final_deferred,
                audio_start_ms: audio_start_ms,
                audio_duration_ms: audio_duration_ms,
                last_word_end_ms: last_word_end_ms,
            },
            SttObservation::SpeechStarted { audio_timestamp_ms } => SttObservationModel::SpeechStarted {
                audio_timestamp_ms: audio_timestamp_ms,
            },
            SttObservation::UtteranceEnd { last_word_end_ms, ignored, deferred } => SttObservationModel::UtteranceEnd {
                last_word_end_ms: last_word_end_ms,
                ignored: ignored,
                deferred: deferred,
            },
        }
    }
}

impl Clone for SttObservation {
    fn clone(&self) -> (r: Self)
        ensures
            r@ == self@,
    {
        match self {
            SttObservation::AudioStreamStarted => SttObservation::AudioStreamStarted,
            SttObservation::Transcript { text, is_final, speech_final, speech_final_deferred, audio_start_ms, audio_duration_ms, last_word_end_ms } => SttObservation::Transcript {
                text: text.clone(),
                is_final: *is_final,
                speech_final: *speech_final,
                speech_final_deferred: *speech_final_deferred,
                audio_start_ms: *audio_start_ms,
                audio_duration_ms: *audio_duration_ms,
                last_word_end_ms: *last_word_end_ms,
            },
            SttObservation::SpeechStarted { audio_timestamp_ms } => SttObservation::SpeechStarted {
                audio_timestamp_ms: *audio_timestamp_ms,
            },
            SttObservation::UtteranceEnd { last_word_end_ms, ignored, deferred } => SttObservation::UtteranceEnd {
                last_word_end_ms: *last_word_end_ms,
                ignored: *ignored,
                deferred: *deferred,
            },
        }
    }
}

/// What an answer cost.
#[derive(Clone, Copy, Debug, PartialEq, Eq, Structural)]
pub struct LlmUsage {
    pub prompt_tokens: u64,
    pub completion_tokens: u64,
    pub total_tokens: u64,
    pub cost: Option<Double>,
}

/// Which request an answer belongs to.
#[derive(Clone, Copy, Debug, PartialEq, Eq, Structural)]
pub struct AnswerMeta {
    pub request_id: u64,
    pub mode: Mode,
    pub speaker: Speaker,
}

/// A queue whose length is reported.
#[derive(Clone, Copy, Debug, PartialEq, Eq, Structural)]
pub enum QueueKind {
    Audio,
    Llm,
}

impl QueueKind {
    /// The word for the queue.
    pub open spec fn name(self) -> Seq<char> {
        match self {
            QueueKind::Audio => "audio"@,
            QueueKind::Llm => "llm"@,
        }
    }

    /// The word for the queue.
    pub fn label(self) -> (r: &'static str)
        ensures
            r@ == self.name(),
    {
        match self {
            QueueKind::Audio => "audio",
            QueueKind::Llm => "llm",
        }
    }
}

/// How many items wait in a queue.
#[derive(Clone, Copy, Debug, PartialEq, Eq, Structural)]
pub struct QueueState {
    pub queue: QueueKind,
    pub len: usize,
}

/// The part of the assistant that failed.
#[derive(Clone, Copy, Debug, PartialEq, Eq, Structural)]
pub enum OutputComponent {
    App,
    Audio,
    Stt,
    Llm,
    Knowledge,
}

impl OutputComponent {
    /// The word for the component.
    pub open spec fn name(self) -> Seq<char> {
        match self {
            OutputComponent::App => "app"@,
            OutputComponent::Audio => "audio"@,
            OutputComponent::Stt => "stt"@,
            OutputComponent::Llm => "llm"@,
            OutputComponent::Knowledge => "knowledge"@,
        }
    }

    /// The word for the component.
    pub fn label(self) -> (r: &'static str)
        ensures
            r@ == self.name(),
    {
        match self {
            OutputComponent::App => "app",
            OutputComponent::Audio => "audio",
            OutputComponent::Stt => "stt",
            OutputComponent::Llm => "llm",
            OutputComponent::Knowledge => "knowledge",
        }
    }
}

/// A failure as it is shown.
#[derive(Debug, PartialEq, Eq)]
pub struct AppErrorView {
    pub component: OutputComponent,
    pub message: String,
}

/// The value of a [`AppErrorView`].
#[verifier::ext_equal]
pub struct AppErrorViewModel {
    pub component: OutputComponent,
    pub message: Seq<char>,
}

impl View for AppErrorView {
    type V = AppErrorViewModel;

    open spec fn view(&self) -> AppErrorViewModel {
        AppErrorViewModel {
            component: self.component,
            message: self.message@,
        }
    }
}

impl Clone for AppErrorView {
    fn clone(&self) -> (r: Self)
        ensures
            r@ == self@,
    {
        AppErrorView {
            component: self.component,
            message: self.message.clone(),
        }
    }
}

/// A replacement of the characters from one offset up to another.
#[derive(Debug, PartialEq, Eq)]
pub struct CodeEdit {
    pub start_offset: usize,
    pub end_offset: usize,
    pub replacement: String,
}

/// The value of a [`CodeEdit`].
#[verifier::ext_equal]
pub struct CodeEditModel {
    pub start_offset: usize,
    pub end_offset: usize,
    pub replacement: Seq<char>,
}

impl View for CodeEdit {
    type V = CodeEditModel;

    open spec fn view(&self) -> CodeEditModel {
        CodeEditModel {
            start_offset: self.start_offset,
            end_offset: self.end_offset,
            replacement: self.replacement@,
        }
    }
}

impl Clone for CodeEdit {
    fn clone(&self) -> (r: Self)
        ensures
            r@ == self@,
    {
        CodeEdit {
            start_offset: self.start_offset,
            end_offset: self.end_offset,
            replacement: self.replacement.clone(),
        }
    }
}

/// A copy of each of the values, in order.
pub fn copy_edits(items: &Vec<CodeEdit>) -> (r: Vec<CodeEdit>)
    ensures
        r@.len() == items@.len(),
        forall|i: int| 0 <= i < items@.len() ==> #[trigger] r@[i]@ == items@[i]@,
{
    let mut out: Vec<CodeEdit> = Vec::new();
    let mut i: usize = 0;
    while i < items.len()
        invariant
            i <= items@.len(),
            out@.len() == i,
            forall|j: int| 0 <= j < i ==> #[trigger] out@[j]@ == items@[j]@,
        decreases items@.len() - i,
    {
        out.push(items[i].clone());
        i += 1;
    }
    out
}

/// The state of a live-coding task.
#[derive(Debug, PartialEq, Eq)]
pub struct LiveCodingState {
    pub revision: u64,
    pub summary: String,
    pub candidate_context: String,
    pub explanation: String,
    pub language: String,
    pub code: String,
    pub change_note: String,
    pub changed_lines: Vec<usize>,
    pub code_edits: Vec<CodeEdit>,
}

/// The value of a [`LiveCodingState`].
#[verifier::ext_equal]
pub struct LiveCodingStateModel {
    pub revision: u64,
    pub summary: Seq<char>,
    pub candidate_context: Seq<char>,
    pub explanation: Seq<char>,
    pub language: Seq<char>,
    pub code: Seq<char>,
    pub change_note: Seq<char>,
    pub changed_lines: Seq<usize>,
    pub code_edits: Seq<CodeEditModel>,
}

impl View for LiveCodingState {
    type V = LiveCodingStateModel;

    open spec fn view(&self) -> LiveCodingStateModel {
        LiveCodingStateModel {
            revision: self.revision,
            summary: self.summary@,
            candidate_context: self.candidate_context@,
            explanation: self.explanation@,
            language: self.language@,
            code: self.code@,
            change_note: self.change_note@,
            changed_lines: self.changed_lines@,
            code_edits: Seq::new(self.code_edits@.len(), |i: int| self.code_edits@[i]@),
        }
    }
}

impl Clone for LiveCodingState {
    fn clone(&self) -> (r: Self)
        ensures
            r@ == self@,
    {
        LiveCodingState {
            revision: self.revision,
            summary: self.summary.clone(),
            candidate_context: self.candidate_context.clone(),
            explanation: self.explanation.clone(),
            language: self.language.clone(),
            code: self.code.clone(),
            change_note: self.change_note.clone(),
            changed_lines: copy_numbers(&self.changed_lines),
            code_edits: copy_edits(&self.code_edits),
        }
    }
}

/// The state before anything was said.
pub open spec fn blank_live_coding() -> LiveCodingStateModel {
    LiveCodingStateModel {
        revision: 0,
        summary: Seq::empty(),
        candidate_context: Seq::empty(),
        explanation: Seq::empty(),
        language: Seq::empty(),
        code: Seq::empty(),
        change_note: Seq::empty(),
        changed_lines: Seq::empty(),
        code_edits: Seq::empty(),
    }
}

impl Default for LiveCodingState {
    fn default() -> (r: Self)
        ensures
            r@ == blank_live_coding(),
    {
        let r = LiveCodingState {
            revision: 0,
            summary: String::new(),
            candidate_context: String::new(),
            explanation: String::new(),
            language: String::new(),
            code: String::new(),
            change_note: String::new(),
            changed_lines: Vec::new(),
            code_edits: Vec::new(),
        };
        assert(r@ =~= blank_live_coding());
        r
    }
}

/// What the pipeline tells its observers.
#[derive(Debug, PartialEq, Eq)]
pub enum OutputEvent {
    /// The mode was switched.
    ModeChanged {
        mode: Mode,
    },
    /// The pipeline changed state.
    Status(StatusMessage),
    /// The recogniser reported something.
    SttObservation {
        speaker: Speaker,
        observation: SttObservation,
    },
    /// The speech so far that was not submitted.
    TranscriptDraft {
        speaker: Speaker,
        text: String,
    },
    /// Speech was submitted.
    Transcript(TranscriptView),
    /// Passages were found for a request.
    Retrieval(RetrievalView),
    /// A request waits for the model.
    LlmQueued {
        request_id: u64,
    },
    /// The model was asked.
    AnswerStarted(AnswerMeta),
    /// The model said more.
    AnswerDelta {
        request_id: u64,
        text: String,
    },
    /// The cost of an answer is known.
    AnswerUsage {
        request_id: u64,
        usage: LlmUsage,
    },
    /// The model is done.
    AnswerCompleted {
        request_id: u64,
    },
    /// The live-coding task has a new revision.
    LiveCodingUpdated(LiveCodingState),
    /// A queue changed its length.
    QueueState(QueueState),
    /// Something failed.
    Error(AppErrorView),
}

/// The value of a [`OutputEvent`].
#[verifier::ext_equal]
pub enum OutputEventModel {
    ModeChanged {
        mode: Mode,
    },
    Status(StatusMessageModel),
    SttObservation {
        speaker: Speaker,
        observation: SttObservationModel,
    },
    TranscriptDraft {
        speaker: Speaker,
        text: Seq<char>,
    },
    Transcript(TranscriptViewModel),
    Retrieval(RetrievalViewModel),
    LlmQueued {
        request_id: u64,
    },
    AnswerStarted(AnswerMeta),
    AnswerDelta {
        request_id: u64,
        text: Seq<char>,
    },
    AnswerUsage {
        request_id: u64,
        usage: LlmUsage,
    },
    AnswerCompleted {
        request_id: u64,
    },
    LiveCodingUpdated(LiveCodingStateModel),
    QueueState(QueueState),
    Error(AppErrorViewModel),
}

impl View for OutputEvent {
    type V = OutputEventModel;

    open spec fn view(&self) -> OutputEventModel {
        match *self {
            OutputEvent::ModeChanged { mode } => OutputEventModel::ModeChanged {
                mode: mode,
            },
            OutputEvent::Status(inner) => OutputEventModel::Status(inner@),
            OutputEvent::SttObservation { speaker, observation } => OutputEventModel::SttObservation {
                speaker: speaker,
                observation: observation@,
            },
            OutputEvent::TranscriptDraft { speaker, text } => OutputEventModel::TranscriptDraft {
                speaker: speaker,
                text: text@,
            },
            OutputEvent::Transcript(inner) => OutputEventModel::Transcript(inner@),
            OutputEvent::Retrieval(inner) => OutputEventModel::Retrieval(inner@),
            OutputEvent::LlmQueued { request_id } => OutputEventModel::LlmQueued {
                request_id: request_id,
            },
            OutputEvent::AnswerStarted(inner) => OutputEventModel::AnswerStarted(inner),
            OutputEvent::AnswerDelta { request_id, text } => OutputEventModel::AnswerDelta {
                request_id: request_id,
                text: text@,
            },
            OutputEvent::AnswerUsage { request_id, usage } => OutputEventModel::AnswerUsage {
                request_id: request_id,
                usage: usage,
            },
            OutputEvent::AnswerCompleted { request_id } => OutputEventModel::AnswerCompleted {
                request_id: request_id,
            },
            OutputEvent::LiveCodingUpdated(inner) => OutputEventModel::LiveCodingUpdated(inner@),
            OutputEvent::QueueState(inner) => OutputEventModel::QueueState(inner),
            OutputEvent::Error(inner) => OutputEventModel::Error(inner@),
        }
    }
}

impl Clone for OutputEvent {
    fn clone(&self) -> (r: Self)
        ensures
            r@ == self@,
    {
        match self {
            OutputEvent::ModeChanged { mode } => OutputEvent::ModeChanged {
                mode: *mode,
            },
            OutputEvent::Status(inner) => OutputEvent::Status(inner.clone()),
            OutputEvent::SttObservation { speaker, observation } => OutputEvent::SttObservation {
                speaker: *speaker,
                observation: observation.clone(),
            },
            OutputEvent::TranscriptDraft { speaker, text } => OutputEvent::TranscriptDraft {
                speaker: *speaker,
                text: text.clone(),
            },
            OutputEvent::Transcript(inner) => OutputEvent::Transcript(inner.clone()),
            OutputEvent::Retrieval(inner) => OutputEvent::Retrieval(inner.clone()),
            OutputEvent::LlmQueued { request_id } => OutputEvent::LlmQueued {
                request_id: *request_id,
            },
            OutputEvent::AnswerStarted(inner) => OutputEvent::AnswerStarted(*inner),
            OutputEvent::AnswerDelta { request_id, text } => OutputEvent::AnswerDelta {
                request_id: *request_id,
                text: text.clone(),
            },
            OutputEvent::AnswerUsage { request_id, usage } => OutputEvent::AnswerUsage {
                request_id: *request_id,
                usage: *usage,
            },
            OutputEvent::AnswerCompleted { request_id } => OutputEvent::AnswerCompleted {
                request_id: *request_id,
            },
            OutputEvent::LiveCodingUpdated(inner) => OutputEvent::LiveCodingUpdated(inner.clone()),
            OutputEvent::QueueState(inner) => OutputEvent::QueueState(*inner),
            OutputEvent::Error(inner) => OutputEvent::Error(inner.clone()),
        }
    }
}

/// The values of the events.
pub open spec fn event_models(events: Seq<OutputEvent>) -> Seq<OutputEventModel> {
    Seq::new(events.len(), |i: int| events[i]@)
}

/// What the model worker can be told between requests.
#[derive(Clone, Copy, Debug, PartialEq, Eq, Structural)]
pub enum LlmCommand {
    ClearHistory,
}

/// What the user can ask for.
#[derive(Clone, Copy, Debug, PartialEq, Eq, Structural)]
pub enum AppCommand {
    PauseListening,
    ResumeListening,
    ClearHistory,
    ToggleLiveCoding,
    Shutdown,
}

} // verus!
