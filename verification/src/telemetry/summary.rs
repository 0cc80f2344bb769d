//! The summary of a run: each request and utterance with the times between
//! its moments, and all of them together.
use vstd::multiset::Multiset;
use vstd::prelude::*;

use crate::config::assistant::{
    Config, ConfigModel, DeepgramConfigModel, EmbeddingConfigModel, KnowledgeConfigModel,
    LlmConfigModel, VisionConfigModel,
};
use crate::events::LlmUsage;
use crate::numbers::{Double, Single};
use crate::telemetry::metrics::{
    added, between, checked_sum, distribution, distributions_ignore_order, duration, metric_summary,
    rising, rising_is_sorted, total, MetricSummary,
};
use crate::telemetry::recorder::{
    word_count, RequestMetrics, RequestMetricsModel, RetrievalMetrics, RetrievalMetricsModel,
    SttLatencyMetrics, SttLatencyMetricsModel, UtteranceMetrics, UtteranceMetricsModel,
};
use crate::text::{char_len, copy_texts, decimal, decimal_text, views, words};

verus! {

/// The version of the form of records and summaries.
pub const SCHEMA_VERSION: u32 = 9;

/// A request with the times between its moments.
#[derive(Debug, PartialEq, Eq)]
pub struct RequestSummary {
    pub request_id: u64,
    pub mode: String,
    pub speaker: String,
    pub question: String,
    pub flush_reason: String,
    pub answer: String,
    pub question_chars: usize,
    pub question_words: usize,
    pub answer_chars: usize,
    pub draft_started_ms: Option<u64>,
    pub last_final_ms: Option<u64>,
    pub speech_final_ms: Option<u64>,
    pub utterance_end_ms: Option<u64>,
    pub last_word_end_audio_ms: Option<u64>,
    pub last_word_to_boundary_ms: Option<u64>,
    pub question_ready_ms: Option<u64>,
    pub llm_queued_ms: Option<u64>,
    pub llm_started_ms: Option<u64>,
    pub first_token_ms: Option<u64>,
    pub completed_ms: Option<u64>,
    pub failed_ms: Option<u64>,
    pub build_ms: Option<u64>,
    pub retrieval_pipeline_ms: Option<u64>,
    pub final_to_queue_ms: Option<u64>,
    pub speech_final_to_queue_ms: Option<u64>,
    pub utterance_end_to_queue_ms: Option<u64>,
    pub queue_wait_ms: Option<u64>,
    pub ttft_ms: Option<u64>,
    pub queued_to_first_token_ms: Option<u64>,
    pub generation_ms: Option<u64>,
    pub total_request_ms: Option<u64>,
    pub speech_boundary_to_first_token_ms: Option<u64>,
    pub last_word_to_first_token_ms: Option<u64>,
    pub usage: Option<LlmUsage>,
    pub retrieval: Option<RetrievalMetrics>,
}

/// The value of a [`RequestSummary`].
#[verifier::ext_equal]
pub struct RequestSummaryModel {
    pub request_id: u64,
    pub mode: Seq<char>,
    pub speaker: Seq<char>,
    pub question: Seq<char>,
    pub flush_reason: Seq<char>,
    pub answer: Seq<char>,
    pub question_chars: usize,
    pub question_words: usize,
    pub answer_chars: usize,
    pub draft_started_ms: Option<u64>,
    pub last_final_ms: Option<u64>,
    pub speech_final_ms: Option<u64>,
    pub utterance_end_ms: Option<u64>,
    pub last_word_end_audio_ms: Option<u64>,
    pub last_word_to_boundary_ms: Option<u64>,
    pub question_ready_ms: Option<u64>,
    pub llm_queued_ms: Option<u64>,
    pub llm_started_ms: Option<u64>,
    pub first_token_ms: Option<u64>,
    pub completed_ms: Option<u64>,
    pub failed_ms: Option<u64>,
    pub build_ms: Option<u64>,
    pub retrieval_pipeline_ms: Option<u64>,
    pub final_to_queue_ms: Option<u64>,
    pub speech_final_to_queue_ms: Option<u64>,
    pub utterance_end_to_queue_ms: Option<u64>,
    pub queue_wait_ms: Option<u64>,
    pub ttft_ms: Option<u64>,
    pub queued_to_first_token_ms: Option<u64>,
    pub generation_ms: Option<u64>,
    pub total_request_ms: Option<u64>,
    pub speech_boundary_to_first_token_ms: Option<u64>,
    pub last_word_to_first_token_ms: Option<u64>,
    pub usage: Option<LlmUsage>,
    pub retrieval: Option<RetrievalMetricsModel>,
}

impl View for RequestSummary {
    type V = RequestSummaryModel;

    open spec fn view(&self) -> RequestSummaryModel {
        RequestSummaryModel {
            request_id: self.request_id,
            mode: self.mode@,
            speaker: self.speaker@,
            question: self.question@,
            flush_reason: self.flush_reason@,
            answer: self.answer@,
            question_chars: self.question_chars,
            question_words: self.question_words,
            answer_chars: self.answer_chars,
            draft_started_ms: self.draft_started_ms,
            last_final_ms: self.last_final_ms,
            speech_final_ms: self.speech_final_ms,
            utterance_end_ms: self.utterance_end_ms,
            last_word_end_audio_ms: self.last_word_end_audio_ms,
            last_word_to_boundary_ms: self.last_word_to_boundary_ms,
            question_ready_ms: self.question_ready_ms,
            llm_queued_ms: self.llm_queued_ms,
            llm_started_ms: self.llm_started_ms,
            first_token_ms: self.first_token_ms,
            completed_ms: self.completed_ms,
            failed_ms: self.failed_ms,
            build_ms: self.build_ms,
            retrieval_pipeline_ms: self.retrieval_pipeline_ms,
            final_to_queue_ms: self.final_to_queue_ms,
            speech_final_to_queue_ms: self.speech_final_to_queue_ms,
            utterance_end_to_queue_ms: self.utterance_end_to_queue_ms,
            queue_wait_ms: self.queue_wait_ms,
            ttft_ms: self.ttft_ms,
            queued_to_first_token_ms: self.queued_to_first_token_ms,
            generation_ms: self.generation_ms,
            total_request_ms: self.total_request_ms,
            speech_boundary_to_first_token_ms: self.speech_boundary_to_first_token_ms,
            last_word_to_first_token_ms: self.last_word_to_first_token_ms,
            usage: self.usage,
            retrieval: match self.retrieval { Some(inner) => Some(inner@), None => None },
        }
    }
}

/// The moment at which speech was over, as far as it is known.
pub open spec fn boundary(m: RequestMetricsModel) -> Option<u64> {
    if m.utterance_end_ms is Some {
        m.utterance_end_ms
    } else {
        m.speech_final_ms
    }
}

/// The summary of a request. The time since the last word is the time since
/// the end of speech and the time before it.
pub open spec fn request_summary(request_id: u64, m: RequestMetricsModel) -> RequestSummaryModel {
    RequestSummaryModel {
        request_id,
        mode: m.mode,
        speaker: m.speaker,
        question: m.question,
        flush_reason: m.flush_reason,
        answer: m.answer,
        question_chars: m.question.len() as usize,
        question_words: words(m.question).len() as usize,
        answer_chars: m.answer.len() as usize,
        draft_started_ms: m.draft_started_ms,
        last_final_ms: m.last_final_ms,
        speech_final_ms: m.speech_final_ms,
        utterance_end_ms: m.utterance_end_ms,
        last_word_end_audio_ms: m.last_word_end_audio_ms,
        last_word_to_boundary_ms: m.last_word_to_boundary_ms,
        question_ready_ms: m.question_ready_ms,
        llm_queued_ms: m.llm_queued_ms,
        llm_started_ms: m.llm_started_ms,
        first_token_ms: m.first_token_ms,
        completed_ms: m.completed_ms,
        failed_ms: m.failed_ms,
        build_ms: between(m.question_ready_ms, m.draft_started_ms),
        retrieval_pipeline_ms: between(m.llm_queued_ms, m.question_ready_ms),
        final_to_queue_ms: between(m.llm_queued_ms, m.last_final_ms),
        speech_final_to_queue_ms: between(m.llm_queued_ms, m.speech_final_ms),
        utterance_end_to_queue_ms: between(m.llm_queued_ms, m.utterance_end_ms),
        queue_wait_ms: between(m.llm_started_ms, m.llm_queued_ms),
        ttft_ms: between(m.first_token_ms, m.llm_started_ms),
        queued_to_first_token_ms: between(m.first_token_ms, m.llm_queued_ms),
        generation_ms: between(m.completed_ms, m.first_token_ms),
        total_request_ms: between(m.completed_ms, m.llm_started_ms),
        speech_boundary_to_first_token_ms: between(m.first_token_ms, boundary(m)),
        last_word_to_first_token_ms: added(
            between(m.first_token_ms, boundary(m)),
            m.last_word_to_boundary_ms,
        ),
        usage: m.usage,
        retrieval: m.retrieval,
    }
}

impl RequestSummary {
    /// The summary of a request.
    pub fn from_metrics(request_id: u64, metrics: RequestMetrics) -> (r: Self)
        ensures
            r@ == request_summary(request_id, metrics@),
    {
        let speech_boundary_ms = if metrics.utterance_end_ms.is_some() {
            metrics.utterance_end_ms
        } else {
            metrics.speech_final_ms
        };
        let speech_boundary_to_first_token_ms = duration(
            metrics.first_token_ms,
            speech_boundary_ms,
        );
        let last_word_to_first_token_ms = checked_sum(
            speech_boundary_to_first_token_ms,
            metrics.last_word_to_boundary_ms,
        );
        RequestSummary {
            request_id,
            question_chars: char_len(metrics.question.as_str()),
            question_words: word_count(metrics.question.as_str()),
            answer_chars: char_len(metrics.answer.as_str()),
            build_ms: duration(metrics.question_ready_ms, metrics.draft_started_ms),
            retrieval_pipeline_ms: duration(metrics.llm_queued_ms, metrics.question_ready_ms),
            final_to_queue_ms: duration(metrics.llm_queued_ms, metrics.last_final_ms),
            speech_final_to_queue_ms: duration(metrics.llm_queued_ms, metrics.speech_final_ms),
            utterance_end_to_queue_ms: duration(metrics.llm_queued_ms, metrics.utterance_end_ms),
            queue_wait_ms: duration(metrics.llm_started_ms, metrics.llm_queued_ms),
            ttft_ms: duration(metrics.first_token_ms, metrics.llm_started_ms),
            queued_to_first_token_ms: duration(metrics.first_token_ms, metrics.llm_queued_ms),
            generation_ms: duration(metrics.completed_ms, metrics.first_token_ms),
            total_request_ms: duration(metrics.completed_ms, metrics.llm_started_ms),
            speech_boundary_to_first_token_ms,
            last_word_to_first_token_ms,
            mode: metrics.mode,
            speaker: metrics.speaker,
            question: metrics.question,
            flush_reason: metrics.flush_reason,
            answer: metrics.answer,
            draft_started_ms: metrics.draft_started_ms,
            last_final_ms: metrics.last_final_ms,
            speech_final_ms: metrics.speech_final_ms,
            utterance_end_ms: metrics.utterance_end_ms,
            last_word_end_audio_ms: metrics.last_word_end_audio_ms,
            last_word_to_boundary_ms: metrics.last_word_to_boundary_ms,
            question_ready_ms: metrics.question_ready_ms,
            llm_queued_ms: metrics.llm_queued_ms,
            llm_started_ms: metrics.llm_started_ms,
            first_token_ms: metrics.first_token_ms,
            completed_ms: metrics.completed_ms,
            failed_ms: metrics.failed_ms,
            usage: metrics.usage,
            retrieval: metrics.retrieval,
        }
    }
}

/// The time since the last word is never shorter than the time since the end
/// of speech.
pub proof fn last_word_comes_before_the_boundary(request_id: u64, m: RequestMetricsModel)
    ensures
        ({
            let s = request_summary(request_id, m);
            s.last_word_to_first_token_ms is Some ==> s.speech_boundary_to_first_token_ms is Some
                && s.last_word_to_first_token_ms->0 >= s.speech_boundary_to_first_token_ms->0
        }),
{
}

/// The whole time of a request is the time to its first part and the time of
/// its generation.
pub proof fn a_request_is_waiting_and_generation(request_id: u64, m: RequestMetricsModel)
    ensures
        ({
            let s = request_summary(request_id, m);
            s.ttft_ms is Some && s.generation_ms is Some ==> s.total_request_ms is Some
                && s.total_request_ms->0 == s.ttft_ms->0 + s.generation_ms->0
        }),
{
}

/// An utterance with the times between its moments.
#[derive(Debug, PartialEq, Eq)]
pub struct UtteranceSummary {
    pub sequence: u64,
    pub final_text: String,
    pub speech_started_ms: Option<u64>,
    pub first_transcript_ms: Option<u64>,
    pub first_interim_ms: Option<u64>,
    pub first_final_ms: Option<u64>,
    pub speech_final_ms: Option<u64>,
    pub utterance_end_ms: Option<u64>,
    pub speech_to_first_interim_ms: Option<u64>,
    pub speech_to_first_final_ms: Option<u64>,
    pub utterance_duration_ms: Option<u64>,
}

/// The value of a [`UtteranceSummary`].
#[verifier::ext_equal]
pub struct UtteranceSummaryModel {
    pub sequence: u64,
    pub final_text: Seq<char>,
    pub speech_started_ms: Option<u64>,
    pub first_transcript_ms: Option<u64>,
    pub first_interim_ms: Option<u64>,
    pub first_final_ms: Option<u64>,
    pub speech_final_ms: Option<u64>,
    pub utterance_end_ms: Option<u64>,
    pub speech_to_first_interim_ms: Option<u64>,
    pub speech_to_first_final_ms: Option<u64>,
    pub utterance_duration_ms: Option<u64>,
}

impl View for UtteranceSummary {
    type V = UtteranceSummaryModel;

    open spec fn view(&self) -> UtteranceSummaryModel {
        UtteranceSummaryModel {
            sequence: self.sequence,
            final_text: self.final_text@,
            speech_started_ms: self.speech_started_ms,
            first_transcript_ms: self.first_transcript_ms,
            first_interim_ms: self.first_interim_ms,
            first_final_ms: self.first_final_ms,
            speech_final_ms: self.speech_final_ms,
            utterance_end_ms: self.utterance_end_ms,
            speech_to_first_interim_ms: self.speech_to_first_interim_ms,
            speech_to_first_final_ms: self.speech_to_first_final_ms,
            utterance_duration_ms: self.utterance_duration_ms,
        }
    }
}

/// The summary of an utterance.
pub open spec fn utterance_summary(m: UtteranceMetricsModel) -> UtteranceSummaryModel {
    UtteranceSummaryModel {
        sequence: m.sequence,
        final_text: m.final_text,
        speech_started_ms: m.speech_started_ms,
        first_transcript_ms: m.first_transcript_ms,
        first_interim_ms: m.first_interim_ms,
        first_final_ms: m.first_final_ms,
        speech_final_ms: m.speech_final_ms,
        utterance_end_ms: m.utterance_end_ms,
        speech_to_first_interim_ms: between(m.first_interim_ms, m.speech_started_ms),
        speech_to_first_final_ms: between(m.first_final_ms, m.speech_started_ms),
        utterance_duration_ms: between(
            if m.utterance_end_ms is Some {
                m.utterance_end_ms
            } else {
                m.speech_final_ms
            },
            m.speech_started_ms,
        ),
    }
}

impl UtteranceSummary {
    /// The summary of an utterance.
    pub fn from_metrics(metrics: UtteranceMetrics) -> (r: Self)
        ensures
            r@ == utterance_summary(metrics@),
    {
        let end = if metrics.utterance_end_ms.is_some() {
            metrics.utterance_end_ms
        } else {
            metrics.speech_final_ms
        };
        UtteranceSummary {
            sequence: metrics.sequence,
            speech_to_first_interim_ms: duration(
                metrics.first_interim_ms,
                metrics.speech_started_ms,
            ),
            speech_to_first_final_ms: duration(metrics.first_final_ms, metrics.speech_started_ms),
            utterance_duration_ms: duration(end, metrics.speech_started_ms),
            final_text: metrics.final_text,
            speech_started_ms: metrics.speech_started_ms,
            first_transcript_ms: metrics.first_transcript_ms,
            first_interim_ms: metrics.first_interim_ms,
            first_final_ms: metrics.first_final_ms,
            speech_final_ms: metrics.speech_final_ms,
            utterance_end_ms: metrics.utterance_end_ms,
        }
    }
}

/// How late the recogniser reported.
#[derive(Clone, Copy, Debug, PartialEq, Eq, Structural)]
pub struct SttLatencySummary {
    pub interim_delivery_lag_ms: MetricSummary,
    pub final_delivery_lag_ms: MetricSummary,
    pub speech_started_delivery_lag_ms: MetricSummary,
    pub utterance_end_delivery_lag_ms: MetricSummary,
}

/// What the lateness is an approximation by.
pub const LAG_APPROXIMATION: &'static str =
    "receive_elapsed - audio_stream_start_elapsed - Deepgram_audio_position";

/// How late the recogniser reported.
pub open spec fn latency_summary(m: SttLatencyMetricsModel) -> SttLatencySummary {
    SttLatencySummary {
        interim_delivery_lag_ms: distribution(m.interim_delivery_lag_ms),
        final_delivery_lag_ms: distribution(m.final_delivery_lag_ms),
        speech_started_delivery_lag_ms: distribution(m.speech_started_delivery_lag_ms),
        utterance_end_delivery_lag_ms: distribution(m.utterance_end_delivery_lag_ms),
    }
}

impl SttLatencySummary {
    /// How late the recogniser reported.
    pub fn from_metrics(metrics: &SttLatencyMetrics) -> (r: Self)
        ensures
            r == latency_summary(metrics@),
    {
        SttLatencySummary {
            interim_delivery_lag_ms: metric_summary(&metrics.interim_delivery_lag_ms),
            final_delivery_lag_ms: metric_summary(&metrics.final_delivery_lag_ms),
            speech_started_delivery_lag_ms: metric_summary(
                &metrics.speech_started_delivery_lag_ms,
            ),
            utterance_end_delivery_lag_ms: metric_summary(&metrics.utterance_end_delivery_lag_ms),
        }
    }
}

// ---------------------------------------------------------------------------
// All requests together
// ---------------------------------------------------------------------------

/// A time that is measured for requests.
#[derive(Clone, Copy, Debug, PartialEq, Eq, Structural)]
pub enum Timing {
    Build,
    RetrievalPipeline,
    QueueWait,
    FirstToken,
    QueuedToFirstToken,
    BoundaryToFirstToken,
    LastWordToFirstToken,
    Generation,
    Total,
    /// The time for vectors in look-ups.
    Embedding,
    /// The time for searching in look-ups.
    Search,
    /// The time that was waited for look-ups.
    FinalWait,
}

/// A time of a request, if it is known.
pub open spec fn time_of(r: RequestSummaryModel, timing: Timing) -> Option<u64> {
    match timing {
        Timing::Build => r.build_ms,
        Timing::RetrievalPipeline => r.retrieval_pipeline_ms,
        Timing::QueueWait => r.queue_wait_ms,
        Timing::FirstToken => r.ttft_ms,
        Timing::QueuedToFirstToken => r.queued_to_first_token_ms,
        Timing::BoundaryToFirstToken => r.speech_boundary_to_first_token_ms,
        Timing::LastWordToFirstToken => r.last_word_to_first_token_ms,
        Timing::Generation => r.generation_ms,
        Timing::Total => r.total_request_ms,
        Timing::Embedding => match r.retrieval {
            Some(retrieval) => Some(retrieval.embedding_ms),
            None => None,
        },
        Timing::Search => match r.retrieval {
            Some(retrieval) => Some(retrieval.search_ms),
            None => None,
        },
        Timing::FinalWait => match r.retrieval {
            Some(retrieval) => Some(retrieval.final_wait_ms),
            None => None,
        },
    }
}

impl RequestSummary {
    fn time(&self, timing: Timing) -> (r: Option<u64>)
        ensures
            r == time_of(self@, timing),
    {
        match timing {
            Timing::Build => self.build_ms,
            Timing::RetrievalPipeline => self.retrieval_pipeline_ms,
            Timing::QueueWait => self.queue_wait_ms,
            Timing::FirstToken => self.ttft_ms,
            Timing::QueuedToFirstToken => self.queued_to_first_token_ms,
            Timing::BoundaryToFirstToken => self.speech_boundary_to_first_token_ms,
            Timing::LastWordToFirstToken => self.last_word_to_first_token_ms,
            Timing::Generation => self.generation_ms,
            Timing::Total => self.total_request_ms,
            Timing::Embedding => match &self.retrieval {
                Some(retrieval) => Some(retrieval.embedding_ms),
                None => None,
            },
            Timing::Search => match &self.retrieval {
                Some(retrieval) => Some(retrieval.search_ms),
                None => None,
            },
            Timing::FinalWait => match &self.retrieval {
                Some(retrieval) => Some(retrieval.final_wait_ms),
                None => None,
            },
        }
    }
}

/// An amount that is added up over requests.
#[derive(Clone, Copy, Debug, PartialEq, Eq, Structural)]
pub enum Amount {
    PromptTokens,
    CompletionTokens,
    TotalTokens,
    Searches,
    EmbeddingCalls,
    EmbeddingPromptTokens,
    EmbeddingTotalTokens,
    Snippets,
    ContextChars,
    /// One for each request that was completed.
    Completed,
    /// One for each request that failed.
    Failed,
    /// One for each request with a look-up.
    Lookups,
}

/// An amount of a request.
pub open spec fn amount_of(r: RequestSummaryModel, amount: Amount) -> u64 {
    match amount {
        Amount::PromptTokens => match r.usage {
            Some(part) => part.prompt_tokens,
            None => 0,
        },
        Amount::CompletionTokens => match r.usage {
            Some(part) => part.completion_tokens,
            None => 0,
        },
        Amount::TotalTokens => match r.usage {
            Some(part) => part.total_tokens,
            None => 0,
        },
        Amount::Searches => match r.retrieval {
            Some(part) => part.searches,
            None => 0,
        },
        Amount::EmbeddingCalls => match r.retrieval {
            Some(part) => part.embedding_calls,
            None => 0,
        },
        Amount::EmbeddingPromptTokens => match r.retrieval {
            Some(part) => part.embedding_prompt_tokens,
            None => 0,
        },
        Amount::EmbeddingTotalTokens => match r.retrieval {
            Some(part) => part.embedding_total_tokens,
            None => 0,
        },
        Amount::Snippets => match r.retrieval {
            Some(part) => part.snippets as u64,
            None => 0,
        },
        Amount::ContextChars => match r.retrieval {
            Some(part) => part.context_chars,
            None => 0,
        },
        Amount::Completed => if r.completed_ms is Some {
            1
        } else {
            0
        },
        Amount::Failed => if r.failed_ms is Some {
            1
        } else {
            0
        },
        Amount::Lookups => if r.retrieval is Some {
            1
        } else {
            0
        },
    }
}

impl RequestSummary {
    fn amount(&self, amount: Amount) -> (r: u64)
        ensures
            r == amount_of(self@, amount),
    {
        match amount {
            Amount::PromptTokens => match &self.usage {
                Some(part) => part.prompt_tokens,
                None => 0,
            },
            Amount::CompletionTokens => match &self.usage {
                Some(part) => part.completion_tokens,
                None => 0,
            },
            Amount::TotalTokens => match &self.usage {
                Some(part) => part.total_tokens,
                None => 0,
            },
            Amount::Searches => match &self.retrieval {
                Some(part) => part.searches,
                None => 0,
            },
            Amount::EmbeddingCalls => match &self.retrieval {
                Some(part) => part.embedding_calls,
                None => 0,
            },
            Amount::EmbeddingPromptTokens => match &self.retrieval {
                Some(part) => part.embedding_prompt_tokens,
                None => 0,
            },
            Amount::EmbeddingTotalTokens => match &self.retrieval {
                Some(part) => part.embedding_total_tokens,
                None => 0,
            },
            Amount::Snippets => match &self.retrieval {
                Some(part) => part.snippets as u64,
                None => 0,
            },
            Amount::ContextChars => match &self.retrieval {
                Some(part) => part.context_chars,
                None => 0,
            },
            Amount::Completed => if self.completed_ms.is_some() {
                1
            } else {
                0
            },
            Amount::Failed => if self.failed_ms.is_some() {
                1
            } else {
                0
            },
            Amount::Lookups => if self.retrieval.is_some() {
                1
            } else {
                0
            },
        }
    }
}

/// The values of the requests.
pub open spec fn summary_models(requests: Seq<RequestSummary>) -> Seq<RequestSummaryModel> {
    Seq::new(requests.len(), |i: int| requests[i]@)
}

/// A time of all requests for which it is known.
pub open spec fn known_times(requests: Seq<RequestSummaryModel>, timing: Timing) -> Seq<u64>
    decreases requests.len(),
{
    if requests.len() == 0 {
        Seq::empty()
    } else {
        match time_of(requests.last(), timing) {
            Some(time) => known_times(requests.drop_last(), timing).push(time),
            None => known_times(requests.drop_last(), timing),
        }
    }
}

/// An amount of all requests together.
pub open spec fn amount_sum(requests: Seq<RequestSummaryModel>, amount: Amount) -> nat
    decreases requests.len(),
{
    if requests.len() == 0 {
        0
    } else {
        amount_sum(requests.drop_last(), amount) + amount_of(requests.last(), amount) as nat
    }
}

/// What the requests cost, for those of which it is known.
pub open spec fn known_costs(requests: Seq<RequestSummaryModel>) -> Seq<Double>
    decreases requests.len(),
{
    if requests.len() == 0 {
        Seq::empty()
    } else {
        match requests.last().usage {
            Some(usage) => match usage.cost {
                Some(cost) => known_costs(requests.drop_last()).push(cost),
                None => known_costs(requests.drop_last()),
            },
            None => known_costs(requests.drop_last()),
        }
    }
}

fn times(requests: &Vec<RequestSummary>, timing: Timing) -> (r: Vec<u64>)
    ensures
        r@ == known_times(summary_models(requests@), timing),
{
    let ghost all = summary_models(requests@);
    let mut out: Vec<u64> = Vec::new();
    let mut i: usize = 0;
    assert(all.take(0) =~= Seq::empty());
    while i < requests.len()
        invariant
            all == summary_models(requests@),
            i <= requests@.len(),
            out@ == known_times(all.take(i as int), timing),
        decreases requests@.len() - i,
    {
        assert(all.take(i + 1).drop_last() =~= all.take(i as int));
        assert(all.take(i + 1).last() == requests@[i as int]@);
        if let Some(time) = requests[i].time(timing) {
            out.push(time);
        }
        i += 1;
    }
    assert(all.take(i as int) =~= all);
    out
}

fn total_amount(requests: &Vec<RequestSummary>, amount: Amount) -> (r: u128)
    ensures
        r == amount_sum(summary_models(requests@), amount),
{
    let ghost all = summary_models(requests@);
    let mut sum: u128 = 0;
    let mut i: usize = 0;
    assert(all.take(0) =~= Seq::empty());
    while i < requests.len()
        invariant
            all == summary_models(requests@),
            i <= requests@.len(),
            sum == amount_sum(all.take(i as int), amount),
            sum <= i * u64::MAX,
        decreases requests@.len() - i,
    {
        assert(all.take(i + 1).drop_last() =~= all.take(i as int));
        assert(all.take(i + 1).last() == requests@[i as int]@);
        assert((i + 1) * u64::MAX == i * u64::MAX + u64::MAX) by (nonlinear_arith);
        assert((i + 1) * u64::MAX <= u128::MAX) by (nonlinear_arith)
            requires
                0 <= i < u64::MAX,
        ;
        sum = sum + requests[i].amount(amount) as u128;
        i += 1;
    }
    assert(all.take(i as int) =~= all);
    sum
}

fn costs(requests: &Vec<RequestSummary>) -> (r: Vec<Double>)
    ensures
        r@ == known_costs(summary_models(requests@)),
{
    let ghost all = summary_models(requests@);
    let mut out: Vec<Double> = Vec::new();
    let mut i: usize = 0;
    assert(all.take(0) =~= Seq::empty());
    while i < requests.len()
        invariant
            all == summary_models(requests@),
            i <= requests@.len(),
            out@ == known_costs(all.take(i as int)),
        decreases requests@.len() - i,
    {
        assert(all.take(i + 1).drop_last() =~= all.take(i as int));
        assert(all.take(i + 1).last() == requests@[i as int]@);
        if let Some(usage) = requests[i].usage {
            if let Some(cost) = usage.cost {
                out.push(cost);
            }
        }
        i += 1;
    }
    assert(all.take(i as int) =~= all);
    out
}

/// All requests together. What they cost is the sum of the costs.
#[derive(Debug, PartialEq, Eq)]
pub struct AggregateSummary {
    pub request_count: usize,
    pub completed_count: u128,
    pub failed_count: u128,
    pub prompt_tokens: u128,
    pub completion_tokens: u128,
    pub total_tokens: u128,
    pub costs: Vec<Double>,
    pub rag_request_count: u128,
    pub rag_searches: u128,
    pub rag_embedding_calls: u128,
    pub rag_embedding_prompt_tokens: u128,
    pub rag_embedding_total_tokens: u128,
    pub rag_snippets: u128,
    pub rag_context_chars: u128,
    pub build_ms: MetricSummary,
    pub retrieval_pipeline_ms: MetricSummary,
    pub rag_embedding_ms: MetricSummary,
    pub rag_search_ms: MetricSummary,
    pub rag_final_wait_ms: MetricSummary,
    pub queue_wait_ms: MetricSummary,
    pub ttft_ms: MetricSummary,
    pub queued_to_first_token_ms: MetricSummary,
    pub speech_boundary_to_first_token_ms: MetricSummary,
    pub last_word_to_first_token_ms: MetricSummary,
    pub generation_ms: MetricSummary,
    pub total_request_ms: MetricSummary,
}

/// The value of a [`AggregateSummary`].
#[verifier::ext_equal]
pub struct AggregateSummaryModel {
    pub request_count: usize,
    pub completed_count: u128,
    pub failed_count: u128,
    pub prompt_tokens: u128,
    pub completion_tokens: u128,
    pub total_tokens: u128,
    pub costs: Seq<Double>,
    pub rag_request_count: u128,
    pub rag_searches: u128,
    pub rag_embedding_calls: u128,
    pub rag_embedding_prompt_tokens: u128,
    pub rag_embedding_total_tokens: u128,
    pub rag_snippets: u128,
    pub rag_context_chars: u128,
    pub build_ms: MetricSummary,
    pub retrieval_pipeline_ms: MetricSummary,
    pub rag_embedding_ms: MetricSummary,
    pub rag_search_ms: MetricSummary,
    pub rag_final_wait_ms: MetricSummary,
    pub queue_wait_ms: MetricSummary,
    pub ttft_ms: MetricSummary,
    pub queued_to_first_token_ms: MetricSummary,
    pub speech_boundary_to_first_token_ms: MetricSummary,
    pub last_word_to_first_token_ms: MetricSummary,
    pub generation_ms: MetricSummary,
    pub total_request_ms: MetricSummary,
}

impl View for AggregateSummary {
    type V = AggregateSummaryModel;

    open spec fn view(&self) -> AggregateSummaryModel {
        AggregateSummaryModel {
            request_count: self.request_count,
            completed_count: self.completed_count,
            failed_count: self.failed_count,
            prompt_tokens: self.prompt_tokens,
            completion_tokens: self.completion_tokens,
            total_tokens: self.total_tokens,
            costs: self.costs@,
            rag_request_count: self.rag_request_count,
            rag_searches: self.rag_searches,
            rag_embedding_calls: self.rag_embedding_calls,
            rag_embedding_prompt_tokens: self.rag_embedding_prompt_tokens,
            rag_embedding_total_tokens: self.rag_embedding_total_tokens,
            rag_snippets: self.rag_snippets,
            rag_context_chars: self.rag_context_chars,
            build_ms: self.build_ms,
            retrieval_pipeline_ms: self.retrieval_pipeline_ms,
            rag_embedding_ms: self.rag_embedding_ms,
            rag_search_ms: self.rag_search_ms,
            rag_final_wait_ms: self.rag_final_wait_ms,
            queue_wait_ms: self.queue_wait_ms,
            ttft_ms: self.ttft_ms,
            queued_to_first_token_ms: self.queued_to_first_token_ms,
            speech_boundary_to_first_token_ms: self.speech_boundary_to_first_token_ms,
            last_word_to_first_token_ms: self.last_word_to_first_token_ms,
            generation_ms: self.generation_ms,
            total_request_ms: self.total_request_ms,
        }
    }
}

/// All requests together.
pub open spec fn aggregate(requests: Seq<RequestSummaryModel>) -> AggregateSummaryModel {
    AggregateSummaryModel {
        request_count: requests.len() as usize,
        completed_count: amount_sum(requests, Amount::Completed) as u128,
        failed_count: amount_sum(requests, Amount::Failed) as u128,
        prompt_tokens: amount_sum(requests, Amount::PromptTokens) as u128,
        completion_tokens: amount_sum(requests, Amount::CompletionTokens) as u128,
        total_tokens: amount_sum(requests, Amount::TotalTokens) as u128,
        costs: known_costs(requests),
        rag_request_count: amount_sum(requests, Amount::Lookups) as u128,
        rag_searches: amount_sum(requests, Amount::Searches) as u128,
        rag_embedding_calls: amount_sum(requests, Amount::EmbeddingCalls) as u128,
        rag_embedding_prompt_tokens: amount_sum(requests, Amount::EmbeddingPromptTokens) as u128,
        rag_embedding_total_tokens: amount_sum(requests, Amount::EmbeddingTotalTokens) as u128,
        rag_snippets: amount_sum(requests, Amount::Snippets) as u128,
        rag_context_chars: amount_sum(requests, Amount::ContextChars) as u128,
        build_ms: distribution(known_times(requests, Timing::Build)),
        retrieval_pipeline_ms: distribution(known_times(requests, Timing::RetrievalPipeline)),
        rag_embedding_ms: distribution(known_times(requests, Timing::Embedding)),
        rag_search_ms: distribution(known_times(requests, Timing::Search)),
        rag_final_wait_ms: distribution(known_times(requests, Timing::FinalWait)),
        queue_wait_ms: distribution(known_times(requests, Timing::QueueWait)),
        ttft_ms: distribution(known_times(requests, Timing::FirstToken)),
        queued_to_first_token_ms: distribution(known_times(requests, Timing::QueuedToFirstToken)),
        speech_boundary_to_first_token_ms: distribution(known_times(requests, Timing::BoundaryToFirstToken)),
        last_word_to_first_token_ms: distribution(known_times(requests, Timing::LastWordToFirstToken)),
        generation_ms: distribution(known_times(requests, Timing::Generation)),
        total_request_ms: distribution(known_times(requests, Timing::Total)),
    }
}

impl AggregateSummary {
    /// All requests together.
    pub fn new(requests: &Vec<RequestSummary>) -> (r: Self)
        ensures
            r@ == aggregate(summary_models(requests@)),
    {
        AggregateSummary {
            request_count: requests.len(),
            completed_count: total_amount(requests, Amount::Completed),
            failed_count: total_amount(requests, Amount::Failed),
            prompt_tokens: total_amount(requests, Amount::PromptTokens),
            completion_tokens: total_amount(requests, Amount::CompletionTokens),
            total_tokens: total_amount(requests, Amount::TotalTokens),
            costs: costs(requests),
            rag_request_count: total_amount(requests, Amount::Lookups),
            rag_searches: total_amount(requests, Amount::Searches),
            rag_embedding_calls: total_amount(requests, Amount::EmbeddingCalls),
            rag_embedding_prompt_tokens: total_amount(requests, Amount::EmbeddingPromptTokens),
            rag_embedding_total_tokens: total_amount(requests, Amount::EmbeddingTotalTokens),
            rag_snippets: total_amount(requests, Amount::Snippets),
            rag_context_chars: total_amount(requests, Amount::ContextChars),
            build_ms: metric_summary(&times(requests, Timing::Build)),
            retrieval_pipeline_ms: metric_summary(&times(requests, Timing::RetrievalPipeline)),
            rag_embedding_ms: metric_summary(&times(requests, Timing::Embedding)),
            rag_search_ms: metric_summary(&times(requests, Timing::Search)),
            rag_final_wait_ms: metric_summary(&times(requests, Timing::FinalWait)),
            queue_wait_ms: metric_summary(&times(requests, Timing::QueueWait)),
            ttft_ms: metric_summary(&times(requests, Timing::FirstToken)),
            queued_to_first_token_ms: metric_summary(&times(requests, Timing::QueuedToFirstToken)),
            speech_boundary_to_first_token_ms: metric_summary(&times(requests, Timing::BoundaryToFirstToken)),
            last_word_to_first_token_ms: metric_summary(&times(requests, Timing::LastWordToFirstToken)),
            generation_ms: metric_summary(&times(requests, Timing::Generation)),
            total_request_ms: metric_summary(&times(requests, Timing::Total)),
        }
    }
}

/// No more requests are completed, fail or have look-ups than there are.
pub proof fn counts_stay_within_the_requests(requests: Seq<RequestSummaryModel>)
    ensures
        amount_sum(requests, Amount::Completed) <= requests.len(),
        amount_sum(requests, Amount::Failed) <= requests.len(),
        amount_sum(requests, Amount::Lookups) <= requests.len(),
    decreases requests.len(),
{
    if requests.len() > 0 {
        counts_stay_within_the_requests(requests.drop_last());
    }
}

/// Whether the counts and sums of `all` are those of `a` and `b` added up, and
/// its costs are those of `a` and `b` in a row.
pub open spec fn adds_up(
    all: AggregateSummaryModel,
    a: AggregateSummaryModel,
    b: AggregateSummaryModel,
) -> bool {
    &&& all.request_count == a.request_count + b.request_count
    &&& all.completed_count == a.completed_count + b.completed_count
    &&& all.failed_count == a.failed_count + b.failed_count
    &&& all.prompt_tokens == a.prompt_tokens + b.prompt_tokens
    &&& all.completion_tokens == a.completion_tokens + b.completion_tokens
    &&& all.total_tokens == a.total_tokens + b.total_tokens
    &&& all.rag_request_count == a.rag_request_count + b.rag_request_count
    &&& all.rag_searches == a.rag_searches + b.rag_searches
    &&& all.rag_embedding_calls == a.rag_embedding_calls + b.rag_embedding_calls
    &&& all.rag_embedding_prompt_tokens == a.rag_embedding_prompt_tokens + b.rag_embedding_prompt_tokens
    &&& all.rag_embedding_total_tokens == a.rag_embedding_total_tokens + b.rag_embedding_total_tokens
    &&& all.rag_snippets == a.rag_snippets + b.rag_snippets
    &&& all.rag_context_chars == a.rag_context_chars + b.rag_context_chars
    &&& all.build_ms.count == a.build_ms.count + b.build_ms.count
    &&& all.retrieval_pipeline_ms.count == a.retrieval_pipeline_ms.count + b.retrieval_pipeline_ms.count
    &&& all.rag_embedding_ms.count == a.rag_embedding_ms.count + b.rag_embedding_ms.count
    &&& all.rag_search_ms.count == a.rag_search_ms.count + b.rag_search_ms.count
    &&& all.rag_final_wait_ms.count == a.rag_final_wait_ms.count + b.rag_final_wait_ms.count
    &&& all.queue_wait_ms.count == a.queue_wait_ms.count + b.queue_wait_ms.count
    &&& all.ttft_ms.count == a.ttft_ms.count + b.ttft_ms.count
    &&& all.queued_to_first_token_ms.count == a.queued_to_first_token_ms.count + b.queued_to_first_token_ms.count
    &&& all.speech_boundary_to_first_token_ms.count == a.speech_boundary_to_first_token_ms.count + b.speech_boundary_to_first_token_ms.count
    &&& all.last_word_to_first_token_ms.count == a.last_word_to_first_token_ms.count + b.last_word_to_first_token_ms.count
    &&& all.generation_ms.count == a.generation_ms.count + b.generation_ms.count
    &&& all.total_request_ms.count == a.total_request_ms.count + b.total_request_ms.count
    &&& all.costs == a.costs + b.costs
}

/// Whether nothing is counted.
pub open spec fn counts_nothing(a: AggregateSummaryModel) -> bool {
    &&& a.request_count == 0
    &&& a.completed_count == 0
    &&& a.failed_count == 0
    &&& a.prompt_tokens == 0
    &&& a.completion_tokens == 0
    &&& a.total_tokens == 0
    &&& a.rag_request_count == 0
    &&& a.rag_searches == 0
    &&& a.rag_embedding_calls == 0
    &&& a.rag_embedding_prompt_tokens == 0
    &&& a.rag_embedding_total_tokens == 0
    &&& a.rag_snippets == 0
    &&& a.rag_context_chars == 0
    &&& a.build_ms.count == 0
    &&& a.retrieval_pipeline_ms.count == 0
    &&& a.rag_embedding_ms.count == 0
    &&& a.rag_search_ms.count == 0
    &&& a.rag_final_wait_ms.count == 0
    &&& a.queue_wait_ms.count == 0
    &&& a.ttft_ms.count == 0
    &&& a.queued_to_first_token_ms.count == 0
    &&& a.speech_boundary_to_first_token_ms.count == 0
    &&& a.last_word_to_first_token_ms.count == 0
    &&& a.generation_ms.count == 0
    &&& a.total_request_ms.count == 0
    &&& a.costs.len() == 0
}

proof fn joined_amounts(xs: Seq<RequestSummaryModel>, ys: Seq<RequestSummaryModel>, amount: Amount)
    ensures
        amount_sum(xs + ys, amount) == amount_sum(xs, amount) + amount_sum(ys, amount),
    decreases ys.len(),
{
    if ys.len() == 0 {
        assert(xs + ys =~= xs);
    } else {
        assert((xs + ys).drop_last() =~= xs + ys.drop_last());
        joined_amounts(xs, ys.drop_last(), amount);
    }
}

proof fn joined_times(xs: Seq<RequestSummaryModel>, ys: Seq<RequestSummaryModel>, timing: Timing)
    ensures
        known_times(xs + ys, timing) == known_times(xs, timing) + known_times(ys, timing),
        known_times(xs + ys, timing).len() <= (xs + ys).len(),
    decreases ys.len(),
{
    if ys.len() == 0 {
        assert(xs + ys =~= xs);
        assert(known_times(xs, timing) + known_times(ys, timing) =~= known_times(xs, timing));
        few_times(xs, timing);
    } else {
        let shorter = ys.drop_last();
        assert((xs + ys).drop_last() =~= xs + shorter);
        joined_times(xs, shorter, timing);
        assert(known_times(xs + ys, timing) =~= known_times(xs, timing) + known_times(ys, timing));
    }
}

proof fn few_times(requests: Seq<RequestSummaryModel>, timing: Timing)
    ensures
        known_times(requests, timing).len() <= requests.len(),
    decreases requests.len(),
{
    if requests.len() > 0 {
        few_times(requests.drop_last(), timing);
    }
}

proof fn joined_costs(xs: Seq<RequestSummaryModel>, ys: Seq<RequestSummaryModel>)
    ensures
        known_costs(xs + ys) == known_costs(xs) + known_costs(ys),
    decreases ys.len(),
{
    if ys.len() == 0 {
        assert(xs + ys =~= xs);
        assert(known_costs(xs) + known_costs(ys) =~= known_costs(xs));
    } else {
        assert((xs + ys).drop_last() =~= xs + ys.drop_last());
        joined_costs(xs, ys.drop_last());
        assert(known_costs(xs + ys) =~= known_costs(xs) + known_costs(ys));
    }
}

proof fn amounts_fit(requests: Seq<RequestSummaryModel>, amount: Amount)
    requires
        requests.len() <= usize::MAX,
    ensures
        amount_sum(requests, amount) <= u128::MAX,
{
    amounts_are_bounded(requests, amount);
    assert(requests.len() * u64::MAX <= u128::MAX) by (nonlinear_arith)
        requires
            requests.len() <= u64::MAX,
    ;
}

proof fn amounts_are_bounded(requests: Seq<RequestSummaryModel>, amount: Amount)
    ensures
        amount_sum(requests, amount) <= requests.len() * u64::MAX,
    decreases requests.len(),
{
    if requests.len() > 0 {
        amounts_are_bounded(requests.drop_last(), amount);
        assert(requests.len() * u64::MAX == (requests.len() - 1) * u64::MAX + u64::MAX)
            by (nonlinear_arith);
    }
}

/// The summary of requests is that of some of them and that of the others:
/// counts and sums add up, and without requests nothing is counted.
pub proof fn summaries_add_up(xs: Seq<RequestSummaryModel>, ys: Seq<RequestSummaryModel>)
    requires
        xs.len() + ys.len() <= usize::MAX,
    ensures
        adds_up(aggregate(xs + ys), aggregate(xs), aggregate(ys)),
        counts_nothing(aggregate(Seq::empty())),
{
    assert forall|amount: Amount|
        #![trigger amount_sum(xs + ys, amount)]
        #![trigger amount_sum(xs, amount)]
        #![trigger amount_sum(ys, amount)]
        amount_sum(xs + ys, amount) == amount_sum(xs, amount) + amount_sum(ys, amount)
            && amount_sum(xs + ys, amount) <= u128::MAX by {
        joined_amounts(xs, ys, amount);
        amounts_fit(xs + ys, amount);
    }
    assert forall|timing: Timing|
        #![trigger known_times(xs + ys, timing)]
        #![trigger known_times(xs, timing)]
        #![trigger known_times(ys, timing)]
        known_times(xs + ys, timing) == known_times(xs, timing) + known_times(ys, timing)
            && known_times(xs + ys, timing).len() <= usize::MAX by {
        joined_times(xs, ys, timing);
    }
    joined_costs(xs, ys);
}

proof fn amounts_without_one(requests: Seq<RequestSummaryModel>, at: int, amount: Amount)
    requires
        0 <= at < requests.len(),
    ensures
        amount_sum(requests, amount) == amount_sum(requests.remove(at), amount) + amount_of(
            requests[at],
            amount,
        ),
    decreases requests.len(),
{
    if at == requests.len() - 1 {
        assert(requests.remove(at) =~= requests.drop_last());
    } else {
        amounts_without_one(requests.drop_last(), at, amount);
        assert(requests.remove(at).drop_last() =~= requests.drop_last().remove(at));
    }
}

/// The times of one request.
spec fn own_times(request: RequestSummaryModel, timing: Timing) -> Multiset<u64> {
    match time_of(request, timing) {
        Some(time) => Multiset::singleton(time),
        None => Multiset::empty(),
    }
}

/// The costs of one request.
spec fn own_costs(request: RequestSummaryModel) -> Multiset<Double> {
    match request.usage {
        Some(usage) => match usage.cost {
            Some(cost) => Multiset::singleton(cost),
            None => Multiset::empty(),
        },
        None => Multiset::empty(),
    }
}

proof fn times_without_one(requests: Seq<RequestSummaryModel>, at: int, timing: Timing)
    requires
        0 <= at < requests.len(),
    ensures
        known_times(requests, timing).to_multiset() == known_times(
            requests.remove(at),
            timing,
        ).to_multiset().add(own_times(requests[at], timing)),
    decreases requests.len(),
{
    let last = known_times(requests.drop_last(), timing);
    last.to_multiset_ensures();
    if at == requests.len() - 1 {
        assert(requests.remove(at) =~= requests.drop_last());
        assert(known_times(requests, timing).to_multiset() =~= last.to_multiset().add(
            own_times(requests[at], timing),
        ));
    } else {
        times_without_one(requests.drop_last(), at, timing);
        assert(requests.remove(at).drop_last() =~= requests.drop_last().remove(at));
        let fewer = known_times(requests.drop_last().remove(at), timing);
        fewer.to_multiset_ensures();
        assert(known_times(requests, timing).to_multiset() =~= known_times(
            requests.remove(at),
            timing,
        ).to_multiset().add(own_times(requests[at], timing)));
    }
}

proof fn costs_without_one(requests: Seq<RequestSummaryModel>, at: int)
    requires
        0 <= at < requests.len(),
    ensures
        known_costs(requests).to_multiset() == known_costs(requests.remove(at)).to_multiset().add(
            own_costs(requests[at]),
        ),
    decreases requests.len(),
{
    let last = known_costs(requests.drop_last());
    last.to_multiset_ensures();
    if at == requests.len() - 1 {
        assert(requests.remove(at) =~= requests.drop_last());
        assert(known_costs(requests).to_multiset() =~= last.to_multiset().add(
            own_costs(requests[at]),
        ));
    } else {
        costs_without_one(requests.drop_last(), at);
        assert(requests.remove(at).drop_last() =~= requests.drop_last().remove(at));
        let fewer = known_costs(requests.drop_last().remove(at));
        fewer.to_multiset_ensures();
        assert(known_costs(requests).to_multiset() =~= known_costs(
            requests.remove(at),
        ).to_multiset().add(own_costs(requests[at])));
    }
}

proof fn parts_ignore_order(
    xs: Seq<RequestSummaryModel>,
    ys: Seq<RequestSummaryModel>,
    amount: Amount,
    timing: Timing,
)
    requires
        xs.to_multiset() == ys.to_multiset(),
    ensures
        amount_sum(xs, amount) == amount_sum(ys, amount),
        known_times(xs, timing).to_multiset() == known_times(ys, timing).to_multiset(),
        known_costs(xs).to_multiset() == known_costs(ys).to_multiset(),
    decreases xs.len(),
{
    xs.to_multiset_ensures();
    ys.to_multiset_ensures();
    if xs.len() == 0 {
        assert(xs =~= ys);
    } else {
        let request = xs.last();
        assert(xs.contains(request));
        assert(ys.to_multiset().count(request) > 0);
        let at = choose|k: int| 0 <= k < ys.len() && ys[k] == request;
        let n = xs.len() - 1;
        assert(xs.remove(n) =~= xs.drop_last());
        amounts_without_one(xs, n, amount);
        amounts_without_one(ys, at, amount);
        times_without_one(xs, n, timing);
        times_without_one(ys, at, timing);
        costs_without_one(xs, n);
        costs_without_one(ys, at);
        parts_ignore_order(xs.remove(n), ys.remove(at), amount, timing);
    }
}

/// The order of requests does not matter for their summary, but for the order
/// in which costs are listed.
pub proof fn summaries_ignore_order(xs: Seq<RequestSummaryModel>, ys: Seq<RequestSummaryModel>)
    requires
        xs.to_multiset() == ys.to_multiset(),
    ensures
        aggregate(xs) == (AggregateSummaryModel { costs: known_costs(xs), ..aggregate(ys) }),
        known_costs(xs).to_multiset() == known_costs(ys).to_multiset(),
{
    xs.to_multiset_ensures();
    ys.to_multiset_ensures();
    parts_ignore_order(xs, ys, Amount::Completed, Timing::Total);
    assert forall|amount: Amount| #[trigger] amount_sum(xs, amount) == amount_sum(ys, amount) by {
        parts_ignore_order(xs, ys, amount, Timing::Total);
    }
    assert forall|timing: Timing|
        distribution(#[trigger] known_times(xs, timing)) == distribution(
            known_times(ys, timing),
        ) by {
        parts_ignore_order(xs, ys, Amount::Completed, timing);
        distributions_ignore_order(known_times(xs, timing), known_times(ys, timing));
    }
}

// ---------------------------------------------------------------------------
// The configuration of a run
// ---------------------------------------------------------------------------

/// The settings of a run that bear on its results.
#[derive(Debug, PartialEq, Eq)]
pub struct ConfigurationSnapshot {
    pub deepgram_model: String,
    pub deepgram_language: String,
    pub sample_rate: u32,
    pub channels: u16,
    pub interim_results: bool,
    pub punctuate: bool,
    pub smart_format: bool,
    pub vad_events: bool,
    pub endpointing_ms: u64,
    pub utterance_end_ms: u64,
    pub keyterms: Vec<String>,
    pub audio_chunk_ms: u64,
    pub candidate_mic_enabled: bool,
    pub candidate_mic_source: String,
    pub transcript_segmentation: String,
    pub transcript_window_sec: u64,
    pub min_utterance_chars: usize,
    pub llm_model: String,
    pub max_history_pairs: usize,
    pub separate_histories: bool,
    pub temperature: Single,
    pub max_tokens: u32,
    pub timeout_sec: u64,
    pub coding_temperature: Single,
    pub coding_max_tokens: u32,
    pub coding_timeout_sec: u64,
    pub rag_enabled: bool,
    pub rag_embedding_provider: String,
    pub rag_embedding_model: String,
    pub rag_embedding_dimensions: usize,
    pub rag_embedding_query_input_type: String,
    pub rag_embedding_document_input_type: String,
    pub rag_embedding_timeout_sec: u64,
    pub rag_top_k: usize,
    pub rag_max_context_chars: usize,
    pub rag_min_score: Single,
    pub rag_refresh_ms: u64,
    pub rag_final_wait_ms: u64,
}

/// The value of a [`ConfigurationSnapshot`].
#[verifier::ext_equal]
pub struct ConfigurationSnapshotModel {
    pub deepgram_model: Seq<char>,
    pub deepgram_language: Seq<char>,
    pub sample_rate: u32,
    pub channels: u16,
    pub interim_results: bool,
    pub punctuate: bool,
    pub smart_format: bool,
    pub vad_events: bool,
    pub endpointing_ms: u64,
    pub utterance_end_ms: u64,
    pub keyterms: Seq<Seq<char>>,
    pub audio_chunk_ms: u64,
    pub candidate_mic_enabled: bool,
    pub candidate_mic_source: Seq<char>,
    pub transcript_segmentation: Seq<char>,
    pub transcript_window_sec: u64,
    pub min_utterance_chars: usize,
    pub llm_model: Seq<char>,
    pub max_history_pairs: usize,
    pub separate_histories: bool,
    pub temperature: Single,
    pub max_tokens: u32,
    pub timeout_sec: u64,
    pub coding_temperature: Single,
    pub coding_max_tokens: u32,
    pub coding_timeout_sec: u64,
    pub rag_enabled: bool,
    pub rag_embedding_provider: Seq<char>,
    pub rag_embedding_model: Seq<char>,
    pub rag_embedding_dimensions: usize,
    pub rag_embedding_query_input_type: Seq<char>,
    pub rag_embedding_document_input_type: Seq<char>,
    pub rag_embedding_timeout_sec: u64,
    pub rag_top_k: usize,
    pub rag_max_context_chars: usize,
    pub rag_min_score: Single,
    pub rag_refresh_ms: u64,
    pub rag_final_wait_ms: u64,
}

impl View for ConfigurationSnapshot {
    type V = ConfigurationSnapshotModel;

    open spec fn view(&self) -> ConfigurationSnapshotModel {
        ConfigurationSnapshotModel {
            deepgram_model: self.deepgram_model@,
            deepgram_language: self.deepgram_language@,
            sample_rate: self.sample_rate,
            channels: self.channels,
            interim_results: self.interim_results,
            punctuate: self.punctuate,
            smart_format: self.smart_format,
            vad_events: self.vad_events,
            endpointing_ms: self.endpointing_ms,
            utterance_end_ms: self.utterance_end_ms,
            keyterms: views(self.keyterms@),
            audio_chunk_ms: self.audio_chunk_ms,
            candidate_mic_enabled: self.candidate_mic_enabled,
            candidate_mic_source: self.candidate_mic_source@,
            transcript_segmentation: self.transcript_segmentation@,
            transcript_window_sec: self.transcript_window_sec,
            min_utterance_chars: self.min_utterance_chars,
            llm_model: self.llm_model@,
            max_history_pairs: self.max_history_pairs,
            separate_histories: self.separate_histories,
            temperature: self.temperature,
            max_tokens: self.max_tokens,
            timeout_sec: self.timeout_sec,
            coding_temperature: self.coding_temperature,
            coding_max_tokens: self.coding_max_tokens,
            coding_timeout_sec: self.coding_timeout_sec,
            rag_enabled: self.rag_enabled,
            rag_embedding_provider: self.rag_embedding_provider@,
            rag_embedding_model: self.rag_embedding_model@,
            rag_embedding_dimensions: self.rag_embedding_dimensions,
            rag_embedding_query_input_type: self.rag_embedding_query_input_type@,
            rag_embedding_document_input_type: self.rag_embedding_document_input_type@,
            rag_embedding_timeout_sec: self.rag_embedding_timeout_sec,
            rag_top_k: self.rag_top_k,
            rag_max_context_chars: self.rag_max_context_chars,
            rag_min_score: self.rag_min_score,
            rag_refresh_ms: self.rag_refresh_ms,
            rag_final_wait_ms: self.rag_final_wait_ms,
        }
    }
}

/// The settings of a run that bear on its results.
pub open spec fn snapshot_of(c: ConfigModel) -> ConfigurationSnapshotModel {
    ConfigurationSnapshotModel {
        deepgram_model: c.deepgram.model,
        deepgram_language: c.deepgram.language,
        sample_rate: c.deepgram.sample_rate,
        channels: c.deepgram.channels,
        interim_results: c.deepgram.interim_results,
        punctuate: c.deepgram.punctuate,
        smart_format: c.deepgram.smart_format,
        vad_events: c.deepgram.vad_events,
        endpointing_ms: c.deepgram.endpointing_ms,
        utterance_end_ms: c.deepgram.utterance_end_ms,
        keyterms: c.deepgram.keyterms,
        audio_chunk_ms: c.audio.chunk_ms,
        candidate_mic_enabled: c.candidate_audio.enabled,
        candidate_mic_source: c.candidate_audio.source,
        transcript_segmentation: "deepgram_utterance_with_inactivity_fallback"@,
        transcript_window_sec: c.transcript.window_sec,
        min_utterance_chars: c.transcript.min_utterance_chars,
        llm_model: c.llm.model,
        max_history_pairs: c.llm.max_history_pairs,
        separate_histories: c.llm.separate_histories,
        temperature: c.llm.temperature,
        max_tokens: c.llm.max_tokens,
        timeout_sec: c.llm.timeout_sec,
        coding_temperature: c.llm.coding_temperature,
        coding_max_tokens: c.llm.coding_max_tokens,
        coding_timeout_sec: c.llm.coding_timeout_sec,
        rag_enabled: c.knowledge.enabled,
        rag_embedding_provider: "openrouter"@,
        rag_embedding_model: c.knowledge.embedding.model,
        rag_embedding_dimensions: c.knowledge.embedding.dimensions,
        rag_embedding_query_input_type: c.knowledge.embedding.query_input_type,
        rag_embedding_document_input_type: c.knowledge.embedding.document_input_type,
        rag_embedding_timeout_sec: c.knowledge.embedding.timeout_sec,
        rag_top_k: c.knowledge.top_k,
        rag_max_context_chars: c.knowledge.max_context_chars,
        rag_min_score: c.knowledge.min_score,
        rag_refresh_ms: c.knowledge.refresh_ms,
        rag_final_wait_ms: c.knowledge.final_wait_ms,
    }
}

impl ConfigurationSnapshot {
    /// The settings of a run that bear on its results.
    pub fn of(config: &Config) -> (r: Self)
        ensures
            r@ == snapshot_of(config@),
    {
        ConfigurationSnapshot {
            deepgram_model: config.deepgram.model.clone(),
            deepgram_language: config.deepgram.language.clone(),
            sample_rate: config.deepgram.sample_rate,
            channels: config.deepgram.channels,
            interim_results: config.deepgram.interim_results,
            punctuate: config.deepgram.punctuate,
            smart_format: config.deepgram.smart_format,
            vad_events: config.deepgram.vad_events,
            endpointing_ms: config.deepgram.endpointing_ms,
            utterance_end_ms: config.deepgram.utterance_end_ms,
            keyterms: copy_texts(&config.deepgram.keyterms),
            audio_chunk_ms: config.audio.chunk_ms,
            candidate_mic_enabled: config.candidate_audio.enabled,
            candidate_mic_source: config.candidate_audio.source.clone(),
            transcript_segmentation: "deepgram_utterance_with_inactivity_fallback".to_owned(),
            transcript_window_sec: config.transcript.window_sec,
            min_utterance_chars: config.transcript.min_utterance_chars,
            llm_model: config.llm.model.clone(),
            max_history_pairs: config.llm.max_history_pairs,
            separate_histories: config.llm.separate_histories,
            temperature: config.llm.temperature,
            max_tokens: config.llm.max_tokens,
            timeout_sec: config.llm.timeout_sec,
            coding_temperature: config.llm.coding_temperature,
            coding_max_tokens: config.llm.coding_max_tokens,
            coding_timeout_sec: config.llm.coding_timeout_sec,
            rag_enabled: config.knowledge.enabled,
            rag_embedding_provider: "openrouter".to_owned(),
            rag_embedding_model: config.knowledge.embedding.model.clone(),
            rag_embedding_dimensions: config.knowledge.embedding.dimensions,
            rag_embedding_query_input_type: config.knowledge.embedding.query_input_type.clone(),
            rag_embedding_document_input_type: config.knowledge.embedding.document_input_type.clone(),
            rag_embedding_timeout_sec: config.knowledge.embedding.timeout_sec,
            rag_top_k: config.knowledge.top_k,
            rag_max_context_chars: config.knowledge.max_context_chars,
            rag_min_score: config.knowledge.min_score,
            rag_refresh_ms: config.knowledge.refresh_ms,
            rag_final_wait_ms: config.knowledge.final_wait_ms,
        }
    }
}

/// No key gets into a summary: the settings that are kept do not depend on
/// them.
pub proof fn summaries_hold_no_keys(
    c: ConfigModel,
    deepgram: Seq<char>,
    llm: Seq<char>,
    vision: Seq<char>,
    embedding: Seq<char>,
)
    ensures
        snapshot_of(
            ConfigModel {
                deepgram: DeepgramConfigModel { api_key: deepgram, ..c.deepgram },
                llm: LlmConfigModel { api_key: llm, ..c.llm },
                vision: VisionConfigModel { api_key: vision, ..c.vision },
                knowledge: KnowledgeConfigModel {
                    embedding: EmbeddingConfigModel {
                        api_key: embedding,
                        ..c.knowledge.embedding
                    },
                    ..c.knowledge
                },
                ..c
            },
        ) == snapshot_of(c),
{
}

// ---------------------------------------------------------------------------
// Names of files
// ---------------------------------------------------------------------------

/// Whether a character may stand in the name of a file.
pub open spec fn fits_name(c: char) -> bool {
    ('a' <= c <= 'z') || ('A' <= c <= 'Z') || ('0' <= c <= '9') || c == '-' || c == '_'
}

/// A label with each run of other characters made one hyphen.
pub open spec fn hyphenated(label: Seq<char>) -> (Seq<char>, bool)
    decreases label.len(),
{
    if label.len() == 0 {
        (Seq::empty(), false)
    } else {
        let (before, separated) = hyphenated(label.drop_last());
        let c = label.last();
        if fits_name(c) {
            (before.push(c), false)
        } else if separated {
            (before, true)
        } else {
            (before.push('-'), true)
        }
    }
}

/// A text without the hyphens at its start.
pub open spec fn without_leading(s: Seq<char>) -> Seq<char>
    decreases s.len(),
{
    if s.len() > 0 && s[0] == '-' {
        without_leading(s.drop_first())
    } else {
        s
    }
}

/// A text without the hyphens at its end.
pub open spec fn without_trailing(s: Seq<char>) -> Seq<char>
    decreases s.len(),
{
    if s.len() > 0 && s.last() == '-' {
        without_trailing(s.drop_last())
    } else {
        s
    }
}

/// A label as it stands in the name of a file.
pub open spec fn file_label(label: Seq<char>) -> Seq<char> {
    let bare = without_trailing(without_leading(hyphenated(label).0));
    if bare.len() == 0 {
        "run"@
    } else {
        bare
    }
}

/// The label as it stands in the name of a file.
pub fn sanitize_label(label: &str) -> (r: String)
    ensures
        r@ == file_label(label@),
{
    let chars = crate::text::chars_of(label);
    let mut marked: Vec<char> = Vec::new();
    let mut separated = false;
    let mut i: usize = 0;
    assert(chars@.take(0) =~= Seq::empty());
    while i < chars.len()
        invariant
            i <= chars@.len(),
            hyphenated(chars@.take(i as int)) == (marked@, separated),
        decreases chars@.len() - i,
    {
        assert(chars@.take(i + 1).drop_last() =~= chars@.take(i as int));
        let c = chars[i];
        if ('a' <= c && c <= 'z') || ('A' <= c && c <= 'Z') || ('0' <= c && c <= '9') || c == '-'
            || c == '_' {
            marked.push(c);
            separated = false;
        } else if !separated {
            marked.push('-');
            separated = true;
        }
        i += 1;
    }
    assert(chars@.take(i as int) =~= chars@);
    let n: usize = marked.len();
    let mut start: usize = 0;
    assert(marked@.subrange(0, n as int) =~= marked@);
    while start < n && marked[start] == '-'
        invariant
            start <= n == marked@.len(),
            without_leading(marked@) == without_leading(marked@.subrange(start as int, n as int)),
        decreases n - start,
    {
        assert(marked@.subrange(start as int, n as int).drop_first() =~= marked@.subrange(
            start + 1,
            n as int,
        ));
        start += 1;
    }
    let mut end: usize = n;
    while end > start && marked[end - 1] == '-'
        invariant
            start <= end <= n == marked@.len(),
            without_trailing(marked@.subrange(start as int, n as int)) == without_trailing(
                marked@.subrange(start as int, end as int),
            ),
        decreases end - start,
    {
        assert(marked@.subrange(start as int, end as int).drop_last() =~= marked@.subrange(
            start as int,
            end - 1,
        ));
        end -= 1;
    }
    if start == end {
        "run".to_owned()
    } else {
        crate::text::slice_text(&marked, start, end)
    }
}

proof fn hyphenated_fits(label: Seq<char>)
    ensures
        forall|i: int|
            0 <= i < hyphenated(label).0.len() ==> fits_name(#[trigger] hyphenated(label).0[i]),
    decreases label.len(),
{
    if label.len() > 0 {
        hyphenated_fits(label.drop_last());
        let before = hyphenated(label.drop_last()).0;
        let all = hyphenated(label).0;
        assert forall|i: int| 0 <= i < all.len() implies fits_name(#[trigger] all[i]) by {
            if i < before.len() {
                assert(all[i] == before[i]);
            }
        }
    }
}

proof fn leading_keeps_fit(s: Seq<char>)
    requires
        forall|i: int| 0 <= i < s.len() ==> fits_name(#[trigger] s[i]),
    ensures
        forall|i: int| 0 <= i < without_leading(s).len() ==> fits_name(#[trigger] without_leading(s)[i]),
        without_leading(s).len() > 0 ==> without_leading(s)[0] != '-',
    decreases s.len(),
{
    if s.len() > 0 && s[0] == '-' {
        leading_keeps_fit(s.drop_first());
    }
}

proof fn trailing_keeps_fit(s: Seq<char>)
    requires
        forall|i: int| 0 <= i < s.len() ==> fits_name(#[trigger] s[i]),
        s.len() > 0 ==> s[0] != '-',
    ensures
        forall|i: int| 0 <= i < without_trailing(s).len() ==> fits_name(#[trigger] without_trailing(s)[i]),
        without_trailing(s).len() > 0 ==> without_trailing(s)[0] != '-' && without_trailing(s).last()
            != '-',
    decreases s.len(),
{
    if s.len() > 0 && s.last() == '-' {
        trailing_keeps_fit(s.drop_last());
    }
}

/// A label in the name of a file is never empty, has only letters, digits,
/// hyphens and underscores, and neither begins nor ends with a hyphen.
pub proof fn file_labels_are_safe(label: Seq<char>)
    ensures
        file_label(label).len() > 0,
        forall|i: int| 0 <= i < file_label(label).len() ==> fits_name(#[trigger] file_label(label)[i]),
        file_label(label)[0] != '-',
        file_label(label).last() != '-',
{
    reveal_strlit("run");
    hyphenated_fits(label);
    leading_keeps_fit(hyphenated(label).0);
    trailing_keeps_fit(without_leading(hyphenated(label).0));
}

/// The name of a run: when it began, and which process it is.
pub fn run_id(started_unix_ms: u64, process_id: u32) -> (r: String)
    ensures
        r@ == decimal(started_unix_ms as nat) + "-"@ + decimal(process_id as nat),
{
    let mut out = decimal_text(started_unix_ms);
    out.append("-");
    out.append(decimal_text(process_id as u64).as_str());
    out
}

/// The names of the two files of a run: its record and its summary.
pub fn file_names(run_id: &str, label: &str) -> (r: (String, String))
    ensures
        r.0@ == run_id@ + "-"@ + file_label(label@) + ".events.jsonl"@,
        r.1@ == run_id@ + "-"@ + file_label(label@) + ".summary.json"@,
{
    let safe = sanitize_label(label);
    let mut events = run_id.to_owned();
    events.append("-");
    events.append(safe.as_str());
    let mut summary = events.clone();
    events.append(".events.jsonl");
    summary.append(".summary.json");
    (events, summary)
}

/// Whether a time is that from one moment to another.
pub open spec fn is_span(time: Option<u64>, start: Option<u64>, end: Option<u64>) -> bool {
    if start is Some && end is Some && start->0 <= end->0 {
        time is Some && time->0 == end->0 - start->0
    } else {
        time is None
    }
}

/// Each time of a request runs from one moment to another, and is known where
/// both are.
pub proof fn times_run_between_moments(request_id: u64, m: RequestMetricsModel)
    ensures
        ({
            let s = request_summary(request_id, m);
            let end_of_speech = if m.utterance_end_ms is Some {
                m.utterance_end_ms
            } else {
                m.speech_final_ms
            };
            &&& is_span(s.build_ms, m.draft_started_ms, m.question_ready_ms)
            &&& is_span(s.retrieval_pipeline_ms, m.question_ready_ms, m.llm_queued_ms)
            &&& is_span(s.final_to_queue_ms, m.last_final_ms, m.llm_queued_ms)
            &&& is_span(s.speech_final_to_queue_ms, m.speech_final_ms, m.llm_queued_ms)
            &&& is_span(s.utterance_end_to_queue_ms, m.utterance_end_ms, m.llm_queued_ms)
            &&& is_span(s.queue_wait_ms, m.llm_queued_ms, m.llm_started_ms)
            &&& is_span(s.ttft_ms, m.llm_started_ms, m.first_token_ms)
            &&& is_span(s.queued_to_first_token_ms, m.llm_queued_ms, m.first_token_ms)
            &&& is_span(s.generation_ms, m.first_token_ms, m.completed_ms)
            &&& is_span(s.total_request_ms, m.llm_started_ms, m.completed_ms)
            &&& is_span(s.speech_boundary_to_first_token_ms, end_of_speech, m.first_token_ms)
            &&& s.last_word_to_first_token_ms is Some ==> m.last_word_to_boundary_ms is Some
                && s.last_word_to_first_token_ms->0 == s.speech_boundary_to_first_token_ms->0
                + m.last_word_to_boundary_ms->0
            &&& s.speech_boundary_to_first_token_ms is Some && m.last_word_to_boundary_ms is Some
                && s.speech_boundary_to_first_token_ms->0 + m.last_word_to_boundary_ms->0
                <= u64::MAX ==> s.last_word_to_first_token_ms is Some
        }),
{
}

/// A summary tells what is known of a request as it is.
pub proof fn summaries_tell_what_is_known(request_id: u64, m: RequestMetricsModel)
    requires
        m.question.len() <= usize::MAX,
        m.answer.len() <= usize::MAX,
        words(m.question).len() <= usize::MAX,
    ensures
        ({
            let s = request_summary(request_id, m);
            &&& s.request_id == request_id
            &&& s.mode == m.mode
            &&& s.speaker == m.speaker
            &&& s.question == m.question
            &&& s.flush_reason == m.flush_reason
            &&& s.answer == m.answer
            &&& s.question_chars == m.question.len()
            &&& s.question_words == words(m.question).len()
            &&& s.answer_chars == m.answer.len()
            &&& s.draft_started_ms == m.draft_started_ms
            &&& s.last_final_ms == m.last_final_ms
            &&& s.speech_final_ms == m.speech_final_ms
            &&& s.utterance_end_ms == m.utterance_end_ms
            &&& s.last_word_end_audio_ms == m.last_word_end_audio_ms
            &&& s.last_word_to_boundary_ms == m.last_word_to_boundary_ms
            &&& s.question_ready_ms == m.question_ready_ms
            &&& s.llm_queued_ms == m.llm_queued_ms
            &&& s.llm_started_ms == m.llm_started_ms
            &&& s.first_token_ms == m.first_token_ms
            &&& s.completed_ms == m.completed_ms
            &&& s.failed_ms == m.failed_ms
            &&& s.usage == m.usage
            &&& s.retrieval == m.retrieval
        }),
{
}

/// The times of an utterance run from the beginning of speech; its end is that
/// of the utterance, and else that of the speech.
pub proof fn utterances_are_timed_from_their_beginning(m: UtteranceMetricsModel)
    ensures
        ({
            let s = utterance_summary(m);
            &&& is_span(s.speech_to_first_interim_ms, m.speech_started_ms, m.first_interim_ms)
            &&& is_span(s.speech_to_first_final_ms, m.speech_started_ms, m.first_final_ms)
            &&& m.utterance_end_ms is Some ==> is_span(
                s.utterance_duration_ms,
                m.speech_started_ms,
                m.utterance_end_ms,
            )
            &&& m.utterance_end_ms is None ==> is_span(
                s.utterance_duration_ms,
                m.speech_started_ms,
                m.speech_final_ms,
            )
            &&& s.sequence == m.sequence
            &&& s.final_text == m.final_text
            &&& s.speech_started_ms == m.speech_started_ms
            &&& s.first_transcript_ms == m.first_transcript_ms
            &&& s.first_interim_ms == m.first_interim_ms
            &&& s.first_final_ms == m.first_final_ms
            &&& s.speech_final_ms == m.speech_final_ms
            &&& s.utterance_end_ms == m.utterance_end_ms
        }),
{
}

/// Whether a distribution is that of one time, where it is known.
pub open spec fn tells_of(d: MetricSummary, time: Option<u64>) -> bool {
    match time {
        Some(value) => d.count == 1 && d.min == Some(value) && d.max == Some(value) && d.p50 == Some(
            value,
        ) && d.p95 == Some(value) && d.sum == value,
        None => d.count == 0 && d.min is None && d.max is None && d.p50 is None && d.p95 is None
            && d.sum == 0,
    }
}

proof fn one_time_is_told(r: RequestSummaryModel, timing: Timing)
    ensures
        tells_of(distribution(known_times(seq![r], timing)), time_of(r, timing)),
{
    assert(seq![r].drop_last() =~= Seq::empty());
    assert(known_times(seq![r].drop_last(), timing) =~= Seq::empty());
    let times = known_times(seq![r], timing);
    match time_of(r, timing) {
        Some(value) => {
            assert(times =~= seq![value]);
            rising_is_sorted(times);
            let sorted = rising(times);
            assert(times.drop_last() =~= Seq::empty());
            assert(rising(times.drop_last()) =~= Seq::empty());
            assert(total(times.drop_last()) == 0);
            assert(sorted =~= seq![value]);
        },
        None => {
            assert(times =~= Seq::empty());
            assert(rising(times) =~= Seq::empty());
            assert(total(times) == 0);
        },
    }
}

proof fn one_amount_is_told(r: RequestSummaryModel, amount: Amount)
    ensures
        amount_sum(seq![r], amount) == amount_of(r, amount),
{
    assert(seq![r].drop_last() =~= Seq::empty());
    assert(amount_sum(seq![r].drop_last(), amount) == 0);
}

/// The summary of a single request tells of that request: what it took, what
/// was looked up for it, and each of its times under its own name.
pub proof fn one_request_is_summed_up_as_it_is(r: RequestSummaryModel)
    ensures
        ({
            let a = aggregate(seq![r]);
            &&& a.request_count == 1
            &&& a.completed_count == (if r.completed_ms is Some {
                1int
            } else {
                0int
            })
            &&& a.failed_count == (if r.failed_ms is Some {
                1int
            } else {
                0int
            })
            &&& a.rag_request_count == (if r.retrieval is Some {
                1int
            } else {
                0int
            })
            &&& r.usage matches Some(usage) ==> {
                &&& a.prompt_tokens == usage.prompt_tokens
                &&& a.completion_tokens == usage.completion_tokens
                &&& a.total_tokens == usage.total_tokens
                &&& usage.cost matches Some(cost) ==> a.costs == seq![cost]
                &&& usage.cost is None ==> a.costs.len() == 0
            }
            &&& r.usage is None ==> a.prompt_tokens == 0 && a.completion_tokens == 0
                && a.total_tokens == 0 && a.costs.len() == 0
            &&& r.retrieval matches Some(part) ==> {
                &&& a.rag_searches == part.searches
                &&& a.rag_embedding_calls == part.embedding_calls
                &&& a.rag_embedding_prompt_tokens == part.embedding_prompt_tokens
                &&& a.rag_embedding_total_tokens == part.embedding_total_tokens
                &&& part.snippets <= u64::MAX ==> a.rag_snippets == part.snippets
                &&& a.rag_context_chars == part.context_chars
                &&& tells_of(a.rag_embedding_ms, Some(part.embedding_ms))
                &&& tells_of(a.rag_search_ms, Some(part.search_ms))
                &&& tells_of(a.rag_final_wait_ms, Some(part.final_wait_ms))
            }
            &&& r.retrieval is None ==> {
                &&& a.rag_searches == 0
                &&& a.rag_snippets == 0
                &&& a.rag_context_chars == 0
                &&& tells_of(a.rag_embedding_ms, None)
                &&& tells_of(a.rag_search_ms, None)
                &&& tells_of(a.rag_final_wait_ms, None)
            }
            &&& tells_of(a.build_ms, r.build_ms)
            &&& tells_of(a.retrieval_pipeline_ms, r.retrieval_pipeline_ms)
            &&& tells_of(a.queue_wait_ms, r.queue_wait_ms)
            &&& tells_of(a.ttft_ms, r.ttft_ms)
            &&& tells_of(a.queued_to_first_token_ms, r.queued_to_first_token_ms)
            &&& tells_of(a.speech_boundary_to_first_token_ms, r.speech_boundary_to_first_token_ms)
            &&& tells_of(a.last_word_to_first_token_ms, r.last_word_to_first_token_ms)
            &&& tells_of(a.generation_ms, r.generation_ms)
            &&& tells_of(a.total_request_ms, r.total_request_ms)
        }),
{
    one_amount_is_told(r, Amount::Completed);
    one_amount_is_told(r, Amount::Failed);
    one_amount_is_told(r, Amount::Lookups);
    one_amount_is_told(r, Amount::PromptTokens);
    one_amount_is_told(r, Amount::CompletionTokens);
    one_amount_is_told(r, Amount::TotalTokens);
    one_amount_is_told(r, Amount::Searches);
    one_amount_is_told(r, Amount::EmbeddingCalls);
    one_amount_is_told(r, Amount::EmbeddingPromptTokens);
    one_amount_is_told(r, Amount::EmbeddingTotalTokens);
    one_amount_is_told(r, Amount::Snippets);
    one_amount_is_told(r, Amount::ContextChars);
    one_time_is_told(r, Timing::Build);
    one_time_is_told(r, Timing::RetrievalPipeline);
    one_time_is_told(r, Timing::Embedding);
    one_time_is_told(r, Timing::Search);
    one_time_is_told(r, Timing::FinalWait);
    one_time_is_told(r, Timing::QueueWait);
    one_time_is_told(r, Timing::FirstToken);
    one_time_is_told(r, Timing::QueuedToFirstToken);
    one_time_is_told(r, Timing::BoundaryToFirstToken);
    one_time_is_told(r, Timing::LastWordToFirstToken);
    one_time_is_told(r, Timing::Generation);
    one_time_is_told(r, Timing::Total);
    assert(seq![r].drop_last() =~= Seq::empty());
    assert(known_costs(seq![r].drop_last()) =~= Seq::empty());
    assert(seq![r].last() == r);
}

/// The times of several requests are those of each that has one, in order.
pub proof fn known_times_follow_one_another(
    requests: Seq<RequestSummaryModel>,
    r: RequestSummaryModel,
    timing: Timing,
)
    ensures
        time_of(r, timing) matches Some(time) ==> known_times(requests.push(r), timing)
            == known_times(requests, timing).push(time),
        time_of(r, timing) is None ==> known_times(requests.push(r), timing) == known_times(
            requests,
            timing,
        ),
        known_times(Seq::empty(), timing).len() == 0,
{
    assert(requests.push(r).drop_last() =~= requests);
}

} // verus!
