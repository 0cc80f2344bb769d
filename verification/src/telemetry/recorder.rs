//! The record of a run as it goes on: a line for each event, and what is
//! remembered for the summary.
use std::collections::BTreeMap;

use vstd::prelude::*;
use vstd::std_specs::btree::increasing_seq;
use vstd::std_specs::cmp::OrdSpec;
use vstd::std_specs::iter::IteratorSpec;

use crate::events::{
    copy_numbers, AppErrorView, KnowledgeContextModel, KnowledgeSnippetModel, LiveCodingState,
    LiveCodingStateModel, LlmUsage, OutputComponent, OutputEvent, OutputEventModel, RetrievalView,
    Speaker, StatusKind, SttObservation, SttObservationModel, TranscriptView, TranscriptViewModel,
};
use crate::numbers::{Double, Single};
use crate::telemetry::accuracy::{accuracy, AccuracyModel, AccuracySummary};
use crate::telemetry::metrics::{added, between, checked_sum, duration};
use crate::telemetry::summary::{
    aggregate, latency_summary, request_summary, summary_models, utterance_summary,
    AggregateSummary, AggregateSummaryModel, RequestSummary, RequestSummaryModel,
    SttLatencySummary, UtteranceSummary, UtteranceSummaryModel,
};
use crate::text::{
    char_len, chars_of, is_white, split_words, trim, trimmed, views, white, words,
};

verus! {

/// A passage in a line of the record.
#[derive(Debug, PartialEq, Eq)]
pub struct HitFields {
    pub id: String,
    pub source: String,
    pub heading: String,
    pub score: Single,
    pub chars: usize,
    pub text: String,
}

/// The value of a [`HitFields`].
#[verifier::ext_equal]
pub struct HitFieldsModel {
    pub id: Seq<char>,
    pub source: Seq<char>,
    pub heading: Seq<char>,
    pub score: Single,
    pub chars: usize,
    pub text: Seq<char>,
}

impl View for HitFields {
    type V = HitFieldsModel;

    open spec fn view(&self) -> HitFieldsModel {
        HitFieldsModel {
            id: self.id@,
            source: self.source@,
            heading: self.heading@,
            score: self.score,
            chars: self.chars,
            text: self.text@,
        }
    }
}

/// A value in a line of the record.
#[derive(Debug)]
pub enum FieldValue {
    Text(String),
    OptionalText(Option<String>),
    Number(u64),
    OptionalNumber(Option<u64>),
    Flag(bool),
    Cost(Option<Double>),
    Numbers(Vec<usize>),
    Hits(Vec<HitFields>),
}

/// The value of a [`FieldValue`].
#[verifier::ext_equal]
pub enum FieldValueModel {
    Text(Seq<char>),
    OptionalText(Option<Seq<char>>),
    Number(u64),
    OptionalNumber(Option<u64>),
    Flag(bool),
    Cost(Option<Double>),
    Numbers(Seq<usize>),
    Hits(Seq<HitFieldsModel>),
}

/// The values of the passages.
pub open spec fn hit_field_models(hits: Seq<HitFields>) -> Seq<HitFieldsModel> {
    Seq::new(hits.len(), |i: int| hits[i]@)
}

/// The text of an optional string.
pub open spec fn some_text(text: Option<String>) -> Option<Seq<char>> {
    match text {
        Some(inner) => Some(inner@),
        None => None,
    }
}

impl View for FieldValue {
    type V = FieldValueModel;

    open spec fn view(&self) -> FieldValueModel {
        match *self {
            FieldValue::Text(text) => FieldValueModel::Text(text@),
            FieldValue::OptionalText(text) => FieldValueModel::OptionalText(some_text(text)),
            FieldValue::Number(number) => FieldValueModel::Number(number),
            FieldValue::OptionalNumber(number) => FieldValueModel::OptionalNumber(number),
            FieldValue::Flag(on) => FieldValueModel::Flag(on),
            FieldValue::Cost(cost) => FieldValueModel::Cost(cost),
            FieldValue::Numbers(numbers) => FieldValueModel::Numbers(numbers@),
            FieldValue::Hits(hits) => FieldValueModel::Hits(hit_field_models(hits@)),
        }
    }
}

/// A named value in a line of the record.
#[derive(Debug)]
pub struct Field {
    pub name: &'static str,
    pub value: FieldValue,
}

/// The value of a [`Field`].
#[verifier::ext_equal]
pub struct FieldModel {
    pub name: Seq<char>,
    pub value: FieldValueModel,
}

impl View for Field {
    type V = FieldModel;

    open spec fn view(&self) -> FieldModel {
        FieldModel { name: self.name@, value: self.value@ }
    }
}

/// The values of the fields.
pub open spec fn field_models(fields: Seq<Field>) -> Seq<FieldModel> {
    Seq::new(fields.len(), |i: int| fields[i]@)
}

/// A line of the record.
#[derive(Debug)]
pub struct TelemetryEvent {
    /// The run that the record is of.
    pub run_id: String,
    pub sequence: u64,
    pub elapsed_ms: u64,
    pub event: &'static str,
    pub request_id: Option<u64>,
    pub fields: Vec<Field>,
}

/// The value of a [`TelemetryEvent`].
#[verifier::ext_equal]
pub struct LineModel {
    pub run_id: Seq<char>,
    pub sequence: u64,
    pub elapsed_ms: u64,
    pub event: Seq<char>,
    pub request_id: Option<u64>,
    pub fields: Seq<FieldModel>,
}

impl View for TelemetryEvent {
    type V = LineModel;

    open spec fn view(&self) -> LineModel {
        LineModel {
            run_id: self.run_id@,
            sequence: self.sequence,
            elapsed_ms: self.elapsed_ms,
            event: self.event@,
            request_id: self.request_id,
            fields: field_models(self.fields@),
        }
    }
}

/// A passage that went along with a request.
#[derive(Debug, PartialEq, Eq)]
pub struct RetrievalHitMetrics {
    pub id: String,
    pub source: String,
    pub heading: String,
    pub text: String,
    pub score: Single,
}

/// The value of a [`RetrievalHitMetrics`].
#[verifier::ext_equal]
pub struct RetrievalHitMetricsModel {
    pub id: Seq<char>,
    pub source: Seq<char>,
    pub heading: Seq<char>,
    pub text: Seq<char>,
    pub score: Single,
}

impl View for RetrievalHitMetrics {
    type V = RetrievalHitMetricsModel;

    open spec fn view(&self) -> RetrievalHitMetricsModel {
        RetrievalHitMetricsModel {
            id: self.id@,
            source: self.source@,
            heading: self.heading@,
            text: self.text@,
            score: self.score,
        }
    }
}

impl Clone for RetrievalHitMetrics {
    fn clone(&self) -> (r: Self)
        ensures
            r@ == self@,
    {
        RetrievalHitMetrics {
            id: self.id.clone(),
            source: self.source.clone(),
            heading: self.heading.clone(),
            text: self.text.clone(),
            score: self.score,
        }
    }
}

/// What was looked up for a request.
#[derive(Debug, PartialEq, Eq)]
pub struct RetrievalMetrics {
    pub searches: u64,
    pub embedding_calls: u64,
    pub embedding_prompt_tokens: u64,
    pub embedding_total_tokens: u64,
    pub snippets: usize,
    pub context_chars: u64,
    pub embedding_ms: u64,
    pub search_ms: u64,
    pub final_wait_ms: u64,
    pub hits: Vec<RetrievalHitMetrics>,
}

/// The value of a [`RetrievalMetrics`].
#[verifier::ext_equal]
pub struct RetrievalMetricsModel {
    pub searches: u64,
    pub embedding_calls: u64,
    pub embedding_prompt_tokens: u64,
    pub embedding_total_tokens: u64,
    pub snippets: usize,
    pub context_chars: u64,
    pub embedding_ms: u64,
    pub search_ms: u64,
    pub final_wait_ms: u64,
    pub hits: Seq<RetrievalHitMetricsModel>,
}

impl View for RetrievalMetrics {
    type V = RetrievalMetricsModel;

    open spec fn view(&self) -> RetrievalMetricsModel {
        RetrievalMetricsModel {
            searches: self.searches,
            embedding_calls: self.embedding_calls,
            embedding_prompt_tokens: self.embedding_prompt_tokens,
            embedding_total_tokens: self.embedding_total_tokens,
            snippets: self.snippets,
            context_chars: self.context_chars,
            embedding_ms: self.embedding_ms,
            search_ms: self.search_ms,
            final_wait_ms: self.final_wait_ms,
            hits: Seq::new(self.hits@.len(), |i: int| self.hits@[i]@),
        }
    }
}

/// What is known of a request.
#[derive(Debug, PartialEq, Eq)]
pub struct RequestMetrics {
    pub mode: String,
    pub speaker: String,
    pub question: String,
    pub flush_reason: String,
    pub answer: String,
    pub draft_started_ms: Option<u64>,
    pub last_final_ms: Option<u64>,
    pub speech_final_ms: Option<u64>,
    pub utterance_end_ms: Option<u64>,
    pub last_word_end_audio_ms: Option<u64>,
    pub last_word_to_boundary_ms: Option<u64>,
    pub question_ready_ms: Option<u64>,
    pub llm_queued_ms: Option<u64>,
    pub llm_started_ms: Option<u64>,
    pub first_token_ms: Option<u64>,
    pub completed_ms: Option<u64>,
    pub failed_ms: Option<u64>,
    pub usage: Option<LlmUsage>,
    pub retrieval: Option<RetrievalMetrics>,
}

/// The value of a [`RequestMetrics`].
#[verifier::ext_equal]
pub struct RequestMetricsModel {
    pub mode: Seq<char>,
    pub speaker: Seq<char>,
    pub question: Seq<char>,
    pub flush_reason: Seq<char>,
    pub answer: Seq<char>,
    pub draft_started_ms: Option<u64>,
    pub last_final_ms: Option<u64>,
    pub speech_final_ms: Option<u64>,
    pub utterance_end_ms: Option<u64>,
    pub last_word_end_audio_ms: Option<u64>,
    pub last_word_to_boundary_ms: Option<u64>,
    pub question_ready_ms: Option<u64>,
    pub llm_queued_ms: Option<u64>,
    pub llm_started_ms: Option<u64>,
    pub first_token_ms: Option<u64>,
    pub completed_ms: Option<u64>,
    pub failed_ms: Option<u64>,
    pub usage: Option<LlmUsage>,
    pub retrieval: Option<RetrievalMetricsModel>,
}

impl View for RequestMetrics {
    type V = RequestMetricsModel;

    open spec fn view(&self) -> RequestMetricsModel {
        RequestMetricsModel {
            mode: self.mode@,
            speaker: self.speaker@,
            question: self.question@,
            flush_reason: self.flush_reason@,
            answer: self.answer@,
            draft_started_ms: self.draft_started_ms,
            last_final_ms: self.last_final_ms,
            speech_final_ms: self.speech_final_ms,
            utterance_end_ms: self.utterance_end_ms,
            last_word_end_audio_ms: self.last_word_end_audio_ms,
            last_word_to_boundary_ms: self.last_word_to_boundary_ms,
            question_ready_ms: self.question_ready_ms,
            llm_queued_ms: self.llm_queued_ms,
            llm_started_ms: self.llm_started_ms,
            first_token_ms: self.first_token_ms,
            completed_ms: self.completed_ms,
            failed_ms: self.failed_ms,
            usage: self.usage,
            retrieval: match self.retrieval { Some(inner) => Some(inner@), None => None },
        }
    }
}

/// What is known of a request before anything happened.
pub open spec fn blank_metrics() -> RequestMetricsModel {
    RequestMetricsModel {
        mode: Seq::empty(),
        speaker: Seq::empty(),
        question: Seq::empty(),
        flush_reason: Seq::empty(),
        answer: Seq::empty(),
        draft_started_ms: None,
        last_final_ms: None,
        speech_final_ms: None,
        utterance_end_ms: None,
        last_word_end_audio_ms: None,
        last_word_to_boundary_ms: None,
        question_ready_ms: None,
        llm_queued_ms: None,
        llm_started_ms: None,
        first_token_ms: None,
        completed_ms: None,
        failed_ms: None,
        usage: None,
        retrieval: None,
    }
}

impl Default for RequestMetrics {
    fn default() -> (r: Self)
        ensures
            r@ == blank_metrics(),
    {
        RequestMetrics {
            mode: String::new(),
            speaker: String::new(),
            question: String::new(),
            flush_reason: String::new(),
            answer: String::new(),
            draft_started_ms: None,
            last_final_ms: None,
            speech_final_ms: None,
            utterance_end_ms: None,
            last_word_end_audio_ms: None,
            last_word_to_boundary_ms: None,
            question_ready_ms: None,
            llm_queued_ms: None,
            llm_started_ms: None,
            first_token_ms: None,
            completed_ms: None,
            failed_ms: None,
            usage: None,
            retrieval: None,
        }
    }
}

/// What is known of an utterance.
#[derive(Debug, PartialEq, Eq)]
pub struct UtteranceMetrics {
    pub sequence: u64,
    pub speech_started_ms: Option<u64>,
    pub first_transcript_ms: Option<u64>,
    pub first_interim_ms: Option<u64>,
    pub first_final_ms: Option<u64>,
    pub speech_final_ms: Option<u64>,
    pub utterance_end_ms: Option<u64>,
    pub final_text: String,
}

/// The value of a [`UtteranceMetrics`].
#[verifier::ext_equal]
pub struct UtteranceMetricsModel {
    pub sequence: u64,
    pub speech_started_ms: Option<u64>,
    pub first_transcript_ms: Option<u64>,
    pub first_interim_ms: Option<u64>,
    pub first_final_ms: Option<u64>,
    pub speech_final_ms: Option<u64>,
    pub utterance_end_ms: Option<u64>,
    pub final_text: Seq<char>,
}

impl View for UtteranceMetrics {
    type V = UtteranceMetricsModel;

    open spec fn view(&self) -> UtteranceMetricsModel {
        UtteranceMetricsModel {
            sequence: self.sequence,
            speech_started_ms: self.speech_started_ms,
            first_transcript_ms: self.first_transcript_ms,
            first_interim_ms: self.first_interim_ms,
            first_final_ms: self.first_final_ms,
            speech_final_ms: self.speech_final_ms,
            utterance_end_ms: self.utterance_end_ms,
            final_text: self.final_text@,
        }
    }
}

/// What is known of an utterance before anything happened.
pub open spec fn blank_utterance(sequence: u64) -> UtteranceMetricsModel {
    UtteranceMetricsModel {
        sequence,
        speech_started_ms: None,
        first_transcript_ms: None,
        first_interim_ms: None,
        first_final_ms: None,
        speech_final_ms: None,
        utterance_end_ms: None,
        final_text: Seq::empty(),
    }
}

fn new_utterance(sequence: u64) -> (r: UtteranceMetrics)
    ensures
        r@ == blank_utterance(sequence),
{
    UtteranceMetrics {
        sequence,
        speech_started_ms: None,
        first_transcript_ms: None,
        first_interim_ms: None,
        first_final_ms: None,
        speech_final_ms: None,
        utterance_end_ms: None,
        final_text: String::new(),
    }
}

/// A state of a live-coding task.
#[derive(Debug, PartialEq, Eq)]
pub struct LiveCodingRevision {
    pub request_id: Option<u64>,
    pub speaker: Option<String>,
    pub revision: u64,
    pub summary: String,
    pub candidate_context: String,
    pub explanation: String,
    pub language: String,
    pub code: String,
    pub change_note: String,
    pub changed_lines: Vec<usize>,
}

/// The value of a [`LiveCodingRevision`].
#[verifier::ext_equal]
pub struct LiveCodingRevisionModel {
    pub request_id: Option<u64>,
    pub speaker: Option<Seq<char>>,
    pub revision: u64,
    pub summary: Seq<char>,
    pub candidate_context: Seq<char>,
    pub explanation: Seq<char>,
    pub language: Seq<char>,
    pub code: Seq<char>,
    pub change_note: Seq<char>,
    pub changed_lines: Seq<usize>,
}

impl View for LiveCodingRevision {
    type V = LiveCodingRevisionModel;

    open spec fn view(&self) -> LiveCodingRevisionModel {
        LiveCodingRevisionModel {
            request_id: self.request_id,
            speaker: match self.speaker { Some(inner) => Some(inner@), None => None },
            revision: self.revision,
            summary: self.summary@,
            candidate_context: self.candidate_context@,
            explanation: self.explanation@,
            language: self.language@,
            code: self.code@,
            change_note: self.change_note@,
            changed_lines: self.changed_lines@,
        }
    }
}

/// How often the recogniser reported what.
#[derive(Clone, Copy, Debug, PartialEq, Eq, Structural)]
pub struct SttMetrics {
    pub transcripts: u64,
    pub interim_transcripts: u64,
    pub final_transcripts: u64,
    pub speech_final_transcripts: u64,
    pub deferred_speech_final_transcripts: u64,
    pub speech_started: u64,
    pub utterance_end: u64,
    pub ignored_utterance_end: u64,
    pub deferred_utterance_end: u64,
}

/// Nothing was reported.
pub open spec fn no_stt() -> SttMetrics {
    SttMetrics {
        transcripts: 0,
        interim_transcripts: 0,
        final_transcripts: 0,
        speech_final_transcripts: 0,
        deferred_speech_final_transcripts: 0,
        speech_started: 0,
        utterance_end: 0,
        ignored_utterance_end: 0,
        deferred_utterance_end: 0,
    }
}

impl Default for SttMetrics {
    fn default() -> (r: Self)
        ensures
            r == no_stt(),
    {
        SttMetrics {
            transcripts: 0,
            interim_transcripts: 0,
            final_transcripts: 0,
            speech_final_transcripts: 0,
            deferred_speech_final_transcripts: 0,
            speech_started: 0,
            utterance_end: 0,
            ignored_utterance_end: 0,
            deferred_utterance_end: 0,
        }
    }
}

impl SttMetrics {
    /// Whether one more of anything can be counted.
    pub open spec fn has_room(self) -> bool {
        &&& self.transcripts < u64::MAX
        &&& self.interim_transcripts < u64::MAX
        &&& self.final_transcripts < u64::MAX
        &&& self.speech_final_transcripts < u64::MAX
        &&& self.deferred_speech_final_transcripts < u64::MAX
        &&& self.speech_started < u64::MAX
        &&& self.utterance_end < u64::MAX
        &&& self.ignored_utterance_end < u64::MAX
        &&& self.deferred_utterance_end < u64::MAX
    }

    fn can_count(&self) -> (r: bool)
        ensures
            r == self.has_room(),
    {
        self.transcripts < u64::MAX && self.interim_transcripts < u64::MAX && self.final_transcripts < u64::MAX && self.speech_final_transcripts < u64::MAX && self.deferred_speech_final_transcripts < u64::MAX && self.speech_started < u64::MAX && self.utterance_end < u64::MAX && self.ignored_utterance_end < u64::MAX && self.deferred_utterance_end < u64::MAX
    }
}

/// How late the recogniser reported.
#[derive(Debug, PartialEq, Eq)]
pub struct SttLatencyMetrics {
    pub interim_delivery_lag_ms: Vec<u64>,
    pub final_delivery_lag_ms: Vec<u64>,
    pub speech_started_delivery_lag_ms: Vec<u64>,
    pub utterance_end_delivery_lag_ms: Vec<u64>,
}

/// The value of a [`SttLatencyMetrics`].
#[verifier::ext_equal]
pub struct SttLatencyMetricsModel {
    pub interim_delivery_lag_ms: Seq<u64>,
    pub final_delivery_lag_ms: Seq<u64>,
    pub speech_started_delivery_lag_ms: Seq<u64>,
    pub utterance_end_delivery_lag_ms: Seq<u64>,
}

impl View for SttLatencyMetrics {
    type V = SttLatencyMetricsModel;

    open spec fn view(&self) -> SttLatencyMetricsModel {
        SttLatencyMetricsModel {
            interim_delivery_lag_ms: self.interim_delivery_lag_ms@,
            final_delivery_lag_ms: self.final_delivery_lag_ms@,
            speech_started_delivery_lag_ms: self.speech_started_delivery_lag_ms@,
            utterance_end_delivery_lag_ms: self.utterance_end_delivery_lag_ms@,
        }
    }
}

/// The values of what is known of the requests, by their numbers.
pub open spec fn metrics_models(requests: Map<u64, RequestMetrics>) -> Map<
    u64,
    RequestMetricsModel,
> {
    requests.map_values(|metrics: RequestMetrics| metrics@)
}

/// The values of the utterances.
pub open spec fn utterance_models(utterances: Seq<UtteranceMetrics>) -> Seq<UtteranceMetricsModel> {
    Seq::new(utterances.len(), |i: int| utterances[i]@)
}

/// The values of the states of live-coding tasks.
pub open spec fn revision_models(revisions: Seq<LiveCodingRevision>) -> Seq<LiveCodingRevisionModel> {
    Seq::new(revisions.len(), |i: int| revisions[i]@)
}

/// What is remembered of a run.
#[derive(Debug)]
pub struct TelemetryRecorder {
    run_id: String,
    recognition_segments: Vec<String>,
    pending_recognition: String,
    event_count: u64,
    requests: BTreeMap<u64, RequestMetrics>,
    utterances: Vec<UtteranceMetrics>,
    live_coding: Vec<LiveCodingRevision>,
    active_utterance: Option<usize>,
    active_request: Option<u64>,
    audio_stream_started_ms: Option<u64>,
    draft_started_ms: Option<u64>,
    draft_active: bool,
    last_final_ms: Option<u64>,
    last_speech_final_ms: Option<u64>,
    last_utterance_end_ms: Option<u64>,
    last_word_end_audio_ms: Option<u64>,
    last_word_to_boundary_ms: Option<u64>,
    stt: SttMetrics,
    stt_latency: SttLatencyMetrics,
}

/// The value of a [`TelemetryRecorder`].
#[verifier::ext_equal]
pub struct RecorderModel {
    pub run_id: Seq<char>,
    pub recognition_segments: Seq<Seq<char>>,
    pub pending_recognition: Seq<char>,
    pub event_count: u64,
    /// What is known of the requests, by their numbers.
    pub requests: Map<u64, RequestMetricsModel>,
    pub utterances: Seq<UtteranceMetricsModel>,
    pub live_coding: Seq<LiveCodingRevisionModel>,
    /// Where the utterance that is being spoken stands among all of them.
    pub active_utterance: Option<usize>,
    pub active_request: Option<u64>,
    pub audio_stream_started_ms: Option<u64>,
    pub draft_started_ms: Option<u64>,
    pub draft_active: bool,
    pub last_final_ms: Option<u64>,
    pub last_speech_final_ms: Option<u64>,
    pub last_utterance_end_ms: Option<u64>,
    pub last_word_end_audio_ms: Option<u64>,
    pub last_word_to_boundary_ms: Option<u64>,
    pub stt: SttMetrics,
    pub stt_latency: SttLatencyMetricsModel,
}

impl View for TelemetryRecorder {
    type V = RecorderModel;

    closed spec fn view(&self) -> RecorderModel {
        RecorderModel {
            run_id: self.run_id@,
            recognition_segments: views(self.recognition_segments@),
            pending_recognition: self.pending_recognition@,
            event_count: self.event_count,
            requests: metrics_models(self.requests@),
            utterances: utterance_models(self.utterances@),
            live_coding: revision_models(self.live_coding@),
            active_utterance: self.active_utterance,
            active_request: self.active_request,
            audio_stream_started_ms: self.audio_stream_started_ms,
            draft_started_ms: self.draft_started_ms,
            draft_active: self.draft_active,
            last_final_ms: self.last_final_ms,
            last_speech_final_ms: self.last_speech_final_ms,
            last_utterance_end_ms: self.last_utterance_end_ms,
            last_word_end_audio_ms: self.last_word_end_audio_ms,
            last_word_to_boundary_ms: self.last_word_to_boundary_ms,
            stt: self.stt,
            stt_latency: self.stt_latency@,
        }
    }
}

// ---------------------------------------------------------------------------
// Requests by number
// ---------------------------------------------------------------------------

/// What is known of a request.
pub open spec fn metrics_of(
    requests: Map<u64, RequestMetricsModel>,
    request_id: u64,
) -> RequestMetricsModel {
    if requests.contains_key(request_id) {
        requests[request_id]
    } else {
        blank_metrics()
    }
}

/// What is written of a request is what is known of it afterwards, and the
/// other requests stay as they are.
pub proof fn what_is_written_is_known(
    s: RecorderModel,
    request_id: u64,
    metrics: RequestMetricsModel,
    other: u64,
)
    requires
        other != request_id,
    ensures
        s.set_request(request_id, metrics).request(request_id) == metrics,
        s.set_request(request_id, metrics).request(other) == s.request(other),
{
}

/// Takes what is known of a request out of the requests.
fn take_metrics(requests: &mut BTreeMap<u64, RequestMetrics>, request_id: u64) -> (r: RequestMetrics)
    ensures
        r@ == metrics_of(metrics_models(old(requests)@), request_id),
        metrics_models(final(requests)@) == metrics_models(old(requests)@).remove(request_id),
{
    broadcast use vstd::std_specs::btree::group_btree_axioms;

    let taken = requests.remove(&request_id);
    assert(metrics_models(requests@) =~= metrics_models(old(requests)@).remove(request_id));
    match taken {
        Some(metrics) => metrics,
        None => RequestMetrics::default(),
    }
}

/// Puts what is known of a request back.
fn put_metrics(requests: &mut BTreeMap<u64, RequestMetrics>, request_id: u64, metrics: RequestMetrics)
    ensures
        metrics_models(final(requests)@) == metrics_models(old(requests)@).insert(
            request_id,
            metrics@,
        ),
{
    broadcast use vstd::std_specs::btree::group_btree_axioms;

    let ghost model = metrics@;
    requests.insert(request_id, metrics);
    assert(metrics_models(requests@) =~= metrics_models(old(requests)@).insert(request_id, model));
}

// ---------------------------------------------------------------------------
// Fields
// ---------------------------------------------------------------------------

/// A field with a text.
pub open spec fn text_field(name: Seq<char>, text: Seq<char>) -> FieldModel {
    FieldModel { name, value: FieldValueModel::Text(text) }
}

/// A field with a number.
pub open spec fn number_field(name: Seq<char>, number: u64) -> FieldModel {
    FieldModel { name, value: FieldValueModel::Number(number) }
}

/// A field with a number that may be missing.
pub open spec fn optional_field(name: Seq<char>, number: Option<u64>) -> FieldModel {
    FieldModel { name, value: FieldValueModel::OptionalNumber(number) }
}

/// A field with a switch.
pub open spec fn flag_field(name: Seq<char>, on: bool) -> FieldModel {
    FieldModel { name, value: FieldValueModel::Flag(on) }
}

fn put_text(name: &'static str, text: &str) -> (r: Field)
    ensures
        r@ == text_field(name@, text@),
{
    Field { name, value: FieldValue::Text(text.to_owned()) }
}

fn put_number(name: &'static str, number: u64) -> (r: Field)
    ensures
        r@ == number_field(name@, number),
{
    Field { name, value: FieldValue::Number(number) }
}

fn put_optional(name: &'static str, number: Option<u64>) -> (r: Field)
    ensures
        r@ == optional_field(name@, number),
{
    Field { name, value: FieldValue::OptionalNumber(number) }
}

fn put_flag(name: &'static str, on: bool) -> (r: Field)
    ensures
        r@ == flag_field(name@, on),
{
    Field { name, value: FieldValue::Flag(on) }
}

/// The number of characters of a text.
pub open spec fn chars_field(text: Seq<char>) -> FieldModel {
    number_field("chars"@, text.len() as u64)
}

fn put_chars(text: &str) -> (r: Field)
    ensures
        r@ == chars_field(text@),
{
    put_number("chars", char_len(text) as u64)
}

/// The name of a kind of status.
pub open spec fn status_name(kind: StatusKind) -> Seq<char> {
    match kind {
        StatusKind::Started => "Started"@,
        StatusKind::Connecting => "Connecting"@,
        StatusKind::Listening => "Listening"@,
        StatusKind::Paused => "Paused"@,
        StatusKind::Reconnecting => "Reconnecting"@,
        StatusKind::HistoryCleared => "HistoryCleared"@,
        StatusKind::Stopped => "Stopped"@,
    }
}

fn status_text(kind: StatusKind) -> (r: &'static str)
    ensures
        r@ == status_name(kind),
{
    match kind {
        StatusKind::Started => "Started",
        StatusKind::Connecting => "Connecting",
        StatusKind::Listening => "Listening",
        StatusKind::Paused => "Paused",
        StatusKind::Reconnecting => "Reconnecting",
        StatusKind::HistoryCleared => "HistoryCleared",
        StatusKind::Stopped => "Stopped",
    }
}

/// How many words a text has.
pub fn word_count(value: &str) -> (r: usize)
    ensures
        r == words(value@).len(),
{
    let all = split_words(value);
    assert(views(all@).len() == all@.len());
    all.len()
}

/// The number of characters of all passages.
pub open spec fn context_chars(snippets: Seq<KnowledgeSnippetModel>) -> nat
    decreases snippets.len(),
{
    if snippets.len() == 0 {
        0
    } else {
        context_chars(snippets.drop_last()) + snippets.last().text.len()
    }
}

/// A number, or the greatest of 64 bits where it is greater.
pub open spec fn capped(n: nat) -> u64 {
    if n > u64::MAX {
        u64::MAX
    } else {
        n as u64
    }
}

/// The passages in a line of the record.
pub open spec fn hit_fields(snippets: Seq<KnowledgeSnippetModel>) -> Seq<HitFieldsModel> {
    Seq::new(
        snippets.len(),
        |i: int|
            HitFieldsModel {
                id: snippets[i].id,
                source: snippets[i].source,
                heading: snippets[i].heading,
                score: snippets[i].score,
                chars: snippets[i].text.len() as usize,
                text: snippets[i].text,
            },
    )
}

/// The passages as they are remembered.
pub open spec fn hit_metrics(snippets: Seq<KnowledgeSnippetModel>) -> Seq<RetrievalHitMetricsModel> {
    Seq::new(
        snippets.len(),
        |i: int|
            RetrievalHitMetricsModel {
                id: snippets[i].id,
                source: snippets[i].source,
                heading: snippets[i].heading,
                text: snippets[i].text,
                score: snippets[i].score,
            },
    )
}

/// What is remembered of a look-up.
pub open spec fn retrieval_metrics(context: KnowledgeContextModel) -> RetrievalMetricsModel {
    RetrievalMetricsModel {
        searches: context.searches,
        embedding_calls: context.embedding_calls,
        embedding_prompt_tokens: context.embedding_prompt_tokens,
        embedding_total_tokens: context.embedding_total_tokens,
        snippets: context.snippets.len() as usize,
        context_chars: capped(context_chars(context.snippets)),
        embedding_ms: context.embedding_ms,
        search_ms: context.search_ms,
        final_wait_ms: context.final_wait_ms,
        hits: hit_metrics(context.snippets),
    }
}

/// The fields of a look-up.
pub open spec fn retrieval_fields(context: KnowledgeContextModel) -> Seq<FieldModel> {
    seq![
        number_field("searches"@, context.searches),
        number_field("embedding_calls"@, context.embedding_calls),
        number_field("embedding_prompt_tokens"@, context.embedding_prompt_tokens),
        number_field("embedding_total_tokens"@, context.embedding_total_tokens),
        number_field("snippets"@, context.snippets.len() as u64),
        number_field("context_chars"@, capped(context_chars(context.snippets))),
        number_field("embedding_ms"@, context.embedding_ms),
        number_field("search_ms"@, context.search_ms),
        number_field("final_wait_ms"@, context.final_wait_ms),
        FieldModel { name: "hits"@, value: FieldValueModel::Hits(hit_fields(context.snippets)) },
    ]
}

fn copy_hits(snippets: &Vec<crate::events::KnowledgeSnippet>) -> (r: (
    Vec<HitFields>,
    Vec<RetrievalHitMetrics>,
    u64,
))
    ensures
        ({
            let all = Seq::new(snippets@.len(), |i: int| snippets@[i]@);
            &&& hit_field_models(r.0@) == hit_fields(all)
            &&& Seq::new(r.1@.len(), |i: int| r.1@[i]@) == hit_metrics(all)
            &&& r.2 == capped(context_chars(all))
        }),
{
    let ghost all = Seq::new(snippets@.len(), |i: int| snippets@[i]@);
    let mut fields: Vec<HitFields> = Vec::new();
    let mut metrics: Vec<RetrievalHitMetrics> = Vec::new();
    let mut total: u128 = 0;
    let mut i: usize = 0;
    assert(all.take(0) =~= Seq::empty());
    while i < snippets.len()
        invariant
            all == Seq::new(snippets@.len(), |i: int| snippets@[i]@),
            i <= snippets@.len(),
            fields@.len() == i,
            metrics@.len() == i,
            forall|k: int| 0 <= k < i ==> #[trigger] fields@[k]@ == hit_fields(all)[k],
            forall|k: int| 0 <= k < i ==> #[trigger] metrics@[k]@ == hit_metrics(all)[k],
            total == context_chars(all.take(i as int)),
            total <= i * u64::MAX,
        decreases snippets@.len() - i,
    {
        let snippet = &snippets[i];
        let count: usize = char_len(snippet.text.as_str());
        assert(all.take(i + 1).drop_last() =~= all.take(i as int));
        assert(all.take(i + 1).last() == snippet@);
        assert((i + 1) * u64::MAX == i * u64::MAX + u64::MAX) by (nonlinear_arith);
        assert((i + 1) * u64::MAX <= u128::MAX) by (nonlinear_arith)
            requires
                0 <= i < u64::MAX,
        ;
        total = total + count as u128;
        let hit = HitFields {
            id: snippet.id.clone(),
            source: snippet.source.clone(),
            heading: snippet.heading.clone(),
            score: snippet.score,
            chars: count,
            text: snippet.text.clone(),
        };
        let kept = RetrievalHitMetrics {
            id: snippet.id.clone(),
            source: snippet.source.clone(),
            heading: snippet.heading.clone(),
            text: snippet.text.clone(),
            score: snippet.score,
        };
        assert(hit@ =~= hit_fields(all)[i as int]);
        assert(kept@ =~= hit_metrics(all)[i as int]);
        fields.push(hit);
        metrics.push(kept);
        i += 1;
    }
    assert(all.take(i as int) =~= all);
    assert(hit_field_models(fields@) =~= hit_fields(all));
    assert(Seq::new(metrics@.len(), |i: int| metrics@[i]@) =~= hit_metrics(all));
    let chars: u64 = if total > u64::MAX as u128 {
        u64::MAX
    } else {
        total as u64
    };
    (fields, metrics, chars)
}

// ---------------------------------------------------------------------------
// What an event changes, and the line for it
// ---------------------------------------------------------------------------

/// What comes of an event: what is remembered, and the line of the record.
#[verifier::ext_equal]
pub struct Recorded {
    pub state: RecorderModel,
    pub event: Seq<char>,
    pub request_id: Option<u64>,
    pub fields: Seq<FieldModel>,
}

/// The first of two moments, if it is known, else the second.
pub open spec fn first_moment(known: Option<u64>, moment: u64) -> Option<u64> {
    if known is Some {
        known
    } else {
        Some(moment)
    }
}

/// A text with more behind it, and a blank between where there is no white
/// space before what is added.
pub open spec fn with_text(target: Seq<char>, text: Seq<char>) -> Seq<char> {
    if target.len() > 0 && !(text.len() > 0 && white(text[0])) {
        target.push(' ') + text
    } else {
        target + text
    }
}

/// Adds a text behind another.
pub fn append_text(target: &mut String, text: &str)
    ensures
        final(target)@ == with_text(old(target)@, text@),
{
    let more = chars_of(text);
    if !target.as_str().is_empty() && !(more.len() > 0 && is_white(more[0])) {
        target.push(' ');
    }
    target.append(text);
}

/// The segments with the pending text, if there is any.
pub open spec fn with_segment(segments: Seq<Seq<char>>, pending: Seq<char>) -> Seq<Seq<char>> {
    if trim(pending).len() == 0 {
        segments
    } else {
        segments.push(trim(pending))
    }
}

/// Makes the pending text a segment, if there is any.
pub fn finish_recognition_segment(pending: &mut String, segments: &mut Vec<String>)
    ensures
        final(pending)@ == Seq::<char>::empty(),
        views(final(segments)@) == with_segment(views(old(segments)@), old(pending)@),
{
    let text = trimmed(pending.as_str());
    *pending = String::new();
    if !text.as_str().is_empty() {
        let ghost before = views(segments@);
        let ghost model = text@;
        segments.push(text);
        assert(views(segments@) =~= before.push(model));
    }
}

/// The list with a number at its end, if there is one.
pub open spec fn with_lag(lags: Seq<u64>, lag: Option<u64>) -> Seq<u64> {
    match lag {
        Some(value) => lags.push(value),
        None => lags,
    }
}

fn push_lag(lags: &mut Vec<u64>, lag: Option<u64>)
    ensures
        final(lags)@ == with_lag(old(lags)@, lag),
{
    if let Some(value) = lag {
        lags.push(value);
    }
}

impl RecorderModel {
    /// How late a report of a place in the sound came.
    pub open spec fn lag(self, elapsed_ms: u64, position_ms: Option<u64>) -> Option<u64> {
        between(between(Some(elapsed_ms), self.audio_stream_started_ms), position_ms)
    }

    /// A question begins to be spoken.
    pub open spec fn draft_begun(self, elapsed_ms: u64) -> RecorderModel {
        RecorderModel {
            draft_active: true,
            draft_started_ms: Some(elapsed_ms),
            last_final_ms: None,
            last_speech_final_ms: None,
            last_utterance_end_ms: None,
            last_word_end_audio_ms: None,
            last_word_to_boundary_ms: None,
            ..self
        }
    }

    /// There is an utterance that is being spoken.
    pub open spec fn with_utterance(self) -> RecorderModel {
        match self.active_utterance {
            Some(_) => self,
            None => RecorderModel {
                utterances: self.utterances.push(blank_utterance(self.utterances.len() as u64)),
                active_utterance: Some(self.utterances.len() as usize),
                ..self
            },
        }
    }

    /// The utterance that is being spoken with another value.
    pub open spec fn set_utterance(self, utterance: UtteranceMetricsModel) -> RecorderModel {
        RecorderModel {
            utterances: self.utterances.update(self.active_utterance->0 as int, utterance),
            ..self
        }
    }

    /// The utterance that is being spoken.
    pub open spec fn utterance(self) -> UtteranceMetricsModel {
        self.utterances[self.active_utterance->0 as int]
    }

    /// What is known of a request, with another value.
    pub open spec fn set_request(self, request_id: u64, metrics: RequestMetricsModel) -> RecorderModel {
        RecorderModel { requests: self.requests.insert(request_id, metrics), ..self }
    }

    /// What is known of a request.
    pub open spec fn request(self, request_id: u64) -> RequestMetricsModel {
        metrics_of(self.requests, request_id)
    }

    /// The segment that was pending is complete.
    pub open spec fn segment_finished(self) -> RecorderModel {
        RecorderModel {
            recognition_segments: with_segment(
                self.recognition_segments,
                self.pending_recognition,
            ),
            pending_recognition: Seq::empty(),
            ..self
        }
    }
}

/// The recognised words of the interviewer.
pub struct HeardModel {
    pub text: Seq<char>,
    pub is_final: bool,
    pub speech_final: bool,
    pub speech_final_deferred: bool,
    pub audio_end_ms: Option<u64>,
    pub last_word_end_ms: Option<u64>,
    pub delivery_lag_ms: Option<u64>,
}

/// What is remembered of final or changing words.
pub open spec fn words_heard(s: RecorderModel, elapsed_ms: u64, h: HeardModel) -> RecorderModel {
    let drafted = if s.draft_active {
        s
    } else {
        s.draft_begun(elapsed_ms)
    };
    let t = drafted.with_utterance();
    let u = UtteranceMetricsModel {
        first_transcript_ms: first_moment(t.utterance().first_transcript_ms, elapsed_ms),
        ..t.utterance()
    };
    if h.is_final {
        RecorderModel {
            stt: SttMetrics {
                transcripts: (t.stt.transcripts + 1) as u64,
                final_transcripts: (t.stt.final_transcripts + 1) as u64,
                ..t.stt
            },
            last_final_ms: Some(elapsed_ms),
            pending_recognition: with_text(t.pending_recognition, h.text),
            stt_latency: SttLatencyMetricsModel {
                final_delivery_lag_ms: with_lag(
                    t.stt_latency.final_delivery_lag_ms,
                    h.delivery_lag_ms,
                ),
                ..t.stt_latency
            },
            last_word_end_audio_ms: if h.last_word_end_ms is Some {
                h.last_word_end_ms
            } else {
                t.last_word_end_audio_ms
            },
            ..t.set_utterance(
                UtteranceMetricsModel {
                    first_final_ms: first_moment(u.first_final_ms, elapsed_ms),
                    final_text: with_text(u.final_text, h.text),
                    ..u
                },
            )
        }
    } else {
        RecorderModel {
            stt: SttMetrics {
                transcripts: (t.stt.transcripts + 1) as u64,
                interim_transcripts: (t.stt.interim_transcripts + 1) as u64,
                ..t.stt
            },
            stt_latency: SttLatencyMetricsModel {
                interim_delivery_lag_ms: with_lag(
                    t.stt_latency.interim_delivery_lag_ms,
                    h.delivery_lag_ms,
                ),
                ..t.stt_latency
            },
            ..t.set_utterance(
                UtteranceMetricsModel {
                    first_interim_ms: first_moment(u.first_interim_ms, elapsed_ms),
                    ..u
                },
            )
        }
    }
}

/// A number, or zero where there is none.
pub open spec fn or_zero(number: Option<u64>) -> u64 {
    match number {
        Some(value) => value,
        None => 0,
    }
}

/// What is remembered of the end of speech that comes with words.
pub open spec fn speech_ended(t: RecorderModel, elapsed_ms: u64, h: HeardModel) -> RecorderModel {
    let counted = (t.stt.speech_final_transcripts + 1) as u64;
    if !h.speech_final {
        t
    } else if h.speech_final_deferred {
        RecorderModel {
            stt: SttMetrics {
                speech_final_transcripts: counted,
                deferred_speech_final_transcripts: (t.stt.deferred_speech_final_transcripts
                    + 1) as u64,
                ..t.stt
            },
            ..t
        }
    } else {
        RecorderModel {
            stt: SttMetrics { speech_final_transcripts: counted, ..t.stt },
            last_speech_final_ms: Some(elapsed_ms),
            last_word_to_boundary_ms: added(
                between(h.audio_end_ms, h.last_word_end_ms),
                Some(or_zero(h.delivery_lag_ms)),
            ),
            ..t.set_utterance(
                UtteranceMetricsModel { speech_final_ms: Some(elapsed_ms), ..t.utterance() },
            ).segment_finished()
        }
    }
}

/// What is remembered of the start of speech.
pub open spec fn speech_begun(s: RecorderModel, elapsed_ms: u64, lag: Option<u64>) -> RecorderModel {
    let t = RecorderModel {
        stt_latency: SttLatencyMetricsModel {
            speech_started_delivery_lag_ms: with_lag(
                s.stt_latency.speech_started_delivery_lag_ms,
                lag,
            ),
            ..s.stt_latency
        },
        stt: SttMetrics { speech_started: (s.stt.speech_started + 1) as u64, ..s.stt },
        active_utterance: if s.active_utterance is Some && s.utterance().speech_started_ms is Some {
            None
        } else {
            s.active_utterance
        },
        ..s.draft_begun(elapsed_ms)
    };
    let v = t.with_utterance();
    v.set_utterance(
        UtteranceMetricsModel { speech_started_ms: Some(elapsed_ms), ..v.utterance() },
    )
}

/// What is remembered of the end of an utterance.
pub open spec fn utterance_ended(
    s: RecorderModel,
    elapsed_ms: u64,
    last_word_end_ms: Option<u64>,
    ignored: bool,
    deferred: bool,
    lag: Option<u64>,
) -> RecorderModel {
    let t = RecorderModel {
        stt_latency: SttLatencyMetricsModel {
            utterance_end_delivery_lag_ms: with_lag(
                s.stt_latency.utterance_end_delivery_lag_ms,
                lag,
            ),
            ..s.stt_latency
        },
        stt: SttMetrics {
            utterance_end: (s.stt.utterance_end + 1) as u64,
            ignored_utterance_end: if ignored {
                (s.stt.ignored_utterance_end + 1) as u64
            } else {
                s.stt.ignored_utterance_end
            },
            deferred_utterance_end: if !ignored && deferred {
                (s.stt.deferred_utterance_end + 1) as u64
            } else {
                s.stt.deferred_utterance_end
            },
            ..s.stt
        },
        ..s
    };
    if ignored || deferred {
        t
    } else {
        let closed = if t.active_utterance is Some {
            t.set_utterance(
                UtteranceMetricsModel { utterance_end_ms: Some(elapsed_ms), ..t.utterance() },
            )
        } else {
            t
        };
        RecorderModel {
            last_utterance_end_ms: if t.draft_active {
                Some(elapsed_ms)
            } else {
                t.last_utterance_end_ms
            },
            last_word_end_audio_ms: if last_word_end_ms is Some {
                last_word_end_ms
            } else {
                t.last_word_end_audio_ms
            },
            last_word_to_boundary_ms: if last_word_end_ms is Some {
                Some(or_zero(lag))
            } else {
                t.last_word_to_boundary_ms
            },
            active_utterance: None,
            ..closed.segment_finished()
        }
    }
}

/// The fields of a report of the recogniser.
pub open spec fn observation_fields(
    observation: SttObservationModel,
    speaker: Speaker,
    lag: Option<u64>,
) -> Seq<FieldModel> {
    match observation {
        SttObservationModel::AudioStreamStarted => seq![text_field("speaker"@, speaker.name())],
        SttObservationModel::Transcript {
            text,
            is_final,
            speech_final,
            speech_final_deferred,
            audio_start_ms,
            audio_duration_ms,
            last_word_end_ms,
        } => seq![
            text_field("text"@, text),
            chars_field(text),
            flag_field("is_final"@, is_final),
            flag_field("speech_final"@, speech_final),
            flag_field("speech_final_deferred"@, speech_final_deferred),
            optional_field("audio_start_ms"@, audio_start_ms),
            optional_field("audio_duration_ms"@, audio_duration_ms),
            optional_field("audio_end_ms"@, added(audio_start_ms, audio_duration_ms)),
            optional_field("last_word_end_ms"@, last_word_end_ms),
            optional_field("delivery_lag_ms"@, lag),
            text_field("speaker"@, speaker.name()),
        ],
        SttObservationModel::SpeechStarted { audio_timestamp_ms } => seq![
            optional_field("audio_timestamp_ms"@, audio_timestamp_ms),
            optional_field("delivery_lag_ms"@, lag),
            text_field("speaker"@, speaker.name()),
        ],
        SttObservationModel::UtteranceEnd { last_word_end_ms, ignored, deferred } => seq![
            optional_field("last_word_end_ms"@, last_word_end_ms),
            optional_field("delivery_lag_ms"@, lag),
            flag_field("ignored"@, ignored),
            flag_field("deferred"@, deferred),
            text_field("speaker"@, speaker.name()),
        ],
    }
}

/// The name of a report of the recogniser.
pub open spec fn observation_name(observation: SttObservationModel) -> Seq<char> {
    match observation {
        SttObservationModel::AudioStreamStarted => "audio_stream_started"@,
        SttObservationModel::Transcript { .. } => "stt_transcript"@,
        SttObservationModel::SpeechStarted { .. } => "speech_started"@,
        SttObservationModel::UtteranceEnd { .. } => "utterance_end"@,
    }
}

/// The place in the sound that a report speaks of.
pub open spec fn observed_position(observation: SttObservationModel) -> Option<u64> {
    match observation {
        SttObservationModel::AudioStreamStarted => None,
        SttObservationModel::Transcript { audio_start_ms, audio_duration_ms, .. } => added(
            audio_start_ms,
            audio_duration_ms,
        ),
        SttObservationModel::SpeechStarted { audio_timestamp_ms } => audio_timestamp_ms,
        SttObservationModel::UtteranceEnd { last_word_end_ms, .. } => last_word_end_ms,
    }
}

/// What is remembered of a report on the speech of the interviewer.
pub open spec fn observed(s: RecorderModel, elapsed_ms: u64, observation: SttObservationModel) -> RecorderModel {
    let lag = s.lag(elapsed_ms, observed_position(observation));
    match observation {
        SttObservationModel::AudioStreamStarted => RecorderModel {
            audio_stream_started_ms: Some(elapsed_ms),
            ..s
        },
        SttObservationModel::Transcript {
            text,
            is_final,
            speech_final,
            speech_final_deferred,
            audio_start_ms,
            audio_duration_ms,
            last_word_end_ms,
        } => {
            let h = HeardModel {
                text,
                is_final,
                speech_final,
                speech_final_deferred,
                audio_end_ms: added(audio_start_ms, audio_duration_ms),
                last_word_end_ms,
                delivery_lag_ms: lag,
            };
            speech_ended(words_heard(s, elapsed_ms, h), elapsed_ms, h)
        },
        SttObservationModel::SpeechStarted { .. } => speech_begun(s, elapsed_ms, lag),
        SttObservationModel::UtteranceEnd { last_word_end_ms, ignored, deferred } => utterance_ended(
            s,
            elapsed_ms,
            last_word_end_ms,
            ignored,
            deferred,
            lag,
        ),
    }
}

/// What is remembered of a submitted question.
pub open spec fn question_ready(s: RecorderModel, elapsed_ms: u64, t: TranscriptViewModel) -> RecorderModel {
    let asked = RequestMetricsModel {
        mode: t.mode.name(),
        speaker: t.speaker.name(),
        question: t.text,
        flush_reason: t.flush_reason,
        question_ready_ms: Some(elapsed_ms),
        ..s.request(t.sequence)
    };
    if t.speaker == Speaker::Interviewer {
        RecorderModel {
            draft_started_ms: None,
            last_final_ms: None,
            last_speech_final_ms: None,
            last_utterance_end_ms: None,
            last_word_end_audio_ms: None,
            last_word_to_boundary_ms: None,
            draft_active: false,
            ..s.set_request(
                t.sequence,
                RequestMetricsModel {
                    draft_started_ms: s.draft_started_ms,
                    last_final_ms: s.last_final_ms,
                    speech_final_ms: s.last_speech_final_ms,
                    utterance_end_ms: s.last_utterance_end_ms,
                    last_word_end_audio_ms: s.last_word_end_audio_ms,
                    last_word_to_boundary_ms: s.last_word_to_boundary_ms,
                    ..asked
                },
            )
        }
    } else {
        s.set_request(t.sequence, asked)
    }
}

/// Who spoke the words that the current answer is for.
pub open spec fn active_speaker(s: RecorderModel) -> Option<Seq<char>> {
    match s.active_request {
        Some(id) => if s.requests.contains_key(id) && s.request(id).speaker.len() > 0 {
            Some(s.request(id).speaker)
        } else {
            None
        },
        None => None,
    }
}

/// The state of a live-coding task as it is remembered.
pub open spec fn revision_of(s: RecorderModel, state: LiveCodingStateModel) -> LiveCodingRevisionModel {
    LiveCodingRevisionModel {
        request_id: s.active_request,
        speaker: active_speaker(s),
        revision: state.revision,
        summary: state.summary,
        candidate_context: state.candidate_context,
        explanation: state.explanation,
        language: state.language,
        code: state.code,
        change_note: state.change_note,
        changed_lines: state.changed_lines,
    }
}

/// The line of an event that concerns no request.
pub open spec fn plain_line(state: RecorderModel, event: Seq<char>, fields: Seq<FieldModel>) -> Recorded {
    Recorded { state, event, request_id: None, fields }
}

/// What comes of an event, but for the number of its line.
pub open spec fn recorded(s: RecorderModel, elapsed_ms: u64, event: OutputEventModel) -> Recorded {
    match event {
        OutputEventModel::ModeChanged { mode } => plain_line(
            s,
            "mode_changed"@,
            seq![text_field("mode"@, mode.name())],
        ),
        OutputEventModel::Status(status) => plain_line(
            s,
            "status"@,
            seq![text_field("kind"@, status_name(status.kind)), text_field("text"@, status.text)],
        ),
        OutputEventModel::SttObservation { speaker, observation } => {
            let heard = speaker == Speaker::Interviewer;
            plain_line(
                if heard {
                    observed(s, elapsed_ms, observation)
                } else {
                    s
                },
                observation_name(observation),
                observation_fields(
                    observation,
                    speaker,
                    if heard {
                        s.lag(elapsed_ms, observed_position(observation))
                    } else {
                        None
                    },
                ),
            )
        },
        OutputEventModel::TranscriptDraft { speaker, text } => plain_line(
            if speaker != Speaker::Interviewer {
                s
            } else if text.len() == 0 {
                RecorderModel { draft_active: false, ..s }
            } else if s.draft_active {
                s
            } else {
                RecorderModel { draft_active: true, draft_started_ms: Some(elapsed_ms), ..s }
            },
            "transcript_draft"@,
            seq![
                text_field("speaker"@, speaker.name()),
                text_field("text"@, text),
                chars_field(text),
            ],
        ),
        OutputEventModel::Transcript(t) => Recorded {
            state: question_ready(s, elapsed_ms, t),
            event: "question_ready"@,
            request_id: Some(t.sequence),
            fields: seq![
                text_field("text"@, t.text),
                text_field("mode"@, t.mode.name()),
                text_field("speaker"@, t.speaker.name()),
                chars_field(t.text),
                number_field("words"@, words(t.text).len() as u64),
                text_field("flush_reason"@, t.flush_reason),
            ],
        },
        OutputEventModel::Retrieval(view) => Recorded {
            state: s.set_request(
                view.request_id,
                RequestMetricsModel {
                    retrieval: Some(retrieval_metrics(view.context)),
                    ..s.request(view.request_id)
                },
            ),
            event: "rag_context_attached"@,
            request_id: Some(view.request_id),
            fields: retrieval_fields(view.context),
        },
        OutputEventModel::LlmQueued { request_id } => Recorded {
            state: s.set_request(
                request_id,
                RequestMetricsModel {
                    llm_queued_ms: Some(elapsed_ms),
                    ..s.request(request_id)
                },
            ),
            event: "llm_queued"@,
            request_id: Some(request_id),
            fields: Seq::empty(),
        },
        OutputEventModel::AnswerStarted(meta) => Recorded {
            state: RecorderModel {
                active_request: Some(meta.request_id),
                ..s.set_request(
                    meta.request_id,
                    RequestMetricsModel {
                        llm_started_ms: Some(elapsed_ms),
                        ..s.request(meta.request_id)
                    },
                )
            },
            event: "llm_started"@,
            request_id: Some(meta.request_id),
            fields: seq![
                text_field("mode"@, meta.mode.name()),
                text_field("speaker"@, meta.speaker.name()),
            ],
        },
        OutputEventModel::AnswerDelta { request_id, text } => Recorded {
            state: s.set_request(
                request_id,
                RequestMetricsModel {
                    first_token_ms: first_moment(s.request(request_id).first_token_ms, elapsed_ms),
                    answer: s.request(request_id).answer + text,
                    ..s.request(request_id)
                },
            ),
            event: "answer_delta"@,
            request_id: Some(request_id),
            fields: seq![text_field("text"@, text), chars_field(text)],
        },
        OutputEventModel::AnswerUsage { request_id, usage } => Recorded {
            state: s.set_request(
                request_id,
                RequestMetricsModel { usage: Some(usage), ..s.request(request_id) },
            ),
            event: "llm_usage"@,
            request_id: Some(request_id),
            fields: seq![
                number_field("prompt_tokens"@, usage.prompt_tokens),
                number_field("completion_tokens"@, usage.completion_tokens),
                number_field("total_tokens"@, usage.total_tokens),
                FieldModel { name: "cost"@, value: FieldValueModel::Cost(usage.cost) },
            ],
        },
        OutputEventModel::AnswerCompleted { request_id } => Recorded {
            state: RecorderModel {
                active_request: None,
                ..s.set_request(
                    request_id,
                    RequestMetricsModel {
                        completed_ms: Some(elapsed_ms),
                        ..s.request(request_id)
                    },
                )
            },
            event: "answer_completed"@,
            request_id: Some(request_id),
            fields: Seq::empty(),
        },
        OutputEventModel::LiveCodingUpdated(state) => Recorded {
            state: RecorderModel { live_coding: s.live_coding.push(revision_of(s, state)), ..s },
            event: "live_coding_updated"@,
            request_id: s.active_request,
            fields: seq![
                number_field("revision"@, state.revision),
                FieldModel {
                    name: "speaker"@,
                    value: FieldValueModel::OptionalText(active_speaker(s)),
                },
                text_field("summary"@, state.summary),
                text_field("candidate_context"@, state.candidate_context),
                text_field("explanation"@, state.explanation),
                text_field("language"@, state.language),
                text_field("code"@, state.code),
                text_field("change_note"@, state.change_note),
                FieldModel {
                    name: "changed_lines"@,
                    value: FieldValueModel::Numbers(state.changed_lines),
                },
            ],
        },
        OutputEventModel::QueueState(queue) => plain_line(
            s,
            "queue_state"@,
            seq![
                text_field("queue"@, queue.queue.name()),
                number_field("len"@, queue.len as u64),
            ],
        ),
        OutputEventModel::Error(error) => {
            let fields = seq![
                text_field("component"@, error.component.name()),
                text_field("message"@, error.message),
            ];
            if error.component == OutputComponent::Llm && s.active_request is Some {
                let id = s.active_request->0;
                Recorded {
                    state: RecorderModel {
                        active_request: None,
                        ..s.set_request(
                            id,
                            RequestMetricsModel { failed_ms: Some(elapsed_ms), ..s.request(id) },
                        )
                    },
                    event: "error"@,
                    request_id: Some(id),
                    fields,
                }
            } else {
                plain_line(s, "error"@, fields)
            }
        },
    }
}

/// The line of what comes of an event.
pub open spec fn line_of(r: Recorded, elapsed_ms: u64) -> LineModel {
    LineModel {
        run_id: r.state.run_id,
        sequence: (r.state.event_count + 1) as u64,
        elapsed_ms,
        event: r.event,
        request_id: r.request_id,
        fields: r.fields,
    }
}

/// What is remembered once the line was written.
pub open spec fn state_of(r: Recorded) -> RecorderModel {
    RecorderModel { event_count: (r.state.event_count + 1) as u64, ..r.state }
}

/// Whether the utterance that is being spoken is one of the utterances.
pub open spec fn sound(s: RecorderModel) -> bool {
    &&& match s.active_utterance {
        Some(at) => at < s.utterances.len(),
        None => true,
    }
    &&& s.utterances.len() <= usize::MAX
}

/// A record of which nothing was written.
pub open spec fn blank_record(run_id: Seq<char>) -> RecorderModel {
    RecorderModel {
        run_id,
        recognition_segments: Seq::empty(),
        pending_recognition: Seq::empty(),
        event_count: 0,
        requests: Map::empty(),
        utterances: Seq::empty(),
        live_coding: Seq::empty(),
        active_utterance: None,
        active_request: None,
        audio_stream_started_ms: None,
        draft_started_ms: None,
        draft_active: false,
        last_final_ms: None,
        last_speech_final_ms: None,
        last_utterance_end_ms: None,
        last_word_end_audio_ms: None,
        last_word_to_boundary_ms: None,
        stt: no_stt(),
        stt_latency: SttLatencyMetricsModel {
            interim_delivery_lag_ms: Seq::empty(),
            final_delivery_lag_ms: Seq::empty(),
            speech_started_delivery_lag_ms: Seq::empty(),
            utterance_end_delivery_lag_ms: Seq::empty(),
        },
    }
}

/// The start of a record.
pub open spec fn run_started(s: RecorderModel) -> Recorded {
    plain_line(s, "run_started"@, Seq::empty())
}

/// The end of a record: the pending text becomes a segment.
pub open spec fn run_completed(s: RecorderModel) -> Recorded {
    plain_line(s.segment_finished(), "run_completed"@, Seq::empty())
}

/// The line of an event that is about to be written.
struct Draft {
    event: &'static str,
    request_id: Option<u64>,
    fields: Vec<Field>,
}

fn add_field(fields: &mut Vec<Field>, field: Field)
    ensures
        field_models(final(fields)@) == field_models(old(fields)@).push(field@),
{
    let ghost before = field_models(fields@);
    let ghost model = field@;
    fields.push(field);
    assert(field_models(fields@) =~= before.push(model));
}

fn no_fields() -> (r: Vec<Field>)
    ensures
        field_models(r@) == Seq::<FieldModel>::empty(),
{
    let fields: Vec<Field> = Vec::new();
    assert(field_models(fields@) =~= Seq::empty());
    fields
}

fn first_of(known: Option<u64>, moment: u64) -> (r: Option<u64>)
    ensures
        r == first_moment(known, moment),
{
    if known.is_some() {
        known
    } else {
        Some(moment)
    }
}

fn transcript_fields(
    text: &String,
    is_final: bool,
    speech_final: bool,
    speech_final_deferred: bool,
    audio_start_ms: Option<u64>,
    audio_duration_ms: Option<u64>,
    last_word_end_ms: Option<u64>,
    speaker: Speaker,
    lag: Option<u64>,
) -> (r: Vec<Field>)
    ensures
        field_models(r@) == observation_fields(
            SttObservationModel::Transcript {
                text: text@,
                is_final,
                speech_final,
                speech_final_deferred,
                audio_start_ms,
                audio_duration_ms,
                last_word_end_ms,
            },
            speaker,
            lag,
        ),
{
    let mut fields = no_fields();
    add_field(&mut fields, put_text("text", text.as_str()));
    add_field(&mut fields, put_chars(text.as_str()));
    add_field(&mut fields, put_flag("is_final", is_final));
    add_field(&mut fields, put_flag("speech_final", speech_final));
    add_field(&mut fields, put_flag("speech_final_deferred", speech_final_deferred));
    add_field(&mut fields, put_optional("audio_start_ms", audio_start_ms));
    add_field(&mut fields, put_optional("audio_duration_ms", audio_duration_ms));
    add_field(
        &mut fields,
        put_optional("audio_end_ms", checked_sum(audio_start_ms, audio_duration_ms)),
    );
    add_field(&mut fields, put_optional("last_word_end_ms", last_word_end_ms));
    add_field(&mut fields, put_optional("delivery_lag_ms", lag));
    add_field(&mut fields, put_text("speaker", speaker.label()));
    assert(field_models(fields@) =~= observation_fields(
        SttObservationModel::Transcript {
            text: text@,
            is_final,
            speech_final,
            speech_final_deferred,
            audio_start_ms,
            audio_duration_ms,
            last_word_end_ms,
        },
        speaker,
        lag,
    ));
    fields
}

fn observation_draft(observation: &SttObservation, speaker: Speaker, lag: Option<u64>) -> (r: Draft)
    ensures
        r.event@ == observation_name(observation@),
        r.request_id is None,
        field_models(r.fields@) == observation_fields(observation@, speaker, lag),
{
    match observation {
        SttObservation::AudioStreamStarted => {
            let mut fields = no_fields();
            add_field(&mut fields, put_text("speaker", speaker.label()));
            assert(field_models(fields@) =~= observation_fields(observation@, speaker, lag));
            Draft { event: "audio_stream_started", request_id: None, fields }
        },
        SttObservation::Transcript {
            text,
            is_final,
            speech_final,
            speech_final_deferred,
            audio_start_ms,
            audio_duration_ms,
            last_word_end_ms,
        } => {
            let fields = transcript_fields(
                text,
                *is_final,
                *speech_final,
                *speech_final_deferred,
                *audio_start_ms,
                *audio_duration_ms,
                *last_word_end_ms,
                speaker,
                lag,
            );
            Draft { event: "stt_transcript", request_id: None, fields }
        },
        SttObservation::SpeechStarted { audio_timestamp_ms } => {
            let mut fields = no_fields();
            add_field(&mut fields, put_optional("audio_timestamp_ms", *audio_timestamp_ms));
            add_field(&mut fields, put_optional("delivery_lag_ms", lag));
            add_field(&mut fields, put_text("speaker", speaker.label()));
            assert(field_models(fields@) =~= observation_fields(observation@, speaker, lag));
            Draft { event: "speech_started", request_id: None, fields }
        },
        SttObservation::UtteranceEnd { last_word_end_ms, ignored, deferred } => {
            let mut fields = no_fields();
            add_field(&mut fields, put_optional("last_word_end_ms", *last_word_end_ms));
            add_field(&mut fields, put_optional("delivery_lag_ms", lag));
            add_field(&mut fields, put_flag("ignored", *ignored));
            add_field(&mut fields, put_flag("deferred", *deferred));
            add_field(&mut fields, put_text("speaker", speaker.label()));
            assert(field_models(fields@) =~= observation_fields(observation@, speaker, lag));
            Draft { event: "utterance_end", request_id: None, fields }
        },
    }
}

impl TelemetryRecorder {
    /// Whether the utterance that is being spoken is one of the utterances,
    /// and the requests stand in order.
    pub open spec fn well_formed(&self) -> bool {
        sound(self@)
    }

    /// Whether one more event can be counted.
    pub open spec fn has_room(&self) -> bool {
        self@.event_count < u64::MAX && self@.stt.has_room()
    }

    /// The record of a run that has just begun, of which nothing was written.
    pub fn new(run_id: &str) -> (r: Self)
        ensures
            r.well_formed(),
            r@ == blank_record(run_id@),
    {
        let r = TelemetryRecorder {
            run_id: run_id.to_owned(),
            recognition_segments: Vec::new(),
            pending_recognition: String::new(),
            event_count: 0,
            requests: BTreeMap::new(),
            utterances: Vec::new(),
            live_coding: Vec::new(),
            active_utterance: None,
            active_request: None,
            audio_stream_started_ms: None,
            draft_started_ms: None,
            draft_active: false,
            last_final_ms: None,
            last_speech_final_ms: None,
            last_utterance_end_ms: None,
            last_word_end_audio_ms: None,
            last_word_to_boundary_ms: None,
            stt: SttMetrics::default(),
            stt_latency: SttLatencyMetrics {
                interim_delivery_lag_ms: Vec::new(),
                final_delivery_lag_ms: Vec::new(),
                speech_started_delivery_lag_ms: Vec::new(),
                utterance_end_delivery_lag_ms: Vec::new(),
            },
        };
        assert(views(r.recognition_segments@) =~= Seq::empty());
        assert(metrics_models(r.requests@) =~= Map::empty());
        assert(utterance_models(r.utterances@) =~= Seq::empty());
        assert(revision_models(r.live_coding@) =~= Seq::empty());
        r
    }

    /// Whether one more event can be counted.
    pub fn can_record(&self) -> (r: bool)
        ensures
            r == self.has_room(),
    {
        self.event_count < u64::MAX && self.stt.can_count()
    }

    /// How late a report of a place in the sound came.
    pub fn delivery_lag_ms(&self, elapsed_ms: u64, audio_position_ms: Option<u64>) -> (r: Option<
        u64,
    >)
        ensures
            r == self@.lag(elapsed_ms, audio_position_ms),
    {
        duration(duration(Some(elapsed_ms), self.audio_stream_started_ms), audio_position_ms)
    }

    /// Numbers a line.
    fn write_event(&mut self, elapsed_ms: u64, draft: Draft) -> (r: TelemetryEvent)
        requires
            old(self)@.event_count < u64::MAX,
        ensures
            final(self)@ == (RecorderModel {
                event_count: (old(self)@.event_count + 1) as u64,
                ..old(self)@
            }),
            r@ == (LineModel {
                run_id: old(self)@.run_id,
                sequence: (old(self)@.event_count + 1) as u64,
                elapsed_ms,
                event: draft.event@,
                request_id: draft.request_id,
                fields: field_models(draft.fields@),
            }),
    {
        self.event_count += 1;
        TelemetryEvent {
            run_id: self.run_id.clone(),
            sequence: self.event_count,
            elapsed_ms,
            event: draft.event,
            request_id: draft.request_id,
            fields: draft.fields,
        }
    }

    /// The line with which a record begins.
    pub fn start(&mut self) -> (r: TelemetryEvent)
        requires
            old(self)@.event_count < u64::MAX,
        ensures
            final(self)@ == state_of(run_started(old(self)@)),
            r@ == line_of(run_started(old(self)@), 0),
    {
        let fields = no_fields();
        self.write_event(0, Draft { event: "run_started", request_id: None, fields })
    }

    /// The line with which a record ends; the pending text becomes a segment.
    pub fn complete(&mut self, elapsed_ms: u64) -> (r: TelemetryEvent)
        requires
            old(self)@.event_count < u64::MAX,
        ensures
            final(self)@ == state_of(run_completed(old(self)@)),
            r@ == line_of(run_completed(old(self)@), elapsed_ms),
    {
        let fields = no_fields();
        let line = self.write_event(
            elapsed_ms,
            Draft { event: "run_completed", request_id: None, fields },
        );
        finish_recognition_segment(&mut self.pending_recognition, &mut self.recognition_segments);
        line
    }

    fn start_draft(&mut self, elapsed_ms: u64)
        ensures
            final(self)@ == old(self)@.draft_begun(elapsed_ms),
    {
        self.draft_active = true;
        self.draft_started_ms = Some(elapsed_ms);
        self.last_final_ms = None;
        self.last_speech_final_ms = None;
        self.last_utterance_end_ms = None;
        self.last_word_end_audio_ms = None;
        self.last_word_to_boundary_ms = None;
    }

    /// Makes sure that there is an utterance that is being spoken, and returns
    /// where it stands.
    fn open_utterance(&mut self) -> (r: usize)
        requires
            old(self).well_formed(),
        ensures
            final(self)@ == old(self)@.with_utterance(),
            final(self)@.active_utterance == Some(r),
            r < final(self)@.utterances.len(),
            final(self)@.utterances.len() <= usize::MAX,
    {
        match self.active_utterance {
            Some(at) => at,
            None => {
                let ghost before = utterance_models(self.utterances@);
                let at: usize = self.utterances.len();
                let utterance = new_utterance(at as u64);
                let ghost model = utterance@;
                self.utterances.push(utterance);
                assert(utterance_models(self.utterances@) =~= before.push(model));
                assert(self.utterances.len() <= usize::MAX);
                self.active_utterance = Some(at);
                at
            },
        }
    }

    /// Takes the utterance that is being spoken out of the utterances.
    fn take_utterance(&mut self, at: usize) -> (r: UtteranceMetrics)
        requires
            at < old(self)@.utterances.len(),
            old(self)@.active_utterance == Some(at),
        ensures
            r@ == old(self)@.utterance(),
            final(self)@ == (RecorderModel {
                utterances: old(self)@.utterances.remove(at as int),
                ..old(self)@
            }),
    {
        let ghost before = utterance_models(self.utterances@);
        assert(before[at as int] == self.utterances@[at as int]@);
        let utterance = self.utterances.remove(at);
        assert(utterance_models(self.utterances@) =~= before.remove(at as int));
        utterance
    }

    /// Puts the utterance that is being spoken back.
    fn put_utterance(
        &mut self,
        at: usize,
        utterance: UtteranceMetrics,
        Ghost(before): Ghost<RecorderModel>,
    )
        requires
            at < before.utterances.len(),
            before.utterances.len() <= usize::MAX,
            before.active_utterance == Some(at),
            old(self)@ == (RecorderModel { utterances: before.utterances.remove(at as int), ..before }),
        ensures
            final(self)@ == before.set_utterance(utterance@),
    {
        let ghost open = utterance_models(self.utterances@);
        let ghost model = utterance@;
        self.utterances.insert(at, utterance);
        assert(utterance_models(self.utterances@) =~= open.insert(at as int, model));
        assert(self@ =~= before.set_utterance(model));
    }

    fn hear_words(
        &mut self,
        elapsed_ms: u64,
        words: &String,
        is_final: bool,
        last_word_end_ms: Option<u64>,
        lag: Option<u64>,
        Ghost(h): Ghost<HeardModel>,
    )
        requires
            old(self).well_formed(),
            old(self)@.stt.has_room(),
            h.text == words@,
            h.is_final == is_final,
            h.last_word_end_ms == last_word_end_ms,
            h.delivery_lag_ms == lag,
        ensures
            final(self)@ == words_heard(old(self)@, elapsed_ms, h),
            final(self)@.active_utterance is Some,
            final(self).well_formed(),
    {
        if !self.draft_active {
            self.start_draft(elapsed_ms);
        }
        let at: usize = self.open_utterance();
        let ghost t = self@;
        let mut utterance = self.take_utterance(at);
        utterance.first_transcript_ms = first_of(utterance.first_transcript_ms, elapsed_ms);
        if is_final {
            utterance.first_final_ms = first_of(utterance.first_final_ms, elapsed_ms);
            append_text(&mut utterance.final_text, words.as_str());
        } else {
            utterance.first_interim_ms = first_of(utterance.first_interim_ms, elapsed_ms);
        }
        self.put_utterance(at, utterance, Ghost(t));
        self.stt.transcripts += 1;
        if is_final {
            self.stt.final_transcripts += 1;
            self.last_final_ms = Some(elapsed_ms);
            append_text(&mut self.pending_recognition, words.as_str());
            push_lag(&mut self.stt_latency.final_delivery_lag_ms, lag);
            if last_word_end_ms.is_some() {
                self.last_word_end_audio_ms = last_word_end_ms;
            }
        } else {
            self.stt.interim_transcripts += 1;
            push_lag(&mut self.stt_latency.interim_delivery_lag_ms, lag);
        }
        assert(self@ =~= words_heard(old(self)@, elapsed_ms, h));
    }

    fn end_speech(
        &mut self,
        elapsed_ms: u64,
        speech_final: bool,
        deferred: bool,
        audio_end_ms: Option<u64>,
        last_word_end_ms: Option<u64>,
        lag: Option<u64>,
        Ghost(h): Ghost<HeardModel>,
    )
        requires
            old(self).well_formed(),
            old(self)@.active_utterance is Some,
            old(self)@.stt.speech_final_transcripts < u64::MAX,
            old(self)@.stt.deferred_speech_final_transcripts < u64::MAX,
            h.speech_final == speech_final,
            h.speech_final_deferred == deferred,
            h.audio_end_ms == audio_end_ms,
            h.last_word_end_ms == last_word_end_ms,
            h.delivery_lag_ms == lag,
        ensures
            final(self)@ == speech_ended(old(self)@, elapsed_ms, h),
            final(self).well_formed(),
    {
        if !speech_final {
            return;
        }
        if deferred {
            self.stt.speech_final_transcripts += 1;
            self.stt.deferred_speech_final_transcripts += 1;
            return;
        }
        let ghost t = self@;
        if let Some(at) = self.active_utterance {
            let mut utterance = self.take_utterance(at);
            utterance.speech_final_ms = Some(elapsed_ms);
            self.put_utterance(at, utterance, Ghost(t));
        }
        self.stt.speech_final_transcripts += 1;
        self.last_speech_final_ms = Some(elapsed_ms);
        let late: u64 = match lag {
            Some(value) => value,
            None => 0,
        };
        self.last_word_to_boundary_ms = checked_sum(
            duration(audio_end_ms, last_word_end_ms),
            Some(late),
        );
        finish_recognition_segment(&mut self.pending_recognition, &mut self.recognition_segments);
        assert(self@ =~= speech_ended(old(self)@, elapsed_ms, h));
    }

    fn begin_speech(&mut self, elapsed_ms: u64, lag: Option<u64>)
        requires
            old(self).well_formed(),
            old(self)@.stt.speech_started < u64::MAX,
        ensures
            final(self)@ == speech_begun(old(self)@, elapsed_ms, lag),
            final(self).well_formed(),
    {
        push_lag(&mut self.stt_latency.speech_started_delivery_lag_ms, lag);
        self.stt.speech_started += 1;
        self.start_draft(elapsed_ms);
        if let Some(at) = self.active_utterance {
            assert(self@.utterances[at as int] == self.utterances@[at as int]@);
            if self.utterances[at].speech_started_ms.is_some() {
                self.active_utterance = None;
            }
        }
        let at: usize = self.open_utterance();
        let ghost t = self@;
        let mut utterance = self.take_utterance(at);
        utterance.speech_started_ms = Some(elapsed_ms);
        self.put_utterance(at, utterance, Ghost(t));
        assert(self@ =~= speech_begun(old(self)@, elapsed_ms, lag));
    }

    fn end_utterance(
        &mut self,
        elapsed_ms: u64,
        last_word_end_ms: Option<u64>,
        ignored: bool,
        deferred: bool,
        lag: Option<u64>,
    )
        requires
            old(self).well_formed(),
            old(self)@.stt.has_room(),
        ensures
            final(self)@ == utterance_ended(
                old(self)@,
                elapsed_ms,
                last_word_end_ms,
                ignored,
                deferred,
                lag,
            ),
            final(self).well_formed(),
    {
        push_lag(&mut self.stt_latency.utterance_end_delivery_lag_ms, lag);
        self.stt.utterance_end += 1;
        if ignored {
            self.stt.ignored_utterance_end += 1;
            return;
        }
        if deferred {
            self.stt.deferred_utterance_end += 1;
            return;
        }
        if self.draft_active {
            self.last_utterance_end_ms = Some(elapsed_ms);
        }
        if last_word_end_ms.is_some() {
            self.last_word_end_audio_ms = last_word_end_ms;
            let late: u64 = match lag {
                Some(value) => value,
                None => 0,
            };
            self.last_word_to_boundary_ms = Some(late);
        }
        if let Some(at) = self.active_utterance {
            let ghost t = self@;
            let mut utterance = self.take_utterance(at);
            utterance.utterance_end_ms = Some(elapsed_ms);
            self.put_utterance(at, utterance, Ghost(t));
            self.active_utterance = None;
        }
        finish_recognition_segment(&mut self.pending_recognition, &mut self.recognition_segments);
        assert(self@ =~= utterance_ended(
            old(self)@,
            elapsed_ms,
            last_word_end_ms,
            ignored,
            deferred,
            lag,
        ));
    }

    /// Remembers recognised words, and returns how late they came.
    fn observe_words(
        &mut self,
        elapsed_ms: u64,
        words: &String,
        is_final: bool,
        speech_final: bool,
        deferred: bool,
        audio_end_ms: Option<u64>,
        last_word_end_ms: Option<u64>,
    ) -> (r: Option<u64>)
        requires
            old(self).well_formed(),
            old(self)@.stt.has_room(),
        ensures
            final(self).well_formed(),
            r == old(self)@.lag(elapsed_ms, audio_end_ms),
            ({
                let h = HeardModel {
                    text: words@,
                    is_final,
                    speech_final,
                    speech_final_deferred: deferred,
                    audio_end_ms,
                    last_word_end_ms,
                    delivery_lag_ms: r,
                };
                final(self)@ == speech_ended(words_heard(old(self)@, elapsed_ms, h), elapsed_ms, h)
            }),
    {
        let lag = self.delivery_lag_ms(elapsed_ms, audio_end_ms);
        let ghost h = HeardModel {
            text: words@,
            is_final,
            speech_final,
            speech_final_deferred: deferred,
            audio_end_ms,
            last_word_end_ms,
            delivery_lag_ms: lag,
        };
        self.hear_words(elapsed_ms, words, is_final, last_word_end_ms, lag, Ghost(h));
        self.end_speech(
            elapsed_ms,
            speech_final,
            deferred,
            audio_end_ms,
            last_word_end_ms,
            lag,
            Ghost(h),
        );
        lag
    }

    /// Remembers a report on the speech of the interviewer, and returns how
    /// late it came.
    fn observe(&mut self, elapsed_ms: u64, observation: &SttObservation) -> (r: Option<u64>)
        requires
            old(self).well_formed(),
            old(self)@.stt.has_room(),
        ensures
            final(self).well_formed(),
            final(self)@ == observed(old(self)@, elapsed_ms, observation@),
            r == old(self)@.lag(elapsed_ms, observed_position(observation@)),
    {
        match observation {
            SttObservation::AudioStreamStarted => {
                self.audio_stream_started_ms = Some(elapsed_ms);
                None
            },
            SttObservation::Transcript {
                text,
                is_final,
                speech_final,
                speech_final_deferred,
                audio_start_ms,
                audio_duration_ms,
                last_word_end_ms,
            } => {
                let audio_end_ms = checked_sum(*audio_start_ms, *audio_duration_ms);
                self.observe_words(
                    elapsed_ms,
                    text,
                    *is_final,
                    *speech_final,
                    *speech_final_deferred,
                    audio_end_ms,
                    *last_word_end_ms,
                )
            },
            SttObservation::SpeechStarted { audio_timestamp_ms } => {
                let lag = self.delivery_lag_ms(elapsed_ms, *audio_timestamp_ms);
                self.begin_speech(elapsed_ms, lag);
                lag
            },
            SttObservation::UtteranceEnd { last_word_end_ms, ignored, deferred } => {
                let lag = self.delivery_lag_ms(elapsed_ms, *last_word_end_ms);
                self.end_utterance(elapsed_ms, *last_word_end_ms, *ignored, *deferred, lag);
                lag
            },
        }
    }

    /// Remembers a report of the recogniser, where it is on the speech of the
    /// interviewer, and returns what its line says.
    fn observe_speech(
        &mut self,
        elapsed_ms: u64,
        speaker: Speaker,
        observation: &SttObservation,
    ) -> (r: Draft)
        requires
            old(self).well_formed(),
            old(self)@.stt.has_room(),
        ensures
            final(self).well_formed(),
            ({
                let meant = recorded(
                    old(self)@,
                    elapsed_ms,
                    OutputEventModel::SttObservation { speaker, observation: observation@ },
                );
                &&& final(self)@ == meant.state
                &&& r.event@ == meant.event
                &&& r.request_id == meant.request_id
                &&& field_models(r.fields@) == meant.fields
            }),
    {
        let lag = match speaker {
            Speaker::Interviewer => self.observe(elapsed_ms, observation),
            Speaker::Candidate => None,
        };
        observation_draft(observation, speaker, lag)
    }

    /// Remembers a report of the recogniser, where it is on the speech of the
    /// interviewer, and returns the line for it. The counts of speech stay in
    /// agreement, and what the candidate says is only written down.
    pub fn record_stt(
        &mut self,
        elapsed_ms: u64,
        speaker: Speaker,
        observation: &SttObservation,
    ) -> (r: TelemetryEvent)
        requires
            old(self).well_formed(),
            old(self).has_room(),
        ensures
            final(self).well_formed(),
            ({
                let meant = recorded(
                    old(self)@,
                    elapsed_ms,
                    OutputEventModel::SttObservation { speaker, observation: observation@ },
                );
                &&& final(self)@ == state_of(meant)
                &&& r@ == line_of(meant, elapsed_ms)
            }),
            counts_agree(old(self)@.stt) ==> counts_agree(final(self)@.stt),
            speaker == Speaker::Candidate ==> final(self)@ == (RecorderModel {
                event_count: (old(self)@.event_count + 1) as u64,
                ..old(self)@
            }),
    {
        let ghost event = OutputEventModel::SttObservation { speaker, observation: observation@ };
        proof {
            recording_counts_nothing(self@, elapsed_ms, event);
            if counts_agree(self@.stt) {
                counts_stay_in_agreement(self@, elapsed_ms, event);
            }
        }
        let draft = self.observe_speech(elapsed_ms, speaker, observation);
        self.write_event(elapsed_ms, draft)
    }

    fn set_metrics(
        &mut self,
        request_id: u64,
        metrics: RequestMetrics,
        Ghost(before): Ghost<RecorderModel>,
    )
        requires
            sound(before),
            old(self)@ == (RecorderModel {
                requests: before.requests.remove(request_id),
                ..before
            }),
        ensures
            final(self)@ == before.set_request(request_id, metrics@),
            final(self).well_formed(),
    {
        let ghost model = metrics@;
        put_metrics(&mut self.requests, request_id, metrics);
        assert(before.requests.remove(request_id).insert(request_id, model)
            =~= before.requests.insert(request_id, model));
        assert(self@ =~= before.set_request(request_id, model));
    }

    fn take_request(&mut self, request_id: u64) -> (r: RequestMetrics)
        ensures
            r@ == old(self)@.request(request_id),
            final(self)@ == (RecorderModel {
                requests: old(self)@.requests.remove(request_id),
                ..old(self)@
            }),
    {
        take_metrics(&mut self.requests, request_id)
    }

    fn record_question(&mut self, elapsed_ms: u64, t: &TranscriptView) -> (r: Draft)
        requires
            old(self).well_formed(),
        ensures
            final(self).well_formed(),
            final(self)@ == recorded(old(self)@, elapsed_ms, OutputEventModel::Transcript(t@)).state,
            r.event@ == "question_ready"@,
            r.request_id == Some(t.sequence),
            field_models(r.fields@) == recorded(
                old(self)@,
                elapsed_ms,
                OutputEventModel::Transcript(t@),
            ).fields,
    {
        let ghost before = self@;
        let taken = self.take_request(t.sequence);
        let mut metrics = taken;
        metrics.mode = t.mode.label().to_owned();
        metrics.speaker = t.speaker.label().to_owned();
        metrics.question = t.text.clone();
        metrics.flush_reason = t.flush_reason.clone();
        metrics.question_ready_ms = Some(elapsed_ms);
        if t.speaker == Speaker::Interviewer {
            metrics.draft_started_ms = self.draft_started_ms;
            metrics.last_final_ms = self.last_final_ms;
            metrics.speech_final_ms = self.last_speech_final_ms;
            metrics.utterance_end_ms = self.last_utterance_end_ms;
            metrics.last_word_end_audio_ms = self.last_word_end_audio_ms;
            metrics.last_word_to_boundary_ms = self.last_word_to_boundary_ms;
        }
        self.set_metrics(t.sequence, metrics, Ghost(before));
        if t.speaker == Speaker::Interviewer {
            self.draft_started_ms = None;
            self.last_final_ms = None;
            self.last_speech_final_ms = None;
            self.last_utterance_end_ms = None;
            self.last_word_end_audio_ms = None;
            self.last_word_to_boundary_ms = None;
            self.draft_active = false;
        }
        let mut fields = no_fields();
        add_field(&mut fields, put_text("text", t.text.as_str()));
        add_field(&mut fields, put_text("mode", t.mode.label()));
        add_field(&mut fields, put_text("speaker", t.speaker.label()));
        add_field(&mut fields, put_chars(t.text.as_str()));
        add_field(&mut fields, put_number("words", word_count(t.text.as_str()) as u64));
        add_field(&mut fields, put_text("flush_reason", t.flush_reason.as_str()));
        proof {
            let meant = recorded(old(self)@, elapsed_ms, OutputEventModel::Transcript(t@));
            assert(self@ =~= meant.state);
            assert(field_models(fields@) =~= meant.fields);
        }
        Draft { event: "question_ready", request_id: Some(t.sequence), fields }
    }

    fn record_retrieval(&mut self, view: &RetrievalView) -> (r: Draft)
        requires
            old(self).well_formed(),
        ensures
            final(self).well_formed(),
            final(self)@ == recorded(old(self)@, 0, OutputEventModel::Retrieval(view@)).state,
            r.event@ == "rag_context_attached"@,
            r.request_id == Some(view.request_id),
            field_models(r.fields@) == retrieval_fields(view@.context),
    {
        let ghost before = self@;
        let context = &view.context;
        let (hits, kept, total) = copy_hits(&context.snippets);
        let ghost all = Seq::new(context.snippets@.len(), |i: int| context.snippets@[i]@);
        assert(all =~= context@.snippets);
        let taken = self.take_request(view.request_id);
        let mut metrics = taken;
        let retrieval = RetrievalMetrics {
            searches: context.searches,
            embedding_calls: context.embedding_calls,
            embedding_prompt_tokens: context.embedding_prompt_tokens,
            embedding_total_tokens: context.embedding_total_tokens,
            snippets: context.snippets.len(),
            context_chars: total,
            embedding_ms: context.embedding_ms,
            search_ms: context.search_ms,
            final_wait_ms: context.final_wait_ms,
            hits: kept,
        };
        assert(retrieval@ =~= retrieval_metrics(context@));
        metrics.retrieval = Some(retrieval);
        self.set_metrics(view.request_id, metrics, Ghost(before));
        let mut fields = no_fields();
        add_field(&mut fields, put_number("searches", context.searches));
        add_field(&mut fields, put_number("embedding_calls", context.embedding_calls));
        add_field(
            &mut fields,
            put_number("embedding_prompt_tokens", context.embedding_prompt_tokens),
        );
        add_field(
            &mut fields,
            put_number("embedding_total_tokens", context.embedding_total_tokens),
        );
        add_field(&mut fields, put_number("snippets", context.snippets.len() as u64));
        add_field(&mut fields, put_number("context_chars", total));
        add_field(&mut fields, put_number("embedding_ms", context.embedding_ms));
        add_field(&mut fields, put_number("search_ms", context.search_ms));
        add_field(&mut fields, put_number("final_wait_ms", context.final_wait_ms));
        add_field(&mut fields, Field { name: "hits", value: FieldValue::Hits(hits) });
        assert(field_models(fields@) =~= retrieval_fields(view@.context));
        assert(self@ =~= recorded(old(self)@, 0, OutputEventModel::Retrieval(view@)).state);
        Draft { event: "rag_context_attached", request_id: Some(view.request_id), fields }
    }

    fn speaker_of_active(&self) -> (r: Option<String>)
        ensures
            some_text(r) == active_speaker(self@),
    {
        match self.active_request {
            None => None,
            Some(id) => {
                broadcast use vstd::std_specs::btree::group_btree_axioms;

                match self.requests.get(&id) {
                    Some(metrics) => if metrics.speaker.as_str().is_empty() {
                        None
                    } else {
                        Some(metrics.speaker.clone())
                    },
                    None => None,
                }
            },
        }
    }

    fn record_live_coding(&mut self, state: &LiveCodingState) -> (r: Draft)
        requires
            old(self).well_formed(),
        ensures
            final(self).well_formed(),
            ({
                let meant = recorded(old(self)@, 0, OutputEventModel::LiveCodingUpdated(state@));
                &&& final(self)@ == meant.state
                &&& r.event@ == meant.event
                &&& r.request_id == meant.request_id
                &&& field_models(r.fields@) == meant.fields
            }),
    {
        let speaker = self.speaker_of_active();
        let mut fields = no_fields();
        add_field(&mut fields, put_number("revision", state.revision));
        add_field(
            &mut fields,
            Field { name: "speaker", value: FieldValue::OptionalText(speaker.clone()) },
        );
        add_field(&mut fields, put_text("summary", state.summary.as_str()));
        add_field(&mut fields, put_text("candidate_context", state.candidate_context.as_str()));
        add_field(&mut fields, put_text("explanation", state.explanation.as_str()));
        add_field(&mut fields, put_text("language", state.language.as_str()));
        add_field(&mut fields, put_text("code", state.code.as_str()));
        add_field(&mut fields, put_text("change_note", state.change_note.as_str()));
        add_field(
            &mut fields,
            Field {
                name: "changed_lines",
                value: FieldValue::Numbers(copy_numbers(&state.changed_lines)),
            },
        );
        let revision = LiveCodingRevision {
            request_id: self.active_request,
            speaker,
            revision: state.revision,
            summary: state.summary.clone(),
            candidate_context: state.candidate_context.clone(),
            explanation: state.explanation.clone(),
            language: state.language.clone(),
            code: state.code.clone(),
            change_note: state.change_note.clone(),
            changed_lines: copy_numbers(&state.changed_lines),
        };
        let ghost before = revision_models(self.live_coding@);
        let ghost model = revision@;
        self.live_coding.push(revision);
        proof {
            let meant = recorded(old(self)@, 0, OutputEventModel::LiveCodingUpdated(state@));
            assert(revision_models(self.live_coding@) =~= before.push(model));
            assert(model =~= revision_of(old(self)@, state@));
            assert(self@ =~= meant.state);
            assert(field_models(fields@) =~= meant.fields);
        }
        Draft { event: "live_coding_updated", request_id: self.active_request, fields }
    }

    fn record_error(&mut self, elapsed_ms: u64, error: &AppErrorView) -> (r: Draft)
        requires
            old(self).well_formed(),
        ensures
            final(self).well_formed(),
            ({
                let meant = recorded(old(self)@, elapsed_ms, OutputEventModel::Error(error@));
                &&& final(self)@ == meant.state
                &&& r.event@ == meant.event
                &&& r.request_id == meant.request_id
                &&& field_models(r.fields@) == meant.fields
            }),
    {
        let ghost before = self@;
        let mut fields = no_fields();
        add_field(&mut fields, put_text("component", error.component.label()));
        add_field(&mut fields, put_text("message", error.message.as_str()));
        let mut request_id: Option<u64> = None;
        if error.component == OutputComponent::Llm {
            if let Some(id) = self.active_request {
                request_id = Some(id);
                let taken = self.take_request(id);
                let mut metrics = taken;
                metrics.failed_ms = Some(elapsed_ms);
                self.set_metrics(id, metrics, Ghost(before));
                self.active_request = None;
            }
        }
        proof {
            let meant = recorded(old(self)@, elapsed_ms, OutputEventModel::Error(error@));
            assert(self@ =~= meant.state);
            assert(field_models(fields@) =~= meant.fields);
        }
        Draft { event: "error", request_id, fields }
    }

    /// Remembers what happens to a request.
    fn record_answer(&mut self, elapsed_ms: u64, event: &OutputEvent) -> (r: Option<Draft>)
        requires
            old(self).well_formed(),
        ensures
            final(self).well_formed(),
            ({
                let meant = recorded(old(self)@, elapsed_ms, event@);
                match r {
                    Some(draft) => {
                        &&& final(self)@ == meant.state
                        &&& draft.event@ == meant.event
                        &&& draft.request_id == meant.request_id
                        &&& field_models(draft.fields@) == meant.fields
                    },
                    None => final(self)@ == old(self)@ && !(event@ is LlmQueued) && !(event@
                        is AnswerStarted) && !(event@ is AnswerDelta) && !(event@ is AnswerUsage)
                        && !(event@ is AnswerCompleted),
                }
            }),
    {
        let ghost before = self@;
        let ghost meant = recorded(before, elapsed_ms, event@);
        let mut fields = no_fields();
        match event {
            OutputEvent::LlmQueued { request_id } => {
                let taken = self.take_request(*request_id);
                let mut metrics = taken;
                metrics.llm_queued_ms = Some(elapsed_ms);
                self.set_metrics(*request_id, metrics, Ghost(before));
                Some(Draft { event: "llm_queued", request_id: Some(*request_id), fields })
            },
            OutputEvent::AnswerStarted(meta) => {
                let taken = self.take_request(meta.request_id);
                let mut metrics = taken;
                metrics.llm_started_ms = Some(elapsed_ms);
                self.set_metrics(meta.request_id, metrics, Ghost(before));
                self.active_request = Some(meta.request_id);
                add_field(&mut fields, put_text("mode", meta.mode.label()));
                add_field(&mut fields, put_text("speaker", meta.speaker.label()));
                assert(self@ =~= meant.state);
                assert(field_models(fields@) =~= meant.fields);
                Some(Draft { event: "llm_started", request_id: Some(meta.request_id), fields })
            },
            OutputEvent::AnswerDelta { request_id, text } => {
                let taken = self.take_request(*request_id);
                let mut metrics = taken;
                metrics.first_token_ms = first_of(metrics.first_token_ms, elapsed_ms);
                metrics.answer.append(text.as_str());
                self.set_metrics(*request_id, metrics, Ghost(before));
                add_field(&mut fields, put_text("text", text.as_str()));
                add_field(&mut fields, put_chars(text.as_str()));
                assert(field_models(fields@) =~= meant.fields);
                Some(Draft { event: "answer_delta", request_id: Some(*request_id), fields })
            },
            OutputEvent::AnswerUsage { request_id, usage } => {
                let taken = self.take_request(*request_id);
                let mut metrics = taken;
                metrics.usage = Some(*usage);
                self.set_metrics(*request_id, metrics, Ghost(before));
                add_field(&mut fields, put_number("prompt_tokens", usage.prompt_tokens));
                add_field(&mut fields, put_number("completion_tokens", usage.completion_tokens));
                add_field(&mut fields, put_number("total_tokens", usage.total_tokens));
                add_field(&mut fields, Field { name: "cost", value: FieldValue::Cost(usage.cost) });
                assert(field_models(fields@) =~= meant.fields);
                Some(Draft { event: "llm_usage", request_id: Some(*request_id), fields })
            },
            OutputEvent::AnswerCompleted { request_id } => {
                let taken = self.take_request(*request_id);
                let mut metrics = taken;
                metrics.completed_ms = Some(elapsed_ms);
                self.set_metrics(*request_id, metrics, Ghost(before));
                self.active_request = None;
                assert(self@ =~= meant.state);
                Some(Draft { event: "answer_completed", request_id: Some(*request_id), fields })
            },
            _ => None,
        }
    }

    /// Remembers an event that concerns no request.
    fn record_plain(&mut self, elapsed_ms: u64, event: &OutputEvent) -> (r: Option<Draft>)
        requires
            old(self).well_formed(),
        ensures
            final(self).well_formed(),
            ({
                let meant = recorded(old(self)@, elapsed_ms, event@);
                match r {
                    Some(draft) => {
                        &&& final(self)@ == meant.state
                        &&& draft.event@ == meant.event
                        &&& draft.request_id == meant.request_id
                        &&& field_models(draft.fields@) == meant.fields
                    },
                    None => final(self)@ == old(self)@ && !(event@ is ModeChanged) && !(event@
                        is Status) && !(event@ is TranscriptDraft) && !(event@ is QueueState),
                }
            }),
    {
        let ghost meant = recorded(self@, elapsed_ms, event@);
        let mut fields = no_fields();
        match event {
            OutputEvent::ModeChanged { mode } => {
                add_field(&mut fields, put_text("mode", mode.label()));
                assert(field_models(fields@) =~= meant.fields);
                Some(Draft { event: "mode_changed", request_id: None, fields })
            },
            OutputEvent::Status(status) => {
                add_field(&mut fields, put_text("kind", status_text(status.kind)));
                add_field(&mut fields, put_text("text", status.text.as_str()));
                assert(field_models(fields@) =~= meant.fields);
                Some(Draft { event: "status", request_id: None, fields })
            },
            OutputEvent::TranscriptDraft { speaker, text } => {
                if *speaker == Speaker::Interviewer {
                    if text.as_str().is_empty() {
                        self.draft_active = false;
                    } else if !self.draft_active {
                        self.draft_active = true;
                        self.draft_started_ms = Some(elapsed_ms);
                    }
                }
                add_field(&mut fields, put_text("speaker", speaker.label()));
                add_field(&mut fields, put_text("text", text.as_str()));
                add_field(&mut fields, put_chars(text.as_str()));
                assert(field_models(fields@) =~= meant.fields);
                assert(self@ =~= meant.state);
                Some(Draft { event: "transcript_draft", request_id: None, fields })
            },
            OutputEvent::QueueState(queue) => {
                add_field(&mut fields, put_text("queue", queue.queue.label()));
                add_field(&mut fields, put_number("len", queue.len as u64));
                assert(field_models(fields@) =~= meant.fields);
                Some(Draft { event: "queue_state", request_id: None, fields })
            },
            _ => None,
        }
    }

    /// Remembers an event that is neither part of an answer nor a report of the
    /// recogniser, nor without concern for requests.
    fn record_rest(&mut self, elapsed_ms: u64, event: &OutputEvent) -> (r: Draft)
        requires
            old(self).well_formed(),
            event@ is Transcript || event@ is Retrieval || event@
                is LiveCodingUpdated || event@ is Error,
        ensures
            final(self).well_formed(),
            ({
                let meant = recorded(old(self)@, elapsed_ms, event@);
                &&& final(self)@ == meant.state
                &&& r.event@ == meant.event
                &&& r.request_id == meant.request_id
                &&& field_models(r.fields@) == meant.fields
            }),
    {
        match event {
            OutputEvent::Transcript(transcript) => self.record_question(elapsed_ms, transcript),
            OutputEvent::Retrieval(view) => self.record_retrieval(view),
            OutputEvent::LiveCodingUpdated(state) => self.record_live_coding(state),
            OutputEvent::Error(error) => self.record_error(elapsed_ms, error),
            _ => Draft { event: "", request_id: None, fields: no_fields() },
        }
    }

    /// Remembers what the summary needs of an event, and returns the line for
    /// it.
    pub fn record(&mut self, elapsed_ms: u64, event: &OutputEvent) -> (r: TelemetryEvent)
        requires
            old(self).well_formed(),
            old(self).has_room(),
        ensures
            final(self).well_formed(),
            final(self)@ == state_of(recorded(old(self)@, elapsed_ms, event@)),
            r@ == line_of(recorded(old(self)@, elapsed_ms, event@), elapsed_ms),
    {
        proof {
            recording_counts_nothing(self@, elapsed_ms, event@);
        }
        if let Some(draft) = self.record_answer(elapsed_ms, event) {
            return self.write_event(elapsed_ms, draft);
        }
        if let Some(draft) = self.record_plain(elapsed_ms, event) {
            return self.write_event(elapsed_ms, draft);
        }
        if let OutputEvent::SttObservation { speaker, observation } = event {
            return self.record_stt(elapsed_ms, *speaker, observation);
        }
        let draft = self.record_rest(elapsed_ms, event);
        self.write_event(elapsed_ms, draft)
    }
}

/// What an event changes leaves the number of lines and the name of the run
/// alone.
proof fn recording_counts_nothing(s: RecorderModel, elapsed_ms: u64, event: OutputEventModel)
    ensures
        recorded(s, elapsed_ms, event).state.event_count == s.event_count,
        recorded(s, elapsed_ms, event).state.run_id == s.run_id,
{
}

/// What is remembered after all the events, each with its moment.
pub open spec fn state_after(s: RecorderModel, events: Seq<(u64, OutputEventModel)>) -> RecorderModel
    decreases events.len(),
{
    if events.len() == 0 {
        s
    } else {
        state_of(recorded(state_after(s, events.drop_last()), events.last().0, events.last().1))
    }
}

/// The lines of a record are numbered without a gap: after any events there
/// are as many more lines as there were events.
pub proof fn lines_are_numbered_without_a_gap(
    s: RecorderModel,
    events: Seq<(u64, OutputEventModel)>,
)
    requires
        s.event_count + events.len() <= u64::MAX,
    ensures
        state_after(s, events).event_count == s.event_count + events.len(),
    decreases events.len(),
{
    if events.len() > 0 {
        lines_are_numbered_without_a_gap(s, events.drop_last());
        recording_counts_nothing(
            state_after(s, events.drop_last()),
            events.last().0,
            events.last().1,
        );
    }
}

/// The lines of events, each with its moment.
pub open spec fn lines_of(s: RecorderModel, events: Seq<(u64, OutputEventModel)>) -> Seq<LineModel>
    decreases events.len(),
{
    if events.len() == 0 {
        Seq::empty()
    } else {
        let (moment, event) = events.last();
        lines_of(s, events.drop_last()).push(
            line_of(recorded(state_after(s, events.drop_last()), moment, event), moment),
        )
    }
}

/// Each event gives one line, with the next number, the name of the run and
/// the moment of the event.
pub proof fn each_event_gives_one_line(s: RecorderModel, events: Seq<(u64, OutputEventModel)>)
    requires
        s.event_count + events.len() <= u64::MAX,
    ensures
        lines_of(s, events).len() == events.len(),
        state_after(s, events).run_id == s.run_id,
        forall|k: int|
            #![trigger lines_of(s, events)[k]]
            0 <= k < events.len() ==> {
                &&& lines_of(s, events)[k].sequence == s.event_count + k + 1
                &&& lines_of(s, events)[k].run_id == s.run_id
                &&& lines_of(s, events)[k].elapsed_ms == events[k].0
            },
    decreases events.len(),
{
    if events.len() > 0 {
        let before = events.drop_last();
        each_event_gives_one_line(s, before);
        lines_are_numbered_without_a_gap(s, before);
        recording_counts_nothing(state_after(s, before), events.last().0, events.last().1);
        assert forall|k: int| #![trigger lines_of(s, events)[k]] 0 <= k < events.len() implies {
            &&& lines_of(s, events)[k].sequence == s.event_count + k + 1
            &&& lines_of(s, events)[k].run_id == s.run_id
            &&& lines_of(s, events)[k].elapsed_ms == events[k].0
        } by {
            if k < before.len() {
                assert(lines_of(s, events)[k] == lines_of(s, before)[k]);
            }
        }
    }
}

/// All lines of a run: its start, its events and its end.
pub open spec fn run_lines(
    run_id: Seq<char>,
    events: Seq<(u64, OutputEventModel)>,
    end_ms: u64,
) -> Seq<LineModel> {
    let begun = state_of(run_started(blank_record(run_id)));
    seq![line_of(run_started(blank_record(run_id)), 0)] + lines_of(begun, events) + seq![
        line_of(run_completed(state_after(begun, events)), end_ms),
    ]
}

/// The lines of a run are its start, one for each event and its end. They are
/// numbered from one without a gap, all have the name of the run, and where
/// the moments of the events never go back, neither do those of the lines.
pub proof fn runs_are_recorded_in_order(
    run_id: Seq<char>,
    events: Seq<(u64, OutputEventModel)>,
    end_ms: u64,
)
    requires
        events.len() + 2 <= u64::MAX,
        forall|i: int, j: int|
            0 <= i <= j < events.len() ==> (#[trigger] events[i]).0 <= (#[trigger] events[j]).0
                <= end_ms,
    ensures
        ({
            let lines = run_lines(run_id, events, end_ms);
            &&& lines.len() == events.len() + 2
            &&& forall|k: int|
                #![trigger lines[k]]
                0 <= k < lines.len() ==> lines[k].sequence == k + 1 && lines[k].run_id == run_id
            &&& forall|i: int, j: int|
                0 <= i <= j < lines.len() ==> (#[trigger] lines[i]).elapsed_ms <= (
                #[trigger] lines[j]).elapsed_ms
        }),
{
    let begun = state_of(run_started(blank_record(run_id)));
    let middle = lines_of(begun, events);
    let lines = run_lines(run_id, events, end_ms);
    each_event_gives_one_line(begun, events);
    lines_are_numbered_without_a_gap(begun, events);
    assert forall|k: int| #![trigger lines[k]] 0 <= k < lines.len() implies lines[k].sequence == k
        + 1 && lines[k].run_id == run_id by {
        if 0 < k <= middle.len() {
            assert(lines[k] == middle[k - 1]);
        }
    }
    assert forall|i: int, j: int| 0 <= i <= j < lines.len() implies (#[trigger] lines[i]).elapsed_ms
        <= (#[trigger] lines[j]).elapsed_ms by {
        if 0 < i <= middle.len() {
            assert(lines[i] == middle[i - 1]);
            assert(events[i - 1].0 <= events[i - 1].0 <= end_ms);
        }
        if 0 < j <= middle.len() {
            assert(lines[j] == middle[j - 1]);
        }
        if 0 < i && j <= middle.len() {
            assert(events[i - 1].0 <= events[j - 1].0);
        }
    }
}

/// How the counts of speech belong together: words are changing or final,
/// ends of speech come with words, ends that are waited on are ends, and ends
/// of utterances are ignored, waited on or neither.
pub open spec fn counts_agree(c: SttMetrics) -> bool {
    &&& c.transcripts == c.interim_transcripts + c.final_transcripts
    &&& c.deferred_speech_final_transcripts <= c.speech_final_transcripts <= c.transcripts
    &&& c.ignored_utterance_end + c.deferred_utterance_end <= c.utterance_end
}

/// The counts of speech belong together after every event, and what the
/// candidate says changes none of them.
pub proof fn counts_stay_in_agreement(s: RecorderModel, elapsed_ms: u64, event: OutputEventModel)
    requires
        counts_agree(s.stt),
        s.stt.has_room(),
    ensures
        counts_agree(state_of(recorded(s, elapsed_ms, event)).stt),
        counts_agree(no_stt()),
        (match event {
            OutputEventModel::SttObservation { speaker, .. } => speaker == Speaker::Candidate,
            _ => false,
        }) ==> state_of(recorded(s, elapsed_ms, event)) == (RecorderModel {
            event_count: (s.event_count + 1) as u64,
            ..s
        }),
{
}

/// What the candidate says is written down but changes nothing that is
/// remembered of the interviewer's speech or of requests.
pub proof fn candidate_speech_is_only_written_down(
    s: RecorderModel,
    elapsed_ms: u64,
    observation: SttObservationModel,
)
    ensures
        recorded(
            s,
            elapsed_ms,
            OutputEventModel::SttObservation { speaker: Speaker::Candidate, observation },
        ).state == s,
{
}

/// A part of an answer is remembered behind the parts before it, and the moment
/// of the first part stays.
pub proof fn answers_are_remembered_whole(
    s: RecorderModel,
    request_id: u64,
    elapsed_ms: u64,
    text: Seq<char>,
)
    requires
        sound(s),
    ensures
        ({
            let after = recorded(
                s,
                elapsed_ms,
                OutputEventModel::AnswerDelta { request_id, text },
            ).state;
            &&& after.request(request_id).answer == s.request(request_id).answer + text
            &&& after.request(request_id).first_token_ms is Some
            &&& s.request(request_id).first_token_ms is Some ==> after.request(
                request_id,
            ).first_token_ms == s.request(request_id).first_token_ms
        }),
{
}

// ---------------------------------------------------------------------------
// The end of a run
// ---------------------------------------------------------------------------

/// The summary of a run, but for what it was a run of.
#[derive(Debug)]
pub struct RunSummary {
    pub elapsed_ms: u64,
    pub event_count: u64,
    pub audio_stream_started_ms: Option<u64>,
    pub stt: SttMetrics,
    pub stt_latency: SttLatencySummary,
    pub aggregates: AggregateSummary,
    pub requests: Vec<RequestSummary>,
    pub utterances: Vec<UtteranceSummary>,
    pub live_coding: Vec<LiveCodingRevision>,
    pub recognition_segments: Vec<String>,
    pub accuracy: Option<AccuracySummary>,
}

/// The value of a [`RunSummary`].
#[verifier::ext_equal]
pub struct RunModel {
    pub elapsed_ms: u64,
    pub event_count: u64,
    pub audio_stream_started_ms: Option<u64>,
    pub stt: SttMetrics,
    pub stt_latency: SttLatencySummary,
    pub aggregates: AggregateSummaryModel,
    pub requests: Seq<RequestSummaryModel>,
    pub utterances: Seq<UtteranceSummaryModel>,
    pub live_coding: Seq<LiveCodingRevisionModel>,
    pub recognition_segments: Seq<Seq<char>>,
    pub accuracy: Option<AccuracyModel>,
}

/// The values of the summaries of utterances.
pub open spec fn utterance_summary_models(utterances: Seq<UtteranceSummary>) -> Seq<
    UtteranceSummaryModel,
> {
    Seq::new(utterances.len(), |i: int| utterances[i]@)
}

impl View for RunSummary {
    type V = RunModel;

    open spec fn view(&self) -> RunModel {
        RunModel {
            elapsed_ms: self.elapsed_ms,
            event_count: self.event_count,
            audio_stream_started_ms: self.audio_stream_started_ms,
            stt: self.stt,
            stt_latency: self.stt_latency,
            aggregates: self.aggregates@,
            requests: summary_models(self.requests@),
            utterances: utterance_summary_models(self.utterances@),
            live_coding: revision_models(self.live_coding@),
            recognition_segments: views(self.recognition_segments@),
            accuracy: match self.accuracy {
                Some(accuracy) => Some(accuracy@),
                None => None,
            },
        }
    }
}

/// Whether the numbers rise, and are all there are.
pub open spec fn lists_rising(numbers: Seq<u64>, all: Set<u64>) -> bool {
    &&& forall|i: int, j: int|
        0 <= i < j < numbers.len() ==> #[trigger] numbers[i] < #[trigger] numbers[j]
    &&& numbers.to_set() == all
}

/// The numbers, in rising order.
pub open spec fn rising_numbers(all: Set<u64>) -> Seq<u64> {
    choose|numbers: Seq<u64>| lists_rising(numbers, all)
}

proof fn rising_lists_are_one(a: Seq<u64>, b: Seq<u64>, all: Set<u64>)
    requires
        lists_rising(a, all),
        lists_rising(b, all),
    ensures
        a == b,
    decreases a.len(),
{
    if a.len() == 0 {
        if b.len() > 0 {
            assert(b.to_set().contains(b[0]));
            assert(a.to_set().contains(b[0]));
        }
        assert(a =~= b);
    } else {
        assert(a.to_set().contains(a.last()));
        assert(b.to_set().contains(a.last()));
        let k = choose|k: int| 0 <= k < b.len() && b[k] == a.last();
        assert(b.to_set().contains(b.last()));
        assert(a.to_set().contains(b.last()));
        let l = choose|l: int| 0 <= l < a.len() && a[l] == b.last();
        assert(a.last() == b.last()) by {
            if k < b.len() - 1 {
                assert(b[k] < b[b.len() - 1]);
                if l < a.len() - 1 {
                    assert(a[l] < a[a.len() - 1]);
                }
            }
        }
        let rest = all.remove(a.last());
        rising_list_without_last(a, all);
        rising_list_without_last(b, all);
        rising_lists_are_one(a.drop_last(), b.drop_last(), rest);
        assert(a =~= a.drop_last().push(a.last()));
        assert(b =~= b.drop_last().push(b.last()));
    }
}

proof fn rising_list_without_last(numbers: Seq<u64>, all: Set<u64>)
    requires
        lists_rising(numbers, all),
        numbers.len() > 0,
    ensures
        lists_rising(numbers.drop_last(), all.remove(numbers.last())),
{
    let shorter = numbers.drop_last();
    assert forall|n: u64| shorter.to_set().contains(n) <==> all.remove(numbers.last()).contains(
        n,
    ) by {
        if shorter.contains(n) {
            let i = choose|i: int| 0 <= i < shorter.len() && shorter[i] == n;
            assert(numbers[i] < numbers[numbers.len() - 1]);
            assert(numbers.to_set().contains(numbers[i]));
        }
        if all.remove(numbers.last()).contains(n) {
            assert(numbers.to_set().contains(n));
            let i = choose|i: int| 0 <= i < numbers.len() && numbers[i] == n;
            assert(shorter[i] == n);
        }
    }
    assert(shorter.to_set() =~= all.remove(numbers.last()));
}

/// The summaries of the requests, in rising order of their numbers.
pub open spec fn request_summaries(requests: Map<u64, RequestMetricsModel>) -> Seq<
    RequestSummaryModel,
> {
    let numbers = rising_numbers(requests.dom());
    Seq::new(numbers.len(), |i: int| request_summary(numbers[i], requests[numbers[i]]))
}

/// The summaries of the utterances.
pub open spec fn utterance_summaries(utterances: Seq<UtteranceMetricsModel>) -> Seq<
    UtteranceSummaryModel,
> {
    Seq::new(utterances.len(), |i: int| utterance_summary(utterances[i]))
}

/// The summary of what is remembered.
pub open spec fn run_summary(s: RecorderModel, elapsed_ms: u64, reference: Option<Seq<char>>) -> RunModel {
    RunModel {
        elapsed_ms,
        event_count: s.event_count,
        audio_stream_started_ms: s.audio_stream_started_ms,
        stt: s.stt,
        stt_latency: latency_summary(s.stt_latency),
        aggregates: aggregate(request_summaries(s.requests)),
        requests: request_summaries(s.requests),
        utterances: utterance_summaries(s.utterances),
        live_coding: s.live_coding,
        recognition_segments: s.recognition_segments,
        accuracy: match reference {
            Some(text) => Some(accuracy(text, s.recognition_segments)),
            None => None,
        },
    }
}

fn request_numbers(requests: &BTreeMap<u64, RequestMetrics>) -> (r: Vec<u64>)
    ensures
        r@ == rising_numbers(requests@.dom()),
        r@.to_set() == requests@.dom(),
        r@.no_duplicates(),
{
    broadcast use vstd::std_specs::btree::group_btree_axioms;

    let mut numbers: Vec<u64> = Vec::new();
    let entries = requests.iter();
    let ghost pairs = entries.remaining();
    let ghost listed = pairs.map_values(|pair: (&u64, &RequestMetrics)| *pair.0);
    assert(increasing_seq(listed));
    for entry in it: entries
        invariant
            pairs == it.seq(),
            listed == pairs.map_values(|pair: (&u64, &RequestMetrics)| *pair.0),
            numbers@ == listed.take(it.index()),
    {
        numbers.push(*entry.0);
        assert(numbers@ =~= listed.take(it.index() + 1));
    }
    proof {
        assert(numbers@ =~= listed);
        assert forall|number: u64| listed.to_set().contains(number)
            <==> requests@.dom().contains(number) by {
            if listed.contains(number) {
                let k = choose|k: int| 0 <= k < listed.len() && listed[k] == number;
                assert(requests@.contains_key(*pairs[k].0));
            }
            if requests@.contains_key(number) {
                assert(pairs.contains((&number, &requests@[number])));
                let k = choose|k: int|
                    0 <= k < pairs.len() && pairs[k] == (&number, &requests@[number]);
                assert(listed[k] == number);
            }
        }
        assert(listed.to_set() =~= requests@.dom());
        assert forall|i: int, j: int| 0 <= i < j < listed.len() implies #[trigger] listed[i]
            < #[trigger] listed[j] by {
            assert(listed[i].cmp_spec(&listed[j]) is Less);
        }
        assert(lists_rising(listed, requests@.dom()));
        rising_lists_are_one(listed, rising_numbers(requests@.dom()), requests@.dom());
    }
    numbers
}

fn summarize_requests(requests: BTreeMap<u64, RequestMetrics>) -> (r: Vec<RequestSummary>)
    ensures
        summary_models(r@) == request_summaries(metrics_models(requests@)),
{
    broadcast use vstd::std_specs::btree::group_btree_axioms;

    let ghost given = metrics_models(requests@);
    let ghost all = request_summaries(given);
    let numbers = request_numbers(&requests);
    let mut rest = requests;
    let mut out: Vec<RequestSummary> = Vec::new();
    let mut i: usize = 0;
    assert(given.dom() =~= requests@.dom());
    assert(summary_models(out@) =~= all.take(0));
    while i < numbers.len()
        invariant
            numbers@ == rising_numbers(given.dom()),
            numbers@.to_set() == given.dom(),
            numbers@.no_duplicates(),
            all == request_summaries(given),
            i <= numbers@.len(),
            summary_models(out@) == all.take(i as int),
            forall|k: int|
                i <= k < numbers@.len() ==> rest@.contains_key(#[trigger] numbers@[k])
                    && rest@[numbers@[k]]@ == given[numbers@[k]],
        decreases numbers@.len() - i,
    {
        let ghost before = summary_models(out@);
        let number: u64 = numbers[i];
        let taken = rest.remove(&number);
        if let Some(metrics) = taken {
            let summary = RequestSummary::from_metrics(number, metrics);
            let ghost model = summary@;
            assert(model == all[i as int]);
            out.push(summary);
            assert(summary_models(out@) =~= before.push(model));
            assert(all.take(i + 1) =~= all.take(i as int).push(all[i as int]));
        }
        i += 1;
    }
    assert(all.take(i as int) =~= all);
    out
}

fn summarize_utterances(utterances: Vec<UtteranceMetrics>) -> (r: Vec<UtteranceSummary>)
    ensures
        utterance_summary_models(r@) == utterance_summaries(utterance_models(utterances@)),
{
    let ghost given = utterance_models(utterances@);
    let ghost all = utterance_summaries(given);
    let mut rest = utterances;
    let mut reversed: Vec<UtteranceMetrics> = Vec::new();
    while rest.len() > 0
        invariant
            rest@.len() + reversed@.len() == given.len(),
            forall|k: int| 0 <= k < rest@.len() ==> #[trigger] rest@[k]@ == given[k],
            forall|k: int|
                0 <= k < reversed@.len() ==> #[trigger] reversed@[k]@ == given[given.len() - 1 - k],
        decreases rest@.len(),
    {
        if let Some(item) = rest.pop() {
            reversed.push(item);
        }
    }
    let mut out: Vec<UtteranceSummary> = Vec::new();
    assert(utterance_summary_models(out@) =~= all.take(0));
    while reversed.len() > 0
        invariant
            all == utterance_summaries(given),
            reversed@.len() <= given.len(),
            forall|k: int|
                0 <= k < reversed@.len() ==> #[trigger] reversed@[k]@ == given[given.len() - 1 - k],
            utterance_summary_models(out@) == all.take(given.len() - reversed@.len()),
        decreases reversed@.len(),
    {
        let ghost taken = given.len() - reversed@.len();
        if let Some(item) = reversed.pop() {
            assert(item@ == given[taken]);
            let summary = UtteranceSummary::from_metrics(item);
            let ghost before = utterance_summary_models(out@);
            let ghost model = summary@;
            assert(model == all[taken]);
            out.push(summary);
            assert(utterance_summary_models(out@) =~= before.push(model));
            assert(all.take(taken + 1) =~= all.take(taken).push(all[taken]));
        }
    }
    assert(all.take(given.len() as int) =~= all);
    out
}

impl TelemetryRecorder {
    /// The summary of what is remembered, against a reference if there is one.
    pub fn summarize(self, elapsed_ms: u64, reference: Option<&str>) -> (r: RunSummary)
        ensures
            r@ == run_summary(
                self@,
                elapsed_ms,
                match reference {
                    Some(text) => Some(text@),
                    None => None,
                },
            ),
    {
        let ghost s = self@;
        let requests = summarize_requests(self.requests);
        let utterances = summarize_utterances(self.utterances);
        let accuracy = match reference {
            Some(text) => Some(AccuracySummary::new(text, &self.recognition_segments)),
            None => None,
        };
        RunSummary {
            elapsed_ms,
            event_count: self.event_count,
            audio_stream_started_ms: self.audio_stream_started_ms,
            stt: self.stt,
            stt_latency: SttLatencySummary::from_metrics(&self.stt_latency),
            aggregates: AggregateSummary::new(&requests),
            requests,
            utterances,
            live_coding: self.live_coding,
            recognition_segments: self.recognition_segments,
            accuracy,
        }
    }

    /// Ends the record: its last line, and the summary.
    pub fn finish(self, elapsed_ms: u64, reference: Option<&str>) -> (r: (TelemetryEvent, RunSummary))
        requires
            self@.event_count < u64::MAX,
        ensures
            r.0@ == line_of(run_completed(self@), elapsed_ms),
            r.1@ == run_summary(
                state_of(run_completed(self@)),
                elapsed_ms,
                match reference {
                    Some(text) => Some(text@),
                    None => None,
                },
            ),
    {
        let mut recorder = self;
        let line = recorder.complete(elapsed_ms);
        let summary = recorder.summarize(elapsed_ms, reference);
        (line, summary)
    }
}

proof fn observing_changes_no_request(
    s: RecorderModel,
    elapsed_ms: u64,
    observation: SttObservationModel,
)
    ensures
        observed(s, elapsed_ms, observation).requests == s.requests,
{
}

/// An event changes what is known of the request it is about, and of no other.
#[verifier::rlimit(60)]
pub proof fn events_are_about_their_own_request(
    s: RecorderModel,
    elapsed_ms: u64,
    event: OutputEventModel,
    other: u64,
)
    requires
        recorded(s, elapsed_ms, event).request_id != Some(other),
    ensures
        recorded(s, elapsed_ms, event).state.request(other) == s.request(other),
        recorded(s, elapsed_ms, event).state.requests.contains_key(other)
            == s.requests.contains_key(other),
{
    let r = recorded(s, elapsed_ms, event);
    match event {
        OutputEventModel::SttObservation { speaker, observation } => {
            observing_changes_no_request(s, elapsed_ms, observation);
            assert(r.state.requests == s.requests);
        },
        OutputEventModel::Transcript(t) => {
            assert(r.state.requests == s.requests.insert(
                t.sequence,
                r.state.requests[t.sequence],
            ));
        },
        OutputEventModel::Retrieval(view) => {
            assert(r.state.requests == s.requests.insert(
                view.request_id,
                r.state.requests[view.request_id],
            ));
        },
        OutputEventModel::LlmQueued { request_id } => {
            assert(r.state.requests == s.requests.insert(request_id, r.state.requests[request_id]));
        },
        OutputEventModel::AnswerStarted(meta) => {
            assert(r.state.requests == s.requests.insert(
                meta.request_id,
                r.state.requests[meta.request_id],
            ));
        },
        OutputEventModel::AnswerDelta { request_id, .. } => {
            assert(r.state.requests == s.requests.insert(request_id, r.state.requests[request_id]));
        },
        OutputEventModel::AnswerUsage { request_id, .. } => {
            assert(r.state.requests == s.requests.insert(request_id, r.state.requests[request_id]));
        },
        OutputEventModel::AnswerCompleted { request_id } => {
            assert(r.state.requests == s.requests.insert(request_id, r.state.requests[request_id]));
        },
        OutputEventModel::Error(error) => {
            if r.request_id is Some {
                assert(r.state.requests == s.requests.insert(
                    s.active_request->0,
                    r.state.requests[s.active_request->0],
                ));
            }
        },
        _ => {
            assert(r.state.requests == s.requests);
        },
    }
}

/// A request is followed from its queue to its end: the moment of each step is
/// remembered under its own name, and a request that is being answered is the
/// one that fails.
pub proof fn requests_are_followed_to_their_end(
    s: RecorderModel,
    elapsed_ms: u64,
    id: u64,
    usage: LlmUsage,
    meta: crate::events::AnswerMeta,
    error: crate::events::AppErrorViewModel,
)
    ensures
        ({
            let r = recorded(s, elapsed_ms, OutputEventModel::LlmQueued { request_id: id });
            &&& r.request_id == Some(id)
            &&& r.event == "llm_queued"@
            &&& r.state.request(id) == (RequestMetricsModel {
                llm_queued_ms: Some(elapsed_ms),
                ..s.request(id)
            })
            &&& r.state.active_request == s.active_request
        }),
        ({
            let r = recorded(s, elapsed_ms, OutputEventModel::AnswerStarted(meta));
            &&& r.request_id == Some(meta.request_id)
            &&& r.event == "llm_started"@
            &&& r.state.request(meta.request_id) == (RequestMetricsModel {
                llm_started_ms: Some(elapsed_ms),
                ..s.request(meta.request_id)
            })
            &&& r.state.active_request == Some(meta.request_id)
        }),
        ({
            let r = recorded(s, elapsed_ms, OutputEventModel::AnswerUsage { request_id: id, usage });
            &&& r.request_id == Some(id)
            &&& r.event == "llm_usage"@
            &&& r.state.request(id) == (RequestMetricsModel {
                usage: Some(usage),
                ..s.request(id)
            })
            &&& r.state.active_request == s.active_request
        }),
        ({
            let r = recorded(s, elapsed_ms, OutputEventModel::AnswerCompleted { request_id: id });
            &&& r.request_id == Some(id)
            &&& r.event == "answer_completed"@
            &&& r.state.request(id) == (RequestMetricsModel {
                completed_ms: Some(elapsed_ms),
                ..s.request(id)
            })
            &&& r.state.active_request is None
        }),
        ({
            let r = recorded(s, elapsed_ms, OutputEventModel::Error(error));
            let answers = error.component == OutputComponent::Llm && s.active_request is Some;
            &&& r.event == "error"@
            &&& !answers ==> r.state == s && r.request_id is None
            &&& answers ==> {
                &&& r.request_id == s.active_request
                &&& r.state.active_request is None
                &&& r.state.request(s.active_request->0) == (RequestMetricsModel {
                    failed_ms: Some(elapsed_ms),
                    ..s.request(s.active_request->0)
                })
            }
        }),
{
}

/// A question takes over the moments of the interviewer's speech, which are then
/// forgotten; one of the candidate leaves them as they are.
pub proof fn questions_take_over_the_moments_of_speech(
    s: RecorderModel,
    elapsed_ms: u64,
    t: TranscriptViewModel,
)
    ensures
        ({
            let r = recorded(s, elapsed_ms, OutputEventModel::Transcript(t));
            let q = r.state.request(t.sequence);
            let before = s.request(t.sequence);
            &&& r.request_id == Some(t.sequence)
            &&& r.event == "question_ready"@
            &&& q.mode == t.mode.name()
            &&& q.speaker == t.speaker.name()
            &&& q.question == t.text
            &&& q.flush_reason == t.flush_reason
            &&& q.question_ready_ms == Some(elapsed_ms)
            &&& q.answer == before.answer
            &&& q.llm_queued_ms == before.llm_queued_ms
            &&& q.llm_started_ms == before.llm_started_ms
            &&& q.first_token_ms == before.first_token_ms
            &&& q.completed_ms == before.completed_ms
            &&& q.failed_ms == before.failed_ms
            &&& q.usage == before.usage
            &&& q.retrieval == before.retrieval
            &&& t.speaker == Speaker::Interviewer ==> {
                &&& q.draft_started_ms == s.draft_started_ms
                &&& q.last_final_ms == s.last_final_ms
                &&& q.speech_final_ms == s.last_speech_final_ms
                &&& q.utterance_end_ms == s.last_utterance_end_ms
                &&& q.last_word_end_audio_ms == s.last_word_end_audio_ms
                &&& q.last_word_to_boundary_ms == s.last_word_to_boundary_ms
                &&& r.state.draft_started_ms is None
                &&& r.state.last_final_ms is None
                &&& r.state.last_speech_final_ms is None
                &&& r.state.last_utterance_end_ms is None
                &&& r.state.last_word_end_audio_ms is None
                &&& r.state.last_word_to_boundary_ms is None
                &&& !r.state.draft_active
            }
            &&& t.speaker != Speaker::Interviewer ==> {
                &&& q.draft_started_ms == before.draft_started_ms
                &&& q.last_final_ms == before.last_final_ms
                &&& q.speech_final_ms == before.speech_final_ms
                &&& q.utterance_end_ms == before.utterance_end_ms
                &&& r.state.draft_started_ms == s.draft_started_ms
                &&& r.state.last_final_ms == s.last_final_ms
                &&& r.state.last_speech_final_ms == s.last_speech_final_ms
                &&& r.state.last_utterance_end_ms == s.last_utterance_end_ms
                &&& r.state.draft_active == s.draft_active
            }
        }),
{
}

/// What was looked up for a request is remembered with it, passage by passage.
pub proof fn look_ups_are_remembered(
    s: RecorderModel,
    elapsed_ms: u64,
    request_id: u64,
    context: KnowledgeContextModel,
    k: int,
)
    requires
        0 <= k < context.snippets.len() <= usize::MAX,
    ensures
        ({
            let view = crate::events::RetrievalViewModel { request_id, context };
            let r = recorded(s, elapsed_ms, OutputEventModel::Retrieval(view));
            let m = r.state.request(request_id).retrieval->0;
            &&& r.state.request(request_id).retrieval is Some
            &&& r.request_id == Some(request_id)
            &&& r.event == "rag_context_attached"@
            &&& m.searches == context.searches
            &&& m.embedding_calls == context.embedding_calls
            &&& m.embedding_prompt_tokens == context.embedding_prompt_tokens
            &&& m.embedding_total_tokens == context.embedding_total_tokens
            &&& m.embedding_ms == context.embedding_ms
            &&& m.search_ms == context.search_ms
            &&& m.final_wait_ms == context.final_wait_ms
            &&& m.snippets == context.snippets.len()
            &&& context_chars(context.snippets) <= u64::MAX ==> m.context_chars == context_chars(
                context.snippets,
            )
            &&& m.hits.len() == context.snippets.len()
            &&& m.hits[k].id == context.snippets[k].id
            &&& m.hits[k].source == context.snippets[k].source
            &&& m.hits[k].heading == context.snippets[k].heading
            &&& m.hits[k].text == context.snippets[k].text
            &&& m.hits[k].score == context.snippets[k].score
        }),
{
}

/// The length of a context is that of all its passages together.
pub proof fn every_passage_counts(
    a: Seq<KnowledgeSnippetModel>,
    b: Seq<KnowledgeSnippetModel>,
    one: KnowledgeSnippetModel,
)
    ensures
        context_chars(a + b) == context_chars(a) + context_chars(b),
        context_chars(seq![one]) == one.text.len(),
        context_chars(Seq::empty()) == 0,
    decreases b.len(),
{
    assert(seq![one].drop_last() =~= Seq::empty());
    assert(context_chars(seq![one].drop_last()) == 0);
    if b.len() == 0 {
        assert(a + b =~= a);
    } else {
        every_passage_counts(a, b.drop_last(), one);
        assert((a + b).drop_last() =~= a + b.drop_last());
    }
}

/// Words are put behind words with a blank between them, unless there are none
/// before or the later ones begin with white space; a part of speech is kept
/// without the white space around it, and not at all where it is blank.
pub proof fn words_are_put_behind_words(
    target: Seq<char>,
    text: Seq<char>,
    segments: Seq<Seq<char>>,
)
    ensures
        with_text(Seq::empty(), text) == text,
        target.len() > 0 && text.len() > 0 && white(text[0]) ==> with_text(target, text) == target
            + text,
        target.len() > 0 && !(text.len() > 0 && white(text[0])) ==> with_text(target, text) == target
            + seq![' '] + text,
        trim(target).len() == 0 ==> with_segment(segments, target) == segments,
        trim(target).len() > 0 ==> with_segment(segments, target) == segments.push(trim(target)),
{
    assert(Seq::<char>::empty() + text =~= text);
    assert(target.push(' ') =~= target + seq![' ']);
}

/// Each transcript counts once, as final or as changing; final words are kept in
/// order, and the first moment of each kind is the one that is remembered.
pub proof fn transcripts_are_counted_and_kept(s: RecorderModel, elapsed_ms: u64, h: HeardModel)
    requires
        sound(s),
        s.stt.has_room(),
        s.utterances.len() < usize::MAX,
    ensures
        ({
            let t = words_heard(s, elapsed_ms, h);
            let was = s.active_utterance is Some;
            let u = t.utterance();
            &&& t.active_utterance is Some
            &&& was ==> t.active_utterance == s.active_utterance && t.utterances.len()
                == s.utterances.len()
            &&& !was ==> t.utterances.len() == s.utterances.len() + 1 && t.active_utterance->0
                == s.utterances.len()
            &&& t.stt.transcripts == s.stt.transcripts + 1
            &&& h.is_final ==> t.stt.final_transcripts == s.stt.final_transcripts + 1
                && t.stt.interim_transcripts == s.stt.interim_transcripts
            &&& !h.is_final ==> t.stt.interim_transcripts == s.stt.interim_transcripts + 1
                && t.stt.final_transcripts == s.stt.final_transcripts
            &&& h.is_final ==> t.pending_recognition == with_text(s.pending_recognition, h.text)
            &&& !h.is_final ==> t.pending_recognition == s.pending_recognition
            &&& h.is_final ==> t.last_final_ms == Some(elapsed_ms)
            &&& h.is_final && h.last_word_end_ms is Some ==> t.last_word_end_audio_ms
                == h.last_word_end_ms
            &&& was && s.utterance().first_transcript_ms is Some ==> u.first_transcript_ms
                == s.utterance().first_transcript_ms
            &&& !was || s.utterance().first_transcript_ms is None ==> u.first_transcript_ms == Some(
                elapsed_ms,
            )
            &&& h.is_final && was ==> u.final_text == with_text(s.utterance().final_text, h.text)
            &&& h.is_final && !was ==> u.final_text == h.text
            &&& h.is_final && (!was || s.utterance().first_final_ms is None) ==> u.first_final_ms
                == Some(elapsed_ms)
            &&& h.is_final && was && s.utterance().first_final_ms is Some ==> u.first_final_ms
                == s.utterance().first_final_ms
            &&& !h.is_final && (!was || s.utterance().first_interim_ms is None)
                ==> u.first_interim_ms == Some(elapsed_ms)
            &&& !h.is_final && was && s.utterance().first_interim_ms is Some ==> u.first_interim_ms
                == s.utterance().first_interim_ms
            &&& t.draft_active
            &&& s.draft_active ==> t.draft_started_ms == s.draft_started_ms
            &&& !s.draft_active ==> t.draft_started_ms == Some(elapsed_ms)
            &&& h.delivery_lag_ms matches Some(lag) ==> {
                &&& h.is_final ==> t.stt_latency.final_delivery_lag_ms
                    == s.stt_latency.final_delivery_lag_ms.push(lag)
                &&& !h.is_final ==> t.stt_latency.interim_delivery_lag_ms
                    == s.stt_latency.interim_delivery_lag_ms.push(lag)
            }
            &&& h.is_final ==> t.stt_latency.interim_delivery_lag_ms
                == s.stt_latency.interim_delivery_lag_ms
            &&& !h.is_final ==> t.stt_latency.final_delivery_lag_ms
                == s.stt_latency.final_delivery_lag_ms
            &&& t.requests == s.requests
            &&& t.recognition_segments == s.recognition_segments
        }),
{
    assert(with_text(Seq::empty(), h.text) =~= h.text);
}

/// The end of speech closes what was recognised, unless it was put off; it
/// counts either way.
pub proof fn the_end_of_speech_closes_what_was_recognised(
    t: RecorderModel,
    elapsed_ms: u64,
    h: HeardModel,
)
    requires
        sound(t),
        t.active_utterance is Some,
        t.stt.has_room(),
    ensures
        ({
            let r = speech_ended(t, elapsed_ms, h);
            &&& !h.speech_final ==> r == t
            &&& h.speech_final ==> r.stt.speech_final_transcripts == t.stt.speech_final_transcripts
                + 1
            &&& h.speech_final && h.speech_final_deferred ==> {
                &&& r.stt.deferred_speech_final_transcripts
                    == t.stt.deferred_speech_final_transcripts + 1
                &&& r.recognition_segments == t.recognition_segments
                &&& r.pending_recognition == t.pending_recognition
                &&& r.last_speech_final_ms == t.last_speech_final_ms
                &&& r.utterances == t.utterances
            }
            &&& h.speech_final && !h.speech_final_deferred ==> {
                &&& r.stt.deferred_speech_final_transcripts
                    == t.stt.deferred_speech_final_transcripts
                &&& r.last_speech_final_ms == Some(elapsed_ms)
                &&& r.utterance().speech_final_ms == Some(elapsed_ms)
                &&& r.pending_recognition.len() == 0
                &&& r.recognition_segments == with_segment(
                    t.recognition_segments,
                    t.pending_recognition,
                )
                &&& h.audio_end_ms is Some && h.last_word_end_ms is Some && h.last_word_end_ms->0
                    <= h.audio_end_ms->0 && h.delivery_lag_ms is None ==> r.last_word_to_boundary_ms
                    == Some((h.audio_end_ms->0 - h.last_word_end_ms->0) as u64)
                &&& h.audio_end_ms is None || h.last_word_end_ms is None
                    ==> r.last_word_to_boundary_ms is None
            }
        }),
{
}

/// The beginning of speech begins a draft, and an utterance of its own unless one
/// has been begun that was not spoken yet.
pub proof fn the_beginning_of_speech_begins_an_utterance(
    s: RecorderModel,
    elapsed_ms: u64,
    lag: Option<u64>,
)
    requires
        sound(s),
        s.stt.has_room(),
        s.utterances.len() < usize::MAX,
    ensures
        ({
            let r = speech_begun(s, elapsed_ms, lag);
            let kept = s.active_utterance is Some && s.utterance().speech_started_ms is None;
            &&& r.active_utterance is Some
            &&& r.utterance().speech_started_ms == Some(elapsed_ms)
            &&& kept ==> r.active_utterance == s.active_utterance && r.utterances.len()
                == s.utterances.len()
            &&& !kept ==> r.utterances.len() == s.utterances.len() + 1 && r.active_utterance->0
                == s.utterances.len()
            &&& r.stt.speech_started == s.stt.speech_started + 1
            &&& r.draft_active
            &&& r.draft_started_ms == Some(elapsed_ms)
            &&& r.last_final_ms is None
            &&& r.last_speech_final_ms is None
            &&& r.last_utterance_end_ms is None
            &&& r.last_word_end_audio_ms is None
            &&& r.last_word_to_boundary_ms is None
            &&& lag matches Some(value) ==> r.stt_latency.speech_started_delivery_lag_ms
                == s.stt_latency.speech_started_delivery_lag_ms.push(value)
            &&& lag is None ==> r.stt_latency.speech_started_delivery_lag_ms
                == s.stt_latency.speech_started_delivery_lag_ms
        }),
{
}

/// The end of an utterance closes it and what was recognised, unless it was
/// ignored or put off; it counts either way.
pub proof fn the_end_of_an_utterance_closes_it(
    s: RecorderModel,
    elapsed_ms: u64,
    last_word_end_ms: Option<u64>,
    ignored: bool,
    deferred: bool,
    lag: Option<u64>,
)
    requires
        sound(s),
        s.stt.has_room(),
    ensures
        ({
            let r = utterance_ended(s, elapsed_ms, last_word_end_ms, ignored, deferred, lag);
            &&& r.stt.utterance_end == s.stt.utterance_end + 1
            &&& ignored ==> r.stt.ignored_utterance_end == s.stt.ignored_utterance_end + 1
                && r.stt.deferred_utterance_end == s.stt.deferred_utterance_end
            &&& !ignored ==> r.stt.ignored_utterance_end == s.stt.ignored_utterance_end
            &&& !ignored && deferred ==> r.stt.deferred_utterance_end
                == s.stt.deferred_utterance_end + 1
            &&& !ignored && !deferred ==> r.stt.deferred_utterance_end
                == s.stt.deferred_utterance_end
            &&& lag matches Some(value) ==> r.stt_latency.utterance_end_delivery_lag_ms
                == s.stt_latency.utterance_end_delivery_lag_ms.push(value)
            &&& ignored || deferred ==> {
                &&& r.active_utterance == s.active_utterance
                &&& r.utterances == s.utterances
                &&& r.recognition_segments == s.recognition_segments
                &&& r.pending_recognition == s.pending_recognition
                &&& r.last_utterance_end_ms == s.last_utterance_end_ms
                &&& r.last_word_end_audio_ms == s.last_word_end_audio_ms
                &&& r.last_word_to_boundary_ms == s.last_word_to_boundary_ms
            }
            &&& !ignored && !deferred ==> {
                &&& r.active_utterance is None
                &&& s.active_utterance matches Some(at) ==> r.utterances[at as int]
                    == (UtteranceMetricsModel {
                    utterance_end_ms: Some(elapsed_ms),
                    ..s.utterances[at as int]
                })
                &&& r.utterances.len() == s.utterances.len()
                &&& r.pending_recognition.len() == 0
                &&& r.recognition_segments == with_segment(
                    s.recognition_segments,
                    s.pending_recognition,
                )
                &&& s.draft_active ==> r.last_utterance_end_ms == Some(elapsed_ms)
                &&& !s.draft_active ==> r.last_utterance_end_ms == s.last_utterance_end_ms
                &&& last_word_end_ms is Some ==> r.last_word_end_audio_ms == last_word_end_ms
                &&& last_word_end_ms is None ==> r.last_word_end_audio_ms
                    == s.last_word_end_audio_ms && r.last_word_to_boundary_ms
                    == s.last_word_to_boundary_ms
                &&& last_word_end_ms is Some && lag is Some ==> r.last_word_to_boundary_ms == lag
                &&& last_word_end_ms is Some && lag is None ==> r.last_word_to_boundary_ms == Some(
                    0u64,
                )
            }
        }),
{
}

/// How late something came is the time since the sound began, less its place in
/// the sound; it is known where all three are and nothing came before its time.
pub proof fn lateness_is_counted_from_the_first_sound(
    s: RecorderModel,
    elapsed_ms: u64,
    position_ms: u64,
)
    ensures
        s.lag(elapsed_ms, None) is None,
        s.audio_stream_started_ms is None ==> s.lag(elapsed_ms, Some(position_ms)) is None,
        s.audio_stream_started_ms matches Some(start) ==> {
            &&& s.lag(elapsed_ms, Some(position_ms)) is Some <==> start + position_ms <= elapsed_ms
            &&& start + position_ms <= elapsed_ms ==> s.lag(elapsed_ms, Some(position_ms)) == Some(
                (elapsed_ms - start - position_ms) as u64,
            )
        },
{
}

/// A draft begins with its first words and is over when it is empty; drafts of
/// the candidate are only written down.
pub proof fn drafts_begin_with_words(
    s: RecorderModel,
    elapsed_ms: u64,
    speaker: Speaker,
    text: Seq<char>,
)
    ensures
        ({
            let r = recorded(s, elapsed_ms, OutputEventModel::TranscriptDraft { speaker, text });
            &&& speaker != Speaker::Interviewer ==> r.state == s
            &&& speaker == Speaker::Interviewer && text.len() == 0 ==> r.state == (RecorderModel {
                draft_active: false,
                ..s
            })
            &&& speaker == Speaker::Interviewer && text.len() > 0 && s.draft_active ==> r.state == s
            &&& speaker == Speaker::Interviewer && text.len() > 0 && !s.draft_active ==> r.state
                == (RecorderModel {
                draft_active: true,
                draft_started_ms: Some(elapsed_ms),
                ..s
            })
            &&& r.request_id is None
            &&& r.event == "transcript_draft"@
        }),
{
}

/// Each state of a live-coding task is kept, with the request that is being
/// answered and who asked it.
pub proof fn states_of_a_task_are_kept(
    s: RecorderModel,
    elapsed_ms: u64,
    state: LiveCodingStateModel,
)
    ensures
        ({
            let r = recorded(s, elapsed_ms, OutputEventModel::LiveCodingUpdated(state));
            let kept = r.state.live_coding.last();
            &&& r.state.live_coding.len() == s.live_coding.len() + 1
            &&& r.state.live_coding.drop_last() == s.live_coding
            &&& r.state.requests == s.requests
            &&& kept.request_id == s.active_request
            &&& kept.revision == state.revision
            &&& kept.summary == state.summary
            &&& kept.candidate_context == state.candidate_context
            &&& kept.explanation == state.explanation
            &&& kept.language == state.language
            &&& kept.code == state.code
            &&& kept.change_note == state.change_note
            &&& kept.changed_lines == state.changed_lines
            &&& s.active_request is None ==> kept.speaker is None
            &&& s.active_request matches Some(id) ==> (kept.speaker is Some
                <==> s.requests.contains_key(id) && s.requests[id].speaker.len() > 0)
            &&& s.active_request matches Some(id) ==> (kept.speaker matches Some(name) ==> name
                == s.requests[id].speaker)
        }),
{
    let r = recorded(s, elapsed_ms, OutputEventModel::LiveCodingUpdated(state));
    assert(r.state.live_coding.drop_last() =~= s.live_coding);
}

/// The summary of a run has one part for each request, by rising number, and one
/// for each utterance, in order; it compares what was recognised where there is
/// something to compare it with.
pub proof fn runs_are_summed_up_in_order(
    s: RecorderModel,
    elapsed_ms: u64,
    reference: Seq<char>,
    numbers: Seq<u64>,
)
    requires
        lists_rising(numbers, s.requests.dom()),
    ensures
        ({
            let r = run_summary(s, elapsed_ms, Some(reference));
            &&& r.requests.len() == numbers.len()
            &&& forall|k: int|
                0 <= k < numbers.len() ==> #[trigger] r.requests[k] == request_summary(
                    numbers[k],
                    s.requests[numbers[k]],
                )
            &&& r.utterances.len() == s.utterances.len()
            &&& forall|k: int|
                0 <= k < s.utterances.len() ==> #[trigger] r.utterances[k] == utterance_summary(
                    s.utterances[k],
                )
            &&& r.aggregates == aggregate(r.requests)
            &&& r.live_coding == s.live_coding
            &&& r.recognition_segments == s.recognition_segments
            &&& r.elapsed_ms == elapsed_ms
            &&& r.event_count == s.event_count
            &&& r.audio_stream_started_ms == s.audio_stream_started_ms
            &&& r.stt == s.stt
            &&& r.stt_latency == latency_summary(s.stt_latency)
            &&& r.accuracy == Some(accuracy(reference, s.recognition_segments))
            &&& run_summary(s, elapsed_ms, None).accuracy is None
        }),
{
    let chosen = rising_numbers(s.requests.dom());
    assert(lists_rising(chosen, s.requests.dom()));
    rising_lists_are_one(chosen, numbers, s.requests.dom());
}

} // verus!
