//! Decides when speech is submitted and what is reported of it.
//!
//! A [`TranscriptWorker`] takes in one input at a time and says what is to be
//! done: what to report, whether to start the inactivity timer anew, whether
//! to look something up ahead of time, and what to submit. Submitting goes in
//! three steps, since knowledge is looked up and the queue is written on the
//! way.
use vstd::prelude::*;

use crate::app::boundary::{asks, boundary_deferral, deferral, spoken_words};
use crate::events::{
    event_models, AppErrorView, AppErrorViewModel, DeepgramEvent, DeepgramEventModel,
    KnowledgeContext, KnowledgeContextModel, LlmRequest, LlmRequestModel, Mode, OutputComponent,
    OutputEvent, OutputEventModel, QueueKind, QueueState, RetrievalView, RetrievalViewModel,
    Speaker, StatusKind, StatusMessage, StatusMessageModel, SttObservation, SttObservationModel,
    SttStatus, TranscriptChunk, TranscriptChunkModel, TranscriptView, TranscriptViewModel,
};
use crate::llm::queue::LlmQueueError;
use crate::text::{decimal, decimal_text};
use crate::transcript::window::{novel, AssemblerModel, TranscriptWindowAssembler};

verus! {

/// The bit that sets the requests of the candidate apart.
pub const CANDIDATE_REQUEST_ID_BIT: u64 = 0x8000_0000_0000_0000;

/// Why the worker stopped.
#[derive(Clone, Copy, Debug, PartialEq, Eq, Structural)]
pub enum TranscriptWorkerError {
    LlmQueue(LlmQueueError),
    OutputChannelClosed,
    SttReadinessClosed,
}

impl TranscriptWorkerError {
    /// The failure in words.
    pub open spec fn words(self) -> Seq<char> {
        match self {
            TranscriptWorkerError::LlmQueue(_) => "LLM request queue closed"@,
            TranscriptWorkerError::OutputChannelClosed => "output channel closed"@,
            TranscriptWorkerError::SttReadinessClosed =>
                "STT worker stopped before benchmark transcript timing could start"@,
        }
    }

    /// The failure in words.
    pub fn message(self) -> (r: String)
        ensures
            r@ == self.words(),
    {
        match self {
            TranscriptWorkerError::LlmQueue(error) => error.message(),
            TranscriptWorkerError::OutputChannelClosed => "output channel closed".to_owned(),
            TranscriptWorkerError::SttReadinessClosed =>
                "STT worker stopped before benchmark transcript timing could start".to_owned(),
        }
    }
}

/// How much speech was worked on.
#[derive(Clone, Copy, Debug, PartialEq, Eq, Structural)]
pub struct TranscriptStats {
    pub transcripts: u64,
    pub final_transcripts: u64,
    pub chunks: u64,
}

impl TranscriptStats {
    /// Whether one more of anything can be counted.
    pub open spec fn has_room(self) -> bool {
        self.transcripts < u64::MAX && self.final_transcripts < u64::MAX && self.chunks < u64::MAX
    }

    /// Whether one more of anything can be counted.
    pub fn can_count(&self) -> (r: bool)
        ensures
            r == self.has_room(),
    {
        self.transcripts < u64::MAX && self.final_transcripts < u64::MAX && self.chunks < u64::MAX
    }
}

impl Default for TranscriptStats {
    fn default() -> (r: Self)
        ensures
            r == (TranscriptStats { transcripts: 0, final_transcripts: 0, chunks: 0 }),
    {
        TranscriptStats { transcripts: 0, final_transcripts: 0, chunks: 0 }
    }
}

/// What the worker can be told from outside.
#[derive(Clone, Copy, Debug, PartialEq, Eq, Structural)]
pub enum TranscriptCommand {
    SetPaused(bool),
    SetMode(Mode),
}

// ---------------------------------------------------------------------------
// Recogniser events
// ---------------------------------------------------------------------------

/// What the worker has gathered of the current utterance.
#[verifier::ext_equal]
pub struct UtteranceModel {
    pub assembler: AssemblerModel,
    pub pending_last_word_end_ms: Option<u64>,
    pub stats: TranscriptStats,
}

/// What comes of an event: the utterance, the reports, and the reason to
/// submit it, if there is one.
#[verifier::ext_equal]
pub struct HandledModel {
    pub utterance: UtteranceModel,
    pub outputs: Seq<OutputEventModel>,
    pub flush_reason: Option<Seq<char>>,
}

/// Whether a text seems to go on after a pause.
pub open spec fn goes_on(text: Seq<char>) -> bool {
    deferral(spoken_words(text), asks(text)) is Some
}

/// The report of the speech that was not submitted.
pub open spec fn draft(assembler: AssemblerModel, speaker: Speaker) -> OutputEventModel {
    OutputEventModel::TranscriptDraft { speaker, text: assembler.preview_text() }
}

/// That a connection is being made. The interviewer is meant where nobody is
/// named.
pub open spec fn connecting_words(speaker: Speaker) -> Seq<char> {
    if speaker == Speaker::Interviewer {
        "connecting to Deepgram"@
    } else {
        "connecting "@ + speaker.name() + " speech to Deepgram"@
    }
}

/// That a connection was made. The interviewer is meant where nobody is named.
pub open spec fn listening_words(speaker: Speaker) -> Seq<char> {
    if speaker == Speaker::Interviewer {
        "Deepgram connected; listening"@
    } else {
        "Deepgram connected; listening to "@ + speaker.name()
    }
}

/// The kind, the words and the queue length of a connection status.
pub open spec fn status_words(status: SttStatus, speaker: Speaker) -> (StatusKind, Seq<char>, usize) {
    match status {
        SttStatus::Connecting { retry_count, queue_len } => (
            StatusKind::Connecting,
            if retry_count == 0 {
                connecting_words(speaker)
            } else {
                connecting_words(speaker) + " (attempt "@ + decimal((retry_count + 1) as nat)
                    + ")"@
            },
            queue_len,
        ),
        SttStatus::Connected { queue_len } => (
            StatusKind::Listening,
            listening_words(speaker),
            queue_len,
        ),
        SttStatus::Reconnecting { retry_count, delay_secs, queue_len } => (
            StatusKind::Reconnecting,
            "Deepgram "@ + speaker.name() + " reconnect in "@ + decimal(delay_secs as nat)
                + "s (retry "@ + decimal(retry_count as nat) + ")"@,
            queue_len,
        ),
    }
}

/// The reports of a connection status.
pub open spec fn status_outputs(status: SttStatus, speaker: Speaker) -> Seq<OutputEventModel> {
    let (kind, text, queue_len) = status_words(status, speaker);
    seq![
        OutputEventModel::Status(StatusMessageModel { kind, text }),
        OutputEventModel::QueueState(QueueState { queue: QueueKind::Audio, len: queue_len }),
    ]
}

/// Whether the end of an utterance belongs to speech before the words that are
/// pending.
pub open spec fn is_stale_end(end_ms: Option<u64>, pending_ms: Option<u64>) -> bool {
    match (end_ms, pending_ms) {
        (Some(end), Some(pending)) => end < pending,
        _ => false,
    }
}

/// What comes of recognised words.
pub open spec fn handled_words(
    u: UtteranceModel,
    text: Seq<char>,
    is_final: bool,
    speech_final: bool,
    audio_start_ms: Option<u64>,
    audio_duration_ms: Option<u64>,
    last_word_end_ms: Option<u64>,
    speaker: Speaker,
) -> HandledModel {
    let assembler = u.assembler.pushed(text, is_final);
    let boundary = is_final && speech_final;
    let deferred = boundary && goes_on(assembler.preview_text());
    HandledModel {
        utterance: UtteranceModel {
            assembler,
            pending_last_word_end_ms: if last_word_end_ms is Some {
                last_word_end_ms
            } else {
                u.pending_last_word_end_ms
            },
            stats: TranscriptStats {
                transcripts: (u.stats.transcripts + 1) as u64,
                final_transcripts: if is_final {
                    (u.stats.final_transcripts + 1) as u64
                } else {
                    u.stats.final_transcripts
                },
                ..u.stats
            },
        },
        outputs: seq![
            OutputEventModel::SttObservation {
                speaker,
                observation: SttObservationModel::Transcript {
                    text,
                    is_final,
                    speech_final,
                    speech_final_deferred: deferred,
                    audio_start_ms,
                    audio_duration_ms,
                    last_word_end_ms,
                },
            },
            draft(assembler, speaker),
        ],
        flush_reason: if boundary && !deferred {
            Some("speech_final"@)
        } else {
            None
        },
    }
}

/// What comes of an event of the recogniser.
pub open spec fn handled(
    u: UtteranceModel,
    event: DeepgramEventModel,
    speaker: Speaker,
) -> HandledModel {
    match event {
        DeepgramEventModel::Status(status) => HandledModel {
            utterance: u,
            outputs: status_outputs(status, speaker),
            flush_reason: None,
        },
        DeepgramEventModel::AudioStreamStarted => HandledModel {
            utterance: u,
            outputs: seq![
                OutputEventModel::SttObservation {
                    speaker,
                    observation: SttObservationModel::AudioStreamStarted,
                },
            ],
            flush_reason: None,
        },
        DeepgramEventModel::Transcript {
            text,
            is_final,
            speech_final,
            audio_start_ms,
            audio_duration_ms,
            last_word_end_ms,
        } => if text.len() > 0 {
            handled_words(
                u,
                text,
                is_final,
                speech_final,
                audio_start_ms,
                audio_duration_ms,
                last_word_end_ms,
                speaker,
            )
        } else {
            HandledModel { utterance: u, outputs: Seq::empty(), flush_reason: None }
        },
        DeepgramEventModel::SpeechStarted { audio_timestamp_ms } => HandledModel {
            utterance: u,
            outputs: seq![
                OutputEventModel::SttObservation {
                    speaker,
                    observation: SttObservationModel::SpeechStarted { audio_timestamp_ms },
                },
            ],
            flush_reason: None,
        },
        DeepgramEventModel::UtteranceEnd { last_word_end_ms } => {
            let ignored = is_stale_end(last_word_end_ms, u.pending_last_word_end_ms);
            let deferred = !ignored && goes_on(u.assembler.preview_text());
            HandledModel {
                utterance: u,
                outputs: seq![
                    OutputEventModel::SttObservation {
                        speaker,
                        observation: SttObservationModel::UtteranceEnd {
                            last_word_end_ms,
                            ignored,
                            deferred,
                        },
                    },
                ],
                flush_reason: if ignored || deferred {
                    None
                } else {
                    Some("utterance_end"@)
                },
            }
        },
        DeepgramEventModel::Metadata => HandledModel {
            utterance: u,
            outputs: Seq::empty(),
            flush_reason: None,
        },
        DeepgramEventModel::Error(error) => HandledModel {
            utterance: u,
            outputs: seq![
                OutputEventModel::Error(
                    AppErrorViewModel {
                        component: OutputComponent::Stt,
                        message: speaker.name() + ": "@ + error,
                    },
                ),
            ],
            flush_reason: None,
        },
    }
}

fn report(output: &mut Vec<OutputEvent>, event: OutputEvent)
    ensures
        event_models(final(output)@) == event_models(old(output)@).push(event@),
{
    let ghost before = event_models(output@);
    let ghost model = event@;
    output.push(event);
    assert(event_models(output@) =~= before.push(model));
}

/// Reports the state of the connection to the recogniser.
pub fn handle_stt_status(status: SttStatus, output: &mut Vec<OutputEvent>, speaker: Speaker)
    ensures
        event_models(final(output)@) == event_models(old(output)@) + status_outputs(
            status,
            speaker,
        ),
{
    let ghost before = event_models(output@);
    let (kind, text, queue_len) = match status {
        SttStatus::Connecting { retry_count, queue_len } => {
            let mut text = "connecting to Deepgram".to_owned();
            if speaker != Speaker::Interviewer {
                text = "connecting ".to_owned();
                text.append(speaker.label());
                text.append(" speech to Deepgram");
            }
            if retry_count > 0 {
                text.append(" (attempt ");
                text.append(decimal_text(retry_count as u64 + 1).as_str());
                text.append(")");
            }
            (StatusKind::Connecting, text, queue_len)
        },
        SttStatus::Connected { queue_len } => {
            let mut text = "Deepgram connected; listening".to_owned();
            if speaker != Speaker::Interviewer {
                text = "Deepgram connected; listening to ".to_owned();
                text.append(speaker.label());
            }
            (StatusKind::Listening, text, queue_len)
        },
        SttStatus::Reconnecting { retry_count, delay_secs, queue_len } => {
            let mut text = "Deepgram ".to_owned();
            text.append(speaker.label());
            text.append(" reconnect in ");
            text.append(decimal_text(delay_secs).as_str());
            text.append("s (retry ");
            text.append(decimal_text(retry_count as u64).as_str());
            text.append(")");
            (StatusKind::Reconnecting, text, queue_len)
        },
    };
    report(output, OutputEvent::Status(StatusMessage { kind, text }));
    report(
        output,
        OutputEvent::QueueState(QueueState { queue: QueueKind::Audio, len: queue_len }),
    );
    assert(event_models(output@) =~= before + status_outputs(status, speaker));
}

/// Takes in an event of the recogniser: adds the reports to `output` and
/// returns why the utterance is to be submitted, if it is.
pub fn handle_deepgram_event(
    event: DeepgramEvent,
    assembler: &mut TranscriptWindowAssembler,
    pending_last_word_end_ms: &mut Option<u64>,
    output: &mut Vec<OutputEvent>,
    stats: &mut TranscriptStats,
    speaker: Speaker,
) -> (r: Option<&'static str>)
    requires
        old(stats).has_room(),
    ensures
        ({
            let before = UtteranceModel {
                assembler: old(assembler)@,
                pending_last_word_end_ms: *old(pending_last_word_end_ms),
                stats: *old(stats),
            };
            let h = handled(before, event@, speaker);
            &&& final(assembler)@ == h.utterance.assembler
            &&& *final(pending_last_word_end_ms) == h.utterance.pending_last_word_end_ms
            &&& *final(stats) == h.utterance.stats
            &&& event_models(final(output)@) == event_models(old(output)@) + h.outputs
            &&& match r {
                Some(reason) => h.flush_reason == Some(reason@),
                None => h.flush_reason is None,
            }
        }),
{
    let ghost reported = event_models(output@);
    let ghost before = UtteranceModel {
        assembler: assembler@,
        pending_last_word_end_ms: *pending_last_word_end_ms,
        stats: *stats,
    };
    let ghost model = event@;
    let ghost h = handled(before, model, speaker);
    let mut flush_reason: Option<&'static str> = None;
    match event {
        DeepgramEvent::Status(status) => {
            handle_stt_status(status, output, speaker);
        },
        DeepgramEvent::AudioStreamStarted => {
            report(
                output,
                OutputEvent::SttObservation {
                    speaker,
                    observation: SttObservation::AudioStreamStarted,
                },
            );
        },
        DeepgramEvent::Transcript {
            text,
            is_final,
            speech_final,
            audio_start_ms,
            audio_duration_ms,
            last_word_end_ms,
        } => {
            if !text.as_str().is_empty() {
                stats.transcripts += 1;
                assembler.push_transcript(text.as_str(), is_final);
                let preview = assembler.preview();
                let boundary = is_final && speech_final;
                let deferred = boundary && boundary_deferral(preview.as_str()).is_some();
                report(
                    output,
                    OutputEvent::SttObservation {
                        speaker,
                        observation: SttObservation::Transcript {
                            text,
                            is_final,
                            speech_final,
                            speech_final_deferred: deferred,
                            audio_start_ms,
                            audio_duration_ms,
                            last_word_end_ms,
                        },
                    },
                );
                if is_final {
                    stats.final_transcripts += 1;
                }
                if last_word_end_ms.is_some() {
                    *pending_last_word_end_ms = last_word_end_ms;
                }
                report(output, OutputEvent::TranscriptDraft { speaker, text: preview });
                if boundary && !deferred {
                    flush_reason = Some("speech_final");
                }
            }
        },
        DeepgramEvent::SpeechStarted { audio_timestamp_ms } => {
            report(
                output,
                OutputEvent::SttObservation {
                    speaker,
                    observation: SttObservation::SpeechStarted { audio_timestamp_ms },
                },
            );
        },
        DeepgramEvent::UtteranceEnd { last_word_end_ms } => {
            let ignored = match (last_word_end_ms, *pending_last_word_end_ms) {
                (Some(end), Some(pending)) => end < pending,
                _ => false,
            };
            let mut deferred = false;
            if !ignored {
                let preview = assembler.preview();
                deferred = boundary_deferral(preview.as_str()).is_some();
            }
            report(
                output,
                OutputEvent::SttObservation {
                    speaker,
                    observation: SttObservation::UtteranceEnd {
                        last_word_end_ms,
                        ignored,
                        deferred,
                    },
                },
            );
            if !ignored && !deferred {
                flush_reason = Some("utterance_end");
            }
        },
        DeepgramEvent::Metadata => {},
        DeepgramEvent::Error(error) => {
            let mut message = speaker.label().to_owned();
            message.append(": ");
            message.append(error.as_str());
            report(
                output,
                OutputEvent::Error(AppErrorView { component: OutputComponent::Stt, message }),
            );
        },
    }
    assert(event_models(output@) =~= reported + h.outputs);
    flush_reason
}

// ---------------------------------------------------------------------------
// Submitting an utterance
// ---------------------------------------------------------------------------

/// The number of the request for a chunk: the candidate's have a bit of their
/// own.
pub open spec fn request_number(speaker: Speaker, sequence: u64) -> u64 {
    if speaker == Speaker::Candidate {
        CANDIDATE_REQUEST_ID_BIT | sequence
    } else {
        sequence
    }
}

/// An utterance on its way to the language model.
#[derive(Debug)]
pub struct Submission {
    pub request_id: u64,
    pub mode: Mode,
    pub speaker: Speaker,
    pub text: String,
    /// Whether knowledge is to be looked up first.
    pub look_up: bool,
}

/// The value of a [`Submission`].
#[verifier::ext_equal]
pub struct SubmissionModel {
    pub request_id: u64,
    pub mode: Mode,
    pub speaker: Speaker,
    pub text: Seq<char>,
    pub look_up: bool,
}

impl View for Submission {
    type V = SubmissionModel;

    open spec fn view(&self) -> SubmissionModel {
        SubmissionModel {
            request_id: self.request_id,
            mode: self.mode,
            speaker: self.speaker,
            text: self.text@,
            look_up: self.look_up,
        }
    }
}

/// The value of an optional submission.
pub open spec fn submission_model(submission: Option<Submission>) -> Option<SubmissionModel> {
    match submission {
        Some(inner) => Some(inner@),
        None => None,
    }
}

/// The submission of a chunk.
pub open spec fn submission_of(
    chunk: TranscriptChunkModel,
    mode: Mode,
    speaker: Speaker,
    has_retrieval: bool,
) -> SubmissionModel {
    SubmissionModel {
        request_id: request_number(speaker, chunk.sequence),
        mode,
        speaker,
        text: chunk.text,
        look_up: has_retrieval && mode == Mode::Voice && speaker == Speaker::Interviewer,
    }
}

/// The report that an utterance was submitted.
pub open spec fn submission_report(s: SubmissionModel, reason: Seq<char>) -> OutputEventModel {
    OutputEventModel::Transcript(
        TranscriptViewModel {
            sequence: s.request_id,
            mode: s.mode,
            speaker: s.speaker,
            text: s.text,
            flush_reason: reason,
        },
    )
}

/// What a look-up brought: nothing was looked up, passages, or a failure.
#[derive(Debug)]
pub enum Lookup {
    Skipped,
    Found(KnowledgeContext),
    Failed(String),
}

/// The value of a [`Lookup`].
pub enum LookupModel {
    Skipped,
    Found(KnowledgeContextModel),
    Failed(Seq<char>),
}

impl View for Lookup {
    type V = LookupModel;

    open spec fn view(&self) -> LookupModel {
        match *self {
            Lookup::Skipped => LookupModel::Skipped,
            Lookup::Found(context) => LookupModel::Found(context@),
            Lookup::Failed(error) => LookupModel::Failed(error@),
        }
    }
}

/// What counts of a look-up: nothing where none was to be made.
pub open spec fn counted_lookup(s: SubmissionModel, lookup: LookupModel) -> LookupModel {
    if s.look_up {
        lookup
    } else {
        LookupModel::Skipped
    }
}

/// The reports of a look-up, and that the request is queued.
pub open spec fn lookup_reports(s: SubmissionModel, lookup: LookupModel) -> Seq<OutputEventModel> {
    let request_id = s.request_id;
    let queued = OutputEventModel::LlmQueued { request_id };
    match counted_lookup(s, lookup) {
        LookupModel::Skipped => seq![queued],
        LookupModel::Found(context) => seq![
            OutputEventModel::Retrieval(RetrievalViewModel { request_id, context }),
            queued,
        ],
        LookupModel::Failed(error) => seq![
            OutputEventModel::Error(
                AppErrorViewModel { component: OutputComponent::Knowledge, message: error },
            ),
            queued,
        ],
    }
}

/// The request for a submission: it carries the passages, if there are any.
pub open spec fn request_of(s: SubmissionModel, lookup: LookupModel) -> LlmRequestModel {
    LlmRequestModel {
        request_id: s.request_id,
        mode: s.mode,
        speaker: s.speaker,
        text: s.text,
        knowledge: match counted_lookup(s, lookup) {
            LookupModel::Found(context) => if context.snippets.len() > 0 {
                Some(context)
            } else {
                None
            },
            _ => None,
        },
    }
}

/// Begins to submit a chunk: reports it and says what is to be done.
pub fn queue_transcript_chunk(
    chunk: Option<TranscriptChunk>,
    output: &mut Vec<OutputEvent>,
    reason: &str,
    mode: Mode,
    speaker: Speaker,
    has_retrieval: bool,
) -> (r: Option<Submission>)
    ensures
        match chunk {
            Some(chunk) => {
                let s = submission_of(chunk@, mode, speaker, has_retrieval);
                &&& submission_model(r) == Some(s)
                &&& event_models(final(output)@) == event_models(old(output)@).push(
                    submission_report(s, reason@),
                )
            },
            None => r is None && final(output)@ == old(output)@,
        },
{
    match chunk {
        Some(chunk) => {
            let request_id: u64 = if speaker == Speaker::Candidate {
                CANDIDATE_REQUEST_ID_BIT | chunk.sequence
            } else {
                chunk.sequence
            };
            report(
                output,
                OutputEvent::Transcript(
                    TranscriptView {
                        sequence: request_id,
                        mode,
                        speaker,
                        text: chunk.text.clone(),
                        flush_reason: reason.to_owned(),
                    },
                ),
            );
            Some(
                Submission {
                    request_id,
                    mode,
                    speaker,
                    text: chunk.text,
                    look_up: has_retrieval && mode == Mode::Voice && speaker
                        == Speaker::Interviewer,
                },
            )
        },
        None => None,
    }
}

impl Submission {
    /// The reports and the request, once it is known what the look-up brought.
    /// Passages go along only where they were to be looked up.
    pub fn resolved(self, lookup: Lookup) -> (r: (Vec<OutputEvent>, LlmRequest))
        ensures
            event_models(r.0@) == lookup_reports(self@, lookup@),
            r.1@ == request_of(self@, lookup@),
            r.1@.knowledge is Some ==> self@.look_up,
    {
        let ghost model = lookup@;
        let ghost this = self@;
        let mut output: Vec<OutputEvent> = Vec::new();
        let mut knowledge: Option<KnowledgeContext> = None;
        assert(event_models(output@) =~= Seq::empty());
        let counted = if self.look_up {
            lookup
        } else {
            Lookup::Skipped
        };
        match counted {
            Lookup::Skipped => {},
            Lookup::Found(context) => {
                report(
                    &mut output,
                    OutputEvent::Retrieval(
                        RetrievalView { request_id: self.request_id, context: context.clone() },
                    ),
                );
                if context.snippets.len() > 0 {
                    knowledge = Some(context);
                }
            },
            Lookup::Failed(error) => {
                report(
                    &mut output,
                    OutputEvent::Error(
                        AppErrorView { component: OutputComponent::Knowledge, message: error },
                    ),
                );
            },
        }
        report(&mut output, OutputEvent::LlmQueued { request_id: self.request_id });
        assert(event_models(output@) =~= lookup_reports(this, model));
        let request = LlmRequest {
            request_id: self.request_id,
            mode: self.mode,
            speaker: self.speaker,
            text: self.text,
            knowledge,
        };
        assert(request@ =~= request_of(this, model));
        (output, request)
    }
}

// ---------------------------------------------------------------------------
// The worker
// ---------------------------------------------------------------------------

/// Turns the speech of one speaker into requests.
#[derive(Debug)]
pub struct TranscriptWorker {
    speaker: Speaker,
    has_retrieval: bool,
    mode: Mode,
    paused: bool,
    assembler: TranscriptWindowAssembler,
    pending_last_word_end_ms: Option<u64>,
    interim_fallback_deferred: bool,
    fallback_armed: bool,
    stats: TranscriptStats,
}

/// The value of a [`TranscriptWorker`].
#[verifier::ext_equal]
pub struct WorkerModel {
    pub speaker: Speaker,
    /// Whether knowledge can be looked up.
    pub has_retrieval: bool,
    pub mode: Mode,
    pub paused: bool,
    pub utterance: UtteranceModel,
    /// Whether the timer has already been prolonged for changing words.
    pub interim_fallback_deferred: bool,
    /// Whether the inactivity timer runs.
    pub fallback_armed: bool,
}

impl View for TranscriptWorker {
    type V = WorkerModel;

    closed spec fn view(&self) -> WorkerModel {
        WorkerModel {
            speaker: self.speaker,
            has_retrieval: self.has_retrieval,
            mode: self.mode,
            paused: self.paused,
            utterance: UtteranceModel {
                assembler: self.assembler@,
                pending_last_word_end_ms: self.pending_last_word_end_ms,
                stats: self.stats,
            },
            interim_fallback_deferred: self.interim_fallback_deferred,
            fallback_armed: self.fallback_armed,
        }
    }
}

/// A look-up ahead of the end of the utterance.
#[derive(Debug)]
pub struct Prefetch {
    pub query: String,
    /// Whether it is made however short ago the last one was.
    pub force: bool,
}

/// What the worker wants done, in this order: the reports, the timer, the
/// reset of the look-ups, the look-up ahead, the submission, and the last
/// report.
#[derive(Debug)]
pub struct TranscriptStep {
    pub outputs: Vec<OutputEvent>,
    /// Whether the inactivity timer starts anew.
    pub restart_timer: bool,
    pub reset_retrieval: bool,
    pub prefetch: Option<Prefetch>,
    pub submission: Option<Submission>,
    pub closing: Option<OutputEvent>,
}

/// What is done once a request was queued: the report, and the reset of the
/// look-ups.
#[derive(Debug)]
pub struct Queued {
    pub report: OutputEvent,
    pub reset_retrieval: bool,
}

/// The value of a [`TranscriptStep`].
#[verifier::ext_equal]
pub struct StepModel {
    pub outputs: Seq<OutputEventModel>,
    pub restart_timer: bool,
    pub reset_retrieval: bool,
    pub prefetch: Option<(Seq<char>, bool)>,
    pub submission: Option<SubmissionModel>,
    pub closing: Option<OutputEventModel>,
}

impl View for TranscriptStep {
    type V = StepModel;

    open spec fn view(&self) -> StepModel {
        StepModel {
            outputs: event_models(self.outputs@),
            restart_timer: self.restart_timer,
            reset_retrieval: self.reset_retrieval,
            prefetch: match self.prefetch {
                Some(prefetch) => Some((prefetch.query@, prefetch.force)),
                None => None,
            },
            submission: submission_model(self.submission),
            closing: match self.closing {
                Some(event) => Some(event@),
                None => None,
            },
        }
    }
}

/// Nothing to do.
pub open spec fn no_step() -> StepModel {
    StepModel {
        outputs: Seq::empty(),
        restart_timer: false,
        reset_retrieval: false,
        prefetch: None,
        submission: None,
        closing: None,
    }
}

impl WorkerModel {
    /// The worker without any unsubmitted speech, its timer stopped.
    pub open spec fn without_speech(self) -> WorkerModel {
        WorkerModel {
            utterance: UtteranceModel {
                assembler: self.utterance.assembler.emptied(),
                pending_last_word_end_ms: None,
                ..self.utterance
            },
            interim_fallback_deferred: false,
            fallback_armed: false,
            ..self
        }
    }

    /// What is done when unsubmitted speech is thrown away.
    pub open spec fn dropped(self) -> StepModel {
        StepModel {
            outputs: seq![draft(self.utterance.assembler.emptied(), self.speaker)],
            reset_retrieval: true,
            ..no_step()
        }
    }

    /// The worker and what is done after a command.
    pub open spec fn commanded(self, command: TranscriptCommand) -> (WorkerModel, StepModel) {
        match command {
            TranscriptCommand::SetPaused(paused) => if paused {
                (WorkerModel { paused: true, ..self.without_speech() }, self.dropped())
            } else {
                (WorkerModel { paused: false, ..self }, no_step())
            },
            TranscriptCommand::SetMode(mode) => (
                WorkerModel { mode, ..self.without_speech() },
                self.dropped(),
            ),
        }
    }

    /// The worker and the step when all unsubmitted speech is submitted, where
    /// `step` is what is done before that.
    pub open spec fn submitted(self, step: StepModel, reason: Seq<char>) -> (
        WorkerModel,
        StepModel,
    ) {
        let (assembler, chunk) = self.utterance.assembler.finished();
        let left = WorkerModel {
            utterance: UtteranceModel {
                assembler,
                pending_last_word_end_ms: None,
                ..self.utterance
            },
            interim_fallback_deferred: false,
            fallback_armed: false,
            ..self
        };
        let closing = Some(draft(assembler, self.speaker));
        match chunk {
            Some(chunk) => {
                let s = submission_of(chunk, self.mode, self.speaker, self.has_retrieval);
                (
                    left,
                    StepModel {
                        outputs: step.outputs.push(submission_report(s, reason)),
                        submission: Some(s),
                        closing,
                        ..step
                    },
                )
            },
            None => (left, StepModel { submission: None, closing, ..step }),
        }
    }

    /// The worker and what is done when the inactivity timer has run out.
    pub open spec fn timed_out(self) -> (WorkerModel, StepModel) {
        let a = self.utterance.assembler;
        if novel(a.sent, a.interim) is Some && !self.interim_fallback_deferred {
            (
                WorkerModel { interim_fallback_deferred: true, ..self },
                StepModel { restart_timer: true, ..no_step() },
            )
        } else {
            self.submitted(no_step(), "inactivity_timeout"@)
        }
    }

    /// The worker and what is done after an event of the recogniser.
    pub open spec fn heard(self, event: DeepgramEventModel) -> (WorkerModel, StepModel) {
        if self.paused && event is Transcript {
            (self, no_step())
        } else {
            let h = handled(self.utterance, event, self.speaker);
            let (spoken, is_final) = match event {
                DeepgramEventModel::Transcript { text, is_final, .. } => (text.len() > 0, is_final),
                _ => (false, false),
            };
            let next = WorkerModel {
                utterance: h.utterance,
                interim_fallback_deferred: self.interim_fallback_deferred && !spoken,
                fallback_armed: self.fallback_armed || spoken,
                ..self
            };
            let step = StepModel {
                outputs: h.outputs,
                restart_timer: spoken,
                prefetch: if spoken && self.has_retrieval && self.mode == Mode::Voice
                    && self.speaker == Speaker::Interviewer {
                    Some((h.utterance.assembler.preview_text(), is_final))
                } else {
                    None
                },
                ..no_step()
            };
            match h.flush_reason {
                Some(reason) => next.submitted(step, reason),
                None => (next, step),
            }
        }
    }

    /// The worker and what is done when no more events come.
    pub open spec fn ended(self) -> (WorkerModel, StepModel) {
        let (left, step) = self.submitted(no_step(), "shutdown"@);
        (left, StepModel { closing: None, ..step })
    }
}

fn blank_step() -> (r: TranscriptStep)
    ensures
        r@ == no_step(),
{
    let r = TranscriptStep {
        outputs: Vec::new(),
        restart_timer: false,
        reset_retrieval: false,
        prefetch: None,
        submission: None,
        closing: None,
    };
    assert(r@ =~= no_step());
    r
}

impl TranscriptWorker {
    /// A worker that has heard nothing, in the mode for spoken questions.
    pub fn new(min_utterance_chars: usize, speaker: Speaker, has_retrieval: bool) -> (r: Self)
        ensures
            r@ == (WorkerModel {
                speaker,
                has_retrieval,
                mode: Mode::Voice,
                paused: false,
                utterance: UtteranceModel {
                    assembler: AssemblerModel {
                        min_utterance_chars: min_utterance_chars as nat,
                        finals: Seq::empty(),
                        interim: Seq::empty(),
                        sent: Seq::empty(),
                        next_sequence: 0,
                    },
                    pending_last_word_end_ms: None,
                    stats: TranscriptStats { transcripts: 0, final_transcripts: 0, chunks: 0 },
                },
                interim_fallback_deferred: false,
                fallback_armed: false,
            }),
    {
        TranscriptWorker {
            speaker,
            has_retrieval,
            mode: Mode::Voice,
            paused: false,
            assembler: TranscriptWindowAssembler::new(min_utterance_chars),
            pending_last_word_end_ms: None,
            interim_fallback_deferred: false,
            fallback_armed: false,
            stats: TranscriptStats::default(),
        }
    }

    /// How much speech was worked on.
    pub fn stats(&self) -> (r: TranscriptStats)
        ensures
            r == self@.utterance.stats,
    {
        self.stats
    }

    /// Whether the inactivity timer counts.
    pub fn timer_runs(&self) -> (r: bool)
        ensures
            r == (self@.fallback_armed && !self@.paused),
    {
        self.fallback_armed && !self.paused
    }

    fn drop_speech(&mut self) -> (r: TranscriptStep)
        ensures
            final(self)@ == old(self)@.without_speech(),
            r@ == old(self)@.dropped(),
    {
        self.assembler.discard_pending();
        self.pending_last_word_end_ms = None;
        self.interim_fallback_deferred = false;
        self.fallback_armed = false;
        let mut step = blank_step();
        report(
            &mut step.outputs,
            OutputEvent::TranscriptDraft { speaker: self.speaker, text: self.assembler.preview() },
        );
        step.reset_retrieval = true;
        assert(step@ =~= old(self)@.dropped());
        step
    }

    /// Takes in a command.
    pub fn command(&mut self, command: TranscriptCommand) -> (r: TranscriptStep)
        ensures
            (final(self)@, r@) == old(self)@.commanded(command),
    {
        match command {
            TranscriptCommand::SetPaused(paused) => {
                self.paused = paused;
                if paused {
                    self.drop_speech()
                } else {
                    blank_step()
                }
            },
            TranscriptCommand::SetMode(mode) => {
                self.mode = mode;
                self.drop_speech()
            },
        }
    }

    fn submit(&mut self, step: TranscriptStep, reason: &str) -> (r: TranscriptStep)
        ensures
            (final(self)@, r@) == old(self)@.submitted(step@, reason@),
    {
        let ghost before = step@;
        let mut step = step;
        let chunk = self.assembler.finish();
        step.submission = queue_transcript_chunk(
            chunk,
            &mut step.outputs,
            reason,
            self.mode,
            self.speaker,
            self.has_retrieval,
        );
        step.closing = Some(
            OutputEvent::TranscriptDraft { speaker: self.speaker, text: self.assembler.preview() },
        );
        self.pending_last_word_end_ms = None;
        self.interim_fallback_deferred = false;
        self.fallback_armed = false;
        assert(step@ =~= old(self)@.submitted(before, reason@).1);
        step
    }

    /// The inactivity timer has run out.
    pub fn timeout(&mut self) -> (r: TranscriptStep)
        ensures
            (final(self)@, r@) == old(self)@.timed_out(),
    {
        let mut step = blank_step();
        if self.assembler.has_unfinalized_interim() && !self.interim_fallback_deferred {
            self.interim_fallback_deferred = true;
            step.restart_timer = true;
            step
        } else {
            self.submit(step, "inactivity_timeout")
        }
    }

    /// Takes in an event of the recogniser.
    pub fn hear(&mut self, event: DeepgramEvent) -> (r: TranscriptStep)
        requires
            old(self)@.utterance.stats.has_room(),
        ensures
            (final(self)@, r@) == old(self)@.heard(event@),
    {
        let (transcript, spoken, is_final) = match &event {
            DeepgramEvent::Transcript { text, is_final, .. } => (
                true,
                !text.as_str().is_empty(),
                *is_final,
            ),
            _ => (false, false, false),
        };
        let mut step = blank_step();
        if self.paused && transcript {
            return step;
        }
        let flush_reason = handle_deepgram_event(
            event,
            &mut self.assembler,
            &mut self.pending_last_word_end_ms,
            &mut step.outputs,
            &mut self.stats,
            self.speaker,
        );
        if spoken {
            step.restart_timer = true;
            self.interim_fallback_deferred = false;
            self.fallback_armed = true;
            if self.has_retrieval && self.mode == Mode::Voice && self.speaker
                == Speaker::Interviewer {
                step.prefetch = Some(Prefetch { query: self.assembler.preview(), force: is_final });
            }
        }
        proof {
            let h = handled(old(self)@.utterance, event@, old(self)@.speaker);
            assert(Seq::<OutputEventModel>::empty() + h.outputs =~= h.outputs);
        }
        match flush_reason {
            Some(reason) => self.submit(step, reason),
            None => step,
        }
    }

    /// No more events come: submits what is left.
    pub fn end(&mut self) -> (r: TranscriptStep)
        ensures
            (final(self)@, r@) == old(self)@.ended(),
    {
        let step = blank_step();
        let mut step = self.submit(step, "shutdown");
        step.closing = None;
        step
    }

    /// A request was queued, and so many requests wait now: counts it, reports
    /// the length, and has the look-ups begin anew.
    pub fn queued(&mut self, queue_len: usize) -> (r: Queued)
        requires
            old(self)@.utterance.stats.has_room(),
        ensures
            final(self)@ == (WorkerModel {
                utterance: UtteranceModel {
                    stats: TranscriptStats {
                        chunks: (old(self)@.utterance.stats.chunks + 1) as u64,
                        ..old(self)@.utterance.stats
                    },
                    ..old(self)@.utterance
                },
                ..old(self)@
            }),
            r.report@ == OutputEventModel::QueueState(
                QueueState { queue: QueueKind::Llm, len: queue_len },
            ),
            r.reset_retrieval == old(self)@.has_retrieval,
    {
        self.stats.chunks += 1;
        Queued {
            report: OutputEvent::QueueState(QueueState { queue: QueueKind::Llm, len: queue_len }),
            reset_retrieval: self.has_retrieval,
        }
    }
}

/// The numbers of the candidate's requests differ from one another and from
/// those of the interviewer.
pub proof fn request_numbers_are_distinct(a: u64, b: u64)
    requires
        a < CANDIDATE_REQUEST_ID_BIT,
        b < CANDIDATE_REQUEST_ID_BIT,
    ensures
        request_number(Speaker::Candidate, a) != request_number(Speaker::Interviewer, b),
        a != b ==> request_number(Speaker::Candidate, a) != request_number(Speaker::Candidate, b),
{
    assert((0x8000_0000_0000_0000u64 | a) != b) by (bit_vector)
        requires
            b < 0x8000_0000_0000_0000u64,
    ;
    assert(a != b ==> (0x8000_0000_0000_0000u64 | a) != (0x8000_0000_0000_0000u64 | b))
        by (bit_vector)
        requires
            a < 0x8000_0000_0000_0000u64,
            b < 0x8000_0000_0000_0000u64,
    ;
}

/// While the worker is paused nothing that is said is kept or submitted.
pub proof fn a_paused_worker_keeps_no_speech(w: WorkerModel, event: DeepgramEventModel)
    requires
        w.paused,
        event is Transcript,
    ensures
        w.heard(event) == (w, no_step()),
        w.commanded(TranscriptCommand::SetPaused(
            true,
        )).0.utterance.assembler.preview_text().len() == 0,
{
    crate::transcript::window::finish_leaves_nothing(w.utterance.assembler);
    assert(w.utterance.assembler.emptied().parts() =~= Seq::empty());
}

/// Whatever is submitted leaves nothing behind: the draft after it is empty,
/// and no timer runs.
pub proof fn submitting_empties_the_worker(w: WorkerModel, step: StepModel, reason: Seq<char>)
    ensures
        ({
            let (left, done) = w.submitted(step, reason);
            &&& left.utterance.assembler.preview_text().len() == 0
            &&& !left.fallback_armed
            &&& done.closing == Some(
                OutputEventModel::TranscriptDraft { speaker: w.speaker, text: Seq::empty() },
            )
        }),
{
    let left = w.submitted(step, reason).0;
    crate::transcript::window::finish_leaves_nothing(w.utterance.assembler);
    assert(left.utterance.assembler.preview_text() =~= Seq::empty());
}

/// The end of an earlier utterance does not submit later words.
pub proof fn a_stale_end_submits_nothing(w: WorkerModel, end_ms: u64, pending_ms: u64)
    requires
        w.utterance.pending_last_word_end_ms == Some(pending_ms),
        end_ms < pending_ms,
    ensures
        ({
            let event = DeepgramEventModel::UtteranceEnd { last_word_end_ms: Some(end_ms) };
            &&& w.heard(event).1.submission is None
            &&& w.heard(event).0 == w
        }),
{
    let event = DeepgramEventModel::UtteranceEnd { last_word_end_ms: Some(end_ms) };
    assert(w.heard(event).0 =~= w);
}

/// The timer is prolonged at most once for words that may still change: when
/// it runs out again without new words, they are submitted.
pub proof fn the_timer_is_prolonged_once(w: WorkerModel)
    requires
        w.timed_out().1.restart_timer,
    ensures
        w.timed_out().0.timed_out() == w.timed_out().0.submitted(no_step(), "inactivity_timeout"@),
        !w.timed_out().0.timed_out().1.restart_timer,
{
}

/// Speech of the candidate, and speech outside the mode for spoken questions,
/// is never looked up.
pub proof fn only_interview_questions_are_looked_up(w: WorkerModel, event: DeepgramEventModel)
    requires
        w.mode != Mode::Voice || w.speaker == Speaker::Candidate,
    ensures
        w.heard(event).1.prefetch is None,
        w.heard(event).1.submission matches Some(s) ==> !s.look_up,
{
}

/// A question is asked as it was spoken, whatever the look-up has brought:
/// without passages where it has found none or has failed.
pub proof fn questions_do_not_wait_for_knowledge(s: SubmissionModel, lookup: LookupModel)
    ensures
        request_of(s, lookup).text == s.text,
        request_of(s, lookup).request_id == s.request_id,
        !(lookup is Found) ==> request_of(s, lookup).knowledge is None,
        lookup_reports(s, lookup).last() == (OutputEventModel::LlmQueued {
            request_id: s.request_id,
        }),
{
}

/// Passages go along only with a spoken question of the interviewer, whatever
/// a look-up has brought.
pub proof fn only_interview_questions_carry_passages(
    chunk: TranscriptChunkModel,
    mode: Mode,
    speaker: Speaker,
    has_retrieval: bool,
    lookup: LookupModel,
)
    ensures
        request_of(submission_of(chunk, mode, speaker, has_retrieval), lookup).knowledge is Some
            ==> has_retrieval && mode == Mode::Voice && speaker == Speaker::Interviewer,
        speaker == Speaker::Candidate || mode != Mode::Voice ==> lookup_reports(
            submission_of(chunk, mode, speaker, has_retrieval),
            lookup,
        ) == seq![
            OutputEventModel::LlmQueued { request_id: request_number(speaker, chunk.sequence) },
        ],
{
}

/// Words that were heard are put together with those before, and reported with
/// all that waits; they are submitted where they are final, end the speech, and
/// do not ask for more.
pub proof fn heard_words_are_reported(
    u: UtteranceModel,
    text: Seq<char>,
    is_final: bool,
    speech_final: bool,
    audio_start_ms: Option<u64>,
    audio_duration_ms: Option<u64>,
    last_word_end_ms: Option<u64>,
    speaker: Speaker,
)
    requires
        text.len() > 0,
        u.stats.has_room(),
    ensures
        ({
            let event = DeepgramEventModel::Transcript {
                text,
                is_final,
                speech_final,
                audio_start_ms,
                audio_duration_ms,
                last_word_end_ms,
            };
            let h = handled(u, event, speaker);
            let a = u.assembler.pushed(text, is_final);
            let waits = goes_on(a.preview_text());
            &&& h.utterance.assembler == a
            &&& last_word_end_ms is Some ==> h.utterance.pending_last_word_end_ms
                == last_word_end_ms
            &&& last_word_end_ms is None ==> h.utterance.pending_last_word_end_ms
                == u.pending_last_word_end_ms
            &&& h.utterance.stats.transcripts == u.stats.transcripts + 1
            &&& is_final ==> h.utterance.stats.final_transcripts == u.stats.final_transcripts + 1
            &&& !is_final ==> h.utterance.stats.final_transcripts == u.stats.final_transcripts
            &&& h.utterance.stats.chunks == u.stats.chunks
            &&& h.flush_reason is Some <==> is_final && speech_final && !waits
            &&& h.flush_reason is Some ==> h.flush_reason == Some("speech_final"@)
            &&& h.outputs.len() == 2
            &&& h.outputs[0] == (OutputEventModel::SttObservation {
                speaker,
                observation: SttObservationModel::Transcript {
                    text,
                    is_final,
                    speech_final,
                    speech_final_deferred: is_final && speech_final && waits,
                    audio_start_ms,
                    audio_duration_ms,
                    last_word_end_ms,
                },
            })
            &&& h.outputs[1] == (OutputEventModel::TranscriptDraft {
                speaker,
                text: a.preview_text(),
            })
        }),
{
}

/// A text asks for more exactly where its words put off the end of an
/// utterance.
pub proof fn speech_goes_on_where_it_is_put_off(text: Seq<char>)
    ensures
        goes_on(text) <==> deferral(spoken_words(text), asks(text)) is Some,
{
}

/// The end of an utterance submits what waits, unless it is older than the
/// last word, or what waits asks for more; it is reported either way.
pub proof fn ends_of_utterances_submit(
    u: UtteranceModel,
    last_word_end_ms: Option<u64>,
    speaker: Speaker,
)
    ensures
        ({
            let h = handled(u, DeepgramEventModel::UtteranceEnd { last_word_end_ms }, speaker);
            let old_news = last_word_end_ms is Some && u.pending_last_word_end_ms is Some
                && last_word_end_ms->0 < u.pending_last_word_end_ms->0;
            let waits = goes_on(u.assembler.preview_text());
            &&& h.utterance == u
            &&& h.flush_reason is Some <==> !old_news && !waits
            &&& h.flush_reason is Some ==> h.flush_reason == Some("utterance_end"@)
            &&& h.outputs == seq![
                OutputEventModel::SttObservation {
                    speaker,
                    observation: SttObservationModel::UtteranceEnd {
                        last_word_end_ms,
                        ignored: old_news,
                        deferred: !old_news && waits,
                    },
                },
            ]
        }),
{
}

/// What else comes from the recogniser is reported and changes no words.
pub proof fn other_events_change_no_words(
    u: UtteranceModel,
    status: SttStatus,
    at: Option<u64>,
    error: Seq<char>,
    speaker: Speaker,
)
    ensures
        handled(u, DeepgramEventModel::Status(status), speaker) == (HandledModel {
            utterance: u,
            outputs: status_outputs(status, speaker),
            flush_reason: None,
        }),
        handled(u, DeepgramEventModel::AudioStreamStarted, speaker) == (HandledModel {
            utterance: u,
            outputs: seq![
                OutputEventModel::SttObservation {
                    speaker,
                    observation: SttObservationModel::AudioStreamStarted,
                },
            ],
            flush_reason: None,
        }),
        handled(u, DeepgramEventModel::SpeechStarted { audio_timestamp_ms: at }, speaker) == (
        HandledModel {
            utterance: u,
            outputs: seq![
                OutputEventModel::SttObservation {
                    speaker,
                    observation: SttObservationModel::SpeechStarted { audio_timestamp_ms: at },
                },
            ],
            flush_reason: None,
        }),
        handled(u, DeepgramEventModel::Metadata, speaker) == (HandledModel {
            utterance: u,
            outputs: Seq::empty(),
            flush_reason: None,
        }),
        handled(u, DeepgramEventModel::Error(error), speaker) == (HandledModel {
            utterance: u,
            outputs: seq![
                OutputEventModel::Error(
                    AppErrorViewModel {
                        component: OutputComponent::Stt,
                        message: speaker.name() + seq![':', ' '] + error,
                    },
                ),
            ],
            flush_reason: None,
        }),
        ({
            let silence = DeepgramEventModel::Transcript {
                text: Seq::empty(),
                is_final: true,
                speech_final: true,
                audio_start_ms: at,
                audio_duration_ms: at,
                last_word_end_ms: at,
            };
            handled(u, silence, speaker) == (HandledModel {
                utterance: u,
                outputs: Seq::empty(),
                flush_reason: None,
            })
        }),
{
    reveal_strlit(": ");
    assert(": "@ =~= seq![':', ' ']);
}

/// The state of a connection is told in words, with the speaker where it is not
/// the interviewer, and with the number of the attempt from the second on.
pub proof fn connections_are_told_in_words(
    speaker: Speaker,
    retry_count: u32,
    delay_secs: u64,
    queue_len: usize,
)
    ensures
        ({
            let who = speaker.name();
            let connecting = if speaker == Speaker::Interviewer {
                "connecting to Deepgram"@
            } else {
                "connecting "@ + who + " speech to Deepgram"@
            };
            &&& retry_count == 0 ==> status_words(
                SttStatus::Connecting { retry_count, queue_len },
                speaker,
            ) == (StatusKind::Connecting, connecting, queue_len)
            &&& retry_count > 0 ==> status_words(
                SttStatus::Connecting { retry_count, queue_len },
                speaker,
            ) == (
                StatusKind::Connecting,
                connecting + " (attempt "@ + decimal((retry_count + 1) as nat) + ")"@,
                queue_len,
            )
            &&& status_words(SttStatus::Connected { queue_len }, speaker) == (
                StatusKind::Listening,
                if speaker == Speaker::Interviewer {
                    "Deepgram connected; listening"@
                } else {
                    "Deepgram connected; listening to "@ + who
                },
                queue_len,
            )
            &&& status_words(
                SttStatus::Reconnecting { retry_count, delay_secs, queue_len },
                speaker,
            ) == (
                StatusKind::Reconnecting,
                "Deepgram "@ + who + " reconnect in "@ + decimal(delay_secs as nat) + "s (retry "@
                    + decimal(retry_count as nat) + ")"@,
                queue_len,
            )
        }),
        ({
            let status = SttStatus::Connected { queue_len };
            status_outputs(status, speaker) == seq![
                OutputEventModel::Status(
                    StatusMessageModel {
                        kind: StatusKind::Listening,
                        text: status_words(status, speaker).1,
                    },
                ),
                OutputEventModel::QueueState(
                    QueueState { queue: QueueKind::Audio, len: queue_len },
                ),
            ]
        }),
{
}

/// Requests are numbered as their chunks, those of the candidate with the
/// highest bit besides; the words of the chunk are what is asked.
pub proof fn requests_are_numbered_as_their_chunks(
    chunk: TranscriptChunkModel,
    mode: Mode,
    speaker: Speaker,
    has_retrieval: bool,
)
    requires
        chunk.sequence < 0x8000_0000_0000_0000,
    ensures
        ({
            let s = submission_of(chunk, mode, speaker, has_retrieval);
            &&& speaker == Speaker::Interviewer ==> s.request_id == chunk.sequence
            &&& speaker == Speaker::Candidate ==> s.request_id == chunk.sequence
                + 0x8000_0000_0000_0000
            &&& s.mode == mode
            &&& s.speaker == speaker
            &&& s.text == chunk.text
            &&& s.look_up <==> has_retrieval && mode == Mode::Voice && speaker
                == Speaker::Interviewer
        }),
{
    let n = chunk.sequence;
    assert(0x8000_0000_0000_0000u64 | n == n + 0x8000_0000_0000_0000) by (bit_vector)
        requires
            n < 0x8000_0000_0000_0000,
    ;
}

/// A request carries what was found for it where there is any of it, and a
/// look-up is reported with what came of it before the request is queued.
pub proof fn passages_go_with_their_question(
    s: SubmissionModel,
    context: KnowledgeContextModel,
    error: Seq<char>,
)
    requires
        s.look_up,
    ensures
        context.snippets.len() > 0 ==> request_of(s, LookupModel::Found(context)).knowledge == Some(
            context,
        ),
        context.snippets.len() == 0 ==> request_of(s, LookupModel::Found(context)).knowledge is None,
        lookup_reports(s, LookupModel::Found(context)) == seq![
            OutputEventModel::Retrieval(RetrievalViewModel { request_id: s.request_id, context }),
            OutputEventModel::LlmQueued { request_id: s.request_id },
        ],
        lookup_reports(s, LookupModel::Failed(error)) == seq![
            OutputEventModel::Error(
                AppErrorViewModel { component: OutputComponent::Knowledge, message: error },
            ),
            OutputEventModel::LlmQueued { request_id: s.request_id },
        ],
        lookup_reports(s, LookupModel::Skipped) == seq![
            OutputEventModel::LlmQueued { request_id: s.request_id },
        ],
        request_of(s, LookupModel::Found(context)).mode == s.mode,
        request_of(s, LookupModel::Found(context)).speaker == s.speaker,
{
}

/// What is submitted is all that waited: it is reported with the reason, behind
/// what the step reports anyway, and the draft is emptied afterwards.
pub proof fn all_that_waits_is_submitted(w: WorkerModel, step: StepModel, reason: Seq<char>)
    ensures
        ({
            let (left, done) = w.submitted(step, reason);
            let chunk = w.utterance.assembler.finished().1;
            &&& chunk is None ==> done.submission is None && done.outputs == step.outputs
            &&& chunk matches Some(c) ==> {
                let s = submission_of(c, w.mode, w.speaker, w.has_retrieval);
                &&& done.submission == Some(s)
                &&& done.outputs == step.outputs.push(
                    OutputEventModel::Transcript(
                        TranscriptViewModel {
                            sequence: s.request_id,
                            mode: w.mode,
                            speaker: w.speaker,
                            text: w.utterance.assembler.preview_text(),
                            flush_reason: reason,
                        },
                    ),
                )
            }
            &&& done.restart_timer == step.restart_timer
            &&& done.reset_retrieval == step.reset_retrieval
            &&& done.prefetch == step.prefetch
            &&& left.utterance.assembler == w.utterance.assembler.finished().0
            &&& left.utterance.pending_last_word_end_ms is None
            &&& left.utterance.stats == w.utterance.stats
            &&& !left.interim_fallback_deferred
            &&& left.mode == w.mode
            &&& left.paused == w.paused
            &&& left.speaker == w.speaker
            &&& left.has_retrieval == w.has_retrieval
        }),
{
}

/// Words start the timer anew and are looked up ahead where that is of use;
/// anything else does neither.
pub proof fn words_start_the_timer(w: WorkerModel, event: DeepgramEventModel)
    requires
        !w.paused,
    ensures
        ({
            let (next, step) = w.heard(event);
            let spoken = event matches DeepgramEventModel::Transcript { text, .. } && text.len() > 0;
            let h = handled(w.utterance, event, w.speaker);
            &&& step.restart_timer == spoken
            &&& !step.reset_retrieval
            &&& step.prefetch is Some <==> spoken && w.has_retrieval && w.mode == Mode::Voice
                && w.speaker == Speaker::Interviewer
            &&& step.prefetch matches Some(p) ==> p.0 == h.utterance.assembler.preview_text() && (
            event matches DeepgramEventModel::Transcript { is_final, .. } && p.1 == is_final)
            &&& h.flush_reason is None ==> {
                &&& step.submission is None
                &&& step.closing is None
                &&& step.outputs == h.outputs
                &&& next.utterance == h.utterance
                &&& next.fallback_armed == (w.fallback_armed || spoken)
                &&& next.interim_fallback_deferred == (w.interim_fallback_deferred && !spoken)
            }
            &&& h.flush_reason is Some ==> {
                &&& step.closing is Some
                &&& !next.fallback_armed
                &&& step.submission is Some
                    == h.utterance.assembler.finished().1 is Some
            }
        }),
{
}

/// Pausing and changing the mode forget what waits; going on forgets nothing.
pub proof fn commands_forget_what_waits(w: WorkerModel, mode: Mode)
    ensures
        ({
            let (next, step) = w.commanded(TranscriptCommand::SetPaused(true));
            &&& next.paused
            &&& next.mode == w.mode
            &&& next.utterance.assembler == w.utterance.assembler.emptied()
            &&& next.utterance.pending_last_word_end_ms is None
            &&& next.utterance.stats == w.utterance.stats
            &&& !next.fallback_armed
            &&& !next.interim_fallback_deferred
            &&& step.reset_retrieval
            &&& step.submission is None
            &&& step.outputs == seq![
                OutputEventModel::TranscriptDraft { speaker: w.speaker, text: Seq::empty() },
            ]
        }),
        ({
            let (next, step) = w.commanded(TranscriptCommand::SetMode(mode));
            &&& next.paused == w.paused
            &&& next.mode == mode
            &&& next.utterance.assembler == w.utterance.assembler.emptied()
            &&& next.utterance.pending_last_word_end_ms is None
            &&& !next.fallback_armed
            &&& !next.interim_fallback_deferred
            &&& step.reset_retrieval
            &&& step.submission is None
            &&& step.outputs == seq![
                OutputEventModel::TranscriptDraft { speaker: w.speaker, text: Seq::empty() },
            ]
        }),
        w.commanded(TranscriptCommand::SetPaused(false)) == (
            WorkerModel { paused: false, ..w },
            no_step(),
        ),
{
    let a = w.utterance.assembler.emptied();
    assert(a.parts() =~= Seq::empty());
    assert(a.preview_text() =~= Seq::empty());
}

/// At the end of all speech what waits is submitted once more; when the timer
/// runs out, words that may still change put it off once.
pub proof fn silence_submits_what_waits(w: WorkerModel)
    ensures
        ({
            let a = w.utterance.assembler;
            let changing = novel(a.sent, a.interim) is Some;
            let (next, step) = w.timed_out();
            &&& step.restart_timer <==> changing && !w.interim_fallback_deferred
            &&& step.restart_timer ==> step.submission is None && step.outputs.len() == 0
                && next.interim_fallback_deferred && next.utterance == w.utterance
            &&& !step.restart_timer ==> step.submission is Some == a.finished().1 is Some
            &&& !step.restart_timer && step.submission is Some ==> (step.outputs.last() matches
                OutputEventModel::Transcript(view) && view.flush_reason == "inactivity_timeout"@)
        }),
        ({
            let (next, step) = w.ended();
            &&& step.closing is None
            &&& step.submission is Some == w.utterance.assembler.finished().1 is Some
            &&& step.submission is Some ==> (step.outputs.last() matches
                OutputEventModel::Transcript(view) && view.flush_reason == "shutdown"@)
            &&& !step.restart_timer
            &&& step.prefetch is None
        }),
{
}

} // verus!
