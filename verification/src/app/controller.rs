//! The pipeline as a whole: what it begins with, what commands do, when it
//! stops, and whether it stopped well.
use vstd::prelude::*;

use crate::app::transcript_worker::TranscriptCommand;
use crate::config::assistant::{Config, ConfigModel};
use crate::error::{AppError, AppErrorModel};
use crate::events::{
    event_models, AppCommand, LlmCommand, Mode, OutputEvent, OutputEventModel, StatusKind,
    StatusMessage, StatusMessageModel,
};
use crate::knowledge::types::KnowledgeWorkerStats;

verus! {

/// The seconds that workers have to stop.
pub const SHUTDOWN_TIMEOUT_SECS: u64 = 5;

/// The seconds that workers have to stop after a file was played.
pub const BENCHMARK_SHUTDOWN_TIMEOUT_SECS: u64 = 300;

/// The seconds between the end of a file and the stop.
pub const BENCHMARK_EOF_DRAIN_SECS: u64 = 3;

/// How the pipeline is run.
#[derive(Debug)]
pub struct RunOptions {
    /// The file to play in place of capturing sound.
    pub audio_file: Option<String>,
}

impl Default for RunOptions {
    fn default() -> (r: Self)
        ensures
            r.audio_file is None,
    {
        RunOptions { audio_file: None }
    }
}

/// Why the pipeline stops.
#[derive(Clone, Copy, Debug, PartialEq, Eq, Structural)]
pub enum StopReason {
    Signal,
    Command,
    BenchmarkEof,
    Audio,
    Stt,
    Transcript,
    CandidateAudio,
    CandidateStt,
    CandidateTranscript,
    Llm,
    Output,
}

impl StopReason {
    /// The worker that stopped although nobody asked it to.
    pub open spec fn culprit(self) -> Option<Seq<char>> {
        match self {
            StopReason::Signal => None,
            StopReason::Command => None,
            StopReason::BenchmarkEof => None,
            StopReason::Audio => Some("audio"@),
            StopReason::Stt => Some("stt"@),
            StopReason::Transcript => Some("transcript"@),
            StopReason::CandidateAudio => Some("candidate audio"@),
            StopReason::CandidateStt => Some("candidate STT"@),
            StopReason::CandidateTranscript => Some("candidate transcript"@),
            StopReason::Llm => Some("LLM"@),
            StopReason::Output => Some("output"@),
        }
    }

    /// The worker that stopped although nobody asked it to.
    pub fn unexpected_worker(self) -> (r: Option<&'static str>)
        ensures
            match r {
                Some(worker) => self.culprit() == Some(worker@),
                None => self.culprit() is None,
            },
    {
        match self {
            StopReason::Signal => None,
            StopReason::Command => None,
            StopReason::BenchmarkEof => None,
            StopReason::Audio => Some("audio"),
            StopReason::Stt => Some("stt"),
            StopReason::Transcript => Some("transcript"),
            StopReason::CandidateAudio => Some("candidate audio"),
            StopReason::CandidateStt => Some("candidate STT"),
            StopReason::CandidateTranscript => Some("candidate transcript"),
            StopReason::Llm => Some("LLM"),
            StopReason::Output => Some("output"),
        }
    }
}

/// A message that the pipeline sends to one of its workers or observers.
#[derive(Debug)]
pub enum Delivery {
    /// To the worker for the speech of the interviewer.
    Transcript(TranscriptCommand),
    /// To the worker for the speech of the candidate.
    CandidateTranscript(TranscriptCommand),
    /// To the worker for answers.
    Llm(LlmCommand),
    /// To the observers.
    Output(OutputEvent),
}

/// The value of a [`Delivery`].
#[verifier::ext_equal]
pub enum DeliveryModel {
    Transcript(TranscriptCommand),
    CandidateTranscript(TranscriptCommand),
    Llm(LlmCommand),
    Output(OutputEventModel),
}

impl View for Delivery {
    type V = DeliveryModel;

    open spec fn view(&self) -> DeliveryModel {
        match *self {
            Delivery::Transcript(command) => DeliveryModel::Transcript(command),
            Delivery::CandidateTranscript(command) => DeliveryModel::CandidateTranscript(command),
            Delivery::Llm(command) => DeliveryModel::Llm(command),
            Delivery::Output(event) => DeliveryModel::Output(event@),
        }
    }
}

/// The values of the deliveries.
pub open spec fn delivery_models(deliveries: Seq<Delivery>) -> Seq<DeliveryModel> {
    Seq::new(deliveries.len(), |i: int| deliveries[i]@)
}

impl Delivery {
    /// Why the pipeline stops where the delivery fails.
    pub fn failure(&self) -> (r: StopReason)
        ensures
            r == match self@ {
                DeliveryModel::Transcript(_) => StopReason::Transcript,
                DeliveryModel::CandidateTranscript(_) => StopReason::CandidateTranscript,
                DeliveryModel::Llm(_) => StopReason::Llm,
                DeliveryModel::Output(_) => StopReason::Output,
            },
    {
        match self {
            Delivery::Transcript(_) => StopReason::Transcript,
            Delivery::CandidateTranscript(_) => StopReason::CandidateTranscript,
            Delivery::Llm(_) => StopReason::Llm,
            Delivery::Output(_) => StopReason::Output,
        }
    }
}

/// What the pipeline meets while it runs.
#[derive(Clone, Copy, Debug, PartialEq, Eq, Structural)]
pub enum PipelineInput {
    /// The process is asked to end.
    Signal,
    /// A command, or the end of all commands.
    Command(Option<AppCommand>),
    /// The capture of sound has ended, well or not.
    AudioEnded { success: bool },
    SttEnded,
    TranscriptEnded,
    CandidateAudioEnded,
    CandidateSttEnded,
    CandidateTranscriptEnded,
    LlmEnded,
    OutputEnded,
}

/// What the pipeline does about it.
#[derive(Debug)]
pub enum PipelineAction {
    /// It makes the deliveries in order, and stops at one that fails.
    Deliver(Vec<Delivery>),
    /// It reads no more commands.
    CloseCommands,
    /// It stops.
    Stop(StopReason),
    /// It lets the workers go on for a while, and stops.
    DrainAndStop(StopReason),
}

/// The value of a [`PipelineAction`].
#[verifier::ext_equal]
pub enum ActionModel {
    Deliver(Seq<DeliveryModel>),
    CloseCommands,
    Stop(StopReason),
    DrainAndStop(StopReason),
}

impl View for PipelineAction {
    type V = ActionModel;

    open spec fn view(&self) -> ActionModel {
        match *self {
            PipelineAction::Deliver(deliveries) => ActionModel::Deliver(
                delivery_models(deliveries@),
            ),
            PipelineAction::CloseCommands => ActionModel::CloseCommands,
            PipelineAction::Stop(reason) => ActionModel::Stop(reason),
            PipelineAction::DrainAndStop(reason) => ActionModel::DrainAndStop(reason),
        }
    }
}

/// The running pipeline.
#[derive(Clone, Copy, Debug, PartialEq, Eq, Structural)]
pub struct PipelineController {
    pub mode: Mode,
    /// Whether the speech of the candidate is captured too.
    pub candidate_enabled: bool,
    /// Whether a file is played.
    pub benchmark: bool,
}

/// A status message.
pub open spec fn status(kind: StatusKind, text: Seq<char>) -> OutputEventModel {
    OutputEventModel::Status(StatusMessageModel { kind, text })
}

/// A command to the workers for speech, and a report.
pub open spec fn to_speech(
    c: PipelineController,
    command: TranscriptCommand,
    report: OutputEventModel,
) -> Seq<DeliveryModel> {
    if c.candidate_enabled {
        seq![
            DeliveryModel::Transcript(command),
            DeliveryModel::CandidateTranscript(command),
            DeliveryModel::Output(report),
        ]
    } else {
        seq![DeliveryModel::Transcript(command), DeliveryModel::Output(report)]
    }
}

/// The mode after it was switched.
pub open spec fn switched(mode: Mode) -> Mode {
    if mode == Mode::LiveCoding {
        Mode::Voice
    } else {
        Mode::LiveCoding
    }
}

/// The pipeline, and what it does, after what it meets.
pub open spec fn stepped(c: PipelineController, input: PipelineInput) -> (
    PipelineController,
    ActionModel,
) {
    match input {
        PipelineInput::Signal => (c, ActionModel::Stop(StopReason::Signal)),
        PipelineInput::Command(None) => (c, ActionModel::CloseCommands),
        PipelineInput::Command(Some(command)) => match command {
            AppCommand::PauseListening => (
                c,
                ActionModel::Deliver(
                    to_speech(
                        c,
                        TranscriptCommand::SetPaused(true),
                        status(StatusKind::Paused, "listening paused"@),
                    ),
                ),
            ),
            AppCommand::ResumeListening => (
                c,
                ActionModel::Deliver(
                    to_speech(
                        c,
                        TranscriptCommand::SetPaused(false),
                        status(StatusKind::Listening, "listening resumed"@),
                    ),
                ),
            ),
            AppCommand::ToggleLiveCoding => (
                PipelineController { mode: switched(c.mode), ..c },
                ActionModel::Deliver(
                    to_speech(
                        c,
                        TranscriptCommand::SetMode(switched(c.mode)),
                        OutputEventModel::ModeChanged { mode: switched(c.mode) },
                    ),
                ),
            ),
            AppCommand::ClearHistory => (
                c,
                ActionModel::Deliver(
                    seq![
                        DeliveryModel::Llm(LlmCommand::ClearHistory),
                        DeliveryModel::Output(
                            status(
                                StatusKind::HistoryCleared,
                                "conversation history cleared"@,
                            ),
                        ),
                    ],
                ),
            ),
            AppCommand::Shutdown => (c, ActionModel::Stop(StopReason::Command)),
        },
        PipelineInput::AudioEnded { success } => (
            c,
            if c.benchmark && success {
                ActionModel::DrainAndStop(StopReason::BenchmarkEof)
            } else {
                ActionModel::Stop(StopReason::Audio)
            },
        ),
        PipelineInput::SttEnded => (c, ActionModel::Stop(StopReason::Stt)),
        PipelineInput::TranscriptEnded => (c, ActionModel::Stop(StopReason::Transcript)),
        PipelineInput::CandidateAudioEnded => (c, ActionModel::Stop(StopReason::CandidateAudio)),
        PipelineInput::CandidateSttEnded => (c, ActionModel::Stop(StopReason::CandidateStt)),
        PipelineInput::CandidateTranscriptEnded => (
            c,
            ActionModel::Stop(StopReason::CandidateTranscript),
        ),
        PipelineInput::LlmEnded => (c, ActionModel::Stop(StopReason::Llm)),
        PipelineInput::OutputEnded => (c, ActionModel::Stop(StopReason::Output)),
    }
}

/// What the sound comes from, in words.
pub open spec fn source_label(c: ConfigModel, file: Option<Seq<char>>) -> Seq<char> {
    match file {
        Some(path) => path,
        None => c.audio.source,
    }
}

/// Whether the speech of the candidate is captured.
pub open spec fn captures_candidate(c: ConfigModel, file: Option<Seq<char>>) -> bool {
    c.candidate_audio.enabled && file is None
}

/// What the speech of the candidate comes from, in words.
pub open spec fn candidate_label(c: ConfigModel, file: Option<Seq<char>>) -> Seq<char> {
    if captures_candidate(c, file) {
        c.candidate_audio.source
    } else {
        "disabled"@
    }
}

/// What the observers are told at the start.
pub open spec fn opening(c: ConfigModel, file: Option<Seq<char>>) -> Seq<OutputEventModel> {
    seq![
        status(
            StatusKind::Started,
            "source="@ + source_label(c, file) + " | candidate="@ + candidate_label(c, file)
                + " | STT="@ + c.deepgram.model + " | LLM="@ + c.llm.model,
        ),
        OutputEventModel::ModeChanged { mode: Mode::Voice },
    ]
}

/// The text of an optional string.
pub open spec fn file_text(file: Option<String>) -> Option<Seq<char>> {
    match file {
        Some(path) => Some(path@),
        None => None,
    }
}

fn add_delivery(deliveries: &mut Vec<Delivery>, delivery: Delivery)
    ensures
        delivery_models(final(deliveries)@) == delivery_models(old(deliveries)@).push(delivery@),
{
    let ghost before = delivery_models(deliveries@);
    let ghost model = delivery@;
    deliveries.push(delivery);
    assert(delivery_models(deliveries@) =~= before.push(model));
}

fn status_event(kind: StatusKind, text: &str) -> (r: OutputEvent)
    ensures
        r@ == status(kind, text@),
{
    OutputEvent::Status(StatusMessage { kind, text: text.to_owned() })
}

impl PipelineController {
    /// The pipeline at its start, and what the observers are told.
    pub fn start(config: &Config, options: &RunOptions) -> (r: (Self, Vec<OutputEvent>))
        ensures
            r.0 == (PipelineController {
                mode: Mode::Voice,
                candidate_enabled: captures_candidate(config@, file_text(options.audio_file)),
                benchmark: options.audio_file is Some,
            }),
            event_models(r.1@) == opening(config@, file_text(options.audio_file)),
    {
        let benchmark = options.audio_file.is_some();
        let candidate_enabled = config.candidate_audio.enabled && !benchmark;
        let mut text = "source=".to_owned();
        match &options.audio_file {
            Some(path) => {
                text.append(path.as_str());
            },
            None => {
                text.append(config.audio.source.as_str());
            },
        }
        text.append(" | candidate=");
        if candidate_enabled {
            text.append(config.candidate_audio.source.as_str());
        } else {
            text.append("disabled");
        }
        text.append(" | STT=");
        text.append(config.deepgram.model.as_str());
        text.append(" | LLM=");
        text.append(config.llm.model.as_str());
        let mut events: Vec<OutputEvent> = Vec::new();
        events.push(OutputEvent::Status(StatusMessage { kind: StatusKind::Started, text }));
        events.push(OutputEvent::ModeChanged { mode: Mode::Voice });
        assert(event_models(events@) =~= opening(config@, file_text(options.audio_file)));
        (PipelineController { mode: Mode::Voice, candidate_enabled, benchmark }, events)
    }

    fn speech_deliveries(&self, command: TranscriptCommand, report: OutputEvent) -> (r: Vec<Delivery>)
        ensures
            delivery_models(r@) == to_speech(*self, command, report@),
    {
        let ghost model = report@;
        let mut deliveries: Vec<Delivery> = Vec::new();
        add_delivery(&mut deliveries, Delivery::Transcript(command));
        if self.candidate_enabled {
            add_delivery(&mut deliveries, Delivery::CandidateTranscript(command));
        }
        add_delivery(&mut deliveries, Delivery::Output(report));
        assert(delivery_models(deliveries@) =~= to_speech(*self, command, model));
        deliveries
    }

    /// Takes in what the pipeline meets, and returns what it does about it.
    pub fn step(&mut self, input: PipelineInput) -> (r: PipelineAction)
        ensures
            (*final(self), r@) == stepped(*old(self), input),
    {
        match input {
            PipelineInput::Signal => PipelineAction::Stop(StopReason::Signal),
            PipelineInput::Command(None) => PipelineAction::CloseCommands,
            PipelineInput::Command(Some(command)) => match command {
                AppCommand::PauseListening => PipelineAction::Deliver(
                    self.speech_deliveries(
                        TranscriptCommand::SetPaused(true),
                        status_event(StatusKind::Paused, "listening paused"),
                    ),
                ),
                AppCommand::ResumeListening => PipelineAction::Deliver(
                    self.speech_deliveries(
                        TranscriptCommand::SetPaused(false),
                        status_event(StatusKind::Listening, "listening resumed"),
                    ),
                ),
                AppCommand::ToggleLiveCoding => {
                    let mode = if self.mode == Mode::LiveCoding {
                        Mode::Voice
                    } else {
                        Mode::LiveCoding
                    };
                    self.mode = mode;
                    PipelineAction::Deliver(
                        self.speech_deliveries(
                            TranscriptCommand::SetMode(mode),
                            OutputEvent::ModeChanged { mode },
                        ),
                    )
                },
                AppCommand::ClearHistory => {
                    let mut deliveries: Vec<Delivery> = Vec::new();
                    add_delivery(&mut deliveries, Delivery::Llm(LlmCommand::ClearHistory));
                    add_delivery(
                        &mut deliveries,
                        Delivery::Output(
                            status_event(
                                StatusKind::HistoryCleared,
                                "conversation history cleared",
                            ),
                        ),
                    );
                    let action = PipelineAction::Deliver(deliveries);
                    assert(action@ =~= stepped(*old(self), input).1);
                    action
                },
                AppCommand::Shutdown => PipelineAction::Stop(StopReason::Command),
            },
            PipelineInput::AudioEnded { success } => if self.benchmark && success {
                PipelineAction::DrainAndStop(StopReason::BenchmarkEof)
            } else {
                PipelineAction::Stop(StopReason::Audio)
            },
            PipelineInput::SttEnded => PipelineAction::Stop(StopReason::Stt),
            PipelineInput::TranscriptEnded => PipelineAction::Stop(StopReason::Transcript),
            PipelineInput::CandidateAudioEnded => PipelineAction::Stop(StopReason::CandidateAudio),
            PipelineInput::CandidateSttEnded => PipelineAction::Stop(StopReason::CandidateStt),
            PipelineInput::CandidateTranscriptEnded => PipelineAction::Stop(
                StopReason::CandidateTranscript,
            ),
            PipelineInput::LlmEnded => PipelineAction::Stop(StopReason::Llm),
            PipelineInput::OutputEnded => PipelineAction::Stop(StopReason::Output),
        }
    }

    /// The seconds that workers have to stop.
    pub fn shutdown_timeout_secs(&self) -> (r: u64)
        ensures
            r == if self.benchmark {
                BENCHMARK_SHUTDOWN_TIMEOUT_SECS
            } else {
                SHUTDOWN_TIMEOUT_SECS
            },
    {
        if self.benchmark {
            BENCHMARK_SHUTDOWN_TIMEOUT_SECS
        } else {
            SHUTDOWN_TIMEOUT_SECS
        }
    }

    /// What the observers are told at the end.
    pub fn closing(&self) -> (r: OutputEvent)
        ensures
            r@ == status(StatusKind::Stopped, "mague-rc stopped cleanly"@),
    {
        status_event(StatusKind::Stopped, "mague-rc stopped cleanly")
    }
}

// ---------------------------------------------------------------------------
// How a run ended
// ---------------------------------------------------------------------------

/// How a worker ended, and with what.
#[derive(Debug)]
pub enum TaskEnd {
    /// As it should, with nothing to complain of.
    Well,
    /// As it should, but with a failure.
    Failed(AppError),
    /// It broke down.
    Crashed(String),
    /// It did not stop in time.
    TimedOut,
}

/// The value of a [`TaskEnd`].
pub enum TaskEndModel {
    Well,
    Failed(AppErrorModel),
    Crashed(Seq<char>),
    TimedOut,
}

impl View for TaskEnd {
    type V = TaskEndModel;

    open spec fn view(&self) -> TaskEndModel {
        match *self {
            TaskEnd::Well => TaskEndModel::Well,
            TaskEnd::Failed(error) => TaskEndModel::Failed(error@),
            TaskEnd::Crashed(error) => TaskEndModel::Crashed(error@),
            TaskEnd::TimedOut => TaskEndModel::TimedOut,
        }
    }
}

/// The failure of a worker that did not end as it should.
pub open spec fn breakdown(worker: Seq<char>, end: TaskEndModel) -> Option<AppErrorModel> {
    match end {
        TaskEndModel::Crashed(error) => Some(AppErrorModel::WorkerTask { worker, error }),
        TaskEndModel::TimedOut => Some(AppErrorModel::WorkerShutdownTimeout(worker)),
        _ => None,
    }
}

/// The failure that a worker ended with.
pub open spec fn complaint(end: TaskEndModel) -> Option<AppErrorModel> {
    match end {
        TaskEndModel::Failed(error) => Some(error),
        _ => None,
    }
}

/// The failure of a worker that did not end as it should.
pub fn worker_breakdown(worker: &'static str, end: &TaskEnd) -> (r: Option<AppError>)
    ensures
        match r {
            Some(error) => breakdown(worker@, end@) == Some(error@),
            None => breakdown(worker@, end@) is None,
        },
{
    match end {
        TaskEnd::Crashed(error) => Some(AppError::WorkerTask { worker, error: error.clone() }),
        TaskEnd::TimedOut => Some(AppError::WorkerShutdownTimeout(worker)),
        _ => None,
    }
}

/// How all workers ended. One that was not started ended well.
#[derive(Debug)]
pub struct RunEnds {
    pub audio: TaskEnd,
    pub stt: TaskEnd,
    pub transcript: TaskEnd,
    pub candidate_audio: TaskEnd,
    pub candidate_stt: TaskEnd,
    pub candidate_transcript: TaskEnd,
    pub llm: TaskEnd,
    pub output: TaskEnd,
}

// ---------------------------------------------------------------------------
// The order of a stop
// ---------------------------------------------------------------------------

/// What is done next in a stop: a worker is waited for, or the observers are
/// told of it.
#[derive(Clone, Copy, Debug, PartialEq, Eq, Structural)]
pub enum ShutdownStep {
    Audio,
    Stt,
    Transcript,
    CandidateAudio,
    CandidateStt,
    CandidateTranscript,
    Knowledge,
    Llm,
    /// The observers are told that the pipeline has stopped.
    Announce,
    Output,
    Done,
}

impl ShutdownStep {
    /// How many steps come before.
    pub open spec fn place(self) -> nat {
        match self {
            ShutdownStep::Audio => 0,
            ShutdownStep::Stt => 1,
            ShutdownStep::Transcript => 2,
            ShutdownStep::CandidateAudio => 3,
            ShutdownStep::CandidateStt => 4,
            ShutdownStep::CandidateTranscript => 5,
            ShutdownStep::Knowledge => 6,
            ShutdownStep::Llm => 7,
            ShutdownStep::Announce => 8,
            ShutdownStep::Output => 9,
            ShutdownStep::Done => 10,
        }
    }

    /// The step that comes next.
    pub open spec fn successor(self) -> ShutdownStep {
        match self {
            ShutdownStep::Audio => ShutdownStep::Stt,
            ShutdownStep::Stt => ShutdownStep::Transcript,
            ShutdownStep::Transcript => ShutdownStep::CandidateAudio,
            ShutdownStep::CandidateAudio => ShutdownStep::CandidateStt,
            ShutdownStep::CandidateStt => ShutdownStep::CandidateTranscript,
            ShutdownStep::CandidateTranscript => ShutdownStep::Knowledge,
            ShutdownStep::Knowledge => ShutdownStep::Llm,
            ShutdownStep::Llm => ShutdownStep::Announce,
            ShutdownStep::Announce => ShutdownStep::Output,
            ShutdownStep::Output => ShutdownStep::Done,
            ShutdownStep::Done => ShutdownStep::Done,
        }
    }

    /// The worker that is waited for, where its end can break the stop off.
    pub open spec fn awaited(self) -> Option<Seq<char>> {
        match self {
            ShutdownStep::Audio => Some("audio"@),
            ShutdownStep::Stt => Some("stt"@),
            ShutdownStep::Transcript => Some("transcript"@),
            ShutdownStep::CandidateAudio => Some("candidate audio"@),
            ShutdownStep::CandidateStt => Some("candidate STT"@),
            ShutdownStep::CandidateTranscript => Some("candidate transcript"@),
            ShutdownStep::Knowledge => None,
            ShutdownStep::Llm => Some("LLM"@),
            ShutdownStep::Announce => None,
            ShutdownStep::Output => Some("output"@),
            ShutdownStep::Done => None,
        }
    }

    /// The worker that is waited for, where its end can break the stop off.
    pub fn worker(self) -> (r: Option<&'static str>)
        ensures
            match r {
                Some(worker) => self.awaited() == Some(worker@),
                None => self.awaited() is None,
            },
    {
        match self {
            ShutdownStep::Audio => Some("audio"),
            ShutdownStep::Stt => Some("stt"),
            ShutdownStep::Transcript => Some("transcript"),
            ShutdownStep::CandidateAudio => Some("candidate audio"),
            ShutdownStep::CandidateStt => Some("candidate STT"),
            ShutdownStep::CandidateTranscript => Some("candidate transcript"),
            ShutdownStep::Knowledge => None,
            ShutdownStep::Llm => Some("LLM"),
            ShutdownStep::Announce => None,
            ShutdownStep::Output => Some("output"),
            ShutdownStep::Done => None,
        }
    }

    /// The next step, once this one has come to its end: a worker that did not
    /// end as it should breaks the stop off.
    pub fn following(self, end: &TaskEnd) -> (r: Result<ShutdownStep, AppError>)
        ensures
            ({
                let fault = match self.awaited() {
                    Some(worker) => breakdown(worker, end@),
                    None => None,
                };
                match r {
                    Ok(next) => fault is None && next == self.successor(),
                    Err(error) => fault == Some(error@),
                }
            }),
    {
        if let Some(worker) = self.worker() {
            if let Some(error) = worker_breakdown(worker, end) {
                return Err(error);
            }
        }
        Ok(
            match self {
                ShutdownStep::Audio => ShutdownStep::Stt,
                ShutdownStep::Stt => ShutdownStep::Transcript,
                ShutdownStep::Transcript => ShutdownStep::CandidateAudio,
                ShutdownStep::CandidateAudio => ShutdownStep::CandidateStt,
                ShutdownStep::CandidateStt => ShutdownStep::CandidateTranscript,
                ShutdownStep::CandidateTranscript => ShutdownStep::Knowledge,
                ShutdownStep::Knowledge => ShutdownStep::Llm,
                ShutdownStep::Llm => ShutdownStep::Announce,
                ShutdownStep::Announce => ShutdownStep::Output,
                ShutdownStep::Output => ShutdownStep::Done,
                ShutdownStep::Done => ShutdownStep::Done,
            },
        )
    }
}

/// A stop goes through all steps in order. The observers are told that the
/// pipeline has stopped after every worker whose reports they see has ended,
/// so that the questions and answers that were pending come before, and
/// nothing but the end of the output comes behind.
pub proof fn the_last_report_comes_last(step: ShutdownStep)
    ensures
        step != ShutdownStep::Done ==> step.successor().place() == step.place() + 1,
        step.place() < ShutdownStep::Announce.place() <==> (step != ShutdownStep::Announce && step
            != ShutdownStep::Output && step != ShutdownStep::Done),
        ShutdownStep::Announce.successor() == ShutdownStep::Output,
        ShutdownStep::Output.successor() == ShutdownStep::Done,
{
}

// ---------------------------------------------------------------------------
// The verdict on a run
// ---------------------------------------------------------------------------

/// The first of two failures.
pub open spec fn first_failure(a: Option<AppErrorModel>, b: Option<AppErrorModel>) -> Option<
    AppErrorModel,
> {
    if a is Some {
        a
    } else {
        b
    }
}

/// The first worker that did not end as it should, in the order in which they
/// are waited for.
pub open spec fn first_breakdown(ends: RunEnds) -> Option<AppErrorModel> {
    first_failure(
        breakdown("audio"@, ends.audio@),
        first_failure(
            breakdown("stt"@, ends.stt@),
            first_failure(
                breakdown("transcript"@, ends.transcript@),
                first_failure(
                    breakdown("candidate audio"@, ends.candidate_audio@),
                    first_failure(
                        breakdown("candidate STT"@, ends.candidate_stt@),
                        first_failure(
                            breakdown("candidate transcript"@, ends.candidate_transcript@),
                            first_failure(
                                breakdown("LLM"@, ends.llm@),
                                breakdown("output"@, ends.output@),
                            ),
                        ),
                    ),
                ),
            ),
        ),
    )
}

/// The first failure that a worker ended with.
pub open spec fn first_complaint(ends: RunEnds) -> Option<AppErrorModel> {
    first_failure(
        complaint(ends.audio@),
        first_failure(
            complaint(ends.stt@),
            first_failure(
                complaint(ends.candidate_audio@),
                first_failure(
                    complaint(ends.candidate_stt@),
                    first_failure(
                        complaint(ends.transcript@),
                        first_failure(
                            complaint(ends.candidate_transcript@),
                            first_failure(complaint(ends.llm@), complaint(ends.output@)),
                        ),
                    ),
                ),
            ),
        ),
    )
}

/// Why a run was not a success: a worker that did not end as it should, else a
/// failure that one ended with, else one that stopped although nobody asked.
pub open spec fn run_failure(ends: RunEnds, reason: StopReason) -> Option<AppErrorModel> {
    first_failure(
        first_breakdown(ends),
        first_failure(
            first_complaint(ends),
            match reason.culprit() {
                Some(worker) => Some(AppErrorModel::WorkerStopped(worker)),
                None => None,
            },
        ),
    )
}

/// Whether a run was a success.
pub fn conclude(ends: RunEnds, reason: StopReason) -> (r: Result<(), AppError>)
    ensures
        match r {
            Ok(_) => run_failure(ends, reason) is None,
            Err(error) => run_failure(ends, reason) == Some(error@),
        },
{
    if let Some(error) = worker_breakdown("audio", &ends.audio) {
        return Err(error);
    }
    if let Some(error) = worker_breakdown("stt", &ends.stt) {
        return Err(error);
    }
    if let Some(error) = worker_breakdown("transcript", &ends.transcript) {
        return Err(error);
    }
    if let Some(error) = worker_breakdown("candidate audio", &ends.candidate_audio) {
        return Err(error);
    }
    if let Some(error) = worker_breakdown("candidate STT", &ends.candidate_stt) {
        return Err(error);
    }
    if let Some(error) = worker_breakdown("candidate transcript", &ends.candidate_transcript) {
        return Err(error);
    }
    if let Some(error) = worker_breakdown("LLM", &ends.llm) {
        return Err(error);
    }
    if let Some(error) = worker_breakdown("output", &ends.output) {
        return Err(error);
    }
    if let TaskEnd::Failed(error) = ends.audio {
        return Err(error);
    }
    if let TaskEnd::Failed(error) = ends.stt {
        return Err(error);
    }
    if let TaskEnd::Failed(error) = ends.candidate_audio {
        return Err(error);
    }
    if let TaskEnd::Failed(error) = ends.candidate_stt {
        return Err(error);
    }
    if let TaskEnd::Failed(error) = ends.transcript {
        return Err(error);
    }
    if let TaskEnd::Failed(error) = ends.candidate_transcript {
        return Err(error);
    }
    if let TaskEnd::Failed(error) = ends.llm {
        return Err(error);
    }
    if let TaskEnd::Failed(error) = ends.output {
        return Err(error);
    }
    match reason.unexpected_worker() {
        Some(worker) => Err(AppError::WorkerStopped(worker)),
        None => Ok(()),
    }
}

/// The counts of a knowledge base that failed count as one failure.
pub fn knowledge_stats(stats: Option<KnowledgeWorkerStats>, started: bool) -> (r:
    KnowledgeWorkerStats)
    ensures
        r == if !started {
            KnowledgeWorkerStats { searches: 0, failed: 0, coalesced: 0 }
        } else {
            match stats {
                Some(counts) => counts,
                None => KnowledgeWorkerStats { searches: 0, failed: 1, coalesced: 0 },
            }
        },
{
    if !started {
        return KnowledgeWorkerStats::default();
    }
    match stats {
        Some(counts) => counts,
        None => KnowledgeWorkerStats { searches: 0, failed: 1, coalesced: 0 },
    }
}

/// Switching the mode twice leaves it as it was, unless it was the mode for
/// read questions.
pub proof fn switching_twice_changes_nothing(c: PipelineController)
    requires
        c.mode != Mode::Ocr,
    ensures
        ({
            let toggle = PipelineInput::Command(Some(AppCommand::ToggleLiveCoding));
            stepped(stepped(c, toggle).0, toggle).0 == c
        }),
{
}

/// A run is a success exactly where every worker ended well and it stopped
/// because someone asked, or because its file was played.
pub proof fn success_needs_every_worker(ends: RunEnds, reason: StopReason)
    ensures
        run_failure(ends, reason) is None <==> {
            &&& ends.audio@ is Well
            &&& ends.stt@ is Well
            &&& ends.transcript@ is Well
            &&& ends.candidate_audio@ is Well
            &&& ends.candidate_stt@ is Well
            &&& ends.candidate_transcript@ is Well
            &&& ends.llm@ is Well
            &&& ends.output@ is Well
            &&& (reason == StopReason::Signal || reason == StopReason::Command || reason
                == StopReason::BenchmarkEof)
        },
{
}

/// The end of any worker stops the pipeline, and so does every failed
/// delivery: no input leaves it running with a worker gone.
pub proof fn a_worker_that_ends_stops_the_pipeline(c: PipelineController, input: PipelineInput)
    requires
        !(input is Command),
    ensures
        stepped(c, input).1 is Stop || stepped(c, input).1 is DrainAndStop,
{
}

/// Commands about speech go to the interviewer's worker, to the candidate's
/// where there is one, and then to the observers, and leave the rest as it is.
pub proof fn commands_reach_every_worker(c: PipelineController, on: bool)
    ensures
        ({
            let command = if on {
                AppCommand::PauseListening
            } else {
                AppCommand::ResumeListening
            };
            let (next, action) = stepped(c, PipelineInput::Command(Some(command)));
            let report = DeliveryModel::Output(
                OutputEventModel::Status(
                    StatusMessageModel {
                        kind: if on {
                            StatusKind::Paused
                        } else {
                            StatusKind::Listening
                        },
                        text: if on {
                            "listening paused"@
                        } else {
                            "listening resumed"@
                        },
                    },
                ),
            );
            let order = TranscriptCommand::SetPaused(on);
            &&& next == c
            &&& c.candidate_enabled ==> action == ActionModel::Deliver(
                seq![
                    DeliveryModel::Transcript(order),
                    DeliveryModel::CandidateTranscript(order),
                    report,
                ],
            )
            &&& !c.candidate_enabled ==> action == ActionModel::Deliver(
                seq![DeliveryModel::Transcript(order), report],
            )
        }),
        ({
            let toggle = PipelineInput::Command(Some(AppCommand::ToggleLiveCoding));
            let (next, action) = stepped(c, toggle);
            let mode = if c.mode == Mode::LiveCoding {
                Mode::Voice
            } else {
                Mode::LiveCoding
            };
            let order = TranscriptCommand::SetMode(mode);
            let report = DeliveryModel::Output(OutputEventModel::ModeChanged { mode });
            &&& next.mode == mode
            &&& next.candidate_enabled == c.candidate_enabled
            &&& next.benchmark == c.benchmark
            &&& c.candidate_enabled ==> action == ActionModel::Deliver(
                seq![
                    DeliveryModel::Transcript(order),
                    DeliveryModel::CandidateTranscript(order),
                    report,
                ],
            )
            &&& !c.candidate_enabled ==> action == ActionModel::Deliver(
                seq![DeliveryModel::Transcript(order), report],
            )
        }),
        stepped(c, PipelineInput::Command(Some(AppCommand::ClearHistory))) == (
            c,
            ActionModel::Deliver(
                seq![
                    DeliveryModel::Llm(LlmCommand::ClearHistory),
                    DeliveryModel::Output(
                        OutputEventModel::Status(
                            StatusMessageModel {
                                kind: StatusKind::HistoryCleared,
                                text: "conversation history cleared"@,
                            },
                        ),
                    ),
                ],
            ),
        ),
        stepped(c, PipelineInput::Command(None)) == (c, ActionModel::CloseCommands),
        stepped(c, PipelineInput::Command(Some(AppCommand::Shutdown))) == (
            c,
            ActionModel::Stop(StopReason::Command),
        ),
{
}

/// The pipeline stops for what ended; only a file that was played to its end
/// lets the workers go on for a while.
pub proof fn every_end_has_its_reason(c: PipelineController, success: bool)
    ensures
        stepped(c, PipelineInput::Signal) == (c, ActionModel::Stop(StopReason::Signal)),
        c.benchmark && success ==> stepped(c, PipelineInput::AudioEnded { success }) == (
            c,
            ActionModel::DrainAndStop(StopReason::BenchmarkEof),
        ),
        !(c.benchmark && success) ==> stepped(c, PipelineInput::AudioEnded { success }) == (
            c,
            ActionModel::Stop(StopReason::Audio),
        ),
        stepped(c, PipelineInput::SttEnded) == (c, ActionModel::Stop(StopReason::Stt)),
        stepped(c, PipelineInput::TranscriptEnded) == (c, ActionModel::Stop(StopReason::Transcript)),
        stepped(c, PipelineInput::CandidateAudioEnded) == (
            c,
            ActionModel::Stop(StopReason::CandidateAudio),
        ),
        stepped(c, PipelineInput::CandidateSttEnded) == (
            c,
            ActionModel::Stop(StopReason::CandidateStt),
        ),
        stepped(c, PipelineInput::CandidateTranscriptEnded) == (
            c,
            ActionModel::Stop(StopReason::CandidateTranscript),
        ),
        stepped(c, PipelineInput::LlmEnded) == (c, ActionModel::Stop(StopReason::Llm)),
        stepped(c, PipelineInput::OutputEnded) == (c, ActionModel::Stop(StopReason::Output)),
{
}

/// Workers that end are named, and reasons that are no failure name nobody.
pub proof fn failures_name_their_worker(reason: StopReason)
    ensures
        reason.culprit() is None <==> reason == StopReason::Signal || reason == StopReason::Command
            || reason == StopReason::BenchmarkEof,
        StopReason::Audio.culprit() == Some("audio"@),
        StopReason::Stt.culprit() == Some("stt"@),
        StopReason::Transcript.culprit() == Some("transcript"@),
        StopReason::CandidateAudio.culprit() == Some("candidate audio"@),
        StopReason::CandidateStt.culprit() == Some("candidate STT"@),
        StopReason::CandidateTranscript.culprit() == Some("candidate transcript"@),
        StopReason::Llm.culprit() == Some("LLM"@),
        StopReason::Output.culprit() == Some("output"@),
{
}

/// Whether a worker broke down or did not stop in time.
pub open spec fn broken(end: TaskEndModel) -> bool {
    end is Crashed || end is TimedOut
}

/// What went wrong in a worker that broke down.
pub open spec fn is_breakdown_of(
    error: Option<AppErrorModel>,
    worker: Seq<char>,
    end: TaskEndModel,
) -> bool {
    match end {
        TaskEndModel::Crashed(reason) => error == Some(
            AppErrorModel::WorkerTask { worker, error: reason },
        ),
        TaskEndModel::TimedOut => error == Some(AppErrorModel::WorkerShutdownTimeout(worker)),
        _ => false,
    }
}

/// A run fails for the first worker that broke down, in the order in which they
/// are stopped.
pub proof fn breakdowns_come_first(ends: RunEnds, reason: StopReason)
    ensures
        ({
            let error = run_failure(ends, reason);
            if broken(ends.audio@) {
                is_breakdown_of(error, "audio"@, ends.audio@)
            } else if broken(ends.stt@) {
                is_breakdown_of(error, "stt"@, ends.stt@)
            } else if broken(ends.transcript@) {
                is_breakdown_of(error, "transcript"@, ends.transcript@)
            } else if broken(ends.candidate_audio@) {
                is_breakdown_of(error, "candidate audio"@, ends.candidate_audio@)
            } else if broken(ends.candidate_stt@) {
                is_breakdown_of(error, "candidate STT"@, ends.candidate_stt@)
            } else if broken(ends.candidate_transcript@) {
                is_breakdown_of(error, "candidate transcript"@, ends.candidate_transcript@)
            } else if broken(ends.llm@) {
                is_breakdown_of(error, "LLM"@, ends.llm@)
            } else if broken(ends.output@) {
                is_breakdown_of(error, "output"@, ends.output@)
            } else {
                true
            }
        }),
{
}

/// Where no worker broke down, a run fails for the first worker that failed,
/// those for sound and speech before those for transcripts; and where none did,
/// for the one that stopped before it was asked to.
pub proof fn failures_come_before_the_reason(ends: RunEnds, reason: StopReason)
    requires
        !broken(ends.audio@),
        !broken(ends.stt@),
        !broken(ends.transcript@),
        !broken(ends.candidate_audio@),
        !broken(ends.candidate_stt@),
        !broken(ends.candidate_transcript@),
        !broken(ends.llm@),
        !broken(ends.output@),
    ensures
        ({
            let error = run_failure(ends, reason);
            if ends.audio@ is Failed {
                ends.audio@ == TaskEndModel::Failed(error->0)
            } else if ends.stt@ is Failed {
                ends.stt@ == TaskEndModel::Failed(error->0)
            } else if ends.candidate_audio@ is Failed {
                ends.candidate_audio@ == TaskEndModel::Failed(error->0)
            } else if ends.candidate_stt@ is Failed {
                ends.candidate_stt@ == TaskEndModel::Failed(error->0)
            } else if ends.transcript@ is Failed {
                ends.transcript@ == TaskEndModel::Failed(error->0)
            } else if ends.candidate_transcript@ is Failed {
                ends.candidate_transcript@ == TaskEndModel::Failed(error->0)
            } else if ends.llm@ is Failed {
                ends.llm@ == TaskEndModel::Failed(error->0)
            } else if ends.output@ is Failed {
                ends.output@ == TaskEndModel::Failed(error->0)
            } else {
                reason.culprit() matches Some(worker) ==> error == Some(
                    AppErrorModel::WorkerStopped(worker),
                )
            }
        }),
{
}

/// Workers are stopped one after the other, those that hand on before those
/// that take over, and each is waited for by its name.
pub proof fn workers_stop_in_order(step: ShutdownStep)
    ensures
        ShutdownStep::Audio.successor() == ShutdownStep::Stt,
        ShutdownStep::Stt.successor() == ShutdownStep::Transcript,
        ShutdownStep::Transcript.successor() == ShutdownStep::CandidateAudio,
        ShutdownStep::CandidateAudio.successor() == ShutdownStep::CandidateStt,
        ShutdownStep::CandidateStt.successor() == ShutdownStep::CandidateTranscript,
        ShutdownStep::CandidateTranscript.successor() == ShutdownStep::Knowledge,
        ShutdownStep::Knowledge.successor() == ShutdownStep::Llm,
        ShutdownStep::Llm.successor() == ShutdownStep::Announce,
        ShutdownStep::Done.successor() == ShutdownStep::Done,
        step.awaited() is None <==> step == ShutdownStep::Knowledge || step
            == ShutdownStep::Announce || step == ShutdownStep::Done,
        ShutdownStep::Audio.awaited() == StopReason::Audio.culprit(),
        ShutdownStep::Stt.awaited() == StopReason::Stt.culprit(),
        ShutdownStep::Transcript.awaited() == StopReason::Transcript.culprit(),
        ShutdownStep::CandidateAudio.awaited() == StopReason::CandidateAudio.culprit(),
        ShutdownStep::CandidateStt.awaited() == StopReason::CandidateStt.culprit(),
        ShutdownStep::CandidateTranscript.awaited() == StopReason::CandidateTranscript.culprit(),
        ShutdownStep::Llm.awaited() == StopReason::Llm.culprit(),
        ShutdownStep::Output.awaited() == StopReason::Output.culprit(),
{
}

/// The candidate is captured exactly where that is wanted and no file is
/// played; the first report names what is captured and what answers.
pub proof fn files_replace_what_is_captured(c: ConfigModel, path: Seq<char>)
    ensures
        source_label(c, Some(path)) == path,
        source_label(c, None) == c.audio.source,
        !captures_candidate(c, Some(path)),
        captures_candidate(c, None) <==> c.candidate_audio.enabled,
        candidate_label(c, Some(path)) == "disabled"@,
        candidate_label(c, None) == if c.candidate_audio.enabled {
            c.candidate_audio.source
        } else {
            "disabled"@
        },
        opening(c, None).len() == 2,
        opening(c, None)[0] == OutputEventModel::Status(
            StatusMessageModel {
                kind: StatusKind::Started,
                text: "source="@ + c.audio.source + " | candidate="@ + candidate_label(c, None)
                    + " | STT="@ + c.deepgram.model + " | LLM="@ + c.llm.model,
            },
        ),
        opening(c, None)[1] == (OutputEventModel::ModeChanged { mode: Mode::Voice }),
        opening(c, Some(path))[0] == OutputEventModel::Status(
            StatusMessageModel {
                kind: StatusKind::Started,
                text: "source="@ + path + " | candidate="@ + "disabled"@ + " | STT="@
                    + c.deepgram.model + " | LLM="@ + c.llm.model,
            },
        ),
{
}

} // verus!
