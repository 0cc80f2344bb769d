//! Why the assistant stopped.
use vstd::prelude::*;

use crate::app::transcript_worker::TranscriptWorkerError;
use crate::audio::ffmpeg::{AudioError, AudioErrorModel};
use crate::config::settings::{ConfigError, ConfigErrorModel};
use crate::knowledge::types::{KnowledgeError, KnowledgeErrorModel};
use crate::llm::provider::{LlmError, LlmErrorModel};
use crate::llm::queue::LlmQueueError;
use crate::llm::worker::LlmWorkerError;
use crate::stt::deepgram::{SttError, SttErrorModel};

verus! {

/// Why the assistant stopped.
#[derive(Debug)]
pub enum AppError {
    Configuration(ConfigError),
    Tracing(String),
    Shutdown(String),
    Audio(AudioError),
    Stt(SttError),
    Llm(LlmError),
    LlmQueue(LlmQueueError),
    LlmWorker(LlmWorkerError),
    Knowledge(KnowledgeError),
    TranscriptWorker(TranscriptWorkerError),
    Output(String),
    Overlay(String),
    Argument(String),
    WorkerTask { worker: &'static str, error: String },
    WorkerStopped(&'static str),
    WorkerShutdownTimeout(&'static str),
}

/// The value of an [`AppError`].
#[verifier::ext_equal]
pub enum AppErrorModel {
    Configuration(ConfigErrorModel),
    Tracing(Seq<char>),
    Shutdown(Seq<char>),
    Audio(AudioErrorModel),
    Stt(SttErrorModel),
    Llm(LlmErrorModel),
    LlmQueue,
    LlmWorker,
    Knowledge(KnowledgeErrorModel),
    TranscriptWorker(TranscriptWorkerError),
    Output(Seq<char>),
    Overlay(Seq<char>),
    Argument(Seq<char>),
    WorkerTask { worker: Seq<char>, error: Seq<char> },
    WorkerStopped(Seq<char>),
    WorkerShutdownTimeout(Seq<char>),
}

impl View for AppError {
    type V = AppErrorModel;

    open spec fn view(&self) -> AppErrorModel {
        match *self {
            AppError::Configuration(error) => AppErrorModel::Configuration(error@),
            AppError::Tracing(reason) => AppErrorModel::Tracing(reason@),
            AppError::Shutdown(reason) => AppErrorModel::Shutdown(reason@),
            AppError::Audio(error) => AppErrorModel::Audio(error@),
            AppError::Stt(error) => AppErrorModel::Stt(error@),
            AppError::Llm(error) => AppErrorModel::Llm(error@),
            AppError::LlmQueue(_) => AppErrorModel::LlmQueue,
            AppError::LlmWorker(_) => AppErrorModel::LlmWorker,
            AppError::Knowledge(error) => AppErrorModel::Knowledge(error@),
            AppError::TranscriptWorker(error) => AppErrorModel::TranscriptWorker(error),
            AppError::Output(reason) => AppErrorModel::Output(reason@),
            AppError::Overlay(reason) => AppErrorModel::Overlay(reason@),
            AppError::Argument(reason) => AppErrorModel::Argument(reason@),
            AppError::WorkerTask { worker, error } => AppErrorModel::WorkerTask {
                worker: worker@,
                error: error@,
            },
            AppError::WorkerStopped(worker) => AppErrorModel::WorkerStopped(worker@),
            AppError::WorkerShutdownTimeout(worker) => AppErrorModel::WorkerShutdownTimeout(
                worker@,
            ),
        }
    }
}

impl AppErrorModel {
    /// The failure in words.
    pub open spec fn words(self) -> Seq<char> {
        match self {
            AppErrorModel::Configuration(error) => error.words(),
            AppErrorModel::Tracing(reason) => "failed to install tracing subscriber: "@ + reason,
            AppErrorModel::Shutdown(reason) => "failed while waiting for shutdown signal: "@
                + reason,
            AppErrorModel::Audio(error) => error.words(),
            AppErrorModel::Stt(error) => error.words(),
            AppErrorModel::Llm(error) => error.words(),
            AppErrorModel::LlmQueue => "LLM request queue closed"@,
            AppErrorModel::LlmWorker => "LLM output channel closed"@,
            AppErrorModel::Knowledge(error) => error.words(),
            AppErrorModel::TranscriptWorker(error) => error.words(),
            AppErrorModel::Output(reason) => "output sink failed: "@ + reason,
            AppErrorModel::Overlay(reason) => "failed to start overlay: "@ + reason,
            AppErrorModel::Argument(reason) => "invalid arguments: "@ + reason,
            AppErrorModel::WorkerTask { worker, error } => worker + " worker task failed: "@
                + error,
            AppErrorModel::WorkerStopped(worker) => worker + " worker stopped unexpectedly"@,
            AppErrorModel::WorkerShutdownTimeout(worker) => worker
                + " worker did not stop within the shutdown timeout"@,
        }
    }
}

fn joined(first: &str, second: &str) -> (r: String)
    ensures
        r@ == first@ + second@,
{
    let mut out = first.to_owned();
    out.append(second);
    out
}

impl AppError {
    /// The failure in words.
    pub fn message(&self) -> (r: String)
        ensures
            r@ == self@.words(),
    {
        match self {
            AppError::Configuration(error) => error.message(),
            AppError::Tracing(reason) => joined(
                "failed to install tracing subscriber: ",
                reason.as_str(),
            ),
            AppError::Shutdown(reason) => joined(
                "failed while waiting for shutdown signal: ",
                reason.as_str(),
            ),
            AppError::Audio(error) => error.message(),
            AppError::Stt(error) => error.message(),
            AppError::Llm(error) => error.message(),
            AppError::LlmQueue(error) => error.message(),
            AppError::LlmWorker(error) => error.message(),
            AppError::Knowledge(error) => error.message(),
            AppError::TranscriptWorker(error) => error.message(),
            AppError::Output(reason) => joined("output sink failed: ", reason.as_str()),
            AppError::Overlay(reason) => joined("failed to start overlay: ", reason.as_str()),
            AppError::Argument(reason) => joined("invalid arguments: ", reason.as_str()),
            AppError::WorkerTask { worker, error } => joined(
                joined(worker, " worker task failed: ").as_str(),
                error.as_str(),
            ),
            AppError::WorkerStopped(worker) => joined(worker, " worker stopped unexpectedly"),
            AppError::WorkerShutdownTimeout(worker) => joined(
                worker,
                " worker did not stop within the shutdown timeout",
            ),
        }
    }
}

} // verus!
