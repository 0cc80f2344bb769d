//! The pipeline from speech to questions.

pub mod boundary;
pub mod controller;
pub mod retrieval;
pub mod transcript_worker;

pub use controller::{
    conclude, PipelineAction, PipelineController, PipelineInput, RunOptions, StopReason,
};
pub use retrieval::RetrievalPipeline;
pub use transcript_worker::{
    TranscriptCommand, TranscriptStats, TranscriptWorker, TranscriptWorkerError,
};
