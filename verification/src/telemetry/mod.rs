//! Records of a run: what happened when, and how long it took.

pub mod accuracy;
pub mod metrics;
pub mod recorder;
pub mod summary;

pub use recorder::{RunSummary, TelemetryRecorder};
