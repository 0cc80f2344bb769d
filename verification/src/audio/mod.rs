//! The capture of sound.

pub mod ffmpeg;
pub mod queue;

pub use ffmpeg::{pcm_chunk_size, AudioError, FfmpegAudioSource};
pub use queue::QueueCounter;
