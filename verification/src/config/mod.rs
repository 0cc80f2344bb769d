//! The configuration of the assistant.

pub mod assistant;
pub mod settings;

pub use assistant::{
    AudioConfig, CandidateAudioConfig, Config, DeepgramConfig, EmbeddingConfig, KnowledgeConfig,
    LlmConfig, Readings, ScreenshotConfig, SecretString, SessionLogConfig, TranscriptConfig,
    VisionConfig,
};
pub use settings::ConfigError;
