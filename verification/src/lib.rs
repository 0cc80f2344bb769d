//! Verified core of a real-time interview assistant.

pub mod app;
pub mod arguments;
pub mod audio;
pub mod benchmark;
pub mod config;
pub mod control;
pub mod error;
pub mod events;
pub mod json;
pub mod knowledge;
pub mod llm;
pub mod numbers;
pub mod output;
pub mod overlay;
pub mod ranking;
pub mod stt;
pub mod telemetry;
pub mod text;
pub mod transcript;
pub mod unicode;
pub mod web;
