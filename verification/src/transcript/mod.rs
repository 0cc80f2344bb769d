//! From recognised words to complete utterances.

pub mod window;

pub use window::TranscriptWindowAssembler;
