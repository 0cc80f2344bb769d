//! What observers of the pipeline see.

pub mod state;
pub mod stats;
pub mod terminal;

pub use state::{AnswerStatus, AppSnapshot, ConnectionStatus, ConversationTurn, WorkerStatus};
pub use stats::{ChannelOutputError, OutputStats};
pub use terminal::{TerminalOutputError, TerminalOutputSink};
