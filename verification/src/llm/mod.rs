//! The dialogue with the language model.

pub mod code_diff;
pub mod history;
pub mod live_coding;
pub mod openrouter;
pub mod prompts;
pub mod provider;
pub mod queue;
pub mod worker;

pub use history::ConversationHistories;
pub use live_coding::parse_live_coding_response;
pub use openrouter::build_chat_completions_url;
pub use prompts::{
    knowledge_context_prompt, live_coding_system_prompt, live_coding_user_prompt,
    voice_system_prompt, voice_user_prompt,
};
pub use provider::{ChatMessage, ChatRequest, ChatRole, LlmError, LlmStreamEvent};
pub use queue::LlmQueueError;
pub use worker::{LlmWorker, LlmWorkerError, LlmWorkerStats};
