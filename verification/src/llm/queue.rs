//! The queue of questions in front of the language model.
use vstd::prelude::*;

verus! {

/// The reader of the queue is gone.
#[derive(Clone, Copy, Debug, PartialEq, Eq, Structural)]
pub struct LlmQueueError;

impl LlmQueueError {
    /// The failure in words.
    pub fn message(self) -> (r: String)
        ensures
            r@ == "LLM request queue closed"@,
    {
        "LLM request queue closed".to_owned()
    }
}

} // verus!
