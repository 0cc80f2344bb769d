//! What is said to the language model and what comes back.
use vstd::prelude::*;

use crate::events::LlmUsage;
use crate::numbers::Single;
use crate::text::{decimal, decimal_text};

verus! {

/// Who speaks in a dialogue.
#[derive(Clone, Copy, Debug, PartialEq, Eq, Structural)]
pub enum ChatRole {
    System,
    User,
    Assistant,
}

impl ChatRole {
    /// The word for the role.
    pub open spec fn name(self) -> Seq<char> {
        match self {
            ChatRole::System => "system"@,
            ChatRole::User => "user"@,
            ChatRole::Assistant => "assistant"@,
        }
    }

    /// The word for the role.
    pub fn label(self) -> (r: &'static str)
        ensures
            r@ == self.name(),
    {
        match self {
            ChatRole::System => "system",
            ChatRole::User => "user",
            ChatRole::Assistant => "assistant",
        }
    }
}

/// A message of a dialogue.
#[derive(Debug, PartialEq, Eq)]
pub struct ChatMessage {
    pub role: ChatRole,
    pub content: String,
}

/// The value of a [`ChatMessage`].
#[verifier::ext_equal]
pub struct ChatMessageModel {
    pub role: ChatRole,
    pub content: Seq<char>,
}

impl View for ChatMessage {
    type V = ChatMessageModel;

    open spec fn view(&self) -> ChatMessageModel {
        ChatMessageModel {
            role: self.role,
            content: self.content@,
        }
    }
}

impl Clone for ChatMessage {
    fn clone(&self) -> (r: Self)
        ensures
            r@ == self@,
    {
        ChatMessage {
            role: self.role,
            content: self.content.clone(),
        }
    }
}

/// The values of the messages.
pub open spec fn message_models(messages: Seq<ChatMessage>) -> Seq<ChatMessageModel> {
    Seq::new(messages.len(), |i: int| messages[i]@)
}

impl ChatMessage {
    /// An instruction to the model.
    pub fn system(content: String) -> (r: Self)
        ensures
            r@ == (ChatMessageModel { role: ChatRole::System, content: content@ }),
    {
        ChatMessage { role: ChatRole::System, content }
    }

    /// A message of the user.
    pub fn user(content: String) -> (r: Self)
        ensures
            r@ == (ChatMessageModel { role: ChatRole::User, content: content@ }),
    {
        ChatMessage { role: ChatRole::User, content }
    }

    /// A message of the model.
    pub fn assistant(content: String) -> (r: Self)
        ensures
            r@ == (ChatMessageModel { role: ChatRole::Assistant, content: content@ }),
    {
        ChatMessage { role: ChatRole::Assistant, content }
    }
}

/// A dialogue that the model is asked to go on with.
#[derive(Debug, PartialEq, Eq)]
pub struct ChatRequest {
    pub messages: Vec<ChatMessage>,
    pub temperature: Option<Single>,
    pub max_tokens: Option<u32>,
}

/// The value of a [`ChatRequest`].
#[verifier::ext_equal]
pub struct ChatRequestModel {
    pub messages: Seq<ChatMessageModel>,
    pub temperature: Option<Single>,
    pub max_tokens: Option<u32>,
}

impl View for ChatRequest {
    type V = ChatRequestModel;

    open spec fn view(&self) -> ChatRequestModel {
        ChatRequestModel {
            messages: Seq::new(self.messages@.len(), |i: int| self.messages@[i]@),
            temperature: self.temperature,
            max_tokens: self.max_tokens,
        }
    }
}

impl ChatRequest {
    /// A request that leaves the generation to its defaults.
    pub fn new(messages: Vec<ChatMessage>) -> (r: Self)
        ensures
            r@ == (ChatRequestModel {
                messages: message_models(messages@),
                temperature: None,
                max_tokens: None,
            }),
    {
        ChatRequest { messages, temperature: None, max_tokens: None }
    }

    /// The request with its own generation options.
    pub fn with_generation_options(self, temperature: Single, max_tokens: u32) -> (r: Self)
        ensures
            r@ == (ChatRequestModel {
                temperature: Some(temperature),
                max_tokens: Some(max_tokens),
                ..self@
            }),
    {
        ChatRequest {
            messages: self.messages,
            temperature: Some(temperature),
            max_tokens: Some(max_tokens),
        }
    }
}

/// A part of the answer of the model.
#[derive(Debug, PartialEq, Eq)]
pub enum LlmStreamEvent {
    /// More text.
    Delta(String),
    /// What the answer cost.
    Usage(LlmUsage),
}

/// The value of a [`LlmStreamEvent`].
#[verifier::ext_equal]
pub enum LlmStreamEventModel {
    Delta(Seq<char>),
    Usage(LlmUsage),
}

impl View for LlmStreamEvent {
    type V = LlmStreamEventModel;

    open spec fn view(&self) -> LlmStreamEventModel {
        match *self {
            LlmStreamEvent::Delta(inner) => LlmStreamEventModel::Delta(inner@),
            LlmStreamEvent::Usage(inner) => LlmStreamEventModel::Usage(inner),
        }
    }
}

impl Clone for LlmStreamEvent {
    fn clone(&self) -> (r: Self)
        ensures
            r@ == self@,
    {
        match self {
            LlmStreamEvent::Delta(inner) => LlmStreamEvent::Delta(inner.clone()),
            LlmStreamEvent::Usage(inner) => LlmStreamEvent::Usage(*inner),
        }
    }
}

/// Why a request to the model failed.
#[derive(Debug, PartialEq, Eq)]
pub enum LlmError {
    /// The HTTP client could not be built.
    Client(String),
    /// The request did not go through.
    Request(String),
    /// The service answered with an error status.
    HttpStatus {
        status: u16,
        message: String,
    },
    /// The event stream is malformed.
    Sse(String),
    /// The content of an event or of an answer is malformed.
    Protocol(String),
    /// The service reported an error of its own.
    Provider {
        code: String,
        message: String,
    },
    /// The stream ended before the marker of its end.
    IncompleteStream,
    /// The answer has no text.
    EmptyResponse,
    /// The answer was not complete after so many seconds.
    Timeout(u64),
}

/// The value of a [`LlmError`].
#[verifier::ext_equal]
pub enum LlmErrorModel {
    Client(Seq<char>),
    Request(Seq<char>),
    HttpStatus {
        status: u16,
        message: Seq<char>,
    },
    Sse(Seq<char>),
    Protocol(Seq<char>),
    Provider {
        code: Seq<char>,
        message: Seq<char>,
    },
    IncompleteStream,
    EmptyResponse,
    Timeout(u64),
}

impl View for LlmError {
    type V = LlmErrorModel;

    open spec fn view(&self) -> LlmErrorModel {
        match *self {
            LlmError::Client(inner) => LlmErrorModel::Client(inner@),
            LlmError::Request(inner) => LlmErrorModel::Request(inner@),
            LlmError::HttpStatus { status, message } => LlmErrorModel::HttpStatus {
                status: status,
                message: message@,
            },
            LlmError::Sse(inner) => LlmErrorModel::Sse(inner@),
            LlmError::Protocol(inner) => LlmErrorModel::Protocol(inner@),
            LlmError::Provider { code, message } => LlmErrorModel::Provider {
                code: code@,
                message: message@,
            },
            LlmError::IncompleteStream => LlmErrorModel::IncompleteStream,
            LlmError::EmptyResponse => LlmErrorModel::EmptyResponse,
            LlmError::Timeout(inner) => LlmErrorModel::Timeout(inner),
        }
    }
}

impl Clone for LlmError {
    fn clone(&self) -> (r: Self)
        ensures
            r@ == self@,
    {
        match self {
            LlmError::Client(inner) => LlmError::Client(inner.clone()),
            LlmError::Request(inner) => LlmError::Request(inner.clone()),
            LlmError::HttpStatus { status, message } => LlmError::HttpStatus {
                status: *status,
                message: message.clone(),
            },
            LlmError::Sse(inner) => LlmError::Sse(inner.clone()),
            LlmError::Protocol(inner) => LlmError::Protocol(inner.clone()),
            LlmError::Provider { code, message } => LlmError::Provider {
                code: code.clone(),
                message: message.clone(),
            },
            LlmError::IncompleteStream => LlmError::IncompleteStream,
            LlmError::EmptyResponse => LlmError::EmptyResponse,
            LlmError::Timeout(inner) => LlmError::Timeout(*inner),
        }
    }
}

impl LlmErrorModel {
    /// The failure in words.
    pub open spec fn words(self) -> Seq<char> {
        match self {
            LlmErrorModel::Client(reason) => "could not build the OpenRouter HTTP client: "@
                + reason,
            LlmErrorModel::Request(reason) => "OpenRouter request failed: "@ + reason,
            LlmErrorModel::HttpStatus { status, message } => "OpenRouter returned HTTP "@ + decimal(
                status as nat,
            ) + ": "@ + message,
            LlmErrorModel::Sse(reason) => "invalid OpenRouter SSE event: "@ + reason,
            LlmErrorModel::Protocol(reason) => "invalid OpenRouter response: "@ + reason,
            LlmErrorModel::Provider { code, message } => "OpenRouter provider error "@ + code
                + ": "@ + message,
            LlmErrorModel::IncompleteStream =>
                "OpenRouter stream ended before the completion marker"@,
            LlmErrorModel::EmptyResponse => "OpenRouter produced an empty response"@,
            LlmErrorModel::Timeout(seconds) => "OpenRouter response timed out after "@ + decimal(
                seconds as nat,
            ) + " seconds"@,
        }
    }
}

impl LlmError {
    /// The failure in words.
    pub fn message(&self) -> (r: String)
        ensures
            r@ == self@.words(),
    {
        match self {
            LlmError::Client(reason) => {
                let mut out = "could not build the OpenRouter HTTP client: ".to_owned();
                out.append(reason.as_str());
                out
            },
            LlmError::Request(reason) => {
                let mut out = "OpenRouter request failed: ".to_owned();
                out.append(reason.as_str());
                out
            },
            LlmError::HttpStatus { status, message } => {
                let mut out = "OpenRouter returned HTTP ".to_owned();
                out.append(decimal_text(*status as u64).as_str());
                out.append(": ");
                out.append(message.as_str());
                out
            },
            LlmError::Sse(reason) => {
                let mut out = "invalid OpenRouter SSE event: ".to_owned();
                out.append(reason.as_str());
                out
            },
            LlmError::Protocol(reason) => {
                let mut out = "invalid OpenRouter response: ".to_owned();
                out.append(reason.as_str());
                out
            },
            LlmError::Provider { code, message } => {
                let mut out = "OpenRouter provider error ".to_owned();
                out.append(code.as_str());
                out.append(": ");
                out.append(message.as_str());
                out
            },
            LlmError::IncompleteStream =>
                "OpenRouter stream ended before the completion marker".to_owned(),
            LlmError::EmptyResponse => "OpenRouter produced an empty response".to_owned(),
            LlmError::Timeout(seconds) => {
                let mut out = "OpenRouter response timed out after ".to_owned();
                out.append(decimal_text(*seconds).as_str());
                out.append(" seconds");
                out
            },
        }
    }
}

} // verus!
