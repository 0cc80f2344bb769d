//! The service that runs the language model: its address, its stream of
//! events, and its errors.
use vstd::prelude::*;

use crate::config::assistant::LlmConfig;
use crate::events::LlmUsage;
use crate::json::reading;
use crate::llm::provider::{
    ChatRequest, LlmError, LlmErrorModel, LlmStreamEvent, LlmStreamEventModel,
};
use crate::numbers::Single;
use crate::text::{char_len, first, first_chars, same_text, trim, trimmed};
use crate::web::{endpoint, endpoint_url, UrlFault};

verus! {

/// How an answer is to be made: as the request says, else as it is configured.
pub fn generation_options(config: &LlmConfig, request: &ChatRequest) -> (r: (Single, u32))
    ensures
        r.0 == match request@.temperature {
            Some(temperature) => temperature,
            None => config@.temperature,
        },
        r.1 == match request@.max_tokens {
            Some(max_tokens) => max_tokens,
            None => config@.max_tokens,
        },
{
    let temperature = match request.temperature {
        Some(temperature) => temperature,
        None => config.temperature,
    };
    let max_tokens: u32 = match request.max_tokens {
        Some(max_tokens) => max_tokens,
        None => config.max_tokens,
    };
    (temperature, max_tokens)
}

/// The most characters of an error that are passed on.
pub const MAX_ERROR_BODY_CHARS: usize = 1_000;

/// The address of the service below a base address.
pub fn build_chat_completions_url(base_url: &str) -> (r: Result<String, UrlFault>)
    ensures
        match r {
            Ok(url) => {
                &&& endpoint(base_url@, "/chat/completions"@) == Ok::<Seq<char>, UrlFault>(url@)
                &&& !url@.contains('?')
                &&& !url@.contains('#')
            },
            Err(fault) => endpoint(base_url@, "/chat/completions"@) == Err::<Seq<char>, UrlFault>(
                fault,
            ),
        },
{
    proof {
        reveal_strlit("/chat/completions");
    }
    endpoint_url(base_url, "/chat/completions")
}

/// A text cut to a number of characters, with a mark where something is
/// missing.
pub open spec fn truncated(value: Seq<char>, maximum_chars: nat) -> Seq<char> {
    if value.len() > maximum_chars {
        value.take(maximum_chars as int) + "..."@
    } else {
        value
    }
}

/// The text cut to a number of characters, with a mark where something is
/// missing.
pub fn truncate(value: &str, maximum_chars: usize) -> (r: String)
    ensures
        r@ == truncated(value@, maximum_chars as nat),
{
    let mut out = first_chars(value, maximum_chars);
    if char_len(value) > maximum_chars {
        out.append("...");
    }
    out
}

/// What an event of the stream says.
#[derive(Debug)]
pub enum StreamData {
    /// The answer is complete.
    Done,
    /// More text.
    Delta(String),
    /// What the answer cost.
    Usage(LlmUsage),
    /// Nothing.
    Empty,
}

/// The value of a [`StreamData`].
pub enum StreamDataModel {
    Done,
    Delta(Seq<char>),
    Usage(LlmUsage),
    Empty,
}

impl View for StreamData {
    type V = StreamDataModel;

    open spec fn view(&self) -> StreamDataModel {
        match *self {
            StreamData::Done => StreamDataModel::Done,
            StreamData::Delta(text) => StreamDataModel::Delta(text@),
            StreamData::Usage(usage) => StreamDataModel::Usage(usage),
            StreamData::Empty => StreamDataModel::Empty,
        }
    }
}

/// The code of an error of the service.
#[derive(Debug)]
pub enum ErrorCode {
    /// A text.
    Text(String),
    /// Something else, in its JSON notation.
    Notation(String),
}

impl View for ErrorCode {
    type V = Seq<char>;

    open spec fn view(&self) -> Seq<char> {
        match *self {
            ErrorCode::Text(text) => text@,
            ErrorCode::Notation(text) => text@,
        }
    }
}

/// An error of the service.
#[derive(Debug)]
pub struct ApiError {
    pub code: ErrorCode,
    pub message: String,
}

/// The value of an [`ApiError`].
#[verifier::ext_equal]
pub struct ApiErrorModel {
    pub code: Seq<char>,
    pub message: Seq<char>,
}

impl View for ApiError {
    type V = ApiErrorModel;

    open spec fn view(&self) -> ApiErrorModel {
        ApiErrorModel { code: self.code@, message: self.message@ }
    }
}

/// The value of an error, if there is one.
pub open spec fn error_view(error: Option<ApiError>) -> Option<ApiErrorModel> {
    match error {
        Some(error) => Some(error@),
        None => None,
    }
}

/// A response that may hold an error.
#[derive(Debug)]
pub struct ApiErrorEnvelope {
    pub error: Option<ApiError>,
}

/// What is added to an answer.
#[derive(Debug)]
pub struct StreamingDelta {
    pub content: Option<String>,
}

/// One of the answers that an event goes on with.
#[derive(Debug)]
pub struct StreamingChoice {
    pub delta: StreamingDelta,
}

/// An event of the stream.
#[derive(Debug)]
pub struct ChatCompletionChunk {
    pub choices: Vec<StreamingChoice>,
    pub error: Option<ApiError>,
    pub usage: Option<LlmUsage>,
}

/// The value of a [`ChatCompletionChunk`].
#[verifier::ext_equal]
pub struct ChunkModel {
    pub contents: Seq<Option<Seq<char>>>,
    pub error: Option<ApiErrorModel>,
    pub usage: Option<LlmUsage>,
}

impl View for StreamingChoice {
    type V = Option<Seq<char>>;

    open spec fn view(&self) -> Option<Seq<char>> {
        match self.delta.content {
            Some(text) => Some(text@),
            None => None,
        }
    }
}

/// What the answers are gone on with.
pub open spec fn contents(choices: Seq<StreamingChoice>) -> Seq<Option<Seq<char>>> {
    Seq::new(choices.len(), |i: int| choices[i]@)
}

impl View for ChatCompletionChunk {
    type V = ChunkModel;

    open spec fn view(&self) -> ChunkModel {
        ChunkModel {
            contents: contents(self.choices@),
            error: error_view(self.error),
            usage: self.usage,
        }
    }
}

/// The texts in a row, of those that are there.
pub open spec fn joined(contents: Seq<Option<Seq<char>>>) -> Seq<char>
    decreases contents.len(),
{
    if contents.len() == 0 {
        Seq::empty()
    } else {
        match contents.last() {
            Some(text) => joined(contents.drop_last()) + text,
            None => joined(contents.drop_last()),
        }
    }
}

/// What an event says. An error counts before what the answer cost, and that
/// before more text.
pub open spec fn chunk_data(chunk: ChunkModel) -> Result<StreamDataModel, LlmErrorModel> {
    match (chunk.error, chunk.usage) {
        (Some(error), _) => Err(
            LlmErrorModel::Provider { code: error.code, message: error.message },
        ),
        (None, Some(usage)) => Ok(StreamDataModel::Usage(usage)),
        (None, None) => if joined(chunk.contents).len() == 0 {
            Ok(StreamDataModel::Empty)
        } else {
            Ok(StreamDataModel::Delta(joined(chunk.contents)))
        },
    }
}

/// Whether the data of an event is the marker of the end.
pub open spec fn is_end_marker(data: Seq<char>) -> bool {
    trim(data) == "[DONE]"@
}

/// What the data of an event says that is not the marker of the end. `chunk` is
/// what was read of it, or why it could not be.
pub open spec fn stream_data(chunk: Result<ChunkModel, Seq<char>>) -> Result<
    StreamDataModel,
    LlmErrorModel,
> {
    match chunk {
        Ok(chunk) => chunk_data(chunk),
        Err(reason) => Err(LlmErrorModel::Protocol(reason)),
    }
}

/// The value of what an event says, or of its failure.
pub open spec fn data_view(r: Result<StreamData, LlmError>) -> Result<
    StreamDataModel,
    LlmErrorModel,
> {
    match r {
        Ok(data) => Ok(data@),
        Err(error) => Err(error@),
    }
}

/// The failure that an error of the service is.
pub fn provider_error(error: ApiError) -> (r: LlmError)
    ensures
        r@ == (LlmErrorModel::Provider { code: error@.code, message: error@.message }),
{
    let code = match error.code {
        ErrorCode::Text(text) => text,
        ErrorCode::Notation(text) => text,
    };
    LlmError::Provider { code, message: error.message }
}

fn join(choices: &Vec<StreamingChoice>) -> (r: String)
    ensures
        r@ == joined(contents(choices@)),
{
    let ghost all = contents(choices@);
    let mut out = String::new();
    let mut i: usize = 0;
    assert(all.take(0) =~= Seq::empty());
    while i < choices.len()
        invariant
            all == contents(choices@),
            i <= choices@.len(),
            out@ == joined(all.take(i as int)),
        decreases choices@.len() - i,
    {
        assert(all.take(i + 1).drop_last() =~= all.take(i as int));
        assert(all.take(i + 1).last() == choices@[i as int]@);
        match &choices[i].delta.content {
            Some(text) => {
                out.append(text.as_str());
            },
            None => {},
        }
        i += 1;
    }
    assert(all.take(i as int) =~= all);
    out
}

/// What an event says.
pub fn interpret_chunk(chunk: ChatCompletionChunk) -> (r: Result<StreamData, LlmError>)
    ensures
        data_view(r) == chunk_data(chunk@),
{
    if let Some(error) = chunk.error {
        return Err(provider_error(error));
    }
    if let Some(usage) = chunk.usage {
        return Ok(StreamData::Usage(usage));
    }
    let content = join(&chunk.choices);
    if content.as_str().is_empty() {
        Ok(StreamData::Empty)
    } else {
        Ok(StreamData::Delta(content))
    }
}

/// What the data of an event of the stream says. `read_chunk` reads an event
/// from its JSON text, or says why it cannot be read.
pub fn parse_stream_data<F>(data: &str, read_chunk: F) -> (r: Result<StreamData, LlmError>) where
    F: Fn(&str) -> Result<ChatCompletionChunk, String>,

    requires
        call_requires(read_chunk, (data,)),
    ensures
        is_end_marker(data@) ==> data_view(r) == Ok::<StreamDataModel, LlmErrorModel>(
            StreamDataModel::Done,
        ),
        !is_end_marker(data@) ==> exists|chunk: Result<ChatCompletionChunk, String>|
            {
                &&& #[trigger] call_ensures(read_chunk, (data,), chunk)
                &&& data_view(r) == stream_data(reading(chunk))
            },
{
    let bare = trimmed(data);
    if same_text(bare.as_str(), "[DONE]") {
        return Ok(StreamData::Done);
    }
    match read_chunk(data) {
        Ok(chunk) => interpret_chunk(chunk),
        Err(reason) => Err(LlmError::Protocol(reason)),
    }
}

/// The error in a response, if one was read.
pub open spec fn error_in(envelope: Option<ApiErrorEnvelope>) -> Option<ApiErrorModel> {
    match envelope {
        Some(envelope) => error_view(envelope.error),
        None => None,
    }
}

/// The words of an error response: what the service says, or the beginning of
/// the response where it does not say anything that can be read.
pub open spec fn error_words(error: Option<ApiErrorModel>, body: Seq<char>) -> Seq<char> {
    match error {
        Some(error) => error.message,
        None => truncated(body, MAX_ERROR_BODY_CHARS as nat),
    }
}

/// The words of an error response of which `envelope` was read.
pub fn describe_error(envelope: Option<ApiErrorEnvelope>, body: &str) -> (r: String)
    ensures
        r@ == error_words(error_in(envelope), body@),
{
    if let Some(envelope) = envelope {
        if let Some(error) = envelope.error {
            return error.message;
        }
    }
    truncate(body, MAX_ERROR_BODY_CHARS)
}

/// The error for a response with an error status. `read_envelope` reads a
/// response that may hold an error from its JSON text, where it is one.
pub fn response_error<F>(status: u16, body: &str, read_envelope: F) -> (r: LlmError) where
    F: Fn(&str) -> Option<ApiErrorEnvelope>,

    requires
        call_requires(read_envelope, (body,)),
    ensures
        exists|envelope: Option<ApiErrorEnvelope>|
            {
                &&& #[trigger] call_ensures(read_envelope, (body,), envelope)
                &&& r@ == (LlmErrorModel::HttpStatus {
                    status,
                    message: error_words(error_in(envelope), body@),
                })
            },
{
    let envelope = read_envelope(body);
    LlmError::HttpStatus { status, message: describe_error(envelope, body) }
}

/// How far a stream has come.
#[derive(Debug)]
pub struct StreamReader {
    completed: bool,
}

impl StreamReader {
    /// Whether the marker of the end was seen.
    pub closed spec fn is_completed(&self) -> bool {
        self.completed
    }

    /// A stream of which nothing was read.
    pub fn new() -> (r: Self)
        ensures
            !r.is_completed(),
    {
        StreamReader { completed: false }
    }

    /// Takes in what an event says, and returns what is passed on of it.
    pub fn accept(&mut self, data: StreamData) -> (r: Option<LlmStreamEvent>)
        ensures
            final(self).is_completed() == (old(self).is_completed() || data@ is Done),
            match data@ {
                StreamDataModel::Delta(text) => r is Some && r->0@ == LlmStreamEventModel::Delta(
                    text,
                ),
                StreamDataModel::Usage(usage) => r is Some && r->0@ == LlmStreamEventModel::Usage(
                    usage,
                ),
                _ => r is None,
            },
    {
        match data {
            StreamData::Done => {
                self.completed = true;
                None
            },
            StreamData::Delta(text) => Some(LlmStreamEvent::Delta(text)),
            StreamData::Usage(usage) => Some(LlmStreamEvent::Usage(usage)),
            StreamData::Empty => None,
        }
    }

    /// Whether the stream need not be read any more.
    pub fn is_done(&self) -> (r: bool)
        ensures
            r == self.is_completed(),
    {
        self.completed
    }

    /// The stream has ended: it is complete only if the marker was seen.
    pub fn end(&self) -> (r: Result<(), LlmError>)
        ensures
            match r {
                Ok(_) => self.is_completed(),
                Err(error) => !self.is_completed() && error@ == LlmErrorModel::IncompleteStream,
            },
    {
        if self.completed {
            Ok(())
        } else {
            Err(LlmError::IncompleteStream)
        }
    }
}

/// A cut text has at most the given number of characters and the mark, and
/// begins as the text does.
pub proof fn truncated_texts_are_short(value: Seq<char>, maximum_chars: nat)
    ensures
        truncated(value, maximum_chars).len() <= maximum_chars + 3,
        value.len() <= maximum_chars ==> truncated(value, maximum_chars) == value,
        first(truncated(value, maximum_chars), maximum_chars) == first(value, maximum_chars),
{
    reveal_strlit("...");
    if value.len() > maximum_chars {
        assert(truncated(value, maximum_chars).take(maximum_chars as int) =~= value.take(
            maximum_chars as int,
        ));
    }
}

/// The texts of a part of an answer are put in a row, whatever it leaves out.
pub proof fn texts_of_a_part_follow_one_another(
    a: Seq<Option<Seq<char>>>,
    b: Seq<Option<Seq<char>>>,
    text: Seq<char>,
)
    ensures
        joined(a + b) == joined(a) + joined(b),
        joined(seq![Some(text)]) == text,
        joined(seq![None::<Seq<char>>]) == Seq::<char>::empty(),
        joined(Seq::empty()) == Seq::<char>::empty(),
    decreases b.len(),
{
    assert(seq![Some(text)].drop_last() =~= Seq::empty());
    assert(joined(seq![Some(text)].drop_last()) =~= Seq::empty());
    assert(joined(seq![Some(text)]) =~= text);
    assert(seq![None::<Seq<char>>].drop_last() =~= Seq::empty());
    assert(joined(seq![None::<Seq<char>>].drop_last()) =~= Seq::empty());
    if b.len() == 0 {
        assert(a + b =~= a);
        assert(joined(a) + joined(b) =~= joined(a));
    } else {
        texts_of_a_part_follow_one_another(a, b.drop_last(), text);
        assert((a + b).drop_last() =~= a + b.drop_last());
        assert(joined(a + b) =~= joined(a) + joined(b));
    }
}

/// A part of an answer is a failure where it says so, else what the answer cost
/// where it says so, else its text where it has any.
pub proof fn failures_and_costs_come_before_text(chunk: ChunkModel)
    ensures
        chunk.error matches Some(error) ==> chunk_data(chunk) == Err::<
            StreamDataModel,
            LlmErrorModel,
        >(LlmErrorModel::Provider { code: error.code, message: error.message }),
        chunk.error is None && chunk.usage is Some ==> chunk_data(chunk) == Ok::<
            StreamDataModel,
            LlmErrorModel,
        >(StreamDataModel::Usage(chunk.usage->0)),
        chunk.error is None && chunk.usage is None && joined(chunk.contents).len() > 0
            ==> chunk_data(chunk) == Ok::<StreamDataModel, LlmErrorModel>(
            StreamDataModel::Delta(joined(chunk.contents)),
        ),
        chunk.error is None && chunk.usage is None && joined(chunk.contents).len() == 0
            ==> chunk_data(chunk) == Ok::<StreamDataModel, LlmErrorModel>(StreamDataModel::Empty),
{
}

/// The end of an answer is marked by one word in brackets, whatever white space
/// is around it.
pub proof fn the_end_is_marked(data: Seq<char>)
    ensures
        is_end_marker(data) <==> trim(data) == seq!['[', 'D', 'O', 'N', 'E', ']'],
{
    reveal_strlit("[DONE]");
    assert("[DONE]"@ =~= seq!['[', 'D', 'O', 'N', 'E', ']']);
}

/// A text that is too long is cut behind as many characters as may be, and three
/// dots say so; an error is told in its own words, and else by the first
/// thousand characters of what came.
pub proof fn long_texts_end_in_dots(
    value: Seq<char>,
    maximum_chars: nat,
    error: ApiErrorModel,
)
    ensures
        value.len() > maximum_chars ==> truncated(value, maximum_chars) == value.take(
            maximum_chars as int,
        ) + seq!['.', '.', '.'],
        value.len() <= maximum_chars ==> truncated(value, maximum_chars) == value,
        error_words(Some(error), value) == error.message,
        error_words(None, value) == truncated(value, 1000),
{
    reveal_strlit("...");
    assert("..."@ =~= seq!['.', '.', '.']);
}

} // verus!
