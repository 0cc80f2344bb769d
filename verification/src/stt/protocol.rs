//! What the messages of the speech recogniser say.
use vstd::prelude::*;

use crate::events::{DeepgramEvent, DeepgramEventModel};
use crate::json::{
    check_document, document_fault, node_at, read_node, reading, JsonNode, JsonNodeModel,
};
use crate::numbers::{milliseconds, seconds_to_ms, Double};
use crate::text::{decimal, decimal_text, same_text, trim, trimmed};

verus! {

/// Why a message cannot be read.
#[derive(Debug, PartialEq, Eq)]
pub enum ProtocolError {
    /// It is not JSON, or not of the form that its type has.
    InvalidJson(String),
    /// It has no type.
    MissingType,
}

/// The value of a [`ProtocolError`].
pub enum ProtocolErrorModel {
    InvalidJson(Seq<char>),
    MissingType,
}

impl View for ProtocolError {
    type V = ProtocolErrorModel;

    open spec fn view(&self) -> ProtocolErrorModel {
        match *self {
            ProtocolError::InvalidJson(reason) => ProtocolErrorModel::InvalidJson(reason@),
            ProtocolError::MissingType => ProtocolErrorModel::MissingType,
        }
    }
}

impl ProtocolErrorModel {
    /// The failure in words.
    pub open spec fn words(self) -> Seq<char> {
        match self {
            ProtocolErrorModel::InvalidJson(reason) => "invalid Deepgram JSON: "@ + reason,
            ProtocolErrorModel::MissingType => "Deepgram message does not contain a string type"@,
        }
    }
}

impl ProtocolError {
    /// The failure in words.
    pub fn message(&self) -> (r: String)
        ensures
            r@ == self@.words(),
    {
        match self {
            ProtocolError::InvalidJson(reason) => {
                let mut out = "invalid Deepgram JSON: ".to_owned();
                out.append(reason.as_str());
                out
            },
            ProtocolError::MissingType =>
                "Deepgram message does not contain a string type".to_owned(),
        }
    }
}

/// One of the wordings that the recogniser heard.
#[derive(Debug)]
pub struct Alternative {
    pub transcript: String,
}

/// What was heard on a channel.
#[derive(Debug)]
pub struct Channel {
    pub alternatives: Vec<Alternative>,
}

/// A message with recognised words.
#[derive(Debug)]
pub struct ResultsMessage {
    pub is_final: bool,
    pub speech_final: bool,
    pub start: Option<Double>,
    pub duration: Option<Double>,
    pub channel: Channel,
}

/// The value of a [`ResultsMessage`].
#[verifier::ext_equal]
pub struct ResultsModel {
    pub is_final: bool,
    pub speech_final: bool,
    pub start: Option<Double>,
    pub duration: Option<Double>,
    pub transcripts: Seq<Seq<char>>,
}

impl View for ResultsMessage {
    type V = ResultsModel;

    open spec fn view(&self) -> ResultsModel {
        ResultsModel {
            is_final: self.is_final,
            speech_final: self.speech_final,
            start: self.start,
            duration: self.duration,
            transcripts: Seq::new(
                self.channel.alternatives@.len(),
                |i: int| self.channel.alternatives@[i].transcript@,
            ),
        }
    }
}

/// A time in seconds as milliseconds, if it is given.
pub open spec fn time_ms(seconds: Option<Double>) -> Option<u64> {
    match seconds {
        Some(value) => milliseconds(value),
        None => None,
    }
}

/// A time as milliseconds where a number stands.
pub open spec fn node_ms(node: JsonNodeModel) -> Option<u64> {
    match node {
        JsonNodeModel::Number(double) => time_ms(double),
        _ => None,
    }
}

/// The event of a message with recognised words. The first wording counts.
pub open spec fn transcript_event(
    results: ResultsModel,
    last_word_end: JsonNodeModel,
) -> DeepgramEventModel {
    DeepgramEventModel::Transcript {
        text: if results.transcripts.len() == 0 {
            Seq::empty()
        } else {
            trim(results.transcripts[0])
        },
        is_final: results.is_final,
        speech_final: results.speech_final,
        audio_start_ms: time_ms(results.start),
        audio_duration_ms: time_ms(results.duration),
        last_word_end_ms: node_ms(last_word_end),
    }
}

/// The words of an error of the recogniser.
pub open spec fn error_text(
    code: JsonNodeModel,
    description: JsonNodeModel,
    message: JsonNodeModel,
) -> Seq<char> {
    let words = if description is Missing {
        message
    } else {
        description
    };
    match (code, words) {
        (JsonNodeModel::Text(code), JsonNodeModel::Text(words)) => code + ": "@ + words,
        (JsonNodeModel::Text(code), _) => code,
        (_, JsonNodeModel::Text(words)) => words,
        _ => "unspecified Deepgram error"@,
    }
}

/// The number of entries of a list, where one stands.
pub open spec fn list_count(node: JsonNodeModel) -> nat {
    match node {
        JsonNodeModel::List(count) => count as nat,
        _ => 0,
    }
}

/// Where the end of the last word of the first wording stands.
pub open spec fn last_word_pointer(text: Seq<char>) -> Seq<char> {
    let count = list_count(node_at(text, "/channel/alternatives/0/words"@));
    "/channel/alternatives/0/words/"@ + decimal(
        if count == 0 {
            0
        } else {
            (count - 1) as nat
        },
    ) + "/end"@
}

/// The type of a message, or why it has none.
pub open spec fn message_type(text: Seq<char>) -> Result<Seq<char>, ProtocolErrorModel> {
    match document_fault(text) {
        Some(reason) => Err(ProtocolErrorModel::InvalidJson(reason)),
        None => match node_at(text, "/type"@) {
            JsonNodeModel::Text(kind) => Ok(kind),
            _ => Err(ProtocolErrorModel::MissingType),
        },
    }
}

/// Whether a message is one with recognised words.
pub open spec fn has_results(text: Seq<char>) -> bool {
    message_type(text) == Ok::<Seq<char>, ProtocolErrorModel>("Results"@)
}

/// What a message says: an event, nothing that counts, or why it cannot be
/// read. `results` is what was read of a message with recognised words, or why
/// it does not have the form of one.
pub open spec fn server_message(
    text: Seq<char>,
    results: Result<ResultsModel, Seq<char>>,
) -> Result<Option<DeepgramEventModel>, ProtocolErrorModel> {
    match message_type(text) {
        Err(error) => Err(error),
        Ok(kind) => if kind == "Results"@ {
            match results {
                Ok(results) => Ok(
                    Some(transcript_event(results, node_at(text, last_word_pointer(text)))),
                ),
                Err(reason) => Err(ProtocolErrorModel::InvalidJson(reason)),
            }
        } else if kind == "SpeechStarted"@ {
            Ok(
                Some(
                    DeepgramEventModel::SpeechStarted {
                        audio_timestamp_ms: node_ms(node_at(text, "/timestamp"@)),
                    },
                ),
            )
        } else if kind == "UtteranceEnd"@ {
            Ok(
                Some(
                    DeepgramEventModel::UtteranceEnd {
                        last_word_end_ms: node_ms(node_at(text, "/last_word_end"@)),
                    },
                ),
            )
        } else if kind == "Metadata"@ {
            Ok(Some(DeepgramEventModel::Metadata))
        } else if kind == "Error"@ {
            Ok(
                Some(
                    DeepgramEventModel::Error(
                        error_text(
                            node_at(text, "/code"@),
                            node_at(text, "/description"@),
                            node_at(text, "/message"@),
                        ),
                    ),
                ),
            )
        } else {
            Ok(None)
        },
    }
}

/// The value of what a message says.
pub open spec fn message_view(r: Result<Option<DeepgramEvent>, ProtocolError>) -> Result<
    Option<DeepgramEventModel>,
    ProtocolErrorModel,
> {
    match r {
        Ok(Some(event)) => Ok(Some(event@)),
        Ok(None) => Ok(None),
        Err(error) => Err(error@),
    }
}

fn to_ms(seconds: Option<Double>) -> (r: Option<u64>)
    ensures
        r == time_ms(seconds),
{
    match seconds {
        Some(value) => seconds_to_ms(value),
        None => None,
    }
}

/// The time as milliseconds where a number stands.
pub fn node_to_ms(node: &JsonNode) -> (r: Option<u64>)
    ensures
        r == node_ms(node@),
{
    match node {
        JsonNode::Number(double) => to_ms(*double),
        _ => None,
    }
}

/// The event of a message with recognised words, and with a place that may
/// say when the last word ends.
pub fn interpret_results(results: &ResultsMessage, last_word_end: &JsonNode) -> (r: DeepgramEvent)
    ensures
        r@ == transcript_event(results@, last_word_end@),
{
    let text = if results.channel.alternatives.len() == 0 {
        String::new()
    } else {
        trimmed(results.channel.alternatives[0].transcript.as_str())
    };
    DeepgramEvent::Transcript {
        text,
        is_final: results.is_final,
        speech_final: results.speech_final,
        audio_start_ms: to_ms(results.start),
        audio_duration_ms: to_ms(results.duration),
        last_word_end_ms: node_to_ms(last_word_end),
    }
}

/// The words of an error with these parts.
pub fn error_description(code: JsonNode, description: JsonNode, message: JsonNode) -> (r: String)
    ensures
        r@ == error_text(code@, description@, message@),
{
    let words = match description {
        JsonNode::Missing => message,
        _ => description,
    };
    match (code, words) {
        (JsonNode::Text(code), JsonNode::Text(words)) => {
            let mut out = code;
            out.append(": ");
            out.append(words.as_str());
            out
        },
        (JsonNode::Text(code), _) => code,
        (_, JsonNode::Text(words)) => words,
        _ => "unspecified Deepgram error".to_owned(),
    }
}

fn count_entries(node: &JsonNode) -> (r: usize)
    ensures
        r == list_count(node@),
{
    match node {
        JsonNode::List(count) => *count,
        _ => 0,
    }
}

fn read_last_word_end(text: &str) -> (r: JsonNode)
    ensures
        r@ == node_at(text@, last_word_pointer(text@)),
{
    let words = read_node(text, "/channel/alternatives/0/words");
    let count: usize = count_entries(&words);
    let last: usize = if count == 0 {
        0
    } else {
        count - 1
    };
    let mut place = "/channel/alternatives/0/words/".to_owned();
    place.append(decimal_text(last as u64).as_str());
    place.append("/end");
    read_node(text, place.as_str())
}

/// What a message says: an event, or nothing that counts. `read_results` reads
/// a message with recognised words from its JSON text, or says why it is none.
pub fn parse_server_message<F>(message: &str, read_results: F) -> (r: Result<
    Option<DeepgramEvent>,
    ProtocolError,
>) where F: Fn(&str) -> Result<ResultsMessage, String>
    requires
        call_requires(read_results, (message,)),
    ensures
        has_results(message@) ==> exists|results: Result<ResultsMessage, String>|
            {
                &&& #[trigger] call_ensures(read_results, (message,), results)
                &&& message_view(r) == server_message(message@, reading(results))
            },
        !has_results(message@) ==> forall|results: Result<ResultsModel, Seq<char>>|
            message_view(r) == #[trigger] server_message(message@, results),
{
    if let Some(reason) = check_document(message) {
        return Err(ProtocolError::InvalidJson(reason));
    }
    let kind = match read_node(message, "/type") {
        JsonNode::Text(kind) => kind,
        _ => {
            return Err(ProtocolError::MissingType);
        },
    };
    let k = kind.as_str();
    if same_text(k, "Results") {
        match read_results(message) {
            Ok(results) => {
                let end = read_last_word_end(message);
                Ok(Some(interpret_results(&results, &end)))
            },
            Err(reason) => Err(ProtocolError::InvalidJson(reason)),
        }
    } else if same_text(k, "SpeechStarted") {
        let timestamp = read_node(message, "/timestamp");
        Ok(Some(DeepgramEvent::SpeechStarted { audio_timestamp_ms: node_to_ms(&timestamp) }))
    } else if same_text(k, "UtteranceEnd") {
        let end = read_node(message, "/last_word_end");
        Ok(Some(DeepgramEvent::UtteranceEnd { last_word_end_ms: node_to_ms(&end) }))
    } else if same_text(k, "Metadata") {
        Ok(Some(DeepgramEvent::Metadata))
    } else if same_text(k, "Error") {
        let code = read_node(message, "/code");
        let description = read_node(message, "/description");
        let words = read_node(message, "/message");
        Ok(Some(DeepgramEvent::Error(error_description(code, description, words))))
    } else {
        Ok(None)
    }
}

/// What was heard is the first of the transcripts without the white space
/// around it, and nothing where there is none; times are in milliseconds.
pub proof fn the_first_transcript_is_heard(results: ResultsModel, last_word_end: JsonNodeModel)
    ensures
        transcript_event(results, last_word_end) matches DeepgramEventModel::Transcript {
            text,
            is_final,
            speech_final,
            audio_start_ms,
            audio_duration_ms,
            last_word_end_ms,
        } && {
            &&& results.transcripts.len() == 0 ==> text.len() == 0
            &&& results.transcripts.len() > 0 ==> text == trim(results.transcripts[0])
            &&& is_final == results.is_final
            &&& speech_final == results.speech_final
            &&& audio_start_ms == match results.start {
                Some(seconds) => milliseconds(seconds),
                None => None,
            }
            &&& audio_duration_ms == match results.duration {
                Some(seconds) => milliseconds(seconds),
                None => None,
            }
            &&& last_word_end_ms == match last_word_end {
                JsonNodeModel::Number(Some(seconds)) => milliseconds(seconds),
                _ => None,
            }
        },
{
}

/// An error is told by its code and its words, as far as there are any; its
/// description goes before its message.
pub proof fn errors_are_told_by_code_and_words(
    code: Seq<char>,
    words: Seq<char>,
    other: JsonNodeModel,
    message: JsonNodeModel,
)
    requires
        !(other is Text),
    ensures
        error_text(JsonNodeModel::Text(code), JsonNodeModel::Text(words), message) == code
            + seq![':', ' '] + words,
        error_text(
            JsonNodeModel::Text(code),
            JsonNodeModel::Missing,
            JsonNodeModel::Text(words),
        ) == code + seq![':', ' '] + words,
        error_text(other, JsonNodeModel::Text(words), message) == words,
        error_text(other, JsonNodeModel::Missing, JsonNodeModel::Text(words)) == words,
        error_text(JsonNodeModel::Text(code), JsonNodeModel::Missing, other) == code,
        error_text(JsonNodeModel::Missing, JsonNodeModel::Missing, other)
            == "unspecified Deepgram error"@,
{
    reveal_strlit(": ");
    assert(": "@ =~= seq![':', ' ']);
}

/// A message is known by its type: it fails where it is no JSON or has no type,
/// and is passed over where its type is another.
pub proof fn messages_are_known_by_their_type(
    text: Seq<char>,
    results: Result<ResultsModel, Seq<char>>,
)
    ensures
        document_fault(text) matches Some(reason) ==> server_message(text, results) == Err::<
            Option<DeepgramEventModel>,
            ProtocolErrorModel,
        >(ProtocolErrorModel::InvalidJson(reason)),
        document_fault(text) is None && !(node_at(text, "/type"@) is Text) ==> server_message(
            text,
            results,
        ) == Err::<Option<DeepgramEventModel>, ProtocolErrorModel>(ProtocolErrorModel::MissingType),
        document_fault(text) is None && node_at(text, "/type"@) is Text ==> {
            let kind = node_at(text, "/type"@)->Text_0;
            &&& server_message(text, results) is Err <==> kind == "Results"@ && results is Err
            &&& server_message(text, results) matches Ok(None) ==> kind != "Results"@ && kind
                != "SpeechStarted"@ && kind != "UtteranceEnd"@ && kind != "Metadata"@ && kind
                != "Error"@
            &&& server_message(text, results) matches Ok(Some(event)) ==> {
                &&& kind == "Results"@ ==> event is Transcript && results is Ok
                &&& kind != "Results"@ && kind == "SpeechStarted"@ ==> event == (
                DeepgramEventModel::SpeechStarted {
                    audio_timestamp_ms: node_ms(node_at(text, "/timestamp"@)),
                })
                &&& kind != "Results"@ && kind != "SpeechStarted"@ && kind == "UtteranceEnd"@
                    ==> event == (DeepgramEventModel::UtteranceEnd {
                    last_word_end_ms: node_ms(node_at(text, "/last_word_end"@)),
                })
                &&& kind != "Results"@ && kind != "SpeechStarted"@ && kind != "UtteranceEnd"@
                    && kind == "Metadata"@ ==> event == DeepgramEventModel::Metadata
                &&& event is Error ==> kind == "Error"@
                &&& event is Transcript ==> kind == "Results"@
                &&& event is SpeechStarted ==> kind == "SpeechStarted"@
                &&& event is UtteranceEnd ==> kind == "UtteranceEnd"@
                &&& event is Metadata ==> kind == "Metadata"@
                &&& event matches DeepgramEventModel::Error(words) ==> words == error_text(
                    node_at(text, "/code"@),
                    node_at(text, "/description"@),
                    node_at(text, "/message"@),
                )
            }
        },
{
}

/// The last word of a transcript is the last of its list of words.
pub proof fn the_last_word_is_the_last_of_its_list(text: Seq<char>)
    ensures
        node_at(text, "/channel/alternatives/0/words"@) matches JsonNodeModel::List(count) ==> (count
            > 0 ==> last_word_pointer(text) == "/channel/alternatives/0/words/"@ + decimal(
            (count - 1) as nat,
        ) + "/end"@),
{
}

} // verus!
