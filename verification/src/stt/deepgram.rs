//! The session with the speech recogniser: its address, what is sent and read,
//! and when it is connected again.
use vstd::prelude::*;

use crate::config::assistant::{DeepgramConfig, DeepgramConfigModel};
use crate::events::{AudioFrame, DeepgramEvent, DeepgramEventModel, SttStatus};
use crate::json::reading;
use crate::stt::protocol::{
    has_results, message_view, parse_server_message, server_message, ProtocolErrorModel,
    ResultsMessage, ResultsModel,
};
use crate::text::{decimal, decimal_text};
use crate::web::{pair_views, queried, query_url, UrlFault};

verus! {

/// The seconds between two messages that keep a quiet connection alive.
pub const KEEPALIVE_INTERVAL_SECS: u64 = 4;

/// The seconds after which connecting is given up.
pub const CONNECT_TIMEOUT_SECS: u64 = 15;

/// The seconds after which a connection counts as stable.
pub const STABLE_CONNECTION_SECS: u64 = 30;

/// The most seconds before a connection is tried again.
pub const MAX_RECONNECT_DELAY_SECS: u64 = 30;

/// The message that keeps a quiet connection alive.
pub const KEEPALIVE_MESSAGE: &'static str = r#"{"type":"KeepAlive"}"#;

/// The message that ends a session.
pub const CLOSE_STREAM_MESSAGE: &'static str = r#"{"type":"CloseStream"}"#;

/// Why speech is not recognised any more.
#[derive(Debug, PartialEq, Eq)]
pub enum SttError {
    /// There is no way to encrypt.
    CryptoProvider,
    /// No more sound comes.
    AudioChannelClosed,
    /// Nobody takes the events.
    EventChannelClosed,
    /// The key cannot be sent.
    AuthorizationHeader(String),
    /// A part of the session failed.
    Task(String),
}

/// The value of a [`SttError`].
#[verifier::ext_equal]
pub enum SttErrorModel {
    CryptoProvider,
    AudioChannelClosed,
    EventChannelClosed,
    AuthorizationHeader(Seq<char>),
    Task(Seq<char>),
}

impl View for SttError {
    type V = SttErrorModel;

    open spec fn view(&self) -> SttErrorModel {
        match *self {
            SttError::CryptoProvider => SttErrorModel::CryptoProvider,
            SttError::AudioChannelClosed => SttErrorModel::AudioChannelClosed,
            SttError::EventChannelClosed => SttErrorModel::EventChannelClosed,
            SttError::AuthorizationHeader(inner) => SttErrorModel::AuthorizationHeader(inner@),
            SttError::Task(inner) => SttErrorModel::Task(inner@),
        }
    }
}

impl Clone for SttError {
    fn clone(&self) -> (r: Self)
        ensures
            r@ == self@,
    {
        match self {
            SttError::CryptoProvider => SttError::CryptoProvider,
            SttError::AudioChannelClosed => SttError::AudioChannelClosed,
            SttError::EventChannelClosed => SttError::EventChannelClosed,
            SttError::AuthorizationHeader(inner) => SttError::AuthorizationHeader(inner.clone()),
            SttError::Task(inner) => SttError::Task(inner.clone()),
        }
    }
}

impl SttErrorModel {
    /// The failure in words.
    pub open spec fn words(self) -> Seq<char> {
        match self {
            SttErrorModel::CryptoProvider => "failed to install the rustls crypto provider"@,
            SttErrorModel::AudioChannelClosed => "audio frame channel closed while STT was running"@,
            SttErrorModel::EventChannelClosed => "Deepgram event channel closed"@,
            SttErrorModel::AuthorizationHeader(p) => "invalid Deepgram authorization header: "@ + p,
            SttErrorModel::Task(p) => "Deepgram task failed: "@ + p,
        }
    }
}

impl SttError {
    /// The failure in words.
    pub fn message(&self) -> (r: String)
        ensures
            r@ == self@.words(),
    {
        match self {
            SttError::CryptoProvider => {
                let out = "failed to install the rustls crypto provider".to_owned();
                out
            },
            SttError::AudioChannelClosed => {
                let out = "audio frame channel closed while STT was running".to_owned();
                out
            },
            SttError::EventChannelClosed => {
                let out = "Deepgram event channel closed".to_owned();
                out
            },
            SttError::AuthorizationHeader(p) => {
                let mut out = "invalid Deepgram authorization header: ".to_owned();
                out.append(p.as_str());
                out
            },
            SttError::Task(p) => {
                let mut out = "Deepgram task failed: ".to_owned();
                out.append(p.as_str());
                out
            },
        }
    }
}

/// The words of a switch.
pub open spec fn switch_text(on: bool) -> Seq<char> {
    if on {
        "true"@
    } else {
        "false"@
    }
}

fn switch_words(on: bool) -> (r: String)
    ensures
        r@ == switch_text(on),
{
    if on {
        "true".to_owned()
    } else {
        "false".to_owned()
    }
}

/// What the recogniser is told of the sound and of what is wanted.
pub open spec fn stream_settings(c: DeepgramConfigModel) -> Seq<(Seq<char>, Seq<char>)> {
    seq![
        ("model"@, c.model),
        ("language"@, c.language),
        ("encoding"@, "linear16"@),
        ("sample_rate"@, decimal(c.sample_rate as nat)),
        ("channels"@, decimal(c.channels as nat)),
        ("interim_results"@, switch_text(c.interim_results)),
        ("punctuate"@, switch_text(c.punctuate)),
        ("smart_format"@, switch_text(c.smart_format)),
        ("vad_events"@, switch_text(c.vad_events)),
        ("endpointing"@, decimal(c.endpointing_ms as nat)),
        ("utterance_end_ms"@, decimal(c.utterance_end_ms as nat)),
    ]
}

/// The terms that the recogniser is to expect.
pub open spec fn keyterm_pairs(terms: Seq<Seq<char>>) -> Seq<(Seq<char>, Seq<char>)> {
    Seq::new(terms.len(), |i: int| ("keyterm"@, terms[i]))
}

/// All pairs of the query of the address.
pub open spec fn stream_query(c: DeepgramConfigModel) -> Seq<(Seq<char>, Seq<char>)> {
    stream_settings(c) + keyterm_pairs(c.keyterms)
}

/// All pairs of the query of the address.
pub fn stream_pairs(config: &DeepgramConfig) -> (r: Vec<(String, String)>)
    ensures
        pair_views(r@) == stream_query(config@),
{
    let mut pairs: Vec<(String, String)> = Vec::new();
    pairs.push(("model".to_owned(), config.model.clone()));
    pairs.push(("language".to_owned(), config.language.clone()));
    pairs.push(("encoding".to_owned(), "linear16".to_owned()));
    pairs.push(("sample_rate".to_owned(), decimal_text(config.sample_rate as u64)));
    pairs.push(("channels".to_owned(), decimal_text(config.channels as u64)));
    pairs.push(("interim_results".to_owned(), switch_words(config.interim_results)));
    pairs.push(("punctuate".to_owned(), switch_words(config.punctuate)));
    pairs.push(("smart_format".to_owned(), switch_words(config.smart_format)));
    pairs.push(("vad_events".to_owned(), switch_words(config.vad_events)));
    pairs.push(("endpointing".to_owned(), decimal_text(config.endpointing_ms)));
    pairs.push(("utterance_end_ms".to_owned(), decimal_text(config.utterance_end_ms)));
    assert(pair_views(pairs@) =~= stream_settings(config@));
    let ghost terms = config@.keyterms;
    let mut i: usize = 0;
    assert(stream_settings(config@) + keyterm_pairs(terms).take(0) =~= stream_settings(config@));
    while i < config.keyterms.len()
        invariant
            terms == config@.keyterms,
            i <= config.keyterms@.len(),
            pair_views(pairs@) == stream_settings(config@) + keyterm_pairs(terms).take(i as int),
        decreases config.keyterms@.len() - i,
    {
        let ghost before = pair_views(pairs@);
        assert(terms[i as int] == config.keyterms@[i as int]@);
        pairs.push(("keyterm".to_owned(), config.keyterms[i].clone()));
        assert(pair_views(pairs@) =~= before.push(("keyterm"@, terms[i as int])));
        i += 1;
        assert(keyterm_pairs(terms).take(i as int) =~= keyterm_pairs(terms).take(i - 1).push(
            keyterm_pairs(terms)[i - 1],
        ));
        assert(stream_settings(config@) + keyterm_pairs(terms).take(i as int) =~= before.push(
            ("keyterm"@, terms[i - 1]),
        ));
    }
    assert(keyterm_pairs(terms).take(i as int) =~= keyterm_pairs(terms));
    pairs
}

/// The address of a session with the recogniser.
pub fn build_deepgram_url(config: &DeepgramConfig) -> (r: Result<String, UrlFault>)
    ensures
        match r {
            Ok(url) => queried(config@.ws_url, stream_query(config@)) == Ok::<Seq<char>, UrlFault>(
                url@,
            ),
            Err(fault) => queried(config@.ws_url, stream_query(config@)) == Err::<
                Seq<char>,
                UrlFault,
            >(fault),
        },
{
    let pairs = stream_pairs(config);
    query_url(config.ws_url.as_str(), &pairs)
}

/// The value of the header that carries the key.
pub fn authorization_value(config: &DeepgramConfig) -> (r: String)
    ensures
        r@ == "Token "@ + config@.api_key,
{
    let mut out = "Token ".to_owned();
    out.append(config.api_key.expose_secret());
    out
}

// ---------------------------------------------------------------------------
// Reconnecting
// ---------------------------------------------------------------------------

/// The seconds before the next attempt: doubled with each one, up to a limit.
pub open spec fn delay_secs(retry_count: u32) -> u64 {
    if retry_count <= 1 {
        1
    } else if retry_count == 2 {
        2
    } else if retry_count == 3 {
        4
    } else if retry_count == 4 {
        8
    } else if retry_count == 5 {
        16
    } else {
        MAX_RECONNECT_DELAY_SECS
    }
}

/// The seconds before the next attempt, after so many failed ones.
pub fn reconnect_delay(retry_count: u32) -> (r: u64)
    ensures
        r == delay_secs(retry_count),
{
    let exponent: u32 = if retry_count == 0 {
        0
    } else if retry_count - 1 < 5 {
        retry_count - 1
    } else {
        5
    };
    let mut delay: u64 = 1;
    let mut i: u32 = 0;
    while i < exponent
        invariant
            i <= exponent <= 5,
            delay == if i == 0 {
                1u64
            } else if i == 1 {
                2
            } else if i == 2 {
                4
            } else if i == 3 {
                8
            } else if i == 4 {
                16
            } else {
                32
            },
        decreases exponent - i,
    {
        delay = 2 * delay;
        i += 1;
    }
    if delay < MAX_RECONNECT_DELAY_SECS {
        delay
    } else {
        MAX_RECONNECT_DELAY_SECS
    }
}

/// The wait grows with each attempt, doubles until it meets the limit, and
/// never passes it.
pub proof fn the_wait_grows_up_to_a_limit(a: u32, b: u32)
    requires
        a <= b,
    ensures
        delay_secs(a) <= delay_secs(b) <= MAX_RECONNECT_DELAY_SECS,
        1 <= a < 5 ==> delay_secs((a + 1) as u32) == 2 * delay_secs(a),
{
}

/// How the sending of sound ended.
#[derive(Debug, PartialEq, Eq)]
pub enum SendOutcome {
    /// The session was ended.
    Shutdown,
    /// The connection was given up.
    Cancelled,
    /// No more sound comes.
    AudioChannelClosed,
    /// The connection failed.
    ConnectionError(String),
}

/// The value of a [`SendOutcome`].
#[verifier::ext_equal]
pub enum SendOutcomeModel {
    Shutdown,
    Cancelled,
    AudioChannelClosed,
    ConnectionError(Seq<char>),
}

impl View for SendOutcome {
    type V = SendOutcomeModel;

    open spec fn view(&self) -> SendOutcomeModel {
        match *self {
            SendOutcome::Shutdown => SendOutcomeModel::Shutdown,
            SendOutcome::Cancelled => SendOutcomeModel::Cancelled,
            SendOutcome::AudioChannelClosed => SendOutcomeModel::AudioChannelClosed,
            SendOutcome::ConnectionError(inner) => SendOutcomeModel::ConnectionError(inner@),
        }
    }
}

impl Clone for SendOutcome {
    fn clone(&self) -> (r: Self)
        ensures
            r@ == self@,
    {
        match self {
            SendOutcome::Shutdown => SendOutcome::Shutdown,
            SendOutcome::Cancelled => SendOutcome::Cancelled,
            SendOutcome::AudioChannelClosed => SendOutcome::AudioChannelClosed,
            SendOutcome::ConnectionError(inner) => SendOutcome::ConnectionError(inner.clone()),
        }
    }
}

/// How the reading of events ended.
#[derive(Debug, PartialEq, Eq)]
pub enum ReadOutcome {
    /// The connection was given up.
    Cancelled,
    /// Nobody takes the events.
    EventChannelClosed,
    /// The connection was closed.
    ConnectionClosed(String),
}

/// The value of a [`ReadOutcome`].
#[verifier::ext_equal]
pub enum ReadOutcomeModel {
    Cancelled,
    EventChannelClosed,
    ConnectionClosed(Seq<char>),
}

impl View for ReadOutcome {
    type V = ReadOutcomeModel;

    open spec fn view(&self) -> ReadOutcomeModel {
        match *self {
            ReadOutcome::Cancelled => ReadOutcomeModel::Cancelled,
            ReadOutcome::EventChannelClosed => ReadOutcomeModel::EventChannelClosed,
            ReadOutcome::ConnectionClosed(inner) => ReadOutcomeModel::ConnectionClosed(inner@),
        }
    }
}

impl Clone for ReadOutcome {
    fn clone(&self) -> (r: Self)
        ensures
            r@ == self@,
    {
        match self {
            ReadOutcome::Cancelled => ReadOutcome::Cancelled,
            ReadOutcome::EventChannelClosed => ReadOutcome::EventChannelClosed,
            ReadOutcome::ConnectionClosed(inner) => ReadOutcome::ConnectionClosed(inner.clone()),
        }
    }
}

/// How a connection ended.
#[derive(Debug, PartialEq, Eq)]
pub enum ConnectionOutcome {
    /// The session was ended.
    Shutdown,
    /// The connection was lost.
    Disconnected(String),
    /// No more sound comes.
    AudioChannelClosed,
    /// Nobody takes the events.
    EventChannelClosed,
}

/// The value of a [`ConnectionOutcome`].
#[verifier::ext_equal]
pub enum ConnectionOutcomeModel {
    Shutdown,
    Disconnected(Seq<char>),
    AudioChannelClosed,
    EventChannelClosed,
}

impl View for ConnectionOutcome {
    type V = ConnectionOutcomeModel;

    open spec fn view(&self) -> ConnectionOutcomeModel {
        match *self {
            ConnectionOutcome::Shutdown => ConnectionOutcomeModel::Shutdown,
            ConnectionOutcome::Disconnected(inner) => ConnectionOutcomeModel::Disconnected(inner@),
            ConnectionOutcome::AudioChannelClosed => ConnectionOutcomeModel::AudioChannelClosed,
            ConnectionOutcome::EventChannelClosed => ConnectionOutcomeModel::EventChannelClosed,
        }
    }
}

impl Clone for ConnectionOutcome {
    fn clone(&self) -> (r: Self)
        ensures
            r@ == self@,
    {
        match self {
            ConnectionOutcome::Shutdown => ConnectionOutcome::Shutdown,
            ConnectionOutcome::Disconnected(inner) => ConnectionOutcome::Disconnected(inner.clone()),
            ConnectionOutcome::AudioChannelClosed => ConnectionOutcome::AudioChannelClosed,
            ConnectionOutcome::EventChannelClosed => ConnectionOutcome::EventChannelClosed,
        }
    }
}

/// How a connection ended, by how its two directions ended.
pub open spec fn joint_outcome(send: SendOutcomeModel, read: ReadOutcomeModel) -> ConnectionOutcomeModel {
    match send {
        SendOutcomeModel::Shutdown => ConnectionOutcomeModel::Shutdown,
        SendOutcomeModel::AudioChannelClosed => ConnectionOutcomeModel::AudioChannelClosed,
        SendOutcomeModel::ConnectionError(error) => ConnectionOutcomeModel::Disconnected(error),
        SendOutcomeModel::Cancelled => match read {
            ReadOutcomeModel::EventChannelClosed => ConnectionOutcomeModel::EventChannelClosed,
            ReadOutcomeModel::ConnectionClosed(error) => ConnectionOutcomeModel::Disconnected(
                error,
            ),
            ReadOutcomeModel::Cancelled => ConnectionOutcomeModel::Disconnected(
                "connection tasks stopped"@,
            ),
        },
    }
}

/// How a connection ended, by how its two directions ended.
pub fn connection_outcome(send: &SendOutcome, read: ReadOutcome) -> (r: ConnectionOutcome)
    ensures
        r@ == joint_outcome(send@, read@),
{
    match send {
        SendOutcome::Shutdown => ConnectionOutcome::Shutdown,
        SendOutcome::AudioChannelClosed => ConnectionOutcome::AudioChannelClosed,
        SendOutcome::ConnectionError(error) => ConnectionOutcome::Disconnected(error.clone()),
        SendOutcome::Cancelled => match read {
            ReadOutcome::EventChannelClosed => ConnectionOutcome::EventChannelClosed,
            ReadOutcome::ConnectionClosed(error) => ConnectionOutcome::Disconnected(error),
            ReadOutcome::Cancelled => ConnectionOutcome::Disconnected(
                "connection tasks stopped".to_owned(),
            ),
        },
    }
}

/// Why a helper of the connection ended, which it should not: with an error,
/// or without one.
pub fn task_failure(name: &str, error: Option<String>) -> (r: String)
    ensures
        r@ == match error {
            None => name@ + " task stopped unexpectedly"@,
            Some(reason) => name@ + " task failed: "@ + reason@,
        },
{
    let mut out = name.to_owned();
    match error {
        None => {
            out.append(" task stopped unexpectedly");
        },
        Some(reason) => {
            out.append(" task failed: ");
            out.append(reason.as_str());
        },
    }
    out
}

/// How a connection ended: a wish to stop counts before a failed helper, and
/// that before the two directions.
pub fn settle_connection(
    shutdown: bool,
    helper_failure: Option<String>,
    send: &SendOutcome,
    read: ReadOutcome,
) -> (r: ConnectionOutcome)
    ensures
        r@ == if shutdown {
            ConnectionOutcomeModel::Shutdown
        } else {
            match helper_failure {
                Some(error) => ConnectionOutcomeModel::Disconnected(error@),
                None => joint_outcome(send@, read@),
            }
        },
{
    if shutdown {
        ConnectionOutcome::Shutdown
    } else {
        match helper_failure {
            Some(error) => ConnectionOutcome::Disconnected(error),
            None => connection_outcome(send, read),
        }
    }
}

// ---------------------------------------------------------------------------
// Sending sound
// ---------------------------------------------------------------------------

/// What the writer can be told.
#[derive(Clone, Copy, Debug, PartialEq, Eq, Structural)]
pub enum WriterCommand {
    KeepAlive,
    CloseStream,
}

/// What the sender meets next.
#[derive(Debug)]
pub enum SenderInput {
    /// The connection is given up.
    Cancelled,
    /// A command, or the end of all commands.
    Command(Option<WriterCommand>),
    /// A frame of sound, or the end of all sound.
    Frame(Option<AudioFrame>),
}

/// What the sender does next.
#[derive(Debug)]
pub enum SenderAction {
    /// It stops.
    Stop(SendOutcome),
    /// It sends a text; having sent the one that ends the session, it stops.
    SendText { text: &'static str, closing: bool },
    /// It sends the frame in its hand.
    SendFrame,
}

/// What the sender does about what it meets.
pub open spec fn next_action(input: SenderInput, action: SenderAction) -> bool {
    match input {
        SenderInput::Cancelled => action matches SenderAction::Stop(outcome) && outcome@
            == SendOutcomeModel::Cancelled,
        SenderInput::Command(None) => action matches SenderAction::Stop(outcome) && outcome@
            == SendOutcomeModel::ConnectionError("WebSocket command channel closed"@),
        SenderInput::Command(Some(WriterCommand::KeepAlive)) => action matches SenderAction::SendText {
            text,
            closing,
        } && text@ == KEEPALIVE_MESSAGE@ && !closing,
        SenderInput::Command(Some(WriterCommand::CloseStream)) => action matches SenderAction::SendText {
            text,
            closing,
        } && text@ == CLOSE_STREAM_MESSAGE@ && closing,
        SenderInput::Frame(None) => action matches SenderAction::Stop(outcome) && outcome@
            == SendOutcomeModel::AudioChannelClosed,
        SenderInput::Frame(Some(_)) => action is SendFrame,
    }
}

/// What happens to the frames of a sender.
pub enum SendEvent {
    /// A frame comes from the queue.
    Received(AudioFrame),
    /// The frame in hand was sent.
    Delivered,
    /// The frame in hand could not be sent.
    Refused,
}

/// The frame in hand after an event: one that could not be sent stays.
pub open spec fn hand_after(hand: Option<AudioFrame>, event: SendEvent) -> Option<AudioFrame> {
    match event {
        SendEvent::Received(frame) => Some(frame),
        SendEvent::Delivered => None,
        SendEvent::Refused => hand,
    }
}

/// Sends the frames of a connection, one at a time.
#[derive(Debug)]
pub struct AudioSender {
    hand: Option<AudioFrame>,
    announced: bool,
}

/// What is done once sending a frame was tried.
#[derive(Debug)]
pub struct FrameReport {
    /// Whether it is the first sound of the connection.
    pub started: bool,
    /// Why sending ends, if it does.
    pub stop: Option<SendOutcome>,
}

impl AudioSender {
    /// The frame that is to be sent.
    pub closed spec fn in_hand(&self) -> Option<AudioFrame> {
        self.hand
    }

    /// Whether sound was sent on this connection.
    pub closed spec fn has_sent(&self) -> bool {
        self.announced
    }

    /// The sender of a new connection, with the frame that the one before could
    /// not send, if there is one.
    pub fn new(retry_frame: Option<AudioFrame>) -> (r: Self)
        ensures
            r.in_hand() == retry_frame,
            !r.has_sent(),
    {
        AudioSender { hand: retry_frame, announced: false }
    }

    /// The frame that is to be sent before anything else is met.
    pub fn frame(&self) -> (r: Option<&AudioFrame>)
        ensures
            match r {
                Some(frame) => self.in_hand() == Some(*frame),
                None => self.in_hand() is None,
            },
    {
        self.hand.as_ref()
    }

    /// Takes in what the sender meets, with no frame in hand, and returns what
    /// it does about it.
    pub fn meet(&mut self, input: SenderInput) -> (r: SenderAction)
        requires
            old(self).in_hand() is None,
        ensures
            next_action(input, r),
            final(self).in_hand() == match input {
                SenderInput::Frame(Some(frame)) => hand_after(
                    old(self).in_hand(),
                    SendEvent::Received(frame),
                ),
                _ => old(self).in_hand(),
            },
            final(self).has_sent() == old(self).has_sent(),
    {
        match input {
            SenderInput::Cancelled => SenderAction::Stop(SendOutcome::Cancelled),
            SenderInput::Command(None) => SenderAction::Stop(
                SendOutcome::ConnectionError("WebSocket command channel closed".to_owned()),
            ),
            SenderInput::Command(Some(WriterCommand::KeepAlive)) => SenderAction::SendText {
                text: KEEPALIVE_MESSAGE,
                closing: false,
            },
            SenderInput::Command(Some(WriterCommand::CloseStream)) => SenderAction::SendText {
                text: CLOSE_STREAM_MESSAGE,
                closing: true,
            },
            SenderInput::Frame(None) => SenderAction::Stop(SendOutcome::AudioChannelClosed),
            SenderInput::Frame(Some(frame)) => {
                self.hand = Some(frame);
                SenderAction::SendFrame
            },
        }
    }

    /// The frame in hand was sent, or not: one that was not is kept.
    pub fn frame_sent(&mut self, failure: Option<SendOutcome>) -> (r: FrameReport)
        requires
            old(self).in_hand() is Some,
        ensures
            r.stop == failure,
            r.started == (failure is None && !old(self).has_sent()),
            final(self).in_hand() == hand_after(
                old(self).in_hand(),
                if failure is None {
                    SendEvent::Delivered
                } else {
                    SendEvent::Refused
                },
            ),
            final(self).has_sent() == (old(self).has_sent() || failure is None),
    {
        match failure {
            None => {
                let started = !self.announced;
                self.hand = None;
                self.announced = true;
                FrameReport { started, stop: None }
            },
            Some(outcome) => FrameReport { started: false, stop: Some(outcome) },
        }
    }

    /// The frame that is kept for the next connection.
    pub fn into_retry(self) -> (r: Option<AudioFrame>)
        ensures
            r == self.in_hand(),
    {
        self.hand
    }
}

/// A text was sent, or not: why sending ends, if it does.
pub fn text_sent(closing: bool, failure: Option<SendOutcome>) -> (r: Option<SendOutcome>)
    ensures
        match failure {
            None => if closing {
                r is Some && r->0@ == SendOutcomeModel::Shutdown
            } else {
                r is None
            },
            Some(_) => r == failure,
        },
{
    match failure {
        None => if closing {
            Some(SendOutcome::Shutdown)
        } else {
            None
        },
        Some(outcome) => Some(outcome),
    }
}

/// The frame in hand after events in a row.
pub open spec fn hand_at_end(hand: Option<AudioFrame>, events: Seq<SendEvent>) -> Option<AudioFrame>
    decreases events.len(),
{
    if events.len() == 0 {
        hand
    } else {
        hand_after(hand_at_end(hand, events.drop_last()), events.last())
    }
}

/// The frames that were sent, in the order in which they were.
pub open spec fn delivered(hand: Option<AudioFrame>, events: Seq<SendEvent>) -> Seq<AudioFrame>
    decreases events.len(),
{
    if events.len() == 0 {
        Seq::empty()
    } else {
        let before = delivered(hand, events.drop_last());
        match (events.last(), hand_at_end(hand, events.drop_last())) {
            (SendEvent::Delivered, Some(frame)) => before.push(frame),
            _ => before,
        }
    }
}

/// The frames that came from the queue, in the order in which they did.
pub open spec fn received(events: Seq<SendEvent>) -> Seq<AudioFrame>
    decreases events.len(),
{
    if events.len() == 0 {
        Seq::empty()
    } else {
        match events.last() {
            SendEvent::Received(frame) => received(events.drop_last()).push(frame),
            _ => received(events.drop_last()),
        }
    }
}

/// Whether a frame comes from the queue only where none is in hand, as
/// [`AudioSender::meet`] demands.
pub open spec fn one_at_a_time(hand: Option<AudioFrame>, events: Seq<SendEvent>) -> bool
    decreases events.len(),
{
    events.len() > 0 ==> {
        &&& one_at_a_time(hand, events.drop_last())
        &&& events.last() is Received ==> hand_at_end(hand, events.drop_last()) is None
    }
}

/// A frame, if there is one, as a sequence.
pub open spec fn frame_or_none(frame: Option<AudioFrame>) -> Seq<AudioFrame> {
    match frame {
        Some(inner) => seq![inner],
        None => Seq::empty(),
    }
}

/// No frame is lost, doubled or moved, however often sending breaks off: the
/// frames that were sent, the one that is kept and those that are left in the
/// queue are the frame from before and all frames of the queue, in their order.
/// Since a new connection begins with the frame that was kept, the events may
/// be those of several connections.
pub proof fn frames_keep_their_order(
    hand: Option<AudioFrame>,
    events: Seq<SendEvent>,
    left: Seq<AudioFrame>,
)
    requires
        one_at_a_time(hand, events),
    ensures
        delivered(hand, events) + frame_or_none(hand_at_end(hand, events)) + left
            == frame_or_none(hand) + (received(events) + left),
    decreases events.len(),
{
    if events.len() == 0 {
        assert(delivered(hand, events) + frame_or_none(hand) + left =~= frame_or_none(hand) + (
        received(events) + left));
    } else {
        let before = events.drop_last();
        frames_keep_their_order(hand, before, Seq::empty());
        let sent = delivered(hand, before);
        let held = frame_or_none(hand_at_end(hand, before));
        let came = received(before);
        assert(sent + held + Seq::<AudioFrame>::empty() =~= sent + held);
        assert(came + Seq::<AudioFrame>::empty() =~= came);
        assert(sent + held == frame_or_none(hand) + came);
        let all = frame_or_none(hand) + received(events);
        assert(delivered(hand, events) + frame_or_none(hand_at_end(hand, events)) =~= all) by {
            match events.last() {
                SendEvent::Received(frame) => {
                    assert(held =~= Seq::empty());
                    assert(sent + seq![frame] =~= (sent + held).push(frame));
                    assert(all =~= (frame_or_none(hand) + came).push(frame));
                },
                SendEvent::Delivered => {
                    assert(delivered(hand, events) + Seq::<AudioFrame>::empty() =~= sent + held);
                },
                SendEvent::Refused => {},
            }
        }
        assert(delivered(hand, events) + frame_or_none(hand_at_end(hand, events)) + left
            =~= frame_or_none(hand) + (received(events) + left));
    }
}

// ---------------------------------------------------------------------------
// Reading events
// ---------------------------------------------------------------------------

/// What comes from the recogniser.
#[derive(Debug)]
pub enum ServerFrame {
    /// A text.
    Text(String),
    /// The end of the connection, perhaps with its code and its reason.
    Closed(Option<(String, String)>),
    /// Something without content for the session.
    Other,
    /// A failure of the connection.
    Failed(String),
    /// The end of the stream.
    Ended,
}

/// What is done about it.
#[derive(Debug)]
pub enum ReadStep {
    /// An event is passed on.
    Pass(DeepgramEvent),
    /// Nothing.
    Skip,
    /// Reading ends.
    Stop(ReadOutcome),
}

/// The value of a [`ReadStep`].
pub enum ReadStepModel {
    Pass(DeepgramEventModel),
    Skip,
    Stop(ReadOutcomeModel),
}

impl View for ReadStep {
    type V = ReadStepModel;

    open spec fn view(&self) -> ReadStepModel {
        match *self {
            ReadStep::Pass(event) => ReadStepModel::Pass(event@),
            ReadStep::Skip => ReadStepModel::Skip,
            ReadStep::Stop(outcome) => ReadStepModel::Stop(outcome@),
        }
    }
}

/// Whether a message with recognised words comes from the recogniser.
pub open spec fn brings_results(frame: ServerFrame) -> bool {
    frame matches ServerFrame::Text(text) && has_results(text@)
}

/// What is done about what comes from the recogniser. `results` is what was
/// read of a message with recognised words, or why it could not be.
pub open spec fn reading_step(
    frame: ServerFrame,
    results: Result<ResultsModel, Seq<char>>,
) -> ReadStepModel {
    match frame {
        ServerFrame::Text(text) => match server_message(text@, results) {
            Ok(Some(event)) => ReadStepModel::Pass(event),
            Ok(None) => ReadStepModel::Skip,
            Err(error) => ReadStepModel::Stop(
                ReadOutcomeModel::ConnectionClosed("protocol error: "@ + error.words()),
            ),
        },
        ServerFrame::Closed(Some(close)) => ReadStepModel::Stop(
            ReadOutcomeModel::ConnectionClosed(close.0@ + " "@ + close.1@),
        ),
        ServerFrame::Closed(None) => ReadStepModel::Stop(
            ReadOutcomeModel::ConnectionClosed("server closed WebSocket"@),
        ),
        ServerFrame::Other => ReadStepModel::Skip,
        ServerFrame::Failed(error) => ReadStepModel::Stop(
            ReadOutcomeModel::ConnectionClosed(error@),
        ),
        ServerFrame::Ended => ReadStepModel::Stop(
            ReadOutcomeModel::ConnectionClosed("WebSocket stream ended"@),
        ),
    }
}

/// What is done about what comes from the recogniser. `read_results` reads a
/// message with recognised words from its JSON text, or says why it is none.
pub fn read_step<F>(frame: ServerFrame, read_results: F) -> (r: ReadStep) where
    F: Fn(&str) -> Result<ResultsMessage, String>,

    requires
        forall|text: &str| call_requires(read_results, (text,)),
    ensures
        brings_results(frame) ==> exists|text: &str, results: Result<ResultsMessage, String>|
            {
                &&& text@ == frame->Text_0@
                &&& #[trigger] call_ensures(read_results, (text,), results)
                &&& r@ == reading_step(frame, reading(results))
            },
        !brings_results(frame) ==> forall|results: Result<ResultsModel, Seq<char>>|
            r@ == #[trigger] reading_step(frame, results),
{
    match frame {
        ServerFrame::Text(text) => match parse_server_message(text.as_str(), read_results) {
            Ok(Some(event)) => ReadStep::Pass(event),
            Ok(None) => ReadStep::Skip,
            Err(error) => {
                let mut reason = "protocol error: ".to_owned();
                reason.append(error.message().as_str());
                ReadStep::Stop(ReadOutcome::ConnectionClosed(reason))
            },
        },
        ServerFrame::Closed(Some(close)) => {
            let mut reason = close.0;
            reason.append(" ");
            reason.append(close.1.as_str());
            ReadStep::Stop(ReadOutcome::ConnectionClosed(reason))
        },
        ServerFrame::Closed(None) => ReadStep::Stop(
            ReadOutcome::ConnectionClosed("server closed WebSocket".to_owned()),
        ),
        ServerFrame::Other => ReadStep::Skip,
        ServerFrame::Failed(error) => ReadStep::Stop(ReadOutcome::ConnectionClosed(error)),
        ServerFrame::Ended => ReadStep::Stop(
            ReadOutcome::ConnectionClosed("WebSocket stream ended".to_owned()),
        ),
    }
}

// ---------------------------------------------------------------------------
// The session
// ---------------------------------------------------------------------------

/// How often the session had to be connected again.
#[derive(Debug)]
pub struct SttSession {
    retry_count: u32,
}

/// What is done when a connection is over.
#[derive(Debug)]
pub enum SessionStep {
    /// The session is over.
    Finish,
    /// The session has failed.
    Fail(SttError),
    /// Events are reported, and after some seconds it is connected again.
    Reconnect { events: Vec<DeepgramEvent>, delay_secs: u64 },
}

/// The value of a [`SessionStep`].
#[verifier::ext_equal]
pub enum SessionStepModel {
    Finish,
    Fail(SttErrorModel),
    Reconnect { events: Seq<DeepgramEventModel>, delay_secs: u64 },
}

/// The values of the events.
pub open spec fn stt_event_models(events: Seq<DeepgramEvent>) -> Seq<DeepgramEventModel> {
    Seq::new(events.len(), |i: int| events[i]@)
}

impl View for SessionStep {
    type V = SessionStepModel;

    open spec fn view(&self) -> SessionStepModel {
        match *self {
            SessionStep::Finish => SessionStepModel::Finish,
            SessionStep::Fail(error) => SessionStepModel::Fail(error@),
            SessionStep::Reconnect { events, delay_secs } => SessionStepModel::Reconnect {
                events: stt_event_models(events@),
                delay_secs,
            },
        }
    }
}

/// One attempt more, up to the greatest number there is.
pub open spec fn one_more(retry_count: u32) -> u32 {
    if retry_count == u32::MAX {
        retry_count
    } else {
        (retry_count + 1) as u32
    }
}

/// What is done before the next attempt with the given number.
pub open spec fn reconnecting(retry_count: u32, reason: Seq<char>, queue_len: usize) -> SessionStepModel {
    SessionStepModel::Reconnect {
        events: seq![
            DeepgramEventModel::Error(reason),
            DeepgramEventModel::Status(
                SttStatus::Reconnecting {
                    retry_count,
                    delay_secs: delay_secs(retry_count),
                    queue_len,
                },
            ),
        ],
        delay_secs: delay_secs(retry_count),
    }
}

impl SttSession {
    /// How often it was connected again in a row.
    pub closed spec fn retries(&self) -> u32 {
        self.retry_count
    }

    /// A session that was not connected yet.
    pub fn new() -> (r: Self)
        ensures
            r.retries() == 0,
    {
        SttSession { retry_count: 0 }
    }

    /// The report that an attempt is made.
    pub fn connecting(&self, queue_len: usize) -> (r: DeepgramEvent)
        ensures
            r@ == DeepgramEventModel::Status(
                SttStatus::Connecting { retry_count: self.retries(), queue_len },
            ),
    {
        DeepgramEvent::Status(
            SttStatus::Connecting { retry_count: self.retry_count, queue_len },
        )
    }

    /// The report that an attempt has succeeded.
    pub fn connected(&self, queue_len: usize) -> (r: DeepgramEvent)
        ensures
            r@ == DeepgramEventModel::Status(SttStatus::Connected { queue_len }),
    {
        DeepgramEvent::Status(SttStatus::Connected { queue_len })
    }

    fn retry(&mut self, reason: String, queue_len: usize) -> (r: SessionStep)
        ensures
            final(self).retries() == one_more(old(self).retries()),
            r@ == reconnecting(one_more(old(self).retries()), reason@, queue_len),
    {
        self.retry_count = self.retry_count.saturating_add(1);
        let delay: u64 = reconnect_delay(self.retry_count);
        let mut events: Vec<DeepgramEvent> = Vec::new();
        events.push(DeepgramEvent::Error(reason));
        events.push(
            DeepgramEvent::Status(
                SttStatus::Reconnecting {
                    retry_count: self.retry_count,
                    delay_secs: delay,
                    queue_len,
                },
            ),
        );
        let step = SessionStep::Reconnect { events, delay_secs: delay };
        assert(step@ =~= reconnecting(self.retry_count, reason@, queue_len));
        step
    }

    /// An attempt has failed.
    pub fn connect_failed(&mut self, error: &str, queue_len: usize) -> (r: SessionStep)
        ensures
            final(self).retries() == one_more(old(self).retries()),
            r@ == reconnecting(
                one_more(old(self).retries()),
                "Deepgram connection failed: "@ + error@,
                queue_len,
            ),
    {
        let mut reason = "Deepgram connection failed: ".to_owned();
        reason.append(error);
        self.retry(reason, queue_len)
    }

    /// A connection that lasted so many seconds is over. After a stable one
    /// the attempts are counted anew.
    pub fn connection_ended(
        &mut self,
        outcome: ConnectionOutcome,
        lasted_secs: u64,
        shutdown: bool,
        queue_len: usize,
    ) -> (r: SessionStep)
        ensures
            ({
                let counted = if lasted_secs >= STABLE_CONNECTION_SECS {
                    0
                } else {
                    old(self).retries()
                };
                if shutdown {
                    r@ == SessionStepModel::Finish && *final(self) == *old(self)
                } else {
                    match outcome@ {
                        ConnectionOutcomeModel::Shutdown => r@ == SessionStepModel::Finish
                            && *final(self) == *old(self),
                        ConnectionOutcomeModel::AudioChannelClosed => r@ == SessionStepModel::Fail(
                            SttErrorModel::AudioChannelClosed,
                        ) && *final(self) == *old(self),
                        ConnectionOutcomeModel::EventChannelClosed => r@ == SessionStepModel::Fail(
                            SttErrorModel::EventChannelClosed,
                        ) && *final(self) == *old(self),
                        ConnectionOutcomeModel::Disconnected(reason) => r@ == reconnecting(
                            one_more(counted),
                            "Deepgram disconnected: "@ + reason,
                            queue_len,
                        ) && final(self).retries() == one_more(counted),
                    }
                }
            }),
    {
        if shutdown {
            return SessionStep::Finish;
        }
        match outcome {
            ConnectionOutcome::Shutdown => SessionStep::Finish,
            ConnectionOutcome::AudioChannelClosed => SessionStep::Fail(
                SttError::AudioChannelClosed,
            ),
            ConnectionOutcome::EventChannelClosed => SessionStep::Fail(
                SttError::EventChannelClosed,
            ),
            ConnectionOutcome::Disconnected(error) => {
                if lasted_secs >= STABLE_CONNECTION_SECS {
                    self.retry_count = 0;
                }
                let mut reason = "Deepgram disconnected: ".to_owned();
                reason.append(error.as_str());
                self.retry(reason, queue_len)
            },
        }
    }
}

/// The wait is a power of two for the first five attempts and thirty seconds
/// for each one after them.
pub proof fn the_wait_is_known(retry_count: u32)
    ensures
        delay_secs(0) == 1,
        delay_secs(1) == 1,
        delay_secs(2) == 2,
        delay_secs(3) == 4,
        delay_secs(4) == 8,
        delay_secs(5) == 16,
        retry_count > 5 ==> delay_secs(retry_count) == 30,
        retry_count < u32::MAX ==> one_more(retry_count) == retry_count + 1,
        one_more(u32::MAX) == u32::MAX,
{
}

/// A lost connection is reported with its reason and with the wait, and it is
/// waited as long as was reported.
pub proof fn reconnecting_is_reported(retry_count: u32, reason: Seq<char>, queue_len: usize)
    ensures
        reconnecting(retry_count, reason, queue_len) matches SessionStepModel::Reconnect {
            events,
            delay_secs: wait,
        } && wait == delay_secs(retry_count) && events == seq![
            DeepgramEventModel::Error(reason),
            DeepgramEventModel::Status(
                SttStatus::Reconnecting { retry_count, delay_secs: wait, queue_len },
            ),
        ],
{
}

/// A recogniser is told every setting under its name, and each key term under
/// one name, in order.
pub proof fn every_setting_is_told(c: DeepgramConfigModel, k: int)
    requires
        0 <= k < c.keyterms.len(),
    ensures
        stream_query(c).len() == 11 + c.keyterms.len(),
        stream_query(c)[0] == ("model"@, c.model),
        stream_query(c)[1] == ("language"@, c.language),
        stream_query(c)[2] == ("encoding"@, "linear16"@),
        stream_query(c)[3] == ("sample_rate"@, decimal(c.sample_rate as nat)),
        stream_query(c)[4] == ("channels"@, decimal(c.channels as nat)),
        stream_query(c)[5].0 == "interim_results"@,
        stream_query(c)[6].0 == "punctuate"@,
        stream_query(c)[7].0 == "smart_format"@,
        stream_query(c)[8].0 == "vad_events"@,
        c.interim_results ==> stream_query(c)[5].1 == "true"@,
        !c.interim_results ==> stream_query(c)[5].1 == "false"@,
        c.punctuate ==> stream_query(c)[6].1 == "true"@,
        !c.punctuate ==> stream_query(c)[6].1 == "false"@,
        c.smart_format ==> stream_query(c)[7].1 == "true"@,
        !c.smart_format ==> stream_query(c)[7].1 == "false"@,
        c.vad_events ==> stream_query(c)[8].1 == "true"@,
        !c.vad_events ==> stream_query(c)[8].1 == "false"@,
        stream_query(c)[9] == ("endpointing"@, decimal(c.endpointing_ms as nat)),
        stream_query(c)[10] == ("utterance_end_ms"@, decimal(c.utterance_end_ms as nat)),
        stream_query(c)[11 + k] == ("keyterm"@, c.keyterms[k]),
{
}

/// A connection ends as sending ended, and as reading ended only where sending
/// was given up.
pub proof fn sending_decides_how_a_connection_ends(read: ReadOutcomeModel, error: Seq<char>)
    ensures
        joint_outcome(SendOutcomeModel::Shutdown, read) == ConnectionOutcomeModel::Shutdown,
        joint_outcome(SendOutcomeModel::AudioChannelClosed, read)
            == ConnectionOutcomeModel::AudioChannelClosed,
        joint_outcome(SendOutcomeModel::ConnectionError(error), read)
            == ConnectionOutcomeModel::Disconnected(error),
        joint_outcome(SendOutcomeModel::Cancelled, ReadOutcomeModel::EventChannelClosed)
            == ConnectionOutcomeModel::EventChannelClosed,
        joint_outcome(SendOutcomeModel::Cancelled, ReadOutcomeModel::ConnectionClosed(error))
            == ConnectionOutcomeModel::Disconnected(error),
        joint_outcome(SendOutcomeModel::Cancelled, ReadOutcomeModel::Cancelled)
            == ConnectionOutcomeModel::Disconnected("connection tasks stopped"@),
{
}

/// A frame stays in hand until it is delivered, and what comes next takes its
/// place.
pub proof fn a_frame_stays_until_it_is_delivered(
    hand: Option<AudioFrame>,
    frame: AudioFrame,
    events: Seq<SendEvent>,
    event: SendEvent,
)
    ensures
        hand_after(hand, SendEvent::Received(frame)) == Some(frame),
        hand_after(hand, SendEvent::Delivered) is None,
        hand_after(hand, SendEvent::Refused) == hand,
        hand_at_end(hand, events.push(event)) == hand_after(hand_at_end(hand, events), event),
        delivered(hand, events.push(event)) == delivered(hand, events) + (if event is Delivered {
            frame_or_none(hand_at_end(hand, events))
        } else {
            Seq::empty()
        }),
{
    assert(events.push(event).drop_last() =~= events);
    assert(events.push(event).last() == event);
    assert(delivered(hand, events) + Seq::<AudioFrame>::empty() =~= delivered(hand, events));
    if let Some(last) = hand_at_end(hand, events) {
        assert(delivered(hand, events) + seq![last] =~= delivered(hand, events).push(last));
    }
}

/// What the server sends ends reading exactly where it closes or fails the
/// connection, or is not understood; the reason is kept.
pub proof fn reading_ends_with_the_connection(
    frame: ServerFrame,
    results: Result<ResultsModel, Seq<char>>,
)
    ensures
        frame matches ServerFrame::Text(text) ==> {
            &&& reading_step(frame, results) is Stop <==> server_message(text@, results) is Err
            &&& reading_step(frame, results) is Skip <==> server_message(text@, results)
                == Ok::<Option<DeepgramEventModel>, ProtocolErrorModel>(None)
            &&& reading_step(frame, results) matches ReadStepModel::Pass(event)
                ==> server_message(text@, results) == Ok::<
                Option<DeepgramEventModel>,
                ProtocolErrorModel,
            >(Some(event))
        },
        frame matches ServerFrame::Closed(Some(close)) ==> reading_step(frame, results)
            == ReadStepModel::Stop(
            ReadOutcomeModel::ConnectionClosed(close.0@ + seq![' '] + close.1@),
        ),
        frame == ServerFrame::Closed(None) ==> reading_step(frame, results) == ReadStepModel::Stop(
            ReadOutcomeModel::ConnectionClosed("server closed WebSocket"@),
        ),
        frame is Other ==> reading_step(frame, results) is Skip,
        frame matches ServerFrame::Failed(error) ==> reading_step(frame, results)
            == ReadStepModel::Stop(ReadOutcomeModel::ConnectionClosed(error@)),
        frame is Ended ==> reading_step(frame, results) == ReadStepModel::Stop(
            ReadOutcomeModel::ConnectionClosed("WebSocket stream ended"@),
        ),
{
    reveal_strlit(" ");
    assert(" "@ =~= seq![' ']);
}

} // verus!
