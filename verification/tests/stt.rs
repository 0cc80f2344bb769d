//! The connection to the speech recogniser.

use mague_rc::config::{DeepgramConfig, SecretString};
use mague_rc::events::{AudioFrame, DeepgramEvent, SttStatus};
use mague_rc::stt::deepgram::{
    authorization_value, connection_outcome, read_step, reconnect_delay, settle_connection,
    task_failure, text_sent, AudioSender, ConnectionOutcome, ReadOutcome, ReadStep, SendOutcome,
    SenderAction, SenderInput, ServerFrame, SessionStep, SttSession, WriterCommand,
};
use mague_rc::json::JsonNode;
use mague_rc::numbers::Double;
use mague_rc::stt::protocol::{interpret_results, Alternative, Channel, ResultsMessage};
use mague_rc::stt::{build_deepgram_url, parse_server_message, ProtocolError, SttError};
use mague_rc::web::UrlFault;
use serde_json::Value;

fn read_results(text: &str) -> Result<ResultsMessage, String> {
    let value: Value = serde_json::from_str(text).map_err(|error| error.to_string())?;
    let flag = |name: &str| value.get(name).and_then(Value::as_bool).unwrap_or(false);
    let seconds = |name: &str| {
        value.get(name).and_then(Value::as_f64).map(|seconds| Double {
            bits: seconds.to_bits(),
        })
    };
    let channel = value
        .get("channel")
        .ok_or_else(|| "missing field `channel`".to_owned())?;
    let alternatives = channel
        .get("alternatives")
        .and_then(Value::as_array)
        .cloned()
        .unwrap_or_default();
    Ok(ResultsMessage {
        is_final: flag("is_final"),
        speech_final: flag("speech_final"),
        start: seconds("start"),
        duration: seconds("duration"),
        channel: Channel {
            alternatives: alternatives
                .iter()
                .map(|alternative| Alternative {
                    transcript: alternative
                        .get("transcript")
                        .and_then(Value::as_str)
                        .unwrap_or_default()
                        .to_owned(),
                })
                .collect(),
        },
    })
}

fn config() -> DeepgramConfig {
    DeepgramConfig {
        api_key: SecretString::new("secret".to_owned()),
        ws_url: "wss://api.deepgram.com/v1/listen".to_owned(),
        model: "nova-3".to_owned(),
        language: "ru".to_owned(),
        sample_rate: 16_000,
        channels: 1,
        interim_results: true,
        punctuate: true,
        smart_format: true,
        vad_events: true,
        endpointing_ms: 500,
        utterance_end_ms: 1_200,
        keyterms: vec!["Java".to_owned(), "Spring Boot".to_owned()],
    }
}

#[test]
fn builds_streaming_url_with_repeated_keyterms() {
    let text = build_deepgram_url(&config()).expect("the address must be valid");
    let url = url::Url::parse(&text).expect("the address must parse");
    let pairs = url.query_pairs().collect::<Vec<_>>();

    assert!(pairs.contains(&("encoding".into(), "linear16".into())));
    assert!(pairs.contains(&("sample_rate".into(), "16000".into())));
    assert!(pairs.contains(&("interim_results".into(), "true".into())));
    assert!(pairs.contains(&("endpointing".into(), "500".into())));
    assert_eq!(
        pairs
            .iter()
            .filter(|(name, _)| name == "keyterm")
            .map(|(_, value)| value.as_ref())
            .collect::<Vec<_>>(),
        vec!["Java", "Spring Boot"]
    );
    assert!(!url.as_str().contains("secret"));
}

#[test]
fn an_address_that_is_none_is_refused() {
    let mut config = config();
    config.ws_url = "nowhere".to_owned();
    assert_eq!(build_deepgram_url(&config), Err(UrlFault::NotAUrl));
    assert_eq!(authorization_value(&config), "Token secret");
}

#[test]
fn reconnect_delay_is_exponential_and_capped() {
    assert_eq!(reconnect_delay(1), 1);
    assert_eq!(reconnect_delay(2), 2);
    assert_eq!(reconnect_delay(3), 4);
    assert_eq!(reconnect_delay(6), 30);
    assert_eq!(reconnect_delay(20), 30);
}

#[test]
fn parses_final_transcript() {
    let message = r#"{
            "type": "Results",
            "is_final": true,
            "speech_final": false,
            "channel": {
                "alternatives": [{"transcript": "  Привет, мир.  "}]
            }
        }"#;

    let event = parse_server_message(message, read_results)
        .expect("message must parse")
        .expect("event must be produced");

    assert_eq!(
        event,
        DeepgramEvent::Transcript {
            text: "Привет, мир.".to_owned(),
            is_final: true,
            speech_final: false,
            audio_start_ms: None,
            audio_duration_ms: None,
            last_word_end_ms: None,
        }
    );
}

#[test]
fn parses_interim_transcript() {
    let message = r#"{
            "type": "Results",
            "is_final": false,
            "speech_final": false,
            "channel": {"alternatives": [{"transcript": "hash map"}]}
        }"#;

    let event = parse_server_message(message, read_results)
        .expect("message must parse")
        .expect("event must be produced");

    assert!(matches!(
        event,
        DeepgramEvent::Transcript {
            is_final: false,
            ..
        }
    ));
}

#[test]
fn parses_transcript_audio_position() {
    let event = parse_server_message(
        r#"{
                "type": "Results",
                "start": 1.25,
                "duration": 0.75,
                "channel": {"alternatives": [{"transcript": "test"}]}
            }"#,
        read_results,
    )
    .expect("message must parse")
    .expect("event must be produced");

    assert!(matches!(
        event,
        DeepgramEvent::Transcript {
            audio_start_ms: Some(1_250),
            audio_duration_ms: Some(750),
            ..
        }
    ));
}

#[test]
fn parses_control_events() {
    assert_eq!(
        parse_server_message(r#"{"type":"SpeechStarted","timestamp":0.5}"#, read_results)
            .expect("message must parse"),
        Some(DeepgramEvent::SpeechStarted {
            audio_timestamp_ms: Some(500),
        })
    );
    assert_eq!(
        parse_server_message(r#"{"type":"UtteranceEnd","last_word_end":2.5}"#, read_results)
            .expect("message must parse"),
        Some(DeepgramEvent::UtteranceEnd {
            last_word_end_ms: Some(2_500),
        })
    );
    assert_eq!(
        parse_server_message(r#"{"type":"Metadata"}"#, read_results).expect("message must parse"),
        Some(DeepgramEvent::Metadata)
    );
}

#[test]
fn ignores_unknown_event_types() {
    let event = parse_server_message(r#"{"type":"FutureEvent"}"#, read_results).expect("message must parse");

    assert_eq!(event, None);
}

#[test]
fn reports_server_error_without_losing_code() {
    let event =
        parse_server_message(r#"{"type":"Error","code":"NET-0001","description":"timeout"}"#, read_results)
            .expect("message must parse");

    assert_eq!(
        event,
        Some(DeepgramEvent::Error("NET-0001: timeout".to_owned()))
    );
    assert_eq!(
        parse_server_message(r#"{"type":"Error"}"#, read_results).expect("message must parse"),
        Some(DeepgramEvent::Error("unspecified Deepgram error".to_owned()))
    );
}

#[test]
fn messages_without_a_type_are_refused() {
    assert!(matches!(
        parse_server_message("{}", read_results),
        Err(ProtocolError::MissingType)
    ));
    let error = parse_server_message("{", read_results).expect_err("half a document must be refused");
    assert!(matches!(error, ProtocolError::InvalidJson(_)));
    assert!(error.message().starts_with("invalid Deepgram JSON: "));
}

#[test]
fn a_message_of_another_form_is_refused_in_the_words_of_its_reader() {
    assert_eq!(
        parse_server_message(r#"{"type":"Results"}"#, read_results),
        Err(ProtocolError::InvalidJson(
            "missing field `channel`".to_owned()
        ))
    );
    assert!(matches!(
        read_step(
            ServerFrame::Text(r#"{"type":"Results"}"#.to_owned()),
            read_results
        ),
        ReadStep::Stop(ReadOutcome::ConnectionClosed(reason))
            if reason == "protocol error: invalid Deepgram JSON: missing field `channel`"
    ));
}

#[test]
fn only_messages_with_words_are_read_as_such() {
    let never = |_: &str| -> Result<ResultsMessage, String> { panic!("must not be read") };
    assert_eq!(
        parse_server_message(r#"{"type":"Metadata"}"#, never),
        Ok(Some(DeepgramEvent::Metadata))
    );
}

#[test]
fn the_first_wording_counts() {
    let wording = |text: &str| Alternative {
        transcript: text.to_owned(),
    };
    let results = ResultsMessage {
        is_final: true,
        speech_final: true,
        start: None,
        duration: Some(Double {
            bits: 0.5_f64.to_bits(),
        }),
        channel: Channel {
            alternatives: vec![wording(" first "), wording("second")],
        },
    };
    assert_eq!(
        interpret_results(&results, &JsonNode::Number(None)),
        DeepgramEvent::Transcript {
            text: "first".to_owned(),
            is_final: true,
            speech_final: true,
            audio_start_ms: None,
            audio_duration_ms: Some(500),
            last_word_end_ms: None,
        }
    );
}

#[test]
fn preserves_queued_audio_across_reconnect() {
    let frame = |sequence: u64| AudioFrame {
        sequence,
        pcm: vec![1, 2, 3, 4],
    };
    let mut sender = AudioSender::new(None);
    assert!(sender.frame().is_none());
    assert!(matches!(
        sender.meet(SenderInput::Frame(Some(frame(6)))),
        SenderAction::SendFrame
    ));
    let report = sender.frame_sent(None);
    assert!(report.started);
    assert!(report.stop.is_none());
    sender.meet(SenderInput::Frame(Some(frame(7))));
    let report = sender.frame_sent(Some(SendOutcome::ConnectionError("reset".to_owned())));
    assert!(!report.started);
    let stop = report.stop.expect("a failed connection must end the sender");
    let kept = sender.into_retry().expect("the frame must be kept");
    assert_eq!(kept.sequence, 7);
    assert_eq!(kept.pcm, vec![1, 2, 3, 4]);

    let mut session = SttSession::new();
    let outcome = connection_outcome(&stop, ReadOutcome::Cancelled);
    match session.connection_ended(outcome, 0, false, 3) {
        SessionStep::Reconnect { events, delay_secs } => {
            assert_eq!(delay_secs, 1);
            assert_eq!(
                events.last(),
                Some(&DeepgramEvent::Status(SttStatus::Reconnecting {
                    retry_count: 1,
                    delay_secs: 1,
                    queue_len: 3,
                }))
            );
        }
        _ => panic!("a lost connection must be made again"),
    }
    let mut sender = AudioSender::new(Some(kept));
    assert_eq!(sender.frame().map(|frame| frame.sequence), Some(7));
    assert!(sender.frame_sent(None).started);
    assert!(sender.frame().is_none());
    assert!(sender.into_retry().is_none());
}

#[test]
fn a_stable_connection_resets_the_attempts() {
    let mut session = SttSession::new();
    session.connect_failed("refused", 0);
    session.connect_failed("refused", 0);
    assert_eq!(
        session.connecting(1),
        DeepgramEvent::Status(SttStatus::Connecting {
            retry_count: 2,
            queue_len: 1,
        })
    );
    match session.connection_ended(
        ConnectionOutcome::Disconnected("gone".to_owned()),
        3_600,
        false,
        0,
    ) {
        SessionStep::Reconnect { events, delay_secs } => {
            assert_eq!(delay_secs, 1);
            assert_eq!(
                events[0],
                DeepgramEvent::Error("Deepgram disconnected: gone".to_owned())
            );
        }
        _ => panic!("a lost connection must be made again"),
    }
}

#[test]
fn a_session_ends_when_it_is_told_to() {
    let mut session = SttSession::new();
    assert!(matches!(
        session.connection_ended(ConnectionOutcome::Disconnected("x".to_owned()), 0, true, 0),
        SessionStep::Finish
    ));
    assert!(matches!(
        session.connection_ended(ConnectionOutcome::Shutdown, 0, false, 0),
        SessionStep::Finish
    ));
    assert!(matches!(
        session.connection_ended(ConnectionOutcome::AudioChannelClosed, 0, false, 0),
        SessionStep::Fail(SttError::AudioChannelClosed)
    ));
    assert!(matches!(
        session.connection_ended(ConnectionOutcome::EventChannelClosed, 0, false, 0),
        SessionStep::Fail(SttError::EventChannelClosed)
    ));
    assert!(matches!(
        settle_connection(
            true,
            Some("helper".to_owned()),
            &SendOutcome::Cancelled,
            ReadOutcome::Cancelled
        ),
        ConnectionOutcome::Shutdown
    ));
}

#[test]
fn the_sender_keeps_the_session_alive_and_closes_it() {
    assert!(matches!(
        AudioSender::new(None).meet(SenderInput::Command(Some(WriterCommand::KeepAlive))),
        SenderAction::SendText { text, closing: false } if text == r#"{"type":"KeepAlive"}"#
    ));
    assert!(matches!(
        AudioSender::new(None).meet(SenderInput::Command(Some(WriterCommand::CloseStream))),
        SenderAction::SendText { text, closing: true } if text == r#"{"type":"CloseStream"}"#
    ));
    assert!(matches!(
        AudioSender::new(None).meet(SenderInput::Cancelled),
        SenderAction::Stop(SendOutcome::Cancelled)
    ));
    assert!(matches!(
        AudioSender::new(None).meet(SenderInput::Frame(None)),
        SenderAction::Stop(SendOutcome::AudioChannelClosed)
    ));
    assert!(text_sent(false, None).is_none());
    assert!(matches!(
        text_sent(true, None),
        Some(SendOutcome::Shutdown)
    ));
}

#[test]
fn the_reader_passes_events_and_sees_the_end() {
    assert!(matches!(
        read_step(ServerFrame::Text(r#"{"type":"Metadata"}"#.to_owned()), read_results),
        ReadStep::Pass(DeepgramEvent::Metadata)
    ));
    assert!(matches!(
        read_step(ServerFrame::Text(r#"{"type":"FutureEvent"}"#.to_owned()), read_results),
        ReadStep::Skip
    ));
    assert!(matches!(read_step(ServerFrame::Other, read_results), ReadStep::Skip));
    assert!(matches!(
        read_step(ServerFrame::Ended, read_results),
        ReadStep::Stop(ReadOutcome::ConnectionClosed(_))
    ));
    assert!(matches!(
        read_step(ServerFrame::Failed("reset".to_owned()), read_results),
        ReadStep::Stop(ReadOutcome::ConnectionClosed(reason)) if reason.contains("reset")
    ));
}

#[test]
fn session_errors_say_what_failed() {
    assert_eq!(
        SttError::Task("panicked".to_owned()).message(),
        "Deepgram task failed: panicked"
    );
    assert_eq!(
        SttError::AuthorizationHeader("bad byte".to_owned()).message(),
        "invalid Deepgram authorization header: bad byte"
    );
    assert_eq!(
        SttError::CryptoProvider.message(),
        "failed to install the rustls crypto provider"
    );
    assert!(task_failure("reader", Some("panicked".to_owned())).contains("panicked"));
}
