//! The configuration of the assistant.

use mague_rc::config::settings::find_value;
use mague_rc::config::{Config, ConfigError, EmbeddingConfig, Readings, SecretString};
use mague_rc::numbers::Single;

fn valid_values() -> Vec<(String, String)> {
    vec![
        ("DEEPGRAM_API_KEY".to_owned(), "deepgram-secret".to_owned()),
        ("OPENROUTER_API_KEY".to_owned(), "openrouter-secret".to_owned()),
        ("GROQ_API_KEY".to_owned(), "groq-secret".to_owned()),
        ("FFMPEG_BIN".to_owned(), "/usr/bin/ffmpeg".to_owned()),
    ]
}

fn without(name: &str) -> Vec<(String, String)> {
    valid_values()
        .into_iter()
        .filter(|(given, _)| given != name)
        .collect()
}

fn with(name: &str, value: &str) -> Vec<(String, String)> {
    let mut values = without(name);
    values.push((name.to_owned(), value.to_owned()));
    values
}

fn no_readings() -> Readings {
    Readings {
        text_temperature: None,
        coding_temperature: None,
        rag_min_score: None,
        ocr_max_image_mb: None,
    }
}

fn single(value: f32) -> Single {
    Single { bits: value.to_bits() }
}

fn load(values: &Vec<(String, String)>) -> Result<Config, ConfigError> {
    Config::from_values(values, &no_readings(), None)
}

fn loaded(values: &Vec<(String, String)>) -> Config {
    match load(values) {
        Ok(config) => config,
        Err(error) => panic!("{}", error.message()),
    }
}

fn fault(values: &Vec<(String, String)>) -> ConfigError {
    match load(values) {
        Ok(_) => panic!("the configuration must be refused"),
        Err(error) => error,
    }
}

#[test]
fn loads_defaults_and_required_values() {
    let config = loaded(&valid_values());

    assert_eq!(config.deepgram.sample_rate, 16_000);
    assert_eq!(config.deepgram.channels, 1);
    assert_eq!(config.audio.chunk_ms, 100);
    assert_eq!(config.transcript.window_sec, 5);
    assert_eq!(config.llm.max_history_pairs, 4);
    assert_eq!(config.knowledge.top_k, 3);
    assert!(config.screenshot.enabled);
}

#[test]
fn reports_missing_required_api_key() {
    let error = fault(&without("DEEPGRAM_API_KEY"));

    assert!(matches!(
        error,
        ConfigError::Missing {
            name: "DEEPGRAM_API_KEY"
        }
    ));
    assert_eq!(
        error.message(),
        "missing required configuration variable DEEPGRAM_API_KEY"
    );
}

#[test]
fn groq_key_is_required_only_when_ocr_is_enabled() {
    let mut values = without("GROQ_API_KEY");

    assert!(matches!(
        fault(&values),
        ConfigError::Missing {
            name: "GROQ_API_KEY"
        }
    ));

    values.push(("ENABLE_OCR".to_owned(), "false".to_owned()));
    assert!(!loaded(&values).screenshot.enabled);
}

#[test]
fn rejects_negative_queue_limit_during_parsing() {
    assert!(matches!(
        fault(&with("AUDIO_QUEUE_MAX", "-1")),
        ConfigError::Invalid {
            name: "AUDIO_QUEUE_MAX",
            ..
        }
    ));
}

#[test]
fn rejects_too_short_transcript_window() {
    assert!(matches!(
        fault(&with("TRANSCRIPT_WINDOW_SEC", "0")),
        ConfigError::Invalid {
            name: "TRANSCRIPT_WINDOW_SEC",
            ..
        }
    ));
}

#[test]
fn rejects_invalid_audio_shape() {
    assert!(matches!(
        fault(&with("DEEPGRAM_CHANNELS", "0")),
        ConfigError::Invalid {
            name: "DEEPGRAM_CHANNELS",
            ..
        }
    ));
}

#[test]
fn rejects_missing_ffmpeg_executable() {
    let values = with("FFMPEG_BIN", "/definitely/missing/ffmpeg");
    let verdict = Config::from_values(
        &values,
        &no_readings(),
        Some("executable was not found".to_owned()),
    );

    match verdict {
        Ok(_) => panic!("a missing executable must be refused"),
        Err(error) => assert!(matches!(
            error,
            ConfigError::Invalid {
                name: "FFMPEG_BIN",
                ..
            }
        )),
    }
}

#[test]
fn rejects_ffmpeg_probe_failure() {
    let mut config = loaded(&valid_values());
    config.audio.ffmpeg_bin = "/bin/false".to_owned();

    let error = config
        .validate(Some("version probe failed".to_owned()))
        .expect_err("failed version probe must be rejected");

    assert!(matches!(
        error,
        ConfigError::Invalid {
            name: "FFMPEG_BIN",
            ..
        }
    ));
}

#[test]
fn secrets_are_redacted_in_debug_output() {
    let config = loaded(&valid_values());
    let debug = format!(
        "{} {} {}",
        config.deepgram.api_key.redacted(),
        config.llm.api_key.redacted(),
        config.vision.api_key.redacted()
    );

    assert!(!debug.contains("deepgram-secret"));
    assert!(!debug.contains("openrouter-secret"));
    assert!(!debug.contains("groq-secret"));
    assert!(debug.contains("[REDACTED]"));
}

#[test]
fn parses_supported_boolean_forms() {
    let mut values = with("ENABLE_OCR", "off");
    values.push(("RAG_DEBUG".to_owned(), "yes".to_owned()));

    let config = loaded(&values);

    assert!(!config.screenshot.enabled);
    assert!(config.knowledge.debug);
}

#[test]
fn refuses_a_word_that_is_neither_yes_nor_no() {
    assert!(matches!(
        fault(&with("ENABLE_OCR", "maybe")),
        ConfigError::Invalid {
            name: "ENABLE_OCR",
            ..
        }
    ));
}

#[test]
fn fractional_settings_are_taken_as_read() {
    let mut readings = no_readings();
    readings.text_temperature = Some(Ok(single(0.5)));
    let config = match Config::from_values(&valid_values(), &readings, None) {
        Ok(config) => config,
        Err(error) => panic!("{}", error.message()),
    };
    assert_eq!(config.llm.temperature, single(0.5));

    readings.text_temperature = Some(Err("invalid float literal".to_owned()));
    assert!(Config::from_values(&valid_values(), &readings, None).is_err());

    readings.text_temperature = Some(Ok(single(7.0)));
    assert!(Config::from_values(&valid_values(), &readings, None).is_err());
}

#[test]
fn addresses_must_be_secure_or_local() {
    assert!(matches!(
        fault(&with("DEEPGRAM_WS_URL", "not a url")),
        ConfigError::Invalid {
            name: "DEEPGRAM_WS_URL",
            ..
        }
    ));
    assert!(matches!(
        fault(&with("DEEPGRAM_WS_URL", "https://api.deepgram.com/v1/listen")),
        ConfigError::Invalid {
            name: "DEEPGRAM_WS_URL",
            ..
        }
    ));
}

#[test]
fn addresses_are_kept_in_their_normal_form() {
    let config = loaded(&with("OPENROUTER_BASE_URL", "HTTPS://Example.TEST:443/api/../v1"));
    assert_eq!(config.llm.base_url, "https://example.test/v1");
}

#[test]
fn coding_settings_are_read_as_numbers() {
    assert_eq!(
        loaded(&with("CODING_MAX_TOKENS", "900")).llm.coding_max_tokens,
        900
    );
    assert!(matches!(
        fault(&with("CODING_MAX_TOKENS", "many")),
        ConfigError::Invalid {
            name: "CODING_MAX_TOKENS",
            ..
        }
    ));
}

#[test]
fn secrets_are_handed_out_only_on_purpose() {
    let secret = SecretString::new("openrouter-secret".to_owned());
    assert!(!secret.is_empty());
    assert_eq!(secret.expose_secret(), "openrouter-secret");
    assert_eq!(secret.redacted(), "[REDACTED]");
    assert!(SecretString::new("  ".to_owned()).is_empty());
}

#[test]
fn indexing_needs_only_the_embedding_settings() {
    let config = match EmbeddingConfig::from_values(&vec![(
        "OPENROUTER_API_KEY".to_owned(),
        "openrouter-secret".to_owned(),
    )]) {
        Ok(config) => config,
        Err(error) => panic!("{}", error.message()),
    };
    assert_eq!(config.api_key.expose_secret(), "openrouter-secret");
    assert!(config.dimensions > 0);

    match EmbeddingConfig::from_values(&Vec::new()) {
        Ok(_) => panic!("a key is required"),
        Err(error) => assert!(matches!(
            error,
            ConfigError::Missing {
                name: "OPENROUTER_API_KEY"
            }
        )),
    }
}

#[test]
fn errors_say_what_is_wrong() {
    assert_eq!(
        ConfigError::Dotenv("denied".to_owned()).message(),
        "could not read .env: denied"
    );
    assert_eq!(
        ConfigError::Invalid {
            name: "FFMPEG_BIN",
            reason: "must not be empty".to_owned(),
        }
        .message(),
        "invalid value for FFMPEG_BIN: must not be empty"
    );
}

#[test]
fn the_last_value_of_a_name_counts() {
    let mut values = with("DEEPGRAM_MODEL", "first");
    values.push(("DEEPGRAM_MODEL".to_owned(), "last".to_owned()));
    assert_eq!(loaded(&values).deepgram.model, "last");
    assert_eq!(find_value(&values, "DEEPGRAM_MODEL"), Some("last".to_owned()));
    assert_eq!(find_value(&values, "NOWHERE"), None);
}
