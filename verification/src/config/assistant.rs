//! The whole configuration: what it holds, how it is read from named values,
//! and when it can be used.
use vstd::prelude::*;

use crate::config::settings::{
    invalid, invalid_fault, list_entries, number_fault, number_or, or_fault, read_list, read_number,
    read_required, read_string, read_switch, read_url, reading_fault, reading_or, required_fault,
    switch_fault, switch_or, switches_know_eight_words, take_reading, url_fault, url_or, value_of,
    value_or, ConfigError, ConfigErrorModel, Fault, Reading, Values,
};
use crate::numbers::Single;
use crate::text::{
    ascii_lowered, copy_texts, decimal, decimal_text, is_blank, number_value, same_text, trim,
    views, NumberFault,
};
use crate::web::{before, pair_views, url_scheme};

verus! {

/// A text that is not shown.
#[derive(PartialEq, Eq)]
pub struct SecretString(String);

impl View for SecretString {
    type V = Seq<char>;

    closed spec fn view(&self) -> Seq<char> {
        self.0@
    }
}

impl Clone for SecretString {
    fn clone(&self) -> (r: Self)
        ensures
            r@ == self@,
    {
        SecretString(self.0.clone())
    }
}

impl SecretString {
    /// Hides a text.
    pub fn new(value: String) -> (r: Self)
        ensures
            r@ == value@,
    {
        SecretString(value)
    }

    /// Whether there is nothing but white space to hide.
    pub fn is_empty(&self) -> (r: bool)
        ensures
            r == (trim(self@).len() == 0),
    {
        is_blank(self.0.as_str())
    }

    /// The hidden text, for the service that it is meant for.
    pub fn expose_secret(&self) -> (r: &str)
        ensures
            r@ == self@,
    {
        self.0.as_str()
    }

    /// What is shown in place of the text.
    pub fn redacted(&self) -> (r: &'static str)
        ensures
            r@ == "[REDACTED]"@,
    {
        "[REDACTED]"
    }
}

/// The fractional settings as they were read.
pub struct Readings {
    pub text_temperature: Reading,
    pub coding_temperature: Reading,
    pub rag_min_score: Reading,
    pub ocr_max_image_mb: Reading,
}

/// How speech is recognised.
pub struct DeepgramConfig {
    pub api_key: SecretString,
    pub ws_url: String,
    pub model: String,
    pub language: String,
    pub sample_rate: u32,
    pub channels: u16,
    pub interim_results: bool,
    pub punctuate: bool,
    pub smart_format: bool,
    pub vad_events: bool,
    pub endpointing_ms: u64,
    pub utterance_end_ms: u64,
    pub keyterms: Vec<String>,
}

/// The value of a [`DeepgramConfig`].
#[verifier::ext_equal]
pub struct DeepgramConfigModel {
    pub api_key: Seq<char>,
    pub ws_url: Seq<char>,
    pub model: Seq<char>,
    pub language: Seq<char>,
    pub sample_rate: u32,
    pub channels: u16,
    pub interim_results: bool,
    pub punctuate: bool,
    pub smart_format: bool,
    pub vad_events: bool,
    pub endpointing_ms: u64,
    pub utterance_end_ms: u64,
    pub keyterms: Seq<Seq<char>>,
}

impl View for DeepgramConfig {
    type V = DeepgramConfigModel;

    open spec fn view(&self) -> DeepgramConfigModel {
        DeepgramConfigModel {
            api_key: self.api_key@,
            ws_url: self.ws_url@,
            model: self.model@,
            language: self.language@,
            sample_rate: self.sample_rate,
            channels: self.channels,
            interim_results: self.interim_results,
            punctuate: self.punctuate,
            smart_format: self.smart_format,
            vad_events: self.vad_events,
            endpointing_ms: self.endpointing_ms,
            utterance_end_ms: self.utterance_end_ms,
            keyterms: views(self.keyterms@),
        }
    }
}

impl Clone for DeepgramConfig {
    fn clone(&self) -> (r: Self)
        ensures
            r@ == self@,
    {
        DeepgramConfig {
            api_key: self.api_key.clone(),
            ws_url: self.ws_url.clone(),
            model: self.model.clone(),
            language: self.language.clone(),
            sample_rate: self.sample_rate,
            channels: self.channels,
            interim_results: self.interim_results,
            punctuate: self.punctuate,
            smart_format: self.smart_format,
            vad_events: self.vad_events,
            endpointing_ms: self.endpointing_ms,
            utterance_end_ms: self.utterance_end_ms,
            keyterms: copy_texts(&self.keyterms),
        }
    }
}

/// What the values say of it.
pub open spec fn deepgram_settings(v: Seq<(Seq<char>, Seq<char>)>) -> DeepgramConfigModel {
    DeepgramConfigModel {
        api_key: value_of(v, "DEEPGRAM_API_KEY"@)->0,
        ws_url: url_or(v, "DEEPGRAM_WS_URL"@, "wss://api.deepgram.com/v1/listen"@),
        model: value_or(v, "DEEPGRAM_MODEL"@, "nova-3"@),
        language: value_or(v, "DEEPGRAM_LANGUAGE"@, "ru"@),
        sample_rate: number_or(v, "DEEPGRAM_SAMPLE_RATE"@, 16000, u32::MAX as nat) as u32,
        channels: number_or(v, "DEEPGRAM_CHANNELS"@, 1, u16::MAX as nat) as u16,
        interim_results: switch_or(v, "DEEPGRAM_INTERIM_RESULTS"@, true),
        punctuate: switch_or(v, "DEEPGRAM_PUNCTUATE"@, true),
        smart_format: switch_or(v, "DEEPGRAM_SMART_FORMAT"@, true),
        vad_events: switch_or(v, "DEEPGRAM_VAD_EVENTS"@, true),
        endpointing_ms: number_or(v, "DEEPGRAM_ENDPOINTING_MS"@, 500, u64::MAX as nat) as u64,
        utterance_end_ms: number_or(v, "DEEPGRAM_UTTERANCE_END_MS"@, 1200, u64::MAX as nat) as u64,
        keyterms: list_entries(value_or(v, "DEEPGRAM_KEYTERMS"@, "Java,Spring Boot,PostgreSQL,Kafka,Kafka consumer,offset,Redis,Docker,Kubernetes,HashMap,ConcurrentHashMap,hashCode,equals,optimistic locking,pessimistic locking,идемпотентность"@)),
    }
}

/// The first fault among the values for it.
pub open spec fn deepgram_fault(v: Seq<(Seq<char>, Seq<char>)>) -> Fault {
    or_fault(
        required_fault(v, "DEEPGRAM_API_KEY"@),
        or_fault(
            url_fault(v, "DEEPGRAM_WS_URL"@, "wss://api.deepgram.com/v1/listen"@),
            or_fault(
                number_fault(v, "DEEPGRAM_SAMPLE_RATE"@, 16000, u32::MAX as nat),
                or_fault(
                    number_fault(v, "DEEPGRAM_CHANNELS"@, 1, u16::MAX as nat),
                    or_fault(
                        switch_fault(v, "DEEPGRAM_INTERIM_RESULTS"@),
                        or_fault(
                            switch_fault(v, "DEEPGRAM_PUNCTUATE"@),
                            or_fault(
                                switch_fault(v, "DEEPGRAM_SMART_FORMAT"@),
                                or_fault(
                                    switch_fault(v, "DEEPGRAM_VAD_EVENTS"@),
                                    or_fault(
                                        number_fault(v, "DEEPGRAM_ENDPOINTING_MS"@, 500, u64::MAX as nat),
                                        number_fault(v, "DEEPGRAM_UTTERANCE_END_MS"@, 1200, u64::MAX as nat),
                                    ),
                                ),
                            ),
                        ),
                    ),
                ),
            ),
        ),
    )
}

/// Reads it from the values.
fn read_deepgram(values: &Values) -> (r: Result<DeepgramConfig, ConfigError>)
    ensures
        match r {
            Ok(config) => deepgram_fault(pair_views(values@)) is None && config@ == deepgram_settings(pair_views(values@)),
            Err(error) => deepgram_fault(pair_views(values@)) == Some(error@),
        },
{
    let api_key = match read_required(values, "DEEPGRAM_API_KEY") {
        Ok(value) => SecretString::new(value),
        Err(error) => {
            return Err(error);
        },
    };
    let ws_url = match read_url(values, "DEEPGRAM_WS_URL", "wss://api.deepgram.com/v1/listen") {
        Ok(value) => value,
        Err(error) => {
            return Err(error);
        },
    };
    let model = read_string(values, "DEEPGRAM_MODEL", "nova-3");
    let language = read_string(values, "DEEPGRAM_LANGUAGE", "ru");
    let sample_rate: u32 = match read_number(values, "DEEPGRAM_SAMPLE_RATE", 16000, u32::MAX as u64) {
        Ok(value) => value as u32,
        Err(error) => {
            return Err(error);
        },
    };
    let channels: u16 = match read_number(values, "DEEPGRAM_CHANNELS", 1, u16::MAX as u64) {
        Ok(value) => value as u16,
        Err(error) => {
            return Err(error);
        },
    };
    let interim_results = match read_switch(values, "DEEPGRAM_INTERIM_RESULTS", true) {
        Ok(value) => value,
        Err(error) => {
            return Err(error);
        },
    };
    let punctuate = match read_switch(values, "DEEPGRAM_PUNCTUATE", true) {
        Ok(value) => value,
        Err(error) => {
            return Err(error);
        },
    };
    let smart_format = match read_switch(values, "DEEPGRAM_SMART_FORMAT", true) {
        Ok(value) => value,
        Err(error) => {
            return Err(error);
        },
    };
    let vad_events = match read_switch(values, "DEEPGRAM_VAD_EVENTS", true) {
        Ok(value) => value,
        Err(error) => {
            return Err(error);
        },
    };
    let endpointing_ms: u64 = match read_number(values, "DEEPGRAM_ENDPOINTING_MS", 500, u64::MAX) {
        Ok(value) => value,
        Err(error) => {
            return Err(error);
        },
    };
    let utterance_end_ms: u64 = match read_number(values, "DEEPGRAM_UTTERANCE_END_MS", 1200, u64::MAX) {
        Ok(value) => value,
        Err(error) => {
            return Err(error);
        },
    };
    let keyterms = read_list(values, "DEEPGRAM_KEYTERMS", "Java,Spring Boot,PostgreSQL,Kafka,Kafka consumer,offset,Redis,Docker,Kubernetes,HashMap,ConcurrentHashMap,hashCode,equals,optimistic locking,pessimistic locking,идемпотентность");
    Ok(DeepgramConfig { api_key, ws_url, model, language, sample_rate, channels, interim_results, punctuate, smart_format, vad_events, endpointing_ms, utterance_end_ms, keyterms })
}

/// How the language model is asked.
pub struct LlmConfig {
    pub api_key: SecretString,
    pub base_url: String,
    pub model: String,
    pub queue_max: usize,
    pub max_history_pairs: usize,
    pub separate_histories: bool,
    pub temperature: Single,
    pub max_tokens: u32,
    pub timeout_sec: u64,
    pub coding_temperature: Single,
    pub coding_max_tokens: u32,
    pub coding_timeout_sec: u64,
    pub current_project: String,
}

/// The value of a [`LlmConfig`].
#[verifier::ext_equal]
pub struct LlmConfigModel {
    pub api_key: Seq<char>,
    pub base_url: Seq<char>,
    pub model: Seq<char>,
    pub queue_max: usize,
    pub max_history_pairs: usize,
    pub separate_histories: bool,
    pub temperature: Single,
    pub max_tokens: u32,
    pub timeout_sec: u64,
    pub coding_temperature: Single,
    pub coding_max_tokens: u32,
    pub coding_timeout_sec: u64,
    pub current_project: Seq<char>,
}

impl View for LlmConfig {
    type V = LlmConfigModel;

    open spec fn view(&self) -> LlmConfigModel {
        LlmConfigModel {
            api_key: self.api_key@,
            base_url: self.base_url@,
            model: self.model@,
            queue_max: self.queue_max,
            max_history_pairs: self.max_history_pairs,
            separate_histories: self.separate_histories,
            temperature: self.temperature,
            max_tokens: self.max_tokens,
            timeout_sec: self.timeout_sec,
            coding_temperature: self.coding_temperature,
            coding_max_tokens: self.coding_max_tokens,
            coding_timeout_sec: self.coding_timeout_sec,
            current_project: self.current_project@,
        }
    }
}

impl Clone for LlmConfig {
    fn clone(&self) -> (r: Self)
        ensures
            r@ == self@,
    {
        LlmConfig {
            api_key: self.api_key.clone(),
            base_url: self.base_url.clone(),
            model: self.model.clone(),
            queue_max: self.queue_max,
            max_history_pairs: self.max_history_pairs,
            separate_histories: self.separate_histories,
            temperature: self.temperature,
            max_tokens: self.max_tokens,
            timeout_sec: self.timeout_sec,
            coding_temperature: self.coding_temperature,
            coding_max_tokens: self.coding_max_tokens,
            coding_timeout_sec: self.coding_timeout_sec,
            current_project: self.current_project.clone(),
        }
    }
}

/// What the values say of it.
pub open spec fn llm_settings(v: Seq<(Seq<char>, Seq<char>)>, readings: Readings) -> LlmConfigModel {
    LlmConfigModel {
        api_key: value_of(v, "OPENROUTER_API_KEY"@)->0,
        base_url: url_or(v, "OPENROUTER_BASE_URL"@, "https://openrouter.ai/api/v1"@),
        model: value_or(v, "MODEL_TEXT"@, "openai/gpt-4o-mini"@),
        queue_max: number_or(v, "LLM_QUEUE_MAX"@, 0, usize::MAX as nat) as usize,
        max_history_pairs: number_or(v, "MAX_HISTORY_PAIRS"@, 4, usize::MAX as nat) as usize,
        separate_histories: switch_or(v, "SEPARATE_HISTORIES"@, true),
        temperature: reading_or(readings.text_temperature, Single { bits: 0x3e4c_cccd }),
        max_tokens: number_or(v, "TEXT_MAX_TOKENS"@, 450, u32::MAX as nat) as u32,
        timeout_sec: number_or(v, "TEXT_TIMEOUT_SEC"@, 30, u64::MAX as nat) as u64,
        coding_temperature: reading_or(readings.coding_temperature, Single { bits: 0x3dcc_cccd }),
        coding_max_tokens: number_or(v, "CODING_MAX_TOKENS"@, 1800, u32::MAX as nat) as u32,
        coding_timeout_sec: number_or(v, "CODING_TIMEOUT_SEC"@, 60, u64::MAX as nat) as u64,
        current_project: value_or(v, "CURRENT_PROJECT"@, "АО Консалт Плюс"@),
    }
}

/// The first fault among the values for it.
pub open spec fn llm_fault(v: Seq<(Seq<char>, Seq<char>)>, readings: Readings) -> Fault {
    or_fault(
        required_fault(v, "OPENROUTER_API_KEY"@),
        or_fault(
            url_fault(v, "OPENROUTER_BASE_URL"@, "https://openrouter.ai/api/v1"@),
            or_fault(
                number_fault(v, "LLM_QUEUE_MAX"@, 0, usize::MAX as nat),
                or_fault(
                    number_fault(v, "MAX_HISTORY_PAIRS"@, 4, usize::MAX as nat),
                    or_fault(
                        switch_fault(v, "SEPARATE_HISTORIES"@),
                        or_fault(
                            reading_fault(readings.text_temperature, "TEXT_TEMPERATURE"@),
                            or_fault(
                                number_fault(v, "TEXT_MAX_TOKENS"@, 450, u32::MAX as nat),
                                or_fault(
                                    number_fault(v, "TEXT_TIMEOUT_SEC"@, 30, u64::MAX as nat),
                                    or_fault(
                                        reading_fault(readings.coding_temperature, "CODING_TEMPERATURE"@),
                                        or_fault(
                                            number_fault(v, "CODING_MAX_TOKENS"@, 1800, u32::MAX as nat),
                                            number_fault(v, "CODING_TIMEOUT_SEC"@, 60, u64::MAX as nat),
                                        ),
                                    ),
                                ),
                            ),
                        ),
                    ),
                ),
            ),
        ),
    )
}

/// Reads it from the values.
fn read_llm(values: &Values, readings: &Readings) -> (r: Result<LlmConfig, ConfigError>)
    ensures
        match r {
            Ok(config) => llm_fault(pair_views(values@), *readings) is None && config@ == llm_settings(pair_views(values@), *readings),
            Err(error) => llm_fault(pair_views(values@), *readings) == Some(error@),
        },
{
    let api_key = match read_required(values, "OPENROUTER_API_KEY") {
        Ok(value) => SecretString::new(value),
        Err(error) => {
            return Err(error);
        },
    };
    let base_url = match read_url(values, "OPENROUTER_BASE_URL", "https://openrouter.ai/api/v1") {
        Ok(value) => value,
        Err(error) => {
            return Err(error);
        },
    };
    let model = read_string(values, "MODEL_TEXT", "openai/gpt-4o-mini");
    let queue_max: usize = match read_number(values, "LLM_QUEUE_MAX", 0, usize::MAX as u64) {
        Ok(value) => value as usize,
        Err(error) => {
            return Err(error);
        },
    };
    let max_history_pairs: usize = match read_number(values, "MAX_HISTORY_PAIRS", 4, usize::MAX as u64) {
        Ok(value) => value as usize,
        Err(error) => {
            return Err(error);
        },
    };
    let separate_histories = match read_switch(values, "SEPARATE_HISTORIES", true) {
        Ok(value) => value,
        Err(error) => {
            return Err(error);
        },
    };
    let temperature = match take_reading(&readings.text_temperature, "TEXT_TEMPERATURE", Single { bits: 0x3e4c_cccd }) {
        Ok(value) => value,
        Err(error) => {
            return Err(error);
        },
    };
    let max_tokens: u32 = match read_number(values, "TEXT_MAX_TOKENS", 450, u32::MAX as u64) {
        Ok(value) => value as u32,
        Err(error) => {
            return Err(error);
        },
    };
    let timeout_sec: u64 = match read_number(values, "TEXT_TIMEOUT_SEC", 30, u64::MAX) {
        Ok(value) => value,
        Err(error) => {
            return Err(error);
        },
    };
    let coding_temperature = match take_reading(&readings.coding_temperature, "CODING_TEMPERATURE", Single { bits: 0x3dcc_cccd }) {
        Ok(value) => value,
        Err(error) => {
            return Err(error);
        },
    };
    let coding_max_tokens: u32 = match read_number(values, "CODING_MAX_TOKENS", 1800, u32::MAX as u64) {
        Ok(value) => value as u32,
        Err(error) => {
            return Err(error);
        },
    };
    let coding_timeout_sec: u64 = match read_number(values, "CODING_TIMEOUT_SEC", 60, u64::MAX) {
        Ok(value) => value,
        Err(error) => {
            return Err(error);
        },
    };
    let current_project = read_string(values, "CURRENT_PROJECT", "АО Консалт Плюс");
    Ok(LlmConfig { api_key, base_url, model, queue_max, max_history_pairs, separate_histories, temperature, max_tokens, timeout_sec, coding_temperature, coding_max_tokens, coding_timeout_sec, current_project })
}

/// How screenshots are read.
pub struct VisionConfig {
    pub api_key: SecretString,
    pub base_url: String,
    pub model: String,
    pub max_tokens: u32,
    pub timeout_sec: u64,
}

/// The value of a [`VisionConfig`].
#[verifier::ext_equal]
pub struct VisionConfigModel {
    pub api_key: Seq<char>,
    pub base_url: Seq<char>,
    pub model: Seq<char>,
    pub max_tokens: u32,
    pub timeout_sec: u64,
}

impl View for VisionConfig {
    type V = VisionConfigModel;

    open spec fn view(&self) -> VisionConfigModel {
        VisionConfigModel {
            api_key: self.api_key@,
            base_url: self.base_url@,
            model: self.model@,
            max_tokens: self.max_tokens,
            timeout_sec: self.timeout_sec,
        }
    }
}

impl Clone for VisionConfig {
    fn clone(&self) -> (r: Self)
        ensures
            r@ == self@,
    {
        VisionConfig {
            api_key: self.api_key.clone(),
            base_url: self.base_url.clone(),
            model: self.model.clone(),
            max_tokens: self.max_tokens,
            timeout_sec: self.timeout_sec,
        }
    }
}

/// What the values say of it.
pub open spec fn vision_settings(v: Seq<(Seq<char>, Seq<char>)>) -> VisionConfigModel {
    VisionConfigModel {
        api_key: value_or(v, "GROQ_API_KEY"@, ""@),
        base_url: url_or(v, "GROQ_BASE_URL"@, "https://api.groq.com/openai/v1"@),
        model: value_or(v, "MODEL_VISION"@, "qwen/qwen3.6-27b"@),
        max_tokens: number_or(v, "VISION_MAX_TOKENS"@, 2500, u32::MAX as nat) as u32,
        timeout_sec: number_or(v, "VISION_TIMEOUT_SEC"@, 60, u64::MAX as nat) as u64,
    }
}

/// The first fault among the values for it.
pub open spec fn vision_fault(v: Seq<(Seq<char>, Seq<char>)>) -> Fault {
    or_fault(
        url_fault(v, "GROQ_BASE_URL"@, "https://api.groq.com/openai/v1"@),
        or_fault(
            number_fault(v, "VISION_MAX_TOKENS"@, 2500, u32::MAX as nat),
            number_fault(v, "VISION_TIMEOUT_SEC"@, 60, u64::MAX as nat),
        ),
    )
}

/// Reads it from the values.
fn read_vision(values: &Values) -> (r: Result<VisionConfig, ConfigError>)
    ensures
        match r {
            Ok(config) => vision_fault(pair_views(values@)) is None && config@ == vision_settings(pair_views(values@)),
            Err(error) => vision_fault(pair_views(values@)) == Some(error@),
        },
{
    let api_key = SecretString::new(read_string(values, "GROQ_API_KEY", ""));
    let base_url = match read_url(values, "GROQ_BASE_URL", "https://api.groq.com/openai/v1") {
        Ok(value) => value,
        Err(error) => {
            return Err(error);
        },
    };
    let model = read_string(values, "MODEL_VISION", "qwen/qwen3.6-27b");
    let max_tokens: u32 = match read_number(values, "VISION_MAX_TOKENS", 2500, u32::MAX as u64) {
        Ok(value) => value as u32,
        Err(error) => {
            return Err(error);
        },
    };
    let timeout_sec: u64 = match read_number(values, "VISION_TIMEOUT_SEC", 60, u64::MAX) {
        Ok(value) => value,
        Err(error) => {
            return Err(error);
        },
    };
    Ok(VisionConfig { api_key, base_url, model, max_tokens, timeout_sec })
}

/// How sound is captured.
pub struct AudioConfig {
    pub ffmpeg_bin: String,
    pub input_format: String,
    pub source: String,
    pub chunk_ms: u64,
    pub queue_max: usize,
}

/// The value of a [`AudioConfig`].
#[verifier::ext_equal]
pub struct AudioConfigModel {
    pub ffmpeg_bin: Seq<char>,
    pub input_format: Seq<char>,
    pub source: Seq<char>,
    pub chunk_ms: u64,
    pub queue_max: usize,
}

impl View for AudioConfig {
    type V = AudioConfigModel;

    open spec fn view(&self) -> AudioConfigModel {
        AudioConfigModel {
            ffmpeg_bin: self.ffmpeg_bin@,
            input_format: self.input_format@,
            source: self.source@,
            chunk_ms: self.chunk_ms,
            queue_max: self.queue_max,
        }
    }
}

impl Clone for AudioConfig {
    fn clone(&self) -> (r: Self)
        ensures
            r@ == self@,
    {
        AudioConfig {
            ffmpeg_bin: self.ffmpeg_bin.clone(),
            input_format: self.input_format.clone(),
            source: self.source.clone(),
            chunk_ms: self.chunk_ms,
            queue_max: self.queue_max,
        }
    }
}

/// What the values say of it.
pub open spec fn audio_settings(v: Seq<(Seq<char>, Seq<char>)>) -> AudioConfigModel {
    AudioConfigModel {
        ffmpeg_bin: value_or(v, "FFMPEG_BIN"@, "ffmpeg"@),
        input_format: value_or(v, "AUDIO_INPUT_FORMAT"@, "pulse"@),
        source: value_or(v, "AUDIO_SOURCE"@, "@DEFAULT_AUDIO_SINK@.monitor"@),
        chunk_ms: number_or(v, "AUDIO_CHUNK_MS"@, 100, u64::MAX as nat) as u64,
        queue_max: number_or(v, "AUDIO_QUEUE_MAX"@, 0, usize::MAX as nat) as usize,
    }
}

/// The first fault among the values for it.
pub open spec fn audio_fault(v: Seq<(Seq<char>, Seq<char>)>) -> Fault {
    or_fault(
        number_fault(v, "AUDIO_CHUNK_MS"@, 100, u64::MAX as nat),
        number_fault(v, "AUDIO_QUEUE_MAX"@, 0, usize::MAX as nat),
    )
}

/// Reads it from the values.
fn read_audio(values: &Values) -> (r: Result<AudioConfig, ConfigError>)
    ensures
        match r {
            Ok(config) => audio_fault(pair_views(values@)) is None && config@ == audio_settings(pair_views(values@)),
            Err(error) => audio_fault(pair_views(values@)) == Some(error@),
        },
{
    let ffmpeg_bin = read_string(values, "FFMPEG_BIN", "ffmpeg");
    let input_format = read_string(values, "AUDIO_INPUT_FORMAT", "pulse");
    let source = read_string(values, "AUDIO_SOURCE", "@DEFAULT_AUDIO_SINK@.monitor");
    let chunk_ms: u64 = match read_number(values, "AUDIO_CHUNK_MS", 100, u64::MAX) {
        Ok(value) => value,
        Err(error) => {
            return Err(error);
        },
    };
    let queue_max: usize = match read_number(values, "AUDIO_QUEUE_MAX", 0, usize::MAX as u64) {
        Ok(value) => value as usize,
        Err(error) => {
            return Err(error);
        },
    };
    Ok(AudioConfig { ffmpeg_bin, input_format, source, chunk_ms, queue_max })
}

/// Where the speech of the candidate comes from.
pub struct CandidateAudioConfig {
    pub enabled: bool,
    pub source: String,
}

/// The value of a [`CandidateAudioConfig`].
#[verifier::ext_equal]
pub struct CandidateAudioConfigModel {
    pub enabled: bool,
    pub source: Seq<char>,
}

impl View for CandidateAudioConfig {
    type V = CandidateAudioConfigModel;

    open spec fn view(&self) -> CandidateAudioConfigModel {
        CandidateAudioConfigModel {
            enabled: self.enabled,
            source: self.source@,
        }
    }
}

impl Clone for CandidateAudioConfig {
    fn clone(&self) -> (r: Self)
        ensures
            r@ == self@,
    {
        CandidateAudioConfig {
            enabled: self.enabled,
            source: self.source.clone(),
        }
    }
}

/// What the values say of it.
pub open spec fn candidate_audio_settings(v: Seq<(Seq<char>, Seq<char>)>) -> CandidateAudioConfigModel {
    CandidateAudioConfigModel {
        enabled: switch_or(v, "CANDIDATE_MIC_ENABLED"@, true),
        source: value_or(v, "CANDIDATE_MIC_SOURCE"@, "@DEFAULT_AUDIO_SOURCE@"@),
    }
}

/// The first fault among the values for it.
pub open spec fn candidate_audio_fault(v: Seq<(Seq<char>, Seq<char>)>) -> Fault {
    switch_fault(v, "CANDIDATE_MIC_ENABLED"@)
}

/// Reads it from the values.
fn read_candidate_audio(values: &Values) -> (r: Result<CandidateAudioConfig, ConfigError>)
    ensures
        match r {
            Ok(config) => candidate_audio_fault(pair_views(values@)) is None && config@ == candidate_audio_settings(pair_views(values@)),
            Err(error) => candidate_audio_fault(pair_views(values@)) == Some(error@),
        },
{
    let enabled = match read_switch(values, "CANDIDATE_MIC_ENABLED", true) {
        Ok(value) => value,
        Err(error) => {
            return Err(error);
        },
    };
    let source = read_string(values, "CANDIDATE_MIC_SOURCE", "@DEFAULT_AUDIO_SOURCE@");
    Ok(CandidateAudioConfig { enabled, source })
}

/// When speech is submitted.
pub struct TranscriptConfig {
    pub window_sec: u64,
    pub min_utterance_chars: usize,
}

/// The value of a [`TranscriptConfig`].
#[verifier::ext_equal]
pub struct TranscriptConfigModel {
    pub window_sec: u64,
    pub min_utterance_chars: usize,
}

impl View for TranscriptConfig {
    type V = TranscriptConfigModel;

    open spec fn view(&self) -> TranscriptConfigModel {
        TranscriptConfigModel {
            window_sec: self.window_sec,
            min_utterance_chars: self.min_utterance_chars,
        }
    }
}

impl Clone for TranscriptConfig {
    fn clone(&self) -> (r: Self)
        ensures
            r@ == self@,
    {
        TranscriptConfig {
            window_sec: self.window_sec,
            min_utterance_chars: self.min_utterance_chars,
        }
    }
}

/// What the values say of it.
pub open spec fn transcript_settings(v: Seq<(Seq<char>, Seq<char>)>) -> TranscriptConfigModel {
    TranscriptConfigModel {
        window_sec: number_or(v, "TRANSCRIPT_WINDOW_SEC"@, 5, u64::MAX as nat) as u64,
        min_utterance_chars: number_or(v, "MIN_UTTERANCE_CHARS"@, 3, usize::MAX as nat) as usize,
    }
}

/// The first fault among the values for it.
pub open spec fn transcript_fault(v: Seq<(Seq<char>, Seq<char>)>) -> Fault {
    or_fault(
        number_fault(v, "TRANSCRIPT_WINDOW_SEC"@, 5, u64::MAX as nat),
        number_fault(v, "MIN_UTTERANCE_CHARS"@, 3, usize::MAX as nat),
    )
}

/// Reads it from the values.
fn read_transcript(values: &Values) -> (r: Result<TranscriptConfig, ConfigError>)
    ensures
        match r {
            Ok(config) => transcript_fault(pair_views(values@)) is None && config@ == transcript_settings(pair_views(values@)),
            Err(error) => transcript_fault(pair_views(values@)) == Some(error@),
        },
{
    let window_sec: u64 = match read_number(values, "TRANSCRIPT_WINDOW_SEC", 5, u64::MAX) {
        Ok(value) => value,
        Err(error) => {
            return Err(error);
        },
    };
    let min_utterance_chars: usize = match read_number(values, "MIN_UTTERANCE_CHARS", 3, usize::MAX as u64) {
        Ok(value) => value as usize,
        Err(error) => {
            return Err(error);
        },
    };
    Ok(TranscriptConfig { window_sec, min_utterance_chars })
}

/// How texts are turned into vectors.
pub struct EmbeddingConfig {
    pub api_key: SecretString,
    pub base_url: String,
    pub model: String,
    pub dimensions: usize,
    pub query_input_type: String,
    pub document_input_type: String,
    pub timeout_sec: u64,
}

/// The value of a [`EmbeddingConfig`].
#[verifier::ext_equal]
pub struct EmbeddingConfigModel {
    pub api_key: Seq<char>,
    pub base_url: Seq<char>,
    pub model: Seq<char>,
    pub dimensions: usize,
    pub query_input_type: Seq<char>,
    pub document_input_type: Seq<char>,
    pub timeout_sec: u64,
}

impl View for EmbeddingConfig {
    type V = EmbeddingConfigModel;

    open spec fn view(&self) -> EmbeddingConfigModel {
        EmbeddingConfigModel {
            api_key: self.api_key@,
            base_url: self.base_url@,
            model: self.model@,
            dimensions: self.dimensions,
            query_input_type: self.query_input_type@,
            document_input_type: self.document_input_type@,
            timeout_sec: self.timeout_sec,
        }
    }
}

impl Clone for EmbeddingConfig {
    fn clone(&self) -> (r: Self)
        ensures
            r@ == self@,
    {
        EmbeddingConfig {
            api_key: self.api_key.clone(),
            base_url: self.base_url.clone(),
            model: self.model.clone(),
            dimensions: self.dimensions,
            query_input_type: self.query_input_type.clone(),
            document_input_type: self.document_input_type.clone(),
            timeout_sec: self.timeout_sec,
        }
    }
}

/// What the values say of it.
pub open spec fn embedding_settings(v: Seq<(Seq<char>, Seq<char>)>) -> EmbeddingConfigModel {
    EmbeddingConfigModel {
        api_key: value_of(v, "OPENROUTER_API_KEY"@)->0,
        base_url: url_or(v, "OPENROUTER_BASE_URL"@, "https://openrouter.ai/api/v1"@),
        model: value_or(v, "RAG_EMBEDDING_MODEL"@, "perplexity/pplx-embed-v1-4b"@),
        dimensions: number_or(v, "RAG_EMBEDDING_DIMENSIONS"@, 2560, usize::MAX as nat) as usize,
        query_input_type: value_or(v, "RAG_EMBEDDING_QUERY_INPUT_TYPE"@, "search_query"@),
        document_input_type: value_or(v, "RAG_EMBEDDING_DOCUMENT_INPUT_TYPE"@, "search_document"@),
        timeout_sec: number_or(v, "RAG_EMBEDDING_TIMEOUT_SEC"@, 30, u64::MAX as nat) as u64,
    }
}

/// The first fault among the values for it.
pub open spec fn embedding_fault(v: Seq<(Seq<char>, Seq<char>)>) -> Fault {
    or_fault(
        required_fault(v, "OPENROUTER_API_KEY"@),
        or_fault(
            url_fault(v, "OPENROUTER_BASE_URL"@, "https://openrouter.ai/api/v1"@),
            or_fault(
                number_fault(v, "RAG_EMBEDDING_DIMENSIONS"@, 2560, usize::MAX as nat),
                number_fault(v, "RAG_EMBEDDING_TIMEOUT_SEC"@, 30, u64::MAX as nat),
            ),
        ),
    )
}

/// Reads it from the values.
fn read_embedding(values: &Values) -> (r: Result<EmbeddingConfig, ConfigError>)
    ensures
        match r {
            Ok(config) => embedding_fault(pair_views(values@)) is None && config@ == embedding_settings(pair_views(values@)),
            Err(error) => embedding_fault(pair_views(values@)) == Some(error@),
        },
{
    let api_key = match read_required(values, "OPENROUTER_API_KEY") {
        Ok(value) => SecretString::new(value),
        Err(error) => {
            return Err(error);
        },
    };
    let base_url = match read_url(values, "OPENROUTER_BASE_URL", "https://openrouter.ai/api/v1") {
        Ok(value) => value,
        Err(error) => {
            return Err(error);
        },
    };
    let model = read_string(values, "RAG_EMBEDDING_MODEL", "perplexity/pplx-embed-v1-4b");
    let dimensions: usize = match read_number(values, "RAG_EMBEDDING_DIMENSIONS", 2560, usize::MAX as u64) {
        Ok(value) => value as usize,
        Err(error) => {
            return Err(error);
        },
    };
    let query_input_type = read_string(values, "RAG_EMBEDDING_QUERY_INPUT_TYPE", "search_query");
    let document_input_type = read_string(values, "RAG_EMBEDDING_DOCUMENT_INPUT_TYPE", "search_document");
    let timeout_sec: u64 = match read_number(values, "RAG_EMBEDDING_TIMEOUT_SEC", 30, u64::MAX) {
        Ok(value) => value,
        Err(error) => {
            return Err(error);
        },
    };
    Ok(EmbeddingConfig { api_key, base_url, model, dimensions, query_input_type, document_input_type, timeout_sec })
}

/// How knowledge is looked up.
pub struct KnowledgeConfig {
    pub enabled: bool,
    pub embedding: EmbeddingConfig,
    pub top_k: usize,
    pub max_context_chars: usize,
    pub min_score: Single,
    pub refresh_ms: u64,
    pub final_wait_ms: u64,
    pub debug: bool,
}

/// The value of a [`KnowledgeConfig`].
#[verifier::ext_equal]
pub struct KnowledgeConfigModel {
    pub enabled: bool,
    pub embedding: EmbeddingConfigModel,
    pub top_k: usize,
    pub max_context_chars: usize,
    pub min_score: Single,
    pub refresh_ms: u64,
    pub final_wait_ms: u64,
    pub debug: bool,
}

impl View for KnowledgeConfig {
    type V = KnowledgeConfigModel;

    open spec fn view(&self) -> KnowledgeConfigModel {
        KnowledgeConfigModel {
            enabled: self.enabled,
            embedding: self.embedding@,
            top_k: self.top_k,
            max_context_chars: self.max_context_chars,
            min_score: self.min_score,
            refresh_ms: self.refresh_ms,
            final_wait_ms: self.final_wait_ms,
            debug: self.debug,
        }
    }
}

impl Clone for KnowledgeConfig {
    fn clone(&self) -> (r: Self)
        ensures
            r@ == self@,
    {
        KnowledgeConfig {
            enabled: self.enabled,
            embedding: self.embedding.clone(),
            top_k: self.top_k,
            max_context_chars: self.max_context_chars,
            min_score: self.min_score,
            refresh_ms: self.refresh_ms,
            final_wait_ms: self.final_wait_ms,
            debug: self.debug,
        }
    }
}

/// What the values say of it.
pub open spec fn knowledge_settings(v: Seq<(Seq<char>, Seq<char>)>, readings: Readings) -> KnowledgeConfigModel {
    KnowledgeConfigModel {
        enabled: switch_or(v, "RAG_ENABLED"@, true),
        embedding: embedding_settings(v),
        top_k: number_or(v, "RAG_TOP_K"@, 3, usize::MAX as nat) as usize,
        max_context_chars: number_or(v, "RAG_MAX_CONTEXT_CHARS"@, 4200, usize::MAX as nat) as usize,
        min_score: reading_or(readings.rag_min_score, Single { bits: 0x3f40_0000 }),
        refresh_ms: number_or(v, "RAG_REFRESH_MS"@, 1000, u64::MAX as nat) as u64,
        final_wait_ms: number_or(v, "RAG_FINAL_WAIT_MS"@, 80, u64::MAX as nat) as u64,
        debug: switch_or(v, "RAG_DEBUG"@, false),
    }
}

/// The first fault among the values for it.
pub open spec fn knowledge_fault(v: Seq<(Seq<char>, Seq<char>)>, readings: Readings) -> Fault {
    or_fault(
        switch_fault(v, "RAG_ENABLED"@),
        or_fault(
            embedding_fault(v),
            or_fault(
                number_fault(v, "RAG_TOP_K"@, 3, usize::MAX as nat),
                or_fault(
                    number_fault(v, "RAG_MAX_CONTEXT_CHARS"@, 4200, usize::MAX as nat),
                    or_fault(
                        reading_fault(readings.rag_min_score, "RAG_MIN_SCORE"@),
                        or_fault(
                            number_fault(v, "RAG_REFRESH_MS"@, 1000, u64::MAX as nat),
                            or_fault(
                                number_fault(v, "RAG_FINAL_WAIT_MS"@, 80, u64::MAX as nat),
                                switch_fault(v, "RAG_DEBUG"@),
                            ),
                        ),
                    ),
                ),
            ),
        ),
    )
}

/// Reads it from the values.
fn read_knowledge(values: &Values, readings: &Readings) -> (r: Result<KnowledgeConfig, ConfigError>)
    ensures
        match r {
            Ok(config) => knowledge_fault(pair_views(values@), *readings) is None && config@ == knowledge_settings(pair_views(values@), *readings),
            Err(error) => knowledge_fault(pair_views(values@), *readings) == Some(error@),
        },
{
    let enabled = match read_switch(values, "RAG_ENABLED", true) {
        Ok(value) => value,
        Err(error) => {
            return Err(error);
        },
    };
    let embedding = match read_embedding(values) {
        Ok(value) => value,
        Err(error) => {
            return Err(error);
        },
    };
    let top_k: usize = match read_number(values, "RAG_TOP_K", 3, usize::MAX as u64) {
        Ok(value) => value as usize,
        Err(error) => {
            return Err(error);
        },
    };
    let max_context_chars: usize = match read_number(values, "RAG_MAX_CONTEXT_CHARS", 4200, usize::MAX as u64) {
        Ok(value) => value as usize,
        Err(error) => {
            return Err(error);
        },
    };
    let min_score = match take_reading(&readings.rag_min_score, "RAG_MIN_SCORE", Single { bits: 0x3f40_0000 }) {
        Ok(value) => value,
        Err(error) => {
            return Err(error);
        },
    };
    let refresh_ms: u64 = match read_number(values, "RAG_REFRESH_MS", 1000, u64::MAX) {
        Ok(value) => value,
        Err(error) => {
            return Err(error);
        },
    };
    let final_wait_ms: u64 = match read_number(values, "RAG_FINAL_WAIT_MS", 80, u64::MAX) {
        Ok(value) => value,
        Err(error) => {
            return Err(error);
        },
    };
    let debug = match read_switch(values, "RAG_DEBUG", false) {
        Ok(value) => value,
        Err(error) => {
            return Err(error);
        },
    };
    Ok(KnowledgeConfig { enabled, embedding, top_k, max_context_chars, min_score, refresh_ms, final_wait_ms, debug })
}

/// How screenshots are taken.
pub struct ScreenshotConfig {
    pub enabled: bool,
    pub path: String,
    pub pid_file: String,
    pub max_image_mb: Single,
    pub debounce_sec: u64,
}

/// The value of a [`ScreenshotConfig`].
#[verifier::ext_equal]
pub struct ScreenshotConfigModel {
    pub enabled: bool,
    pub path: Seq<char>,
    pub pid_file: Seq<char>,
    pub max_image_mb: Single,
    pub debounce_sec: u64,
}

impl View for ScreenshotConfig {
    type V = ScreenshotConfigModel;

    open spec fn view(&self) -> ScreenshotConfigModel {
        ScreenshotConfigModel {
            enabled: self.enabled,
            path: self.path@,
            pid_file: self.pid_file@,
            max_image_mb: self.max_image_mb,
            debounce_sec: self.debounce_sec,
        }
    }
}

impl Clone for ScreenshotConfig {
    fn clone(&self) -> (r: Self)
        ensures
            r@ == self@,
    {
        ScreenshotConfig {
            enabled: self.enabled,
            path: self.path.clone(),
            pid_file: self.pid_file.clone(),
            max_image_mb: self.max_image_mb,
            debounce_sec: self.debounce_sec,
        }
    }
}

/// What the values say of it.
pub open spec fn screenshot_settings(v: Seq<(Seq<char>, Seq<char>)>, readings: Readings) -> ScreenshotConfigModel {
    ScreenshotConfigModel {
        enabled: switch_or(v, "ENABLE_OCR"@, true),
        path: value_or(v, "SCREENSHOT_PATH"@, "/tmp/interview_snap.png"@),
        pid_file: value_or(v, "PID_FILE"@, "/tmp/ai_overlay.pid"@),
        max_image_mb: reading_or(readings.ocr_max_image_mb, Single { bits: 0x4060_0000 }),
        debounce_sec: number_or(v, "OCR_DEBOUNCE_SEC"@, 1, u64::MAX as nat) as u64,
    }
}

/// The first fault among the values for it.
pub open spec fn screenshot_fault(v: Seq<(Seq<char>, Seq<char>)>, readings: Readings) -> Fault {
    or_fault(
        switch_fault(v, "ENABLE_OCR"@),
        or_fault(
            reading_fault(readings.ocr_max_image_mb, "OCR_MAX_IMAGE_MB"@),
            number_fault(v, "OCR_DEBOUNCE_SEC"@, 1, u64::MAX as nat),
        ),
    )
}

/// Reads it from the values.
fn read_screenshot(values: &Values, readings: &Readings) -> (r: Result<ScreenshotConfig, ConfigError>)
    ensures
        match r {
            Ok(config) => screenshot_fault(pair_views(values@), *readings) is None && config@ == screenshot_settings(pair_views(values@), *readings),
            Err(error) => screenshot_fault(pair_views(values@), *readings) == Some(error@),
        },
{
    let enabled = match read_switch(values, "ENABLE_OCR", true) {
        Ok(value) => value,
        Err(error) => {
            return Err(error);
        },
    };
    let path = read_string(values, "SCREENSHOT_PATH", "/tmp/interview_snap.png");
    let pid_file = read_string(values, "PID_FILE", "/tmp/ai_overlay.pid");
    let max_image_mb = match take_reading(&readings.ocr_max_image_mb, "OCR_MAX_IMAGE_MB", Single { bits: 0x4060_0000 }) {
        Ok(value) => value,
        Err(error) => {
            return Err(error);
        },
    };
    let debounce_sec: u64 = match read_number(values, "OCR_DEBOUNCE_SEC", 1, u64::MAX) {
        Ok(value) => value,
        Err(error) => {
            return Err(error);
        },
    };
    Ok(ScreenshotConfig { enabled, path, pid_file, max_image_mb, debounce_sec })
}

/// Where sessions are recorded.
pub struct SessionLogConfig {
    pub enabled: bool,
    pub directory: String,
}

/// The value of a [`SessionLogConfig`].
#[verifier::ext_equal]
pub struct SessionLogConfigModel {
    pub enabled: bool,
    pub directory: Seq<char>,
}

impl View for SessionLogConfig {
    type V = SessionLogConfigModel;

    open spec fn view(&self) -> SessionLogConfigModel {
        SessionLogConfigModel {
            enabled: self.enabled,
            directory: self.directory@,
        }
    }
}

impl Clone for SessionLogConfig {
    fn clone(&self) -> (r: Self)
        ensures
            r@ == self@,
    {
        SessionLogConfig {
            enabled: self.enabled,
            directory: self.directory.clone(),
        }
    }
}

/// What the values say of it.
pub open spec fn session_log_settings(v: Seq<(Seq<char>, Seq<char>)>) -> SessionLogConfigModel {
    SessionLogConfigModel {
        enabled: switch_or(v, "SESSION_LOG_ENABLED"@, true),
        directory: value_or(v, "SESSION_LOG_DIR"@, "telemetry/sessions"@),
    }
}

/// The first fault among the values for it.
pub open spec fn session_log_fault(v: Seq<(Seq<char>, Seq<char>)>) -> Fault {
    switch_fault(v, "SESSION_LOG_ENABLED"@)
}

/// Reads it from the values.
fn read_session_log(values: &Values) -> (r: Result<SessionLogConfig, ConfigError>)
    ensures
        match r {
            Ok(config) => session_log_fault(pair_views(values@)) is None && config@ == session_log_settings(pair_views(values@)),
            Err(error) => session_log_fault(pair_views(values@)) == Some(error@),
        },
{
    let enabled = match read_switch(values, "SESSION_LOG_ENABLED", true) {
        Ok(value) => value,
        Err(error) => {
            return Err(error);
        },
    };
    let directory = read_string(values, "SESSION_LOG_DIR", "telemetry/sessions");
    Ok(SessionLogConfig { enabled, directory })
}

/// The configuration of the assistant.
pub struct Config {
    pub deepgram: DeepgramConfig,
    pub llm: LlmConfig,
    pub vision: VisionConfig,
    pub audio: AudioConfig,
    pub candidate_audio: CandidateAudioConfig,
    pub transcript: TranscriptConfig,
    pub knowledge: KnowledgeConfig,
    pub screenshot: ScreenshotConfig,
    pub session_log: SessionLogConfig,
}

/// The value of a [`Config`].
#[verifier::ext_equal]
pub struct ConfigModel {
    pub deepgram: DeepgramConfigModel,
    pub llm: LlmConfigModel,
    pub vision: VisionConfigModel,
    pub audio: AudioConfigModel,
    pub candidate_audio: CandidateAudioConfigModel,
    pub transcript: TranscriptConfigModel,
    pub knowledge: KnowledgeConfigModel,
    pub screenshot: ScreenshotConfigModel,
    pub session_log: SessionLogConfigModel,
}

impl View for Config {
    type V = ConfigModel;

    open spec fn view(&self) -> ConfigModel {
        ConfigModel {
            deepgram: self.deepgram@,
            llm: self.llm@,
            vision: self.vision@,
            audio: self.audio@,
            candidate_audio: self.candidate_audio@,
            transcript: self.transcript@,
            knowledge: self.knowledge@,
            screenshot: self.screenshot@,
            session_log: self.session_log@,
        }
    }
}

impl Clone for Config {
    fn clone(&self) -> (r: Self)
        ensures
            r@ == self@,
    {
        Config {
            deepgram: self.deepgram.clone(),
            llm: self.llm.clone(),
            vision: self.vision.clone(),
            audio: self.audio.clone(),
            candidate_audio: self.candidate_audio.clone(),
            transcript: self.transcript.clone(),
            knowledge: self.knowledge.clone(),
            screenshot: self.screenshot.clone(),
            session_log: self.session_log.clone(),
        }
    }
}

/// What the values say.
pub open spec fn config_settings(v: Seq<(Seq<char>, Seq<char>)>, readings: Readings) -> ConfigModel {
    ConfigModel {
        deepgram: deepgram_settings(v),
        llm: llm_settings(v, readings),
        vision: vision_settings(v),
        audio: audio_settings(v),
        candidate_audio: candidate_audio_settings(v),
        transcript: transcript_settings(v),
        knowledge: knowledge_settings(v, readings),
        screenshot: screenshot_settings(v, readings),
        session_log: session_log_settings(v),
    }
}

/// The first fault among the values.
pub open spec fn reading_faults(v: Seq<(Seq<char>, Seq<char>)>, readings: Readings) -> Fault {
    or_fault(
        deepgram_fault(v),
        or_fault(
            llm_fault(v, readings),
            or_fault(
                vision_fault(v),
                or_fault(
                    audio_fault(v),
                    or_fault(
                        candidate_audio_fault(v),
                        or_fault(
                            transcript_fault(v),
                            or_fault(
                                knowledge_fault(v, readings),
                                or_fault(
                                    screenshot_fault(v, readings),
                                    session_log_fault(v),
                                ),
                            ),
                        ),
                    ),
                ),
            ),
        ),
    )
}

/// The fault of a secret that is not given.
pub open spec fn secret_fault(name: Seq<char>, value: Seq<char>) -> Fault {
    if trim(value).len() == 0 {
        Some(ConfigErrorModel::Missing { name })
    } else {
        None
    }
}

fn check_secret(name: &'static str, value: &SecretString) -> (r: Option<ConfigError>)
    ensures
        matches_fault(r, secret_fault(name@, value@)),
{
    if value.is_empty() {
        Some(ConfigError::Missing { name })
    } else {
        None
    }
}

/// Whether a fault that was found is the one that there is.
pub open spec fn matches_fault(found: Option<ConfigError>, fault: Fault) -> bool {
    match found {
        Some(error) => fault == Some(error@),
        None => fault is None,
    }
}

/// The fault of a text that is blank.
pub open spec fn blank_fault(name: Seq<char>, value: Seq<char>) -> Fault {
    if trim(value).len() == 0 {
        invalid_fault(name, "must not be empty"@)
    } else {
        None
    }
}

fn check_non_empty(name: &'static str, value: &String) -> (r: Option<ConfigError>)
    ensures
        matches_fault(r, blank_fault(name@, value@)),
{
    if is_blank(value.as_str()) {
        Some(invalid(name, "must not be empty".to_owned()))
    } else {
        None
    }
}

/// The fault of a path that is empty.
pub open spec fn path_fault(name: Seq<char>, value: Seq<char>) -> Fault {
    if value.len() == 0 {
        invalid_fault(name, "must not be empty"@)
    } else {
        None
    }
}

fn check_path(name: &'static str, value: &String) -> (r: Option<ConfigError>)
    ensures
        matches_fault(r, path_fault(name@, value@)),
{
    if value.as_str().is_empty() {
        Some(invalid(name, "must not be empty".to_owned()))
    } else {
        None
    }
}

/// The fault of a number that is zero.
pub open spec fn zero_fault(name: Seq<char>, value: nat) -> Fault {
    if value == 0 {
        invalid_fault(name, "must be greater than zero"@)
    } else {
        None
    }
}

fn check_positive(name: &'static str, value: u64) -> (r: Option<ConfigError>)
    ensures
        matches_fault(r, zero_fault(name@, value as nat)),
{
    if value == 0 {
        Some(invalid(name, "must be greater than zero".to_owned()))
    } else {
        None
    }
}

/// The fault of a number outside a range.
pub open spec fn range_fault(name: Seq<char>, value: nat, min: nat, max: nat) -> Fault {
    if value < min || value > max {
        invalid_fault(name, "must be between "@ + decimal(min) + " and "@ + decimal(max))
    } else {
        None
    }
}

fn check_range(name: &'static str, value: u64, min: u64, max: u64) -> (r: Option<ConfigError>)
    ensures
        matches_fault(r, range_fault(name@, value as nat, min as nat, max as nat)),
{
    if value < min || value > max {
        let mut reason = "must be between ".to_owned();
        reason.append(decimal_text(min).as_str());
        reason.append(" and ");
        reason.append(decimal_text(max).as_str());
        Some(invalid(name, reason))
    } else {
        None
    }
}

/// The bits of the fractional number zero.
pub const ZERO_BITS: u32 = 0;

/// The bits of the fractional number two.
pub const TWO_BITS: u32 = 0x4000_0000;

/// The bits of the distance from one to the next greater fractional number.
pub const EPSILON_BITS: u32 = 0x3400_0000;

/// The fault of a fractional number outside the range from zero to two.
pub open spec fn fraction_fault(name: Seq<char>, value: Single) -> Fault {
    if value.within(Single { bits: ZERO_BITS }, Single { bits: TWO_BITS }) {
        None
    } else {
        invalid_fault(name, "must be a finite number between 0 and 2"@)
    }
}

fn check_fraction(name: &'static str, value: Single) -> (r: Option<ConfigError>)
    ensures
        matches_fault(r, fraction_fault(name@, value)),
{
    if value.lies_within(Single { bits: ZERO_BITS }, Single { bits: TWO_BITS }) {
        None
    } else {
        Some(invalid(name, "must be a finite number between 0 and 2".to_owned()))
    }
}

/// The fault of a size that is not above zero by any amount that counts.
pub open spec fn size_fault(name: Seq<char>, value: Single) -> Fault {
    if value.is_finite() && value.at_least(Single { bits: EPSILON_BITS }) {
        None
    } else {
        invalid_fault(name, "must be a finite number at least 0.00000011920929"@)
    }
}

fn check_size(name: &'static str, value: Single) -> (r: Option<ConfigError>)
    ensures
        matches_fault(r, size_fault(name@, value)),
{
    if value.has_finite() && value.reaches(Single { bits: EPSILON_BITS }) {
        None
    } else {
        Some(invalid(name, "must be a finite number at least 0.00000011920929".to_owned()))
    }
}

/// The fault of an address with neither of two schemes.
pub open spec fn scheme_fault(
    name: Seq<char>,
    url: Seq<char>,
    first: Seq<char>,
    second: Seq<char>,
) -> Fault {
    let scheme = before(url, ':');
    if scheme == first || scheme == second {
        None
    } else {
        invalid_fault(name, "scheme must be one of: "@ + first + ", "@ + second)
    }
}

fn check_scheme(name: &'static str, url: &String, first: &str, second: &str) -> (r: Option<
    ConfigError,
>)
    ensures
        matches_fault(r, scheme_fault(name@, url@, first@, second@)),
{
    let scheme = url_scheme(url.as_str());
    if same_text(scheme.as_str(), first) || same_text(scheme.as_str(), second) {
        None
    } else {
        let mut reason = "scheme must be one of: ".to_owned();
        reason.append(first);
        reason.append(", ");
        reason.append(second);
        Some(invalid(name, reason))
    }
}

/// The fault of a list with an empty entry.
pub open spec fn terms_fault(name: Seq<char>, terms: Seq<Seq<char>>) -> Fault {
    if exists|i: int| 0 <= i < terms.len() && (#[trigger] terms[i]).len() == 0 {
        invalid_fault(name, "terms must not be empty"@)
    } else {
        None
    }
}

fn check_terms(name: &'static str, terms: &Vec<String>) -> (r: Option<ConfigError>)
    ensures
        matches_fault(r, terms_fault(name@, views(terms@))),
{
    let ghost all = views(terms@);
    let mut i: usize = 0;
    while i < terms.len()
        invariant
            all == views(terms@),
            i <= terms@.len(),
            forall|k: int| 0 <= k < i ==> (#[trigger] all[k]).len() > 0,
        decreases terms@.len() - i,
    {
        assert(all[i as int] == terms@[i as int]@);
        if terms[i].as_str().is_empty() {
            return Some(invalid(name, "terms must not be empty".to_owned()));
        }
        i += 1;
    }
    None
}

/// The first fault of a configuration for embeddings.
pub open spec fn embedding_use_fault(c: EmbeddingConfigModel) -> Fault {
    or_fault(
        secret_fault("OPENROUTER_API_KEY"@, c.api_key),
        scheme_fault("OPENROUTER_BASE_URL"@, c.base_url, "http"@, "https"@),
    )
}

impl EmbeddingConfig {
    fn check(&self) -> (r: Option<ConfigError>)
        ensures
            matches_fault(r, embedding_use_fault(self@)),
    {
        if let Some(error) = check_secret("OPENROUTER_API_KEY", &self.api_key) {
            return Some(error);
        }
        check_scheme("OPENROUTER_BASE_URL", &self.base_url, "http", "https")
    }

    /// Reads what the services for embeddings need, and no more.
    pub fn from_values(values: &Values) -> (r: Result<EmbeddingConfig, ConfigError>)
        ensures
            ({
                let v = pair_views(values@);
                let fault = or_fault(embedding_fault(v), embedding_use_fault(embedding_settings(v)));
                match r {
                    Ok(config) => fault is None && config@ == embedding_settings(v),
                    Err(error) => fault == Some(error@),
                }
            }),
    {
        match read_embedding(values) {
            Err(error) => Err(error),
            Ok(config) => match config.check() {
                Some(error) => Err(error),
                None => Ok(config),
            },
        }
    }
}

/// The first fault of a configuration among what is checked before the program
/// that captures sound.
pub open spec fn service_fault(c: ConfigModel) -> Fault {
    or_fault(
        secret_fault("DEEPGRAM_API_KEY"@, c.deepgram.api_key),
        or_fault(
            secret_fault("OPENROUTER_API_KEY"@, c.llm.api_key),
            or_fault(
                if c.screenshot.enabled {
                    secret_fault("GROQ_API_KEY"@, c.vision.api_key)
                } else {
                    None
                },
                or_fault(
                    scheme_fault("DEEPGRAM_WS_URL"@, c.deepgram.ws_url, "ws"@, "wss"@),
                    or_fault(
                        scheme_fault("OPENROUTER_BASE_URL"@, c.llm.base_url, "http"@, "https"@),
                        or_fault(
                            scheme_fault("GROQ_BASE_URL"@, c.vision.base_url, "http"@, "https"@),
                            or_fault(
                                blank_fault("DEEPGRAM_MODEL"@, c.deepgram.model),
                                or_fault(
                                    blank_fault("DEEPGRAM_LANGUAGE"@, c.deepgram.language),
                                    or_fault(
                                        range_fault("DEEPGRAM_SAMPLE_RATE"@, c.deepgram.sample_rate as nat, 8000, 192000),
                                        or_fault(
                                            range_fault("DEEPGRAM_CHANNELS"@, c.deepgram.channels as nat, 1, 8),
                                            or_fault(
                                                zero_fault("DEEPGRAM_ENDPOINTING_MS"@, c.deepgram.endpointing_ms as nat),
                                                or_fault(
                                                    zero_fault("DEEPGRAM_UTTERANCE_END_MS"@, c.deepgram.utterance_end_ms as nat),
                                                    or_fault(
                                                        terms_fault("DEEPGRAM_KEYTERMS"@, c.deepgram.keyterms),
                                                        or_fault(
                                                            blank_fault("MODEL_TEXT"@, c.llm.model),
                                                            or_fault(
                                                                zero_fault("MAX_HISTORY_PAIRS"@, c.llm.max_history_pairs as nat),
                                                                or_fault(
                                                                    fraction_fault("TEXT_TEMPERATURE"@, c.llm.temperature),
                                                                    or_fault(
                                                                        zero_fault("TEXT_MAX_TOKENS"@, c.llm.max_tokens as nat),
                                                                        or_fault(
                                                                            zero_fault("TEXT_TIMEOUT_SEC"@, c.llm.timeout_sec as nat),
                                                                            or_fault(
                                                                                blank_fault("CURRENT_PROJECT"@, c.llm.current_project),
                                                                                or_fault(
                                                                                    blank_fault("MODEL_VISION"@, c.vision.model),
                                                                                    or_fault(
                                                                                        zero_fault("VISION_MAX_TOKENS"@, c.vision.max_tokens as nat),
                                                                                        zero_fault("VISION_TIMEOUT_SEC"@, c.vision.timeout_sec as nat),
                                                                                    ),
                                                                                ),
                                                                            ),
                                                                        ),
                                                                    ),
                                                                ),
                                                            ),
                                                        ),
                                                    ),
                                                ),
                                            ),
                                        ),
                                    ),
                                ),
                            ),
                        ),
                    ),
                ),
            ),
        ),
    )
}

/// The first fault of a configuration among what is checked after the program
/// that captures sound.
pub open spec fn capture_fault(c: ConfigModel) -> Fault {
    or_fault(
        blank_fault("AUDIO_INPUT_FORMAT"@, c.audio.input_format),
        or_fault(
            blank_fault("AUDIO_SOURCE"@, c.audio.source),
            or_fault(
                range_fault("AUDIO_CHUNK_MS"@, c.audio.chunk_ms as nat, 10, 10000),
                or_fault(
                    range_fault("TRANSCRIPT_WINDOW_SEC"@, c.transcript.window_sec as nat, 1, 3600),
                    or_fault(
                        zero_fault("MIN_UTTERANCE_CHARS"@, c.transcript.min_utterance_chars as nat),
                        or_fault(
                            zero_fault("RAG_TOP_K"@, c.knowledge.top_k as nat),
                            or_fault(
                                zero_fault("RAG_MAX_CONTEXT_CHARS"@, c.knowledge.max_context_chars as nat),
                                or_fault(
                                    fraction_fault("RAG_MIN_SCORE"@, c.knowledge.min_score),
                                    or_fault(
                                        zero_fault("RAG_REFRESH_MS"@, c.knowledge.refresh_ms as nat),
                                        or_fault(
                                            zero_fault("RAG_FINAL_WAIT_MS"@, c.knowledge.final_wait_ms as nat),
                                            or_fault(
                                                path_fault("SCREENSHOT_PATH"@, c.screenshot.path),
                                                or_fault(
                                                    path_fault("PID_FILE"@, c.screenshot.pid_file),
                                                    or_fault(
                                                        size_fault("OCR_MAX_IMAGE_MB"@, c.screenshot.max_image_mb),
                                                        zero_fault("OCR_DEBOUNCE_SEC"@, c.screenshot.debounce_sec as nat),
                                                    ),
                                                ),
                                            ),
                                        ),
                                    ),
                                ),
                            ),
                        ),
                    ),
                ),
            ),
        ),
    )
}

/// The first fault of a configuration, where `executable` says what is wrong
/// with the program that captures sound.
pub open spec fn use_fault(c: ConfigModel, executable: Option<Seq<char>>) -> Fault {
    or_fault(
        service_fault(c),
        or_fault(
            match executable {
                Some(reason) => invalid_fault("FFMPEG_BIN"@, reason),
                None => None,
            },
            capture_fault(c),
        ),
    )
}

/// The text of an optional string.
pub open spec fn option_text(text: Option<String>) -> Option<Seq<char>> {
    match text {
        Some(inner) => Some(inner@),
        None => None,
    }
}

impl Config {
    fn check_services(&self) -> (r: Option<ConfigError>)
        ensures
            matches_fault(r, service_fault(self@)),
    {
        if let Some(error) = check_secret("DEEPGRAM_API_KEY", &self.deepgram.api_key) {
            return Some(error);
        }
        if let Some(error) = check_secret("OPENROUTER_API_KEY", &self.llm.api_key) {
            return Some(error);
        }
        if self.screenshot.enabled {
            if let Some(error) = check_secret("GROQ_API_KEY", &self.vision.api_key) {
                return Some(error);
            }
        }
        if let Some(error) = check_scheme("DEEPGRAM_WS_URL", &self.deepgram.ws_url, "ws", "wss") {
            return Some(error);
        }
        if let Some(error) = check_scheme("OPENROUTER_BASE_URL", &self.llm.base_url, "http", "https") {
            return Some(error);
        }
        if let Some(error) = check_scheme("GROQ_BASE_URL", &self.vision.base_url, "http", "https") {
            return Some(error);
        }
        if let Some(error) = check_non_empty("DEEPGRAM_MODEL", &self.deepgram.model) {
            return Some(error);
        }
        if let Some(error) = check_non_empty("DEEPGRAM_LANGUAGE", &self.deepgram.language) {
            return Some(error);
        }
        if let Some(error) = check_range("DEEPGRAM_SAMPLE_RATE", self.deepgram.sample_rate as u64, 8000, 192000) {
            return Some(error);
        }
        if let Some(error) = check_range("DEEPGRAM_CHANNELS", self.deepgram.channels as u64, 1, 8) {
            return Some(error);
        }
        if let Some(error) = check_positive("DEEPGRAM_ENDPOINTING_MS", self.deepgram.endpointing_ms) {
            return Some(error);
        }
        if let Some(error) = check_positive("DEEPGRAM_UTTERANCE_END_MS", self.deepgram.utterance_end_ms) {
            return Some(error);
        }
        if let Some(error) = check_terms("DEEPGRAM_KEYTERMS", &self.deepgram.keyterms) {
            return Some(error);
        }
        if let Some(error) = check_non_empty("MODEL_TEXT", &self.llm.model) {
            return Some(error);
        }
        if let Some(error) = check_positive("MAX_HISTORY_PAIRS", self.llm.max_history_pairs as u64) {
            return Some(error);
        }
        if let Some(error) = check_fraction("TEXT_TEMPERATURE", self.llm.temperature) {
            return Some(error);
        }
        if let Some(error) = check_positive("TEXT_MAX_TOKENS", self.llm.max_tokens as u64) {
            return Some(error);
        }
        if let Some(error) = check_positive("TEXT_TIMEOUT_SEC", self.llm.timeout_sec) {
            return Some(error);
        }
        if let Some(error) = check_non_empty("CURRENT_PROJECT", &self.llm.current_project) {
            return Some(error);
        }
        if let Some(error) = check_non_empty("MODEL_VISION", &self.vision.model) {
            return Some(error);
        }
        if let Some(error) = check_positive("VISION_MAX_TOKENS", self.vision.max_tokens as u64) {
            return Some(error);
        }
        if let Some(error) = check_positive("VISION_TIMEOUT_SEC", self.vision.timeout_sec) {
            return Some(error);
        }
        None
    }

    fn check_capture(&self) -> (r: Option<ConfigError>)
        ensures
            matches_fault(r, capture_fault(self@)),
    {
        if let Some(error) = check_non_empty("AUDIO_INPUT_FORMAT", &self.audio.input_format) {
            return Some(error);
        }
        if let Some(error) = check_non_empty("AUDIO_SOURCE", &self.audio.source) {
            return Some(error);
        }
        if let Some(error) = check_range("AUDIO_CHUNK_MS", self.audio.chunk_ms, 10, 10000) {
            return Some(error);
        }
        if let Some(error) = check_range("TRANSCRIPT_WINDOW_SEC", self.transcript.window_sec, 1, 3600) {
            return Some(error);
        }
        if let Some(error) = check_positive("MIN_UTTERANCE_CHARS", self.transcript.min_utterance_chars as u64) {
            return Some(error);
        }
        if let Some(error) = check_positive("RAG_TOP_K", self.knowledge.top_k as u64) {
            return Some(error);
        }
        if let Some(error) = check_positive("RAG_MAX_CONTEXT_CHARS", self.knowledge.max_context_chars as u64) {
            return Some(error);
        }
        if let Some(error) = check_fraction("RAG_MIN_SCORE", self.knowledge.min_score) {
            return Some(error);
        }
        if let Some(error) = check_positive("RAG_REFRESH_MS", self.knowledge.refresh_ms) {
            return Some(error);
        }
        if let Some(error) = check_positive("RAG_FINAL_WAIT_MS", self.knowledge.final_wait_ms) {
            return Some(error);
        }
        if let Some(error) = check_path("SCREENSHOT_PATH", &self.screenshot.path) {
            return Some(error);
        }
        if let Some(error) = check_path("PID_FILE", &self.screenshot.pid_file) {
            return Some(error);
        }
        if let Some(error) = check_size("OCR_MAX_IMAGE_MB", self.screenshot.max_image_mb) {
            return Some(error);
        }
        if let Some(error) = check_positive("OCR_DEBOUNCE_SEC", self.screenshot.debounce_sec) {
            return Some(error);
        }
        None
    }

    /// Whether the configuration can be used, where `executable` says what is
    /// wrong with the program that captures sound, if anything is.
    pub fn validate(&self, executable: Option<String>) -> (r: Result<(), ConfigError>)
        ensures
            match r {
                Ok(_) => use_fault(self@, option_text(executable)) is None,
                Err(error) => use_fault(self@, option_text(executable)) == Some(error@),
            },
    {
        if let Some(error) = self.check_services() {
            return Err(error);
        }
        if let Some(reason) = executable {
            return Err(invalid("FFMPEG_BIN", reason));
        }
        match self.check_capture() {
            Some(error) => Err(error),
            None => Ok(()),
        }
    }

    /// Reads the configuration without asking whether it can be used.
    pub fn read(values: &Values, readings: &Readings) -> (r: Result<Config, ConfigError>)
        ensures
            ({
                let v = pair_views(values@);
                match r {
                    Ok(config) => reading_faults(v, *readings) is None && config@ == config_settings(
                        v,
                        *readings,
                    ),
                    Err(error) => reading_faults(v, *readings) == Some(error@),
                }
            }),
    {
        let deepgram = match read_deepgram(values) {
            Ok(value) => value,
            Err(error) => {
                return Err(error);
            },
        };
        let llm = match read_llm(values, readings) {
            Ok(value) => value,
            Err(error) => {
                return Err(error);
            },
        };
        let vision = match read_vision(values) {
            Ok(value) => value,
            Err(error) => {
                return Err(error);
            },
        };
        let audio = match read_audio(values) {
            Ok(value) => value,
            Err(error) => {
                return Err(error);
            },
        };
        let candidate_audio = match read_candidate_audio(values) {
            Ok(value) => value,
            Err(error) => {
                return Err(error);
            },
        };
        let transcript = match read_transcript(values) {
            Ok(value) => value,
            Err(error) => {
                return Err(error);
            },
        };
        let knowledge = match read_knowledge(values, readings) {
            Ok(value) => value,
            Err(error) => {
                return Err(error);
            },
        };
        let screenshot = match read_screenshot(values, readings) {
            Ok(value) => value,
            Err(error) => {
                return Err(error);
            },
        };
        let session_log = match read_session_log(values) {
            Ok(value) => value,
            Err(error) => {
                return Err(error);
            },
        };
        Ok(Config { deepgram, llm, vision, audio, candidate_audio, transcript, knowledge, screenshot, session_log })
    }

    /// Reads the configuration and asks whether it can be used.
    pub fn from_values(values: &Values, readings: &Readings, executable: Option<String>) -> (r:
        Result<Config, ConfigError>)
        ensures
            ({
                let v = pair_views(values@);
                let fault = or_fault(
                    reading_faults(v, *readings),
                    use_fault(config_settings(v, *readings), option_text(executable)),
                );
                match r {
                    Ok(config) => fault is None && config@ == config_settings(v, *readings),
                    Err(error) => fault == Some(error@),
                }
            }),
    {
        match Config::read(values, readings) {
            Err(error) => Err(error),
            Ok(config) => match config.validate(executable) {
                Err(error) => Err(error),
                Ok(_) => Ok(config),
            },
        }
    }
}

/// The screenshot service needs a key only while screenshots are taken: with
/// the switch off, the key is no reason to refuse a configuration.
pub proof fn an_unused_key_is_not_needed(c: ConfigModel, executable: Option<Seq<char>>, key: Seq<char>)
    requires
        !c.screenshot.enabled,
    ensures
        use_fault(
            ConfigModel { vision: VisionConfigModel { api_key: key, ..c.vision }, ..c },
            executable,
        ) == use_fault(c, executable),
{
}

/// A configuration that can be used has the keys of the services it asks, a
/// sound format that can be captured, and limits above zero.
pub proof fn usable_configurations_have_sound_limits(c: ConfigModel, executable: Option<Seq<char>>)
    requires
        use_fault(c, executable) is None,
    ensures
        trim(c.deepgram.api_key).len() > 0,
        trim(c.llm.api_key).len() > 0,
        c.screenshot.enabled ==> trim(c.vision.api_key).len() > 0,
        8000 <= c.deepgram.sample_rate <= 192000,
        1 <= c.deepgram.channels <= 8,
        10 <= c.audio.chunk_ms <= 10000,
        1 <= c.transcript.window_sec <= 3600,
        c.transcript.min_utterance_chars > 0,
        c.llm.max_history_pairs > 0,
        c.knowledge.top_k > 0,
        c.knowledge.max_context_chars > 0,
        executable is None,
{
}

/// Without any settings each has its default.
pub proof fn settings_have_defaults(readings: Readings)
    requires
        readings.text_temperature is None,
        readings.coding_temperature is None,
        readings.rag_min_score is None,
        readings.ocr_max_image_mb is None,
    ensures
        ({
            let c = config_settings(Seq::empty(), readings);
            &&& c.deepgram.model == "nova-3"@
            &&& c.deepgram.language == "ru"@
            &&& c.deepgram.sample_rate == 16000
            &&& c.deepgram.channels == 1
            &&& c.deepgram.interim_results && c.deepgram.punctuate && c.deepgram.smart_format
                && c.deepgram.vad_events
            &&& c.deepgram.endpointing_ms == 500
            &&& c.deepgram.utterance_end_ms == 1200
            &&& c.llm.model == "openai/gpt-4o-mini"@
            &&& c.llm.queue_max == 0
            &&& c.llm.max_history_pairs == 4
            &&& c.llm.separate_histories
            &&& c.llm.temperature.bits == 0x3e4c_cccd
            &&& c.llm.max_tokens == 450
            &&& c.llm.timeout_sec == 30
            &&& c.llm.coding_temperature.bits == 0x3dcc_cccd
            &&& c.llm.coding_max_tokens == 1800
            &&& c.llm.coding_timeout_sec == 60
            &&& c.llm.current_project == "АО Консалт Плюс"@
            &&& c.vision.api_key == ""@
            &&& c.vision.model == "qwen/qwen3.6-27b"@
            &&& c.vision.max_tokens == 2500
            &&& c.vision.timeout_sec == 60
            &&& c.audio.ffmpeg_bin == "ffmpeg"@
            &&& c.audio.input_format == "pulse"@
            &&& c.audio.source == "@DEFAULT_AUDIO_SINK@.monitor"@
            &&& c.audio.chunk_ms == 100
            &&& c.audio.queue_max == 0
            &&& c.candidate_audio.enabled
            &&& c.candidate_audio.source == "@DEFAULT_AUDIO_SOURCE@"@
            &&& c.transcript.window_sec == 5
            &&& c.transcript.min_utterance_chars == 3
            &&& c.knowledge.enabled && !c.knowledge.debug
            &&& c.knowledge.top_k == 3
            &&& c.knowledge.max_context_chars == 4200
            &&& c.knowledge.min_score.bits == 0x3f40_0000
            &&& c.knowledge.refresh_ms == 1000
            &&& c.knowledge.final_wait_ms == 80
            &&& c.knowledge.embedding.model == "perplexity/pplx-embed-v1-4b"@
            &&& c.knowledge.embedding.dimensions == 2560
            &&& c.knowledge.embedding.query_input_type == "search_query"@
            &&& c.knowledge.embedding.document_input_type == "search_document"@
            &&& c.knowledge.embedding.timeout_sec == 30
            &&& c.screenshot.enabled
            &&& c.screenshot.path == "/tmp/interview_snap.png"@
            &&& c.screenshot.pid_file == "/tmp/ai_overlay.pid"@
            &&& c.screenshot.max_image_mb.bits == 0x4060_0000
            &&& c.screenshot.debounce_sec == 1
            &&& c.session_log.enabled
            &&& c.session_log.directory == "telemetry/sessions"@
        }),
        reading_faults(Seq::empty(), readings) == Some(
            ConfigErrorModel::Missing { name: "DEEPGRAM_API_KEY"@ },
        ),
{
    assert(forall|name: Seq<char>| #[trigger] value_of(Seq::empty(), name) is None);
}

/// A text that is given is what is used, under its own name.
pub proof fn given_texts_are_used(
    v: Seq<(Seq<char>, Seq<char>)>,
    readings: Readings,
    text: Seq<char>,
)
    ensures
        ({
            let c = config_settings(v, readings);
            let given = |name: Seq<char>| value_of(v, name) == Some(text);
            &&& given("DEEPGRAM_API_KEY"@) ==> c.deepgram.api_key == text
            &&& given("DEEPGRAM_MODEL"@) ==> c.deepgram.model == text
            &&& given("DEEPGRAM_LANGUAGE"@) ==> c.deepgram.language == text
            &&& given("DEEPGRAM_KEYTERMS"@) ==> c.deepgram.keyterms == list_entries(text)
            &&& given("OPENROUTER_API_KEY"@) ==> c.llm.api_key == text
                && c.knowledge.embedding.api_key == text
            &&& given("MODEL_TEXT"@) ==> c.llm.model == text
            &&& given("CURRENT_PROJECT"@) ==> c.llm.current_project == text
            &&& given("GROQ_API_KEY"@) ==> c.vision.api_key == text
            &&& given("MODEL_VISION"@) ==> c.vision.model == text
            &&& given("FFMPEG_BIN"@) ==> c.audio.ffmpeg_bin == text
            &&& given("AUDIO_INPUT_FORMAT"@) ==> c.audio.input_format == text
            &&& given("AUDIO_SOURCE"@) ==> c.audio.source == text
            &&& given("CANDIDATE_MIC_SOURCE"@) ==> c.candidate_audio.source == text
            &&& given("RAG_EMBEDDING_MODEL"@) ==> c.knowledge.embedding.model == text
            &&& given("RAG_EMBEDDING_QUERY_INPUT_TYPE"@)
                ==> c.knowledge.embedding.query_input_type == text
            &&& given("RAG_EMBEDDING_DOCUMENT_INPUT_TYPE"@)
                ==> c.knowledge.embedding.document_input_type == text
            &&& given("SCREENSHOT_PATH"@) ==> c.screenshot.path == text
            &&& given("PID_FILE"@) ==> c.screenshot.pid_file == text
            &&& given("SESSION_LOG_DIR"@) ==> c.session_log.directory == text
        }),
{
}

/// A number that is given is what is used, under its own name and within the
/// range of its kind.
pub proof fn given_numbers_are_used(
    v: Seq<(Seq<char>, Seq<char>)>,
    readings: Readings,
    text: Seq<char>,
    n: nat,
)
    requires
        n <= u16::MAX,
    ensures
        ({
            let c = config_settings(v, readings);
            let given = |name: Seq<char>, max: nat|
                value_of(v, name) == Some(text) && number_value(text, max) == Ok::<
                    nat,
                    NumberFault,
                >(n);
            let small = u32::MAX as nat;
            let size = usize::MAX as nat;
            let large = u64::MAX as nat;
            &&& given("DEEPGRAM_SAMPLE_RATE"@, small) ==> c.deepgram.sample_rate == n
            &&& given("DEEPGRAM_CHANNELS"@, u16::MAX as nat) ==> c.deepgram.channels == n
            &&& given("DEEPGRAM_ENDPOINTING_MS"@, large) ==> c.deepgram.endpointing_ms == n
            &&& given("DEEPGRAM_UTTERANCE_END_MS"@, large) ==> c.deepgram.utterance_end_ms == n
            &&& given("LLM_QUEUE_MAX"@, size) ==> c.llm.queue_max == n
            &&& given("MAX_HISTORY_PAIRS"@, size) ==> c.llm.max_history_pairs == n
            &&& given("TEXT_MAX_TOKENS"@, small) ==> c.llm.max_tokens == n
            &&& given("TEXT_TIMEOUT_SEC"@, large) ==> c.llm.timeout_sec == n
            &&& given("CODING_MAX_TOKENS"@, small) ==> c.llm.coding_max_tokens == n
            &&& given("CODING_TIMEOUT_SEC"@, large) ==> c.llm.coding_timeout_sec == n
            &&& given("VISION_MAX_TOKENS"@, small) ==> c.vision.max_tokens == n
            &&& given("VISION_TIMEOUT_SEC"@, large) ==> c.vision.timeout_sec == n
            &&& given("AUDIO_CHUNK_MS"@, large) ==> c.audio.chunk_ms == n
            &&& given("AUDIO_QUEUE_MAX"@, size) ==> c.audio.queue_max == n
            &&& given("TRANSCRIPT_WINDOW_SEC"@, large) ==> c.transcript.window_sec == n
            &&& given("MIN_UTTERANCE_CHARS"@, size) ==> c.transcript.min_utterance_chars == n
            &&& given("RAG_EMBEDDING_DIMENSIONS"@, size) ==> c.knowledge.embedding.dimensions == n
            &&& given("RAG_EMBEDDING_TIMEOUT_SEC"@, large) ==> c.knowledge.embedding.timeout_sec
                == n
            &&& given("RAG_TOP_K"@, size) ==> c.knowledge.top_k == n
            &&& given("RAG_MAX_CONTEXT_CHARS"@, size) ==> c.knowledge.max_context_chars == n
            &&& given("RAG_REFRESH_MS"@, large) ==> c.knowledge.refresh_ms == n
            &&& given("RAG_FINAL_WAIT_MS"@, large) ==> c.knowledge.final_wait_ms == n
            &&& given("OCR_DEBOUNCE_SEC"@, large) ==> c.screenshot.debounce_sec == n
        }),
{
}

/// A switch that is given is what is used, under its own name.
pub proof fn given_switches_are_used(
    v: Seq<(Seq<char>, Seq<char>)>,
    readings: Readings,
    text: Seq<char>,
    on: bool,
)
    requires
        ascii_lowered(trim(text)) == if on {
            seq!['y', 'e', 's']
        } else {
            seq!['n', 'o']
        },
    ensures
        ({
            let c = config_settings(v, readings);
            let given = |name: Seq<char>| value_of(v, name) == Some(text);
            &&& given("DEEPGRAM_INTERIM_RESULTS"@) ==> c.deepgram.interim_results == on
            &&& given("DEEPGRAM_PUNCTUATE"@) ==> c.deepgram.punctuate == on
            &&& given("DEEPGRAM_SMART_FORMAT"@) ==> c.deepgram.smart_format == on
            &&& given("DEEPGRAM_VAD_EVENTS"@) ==> c.deepgram.vad_events == on
            &&& given("SEPARATE_HISTORIES"@) ==> c.llm.separate_histories == on
            &&& given("CANDIDATE_MIC_ENABLED"@) ==> c.candidate_audio.enabled == on
            &&& given("RAG_ENABLED"@) ==> c.knowledge.enabled == on
            &&& given("RAG_DEBUG"@) ==> c.knowledge.debug == on
            &&& given("ENABLE_OCR"@) ==> c.screenshot.enabled == on
            &&& given("SESSION_LOG_ENABLED"@) ==> c.session_log.enabled == on
        }),
{
    switches_know_eight_words(v, "DEEPGRAM_INTERIM_RESULTS"@, true);
    switches_know_eight_words(v, "DEEPGRAM_PUNCTUATE"@, true);
    switches_know_eight_words(v, "DEEPGRAM_SMART_FORMAT"@, true);
    switches_know_eight_words(v, "DEEPGRAM_VAD_EVENTS"@, true);
    switches_know_eight_words(v, "SEPARATE_HISTORIES"@, true);
    switches_know_eight_words(v, "CANDIDATE_MIC_ENABLED"@, true);
    switches_know_eight_words(v, "RAG_ENABLED"@, true);
    switches_know_eight_words(v, "RAG_DEBUG"@, false);
    switches_know_eight_words(v, "ENABLE_OCR"@, true);
    switches_know_eight_words(v, "SESSION_LOG_ENABLED"@, true);
    let word = ascii_lowered(trim(text));
    assert(word.len() == if on {
        3int
    } else {
        2
    });
    assert(on ==> word[0] == 'y');
    assert(!on ==> word[0] == 'n');
    let a = seq!['t', 'r', 'u', 'e'];
    let b = seq!['1'];
    let d = seq!['y', 'e', 's'];
    let e = seq!['o', 'n'];
    assert(a.len() == 4 && b.len() == 1 && d.len() == 3 && e.len() == 2 && e[0] == 'o');
}

/// Whether an address has one of two schemes.
pub open spec fn has_scheme(url: Seq<char>, first: Seq<char>, second: Seq<char>) -> bool {
    before(url, ':') == first || before(url, ':') == second
}

/// A configuration can be used exactly where no key, name or path that is needed
/// is left out, every address has a scheme it can have, and every number is
/// within its limits.
pub proof fn configurations_are_usable_within_limits(
    c: ConfigModel,
    executable: Option<Seq<char>>,
)
    ensures
        use_fault(c, executable) is None <==> {
            &&& trim(c.deepgram.api_key).len() > 0
            &&& trim(c.llm.api_key).len() > 0
            &&& c.screenshot.enabled ==> trim(c.vision.api_key).len() > 0
            &&& has_scheme(c.deepgram.ws_url, "ws"@, "wss"@)
            &&& has_scheme(c.llm.base_url, "http"@, "https"@)
            &&& has_scheme(c.vision.base_url, "http"@, "https"@)
            &&& trim(c.deepgram.model).len() > 0
            &&& trim(c.deepgram.language).len() > 0
            &&& 8000 <= c.deepgram.sample_rate <= 192000
            &&& 1 <= c.deepgram.channels <= 8
            &&& c.deepgram.endpointing_ms > 0
            &&& c.deepgram.utterance_end_ms > 0
            &&& forall|i: int|
                0 <= i < c.deepgram.keyterms.len() ==> (#[trigger] c.deepgram.keyterms[i]).len() > 0
            &&& trim(c.llm.model).len() > 0
            &&& c.llm.max_history_pairs > 0
            &&& c.llm.temperature.bits <= 0x4000_0000 || c.llm.temperature.bits == 0x8000_0000
            &&& c.llm.max_tokens > 0
            &&& c.llm.timeout_sec > 0
            &&& trim(c.llm.current_project).len() > 0
            &&& trim(c.vision.model).len() > 0
            &&& c.vision.max_tokens > 0
            &&& c.vision.timeout_sec > 0
            &&& executable is None
            &&& trim(c.audio.input_format).len() > 0
            &&& trim(c.audio.source).len() > 0
            &&& 10 <= c.audio.chunk_ms <= 10000
            &&& 1 <= c.transcript.window_sec <= 3600
            &&& c.transcript.min_utterance_chars > 0
            &&& c.knowledge.top_k > 0
            &&& c.knowledge.max_context_chars > 0
            &&& c.knowledge.min_score.bits <= 0x4000_0000 || c.knowledge.min_score.bits
                == 0x8000_0000
            &&& c.knowledge.refresh_ms > 0
            &&& c.knowledge.final_wait_ms > 0
            &&& c.screenshot.path.len() > 0
            &&& c.screenshot.pid_file.len() > 0
            &&& 0x3400_0000 <= c.screenshot.max_image_mb.bits < 0x7f80_0000
            &&& c.screenshot.debounce_sec > 0
        },
{
}

} // verus!
