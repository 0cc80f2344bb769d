//! The program around the pipeline.

use mague_rc::app::controller::{
    knowledge_stats, worker_breakdown, Delivery, RunEnds, ShutdownStep, TaskEnd,
};
use mague_rc::app::{
    conclude, PipelineAction, PipelineController, PipelineInput, RunOptions, StopReason,
    TranscriptCommand, TranscriptWorkerError,
};
use mague_rc::arguments::{excerpt, parse_rag_query, run_mode, RunMode};
use mague_rc::audio::AudioError;
use mague_rc::config::{Config, ConfigError, Readings};
use mague_rc::control::TerminalEchoGuard;
use mague_rc::error::AppError;
use mague_rc::events::{
    AppCommand, LlmCommand, Mode, OutputEvent, StatusKind, StatusMessage,
};
use mague_rc::knowledge::KnowledgeWorkerStats;
use mague_rc::llm::{LlmQueueError, LlmWorkerError};
use mague_rc::stt::SttError;

fn config(candidate: &str) -> Config {
    let values = vec![
        ("DEEPGRAM_API_KEY".to_owned(), "deepgram-secret".to_owned()),
        ("OPENROUTER_API_KEY".to_owned(), "openrouter-secret".to_owned()),
        ("ENABLE_OCR".to_owned(), "false".to_owned()),
        ("FFMPEG_BIN".to_owned(), "ffmpeg".to_owned()),
    ];
    let readings = Readings {
        text_temperature: None,
        coding_temperature: None,
        rag_min_score: None,
        ocr_max_image_mb: None,
    };
    let mut config = match Config::from_values(&values, &readings, None) {
        Ok(config) => config,
        Err(error) => panic!("{}", error.message()),
    };
    config.audio.source = "speakers".to_owned();
    config.candidate_audio.enabled = !candidate.is_empty();
    config.candidate_audio.source = candidate.to_owned();
    config
}

fn status(kind: StatusKind, text: &str) -> OutputEvent {
    OutputEvent::Status(StatusMessage {
        kind,
        text: text.to_owned(),
    })
}

#[test]
fn the_start_is_announced() {
    let config = config("mic");
    let (controller, events) = PipelineController::start(&config, &RunOptions::default());
    assert!(controller.candidate_enabled);
    assert_eq!(
        events,
        vec![
            status(
                StatusKind::Started,
                &format!(
                    "source=speakers | candidate=mic | STT={} | LLM={}",
                    config.deepgram.model, config.llm.model
                )
            ),
            OutputEvent::ModeChanged { mode: Mode::Voice },
        ]
    );
    assert_eq!(controller.shutdown_timeout_secs(), 5);
    assert_eq!(
        controller.closing(),
        status(StatusKind::Stopped, "mague-rc stopped cleanly")
    );
}

#[test]
fn a_played_file_has_no_candidate() {
    let options = RunOptions {
        audio_file: Some("talk.wav".to_owned()),
    };
    let (mut controller, events) = PipelineController::start(&config("mic"), &options);
    assert!(!controller.candidate_enabled);
    assert!(matches!(
        &events[0],
        OutputEvent::Status(message)
            if message.text.starts_with("source=talk.wav | candidate=disabled | ")
    ));
    assert_eq!(controller.shutdown_timeout_secs(), 300);
    assert!(matches!(
        controller.step(PipelineInput::AudioEnded { success: true }),
        PipelineAction::DrainAndStop(StopReason::BenchmarkEof)
    ));
    assert!(matches!(
        controller.step(PipelineInput::AudioEnded { success: false }),
        PipelineAction::Stop(StopReason::Audio)
    ));
}

fn deliveries(controller: &mut PipelineController, command: AppCommand) -> Vec<Delivery> {
    match controller.step(PipelineInput::Command(Some(command))) {
        PipelineAction::Deliver(deliveries) => deliveries,
        _ => panic!("the command must be handed on"),
    }
}

#[test]
fn commands_reach_every_worker_that_they_concern() {
    let (mut controller, _) = PipelineController::start(&config("mic"), &RunOptions::default());
    let paused = deliveries(&mut controller, AppCommand::PauseListening);
    assert_eq!(paused.len(), 3);
    assert!(matches!(
        paused[0],
        Delivery::Transcript(TranscriptCommand::SetPaused(true))
    ));
    assert!(matches!(
        paused[1],
        Delivery::CandidateTranscript(TranscriptCommand::SetPaused(true))
    ));
    assert!(matches!(
        &paused[2],
        Delivery::Output(event) if *event == status(StatusKind::Paused, "listening paused")
    ));
    assert_eq!(paused[0].failure(), StopReason::Transcript);
    assert_eq!(paused[1].failure(), StopReason::CandidateTranscript);
    assert_eq!(paused[2].failure(), StopReason::Output);

    let cleared = deliveries(&mut controller, AppCommand::ClearHistory);
    assert!(matches!(
        cleared[0],
        Delivery::Llm(LlmCommand::ClearHistory)
    ));
    assert_eq!(cleared[0].failure(), StopReason::Llm);

    let (mut alone, _) = PipelineController::start(&config(""), &RunOptions::default());
    assert_eq!(deliveries(&mut alone, AppCommand::ResumeListening).len(), 2);
}

#[test]
fn live_coding_is_switched_on_and_off() {
    let (mut controller, _) = PipelineController::start(&config(""), &RunOptions::default());
    let before = controller;
    let on = deliveries(&mut controller, AppCommand::ToggleLiveCoding);
    assert!(matches!(
        on[0],
        Delivery::Transcript(TranscriptCommand::SetMode(Mode::LiveCoding))
    ));
    assert_eq!(controller.mode, Mode::LiveCoding);
    deliveries(&mut controller, AppCommand::ToggleLiveCoding);
    assert_eq!(controller, before);
}

#[test]
fn the_pipeline_stops_when_asked_or_when_a_worker_is_gone() {
    let (mut controller, _) = PipelineController::start(&config("mic"), &RunOptions::default());
    assert!(matches!(
        controller.step(PipelineInput::Command(None)),
        PipelineAction::CloseCommands
    ));
    for (input, reason, worker) in [
        (PipelineInput::Signal, StopReason::Signal, None),
        (
            PipelineInput::Command(Some(AppCommand::Shutdown)),
            StopReason::Command,
            None,
        ),
        (
            PipelineInput::AudioEnded { success: true },
            StopReason::Audio,
            Some("audio"),
        ),
        (PipelineInput::SttEnded, StopReason::Stt, Some("stt")),
        (
            PipelineInput::TranscriptEnded,
            StopReason::Transcript,
            Some("transcript"),
        ),
        (
            PipelineInput::CandidateAudioEnded,
            StopReason::CandidateAudio,
            Some("candidate audio"),
        ),
        (
            PipelineInput::CandidateSttEnded,
            StopReason::CandidateStt,
            Some("candidate STT"),
        ),
        (
            PipelineInput::CandidateTranscriptEnded,
            StopReason::CandidateTranscript,
            Some("candidate transcript"),
        ),
        (PipelineInput::LlmEnded, StopReason::Llm, Some("LLM")),
        (PipelineInput::OutputEnded, StopReason::Output, Some("output")),
    ] {
        match controller.step(input) {
            PipelineAction::Stop(found) => assert_eq!(found, reason),
            _ => panic!("the pipeline must stop"),
        }
        assert_eq!(reason.unexpected_worker(), worker);
    }
}

fn ends() -> RunEnds {
    RunEnds {
        audio: TaskEnd::Well,
        stt: TaskEnd::Well,
        transcript: TaskEnd::Well,
        candidate_audio: TaskEnd::Well,
        candidate_stt: TaskEnd::Well,
        candidate_transcript: TaskEnd::Well,
        llm: TaskEnd::Well,
        output: TaskEnd::Well,
    }
}

fn verdict(ends: RunEnds, reason: StopReason) -> String {
    match conclude(ends, reason) {
        Ok(()) => "ok".to_owned(),
        Err(error) => error.message(),
    }
}

#[test]
fn a_run_ends_well_or_with_its_first_failure() {
    assert_eq!(verdict(ends(), StopReason::Signal), "ok");
    assert_eq!(
        verdict(ends(), StopReason::Llm),
        "LLM worker stopped unexpectedly"
    );
    let failed = RunEnds {
        llm: TaskEnd::Failed(AppError::LlmWorker(LlmWorkerError::OutputChannelClosed)),
        stt: TaskEnd::Failed(AppError::Stt(SttError::AudioChannelClosed)),
        ..ends()
    };
    assert_eq!(
        verdict(failed, StopReason::Llm),
        "audio frame channel closed while STT was running"
    );
    let crashed = RunEnds {
        audio: TaskEnd::Failed(AppError::Audio(AudioError::StopTimeout)),
        output: TaskEnd::Crashed("panicked".to_owned()),
        candidate_stt: TaskEnd::TimedOut,
        ..ends()
    };
    assert_eq!(
        verdict(crashed, StopReason::Signal),
        "candidate STT worker did not stop within the shutdown timeout"
    );
    assert_eq!(
        worker_breakdown("output", &TaskEnd::Crashed("panicked".to_owned()))
            .map(|error| error.message()),
        Some("output worker task failed: panicked".to_owned())
    );
    assert!(worker_breakdown("output", &TaskEnd::Well).is_none());
}

#[test]
fn the_stop_is_announced_after_the_answers() {
    let mut steps = vec![ShutdownStep::Audio];
    while *steps.last().unwrap() != ShutdownStep::Done {
        let next = steps
            .last()
            .unwrap()
            .following(&TaskEnd::Failed(AppError::LlmQueue(LlmQueueError)))
            .expect("a worker that ended must not break the stop off");
        steps.push(next);
    }
    assert_eq!(steps.len(), 11);
    assert_eq!(
        steps[7..],
        [
            ShutdownStep::Llm,
            ShutdownStep::Announce,
            ShutdownStep::Output,
            ShutdownStep::Done,
        ]
    );
    assert_eq!(
        ShutdownStep::Llm
            .following(&TaskEnd::TimedOut)
            .unwrap_err()
            .message(),
        "LLM worker did not stop within the shutdown timeout"
    );
    assert_eq!(ShutdownStep::Knowledge.worker(), None);
}

#[test]
fn a_failed_knowledge_base_counts_as_one_failure() {
    let counts = KnowledgeWorkerStats {
        searches: 4,
        failed: 2,
        coalesced: 1,
    };
    assert_eq!(knowledge_stats(Some(counts), true), counts);
    assert_eq!(knowledge_stats(None, true).failed, 1);
    assert_eq!(knowledge_stats(None, false), KnowledgeWorkerStats::default());
}

fn arguments(texts: &[&str]) -> Vec<String> {
    texts.iter().map(|text| (*text).to_owned()).collect()
}

fn refusal(texts: &[&str]) -> String {
    match run_mode(&arguments(texts)) {
        Ok(_) => panic!("the arguments must be refused"),
        Err(error) => error.message(),
    }
}

#[test]
fn modes_are_chosen_by_arguments() {
    assert!(matches!(run_mode(&arguments(&[])), Ok(RunMode::Overlay)));
    assert!(matches!(
        run_mode(&arguments(&["--overlay"])),
        Ok(RunMode::Overlay)
    ));
    assert!(matches!(
        run_mode(&arguments(&["--terminal"])),
        Ok(RunMode::Terminal)
    ));
    assert!(matches!(
        run_mode(&arguments(&["--benchmark", "a.wav"])),
        Ok(RunMode::Benchmark { audio, label, reference: None })
            if audio == "a.wav" && label == "baseline"
    ));
    assert!(matches!(
        run_mode(&arguments(&["--benchmark", "a.wav", "fast", "--reference", "r.txt"])),
        Ok(RunMode::Benchmark { label, reference: Some(path), .. })
            if label == "fast" && path == "r.txt"
    ));
    assert!(matches!(
        run_mode(&arguments(&["--benchmark", "a.wav", "--reference", "r.txt"])),
        Ok(RunMode::Benchmark { label, reference: Some(_), .. }) if label == "baseline"
    ));
    assert!(matches!(
        run_mode(&arguments(&["rag", "index", "notes"])),
        Ok(RunMode::RagIndex { source }) if source == "notes"
    ));
    assert!(matches!(
        run_mode(&arguments(&["rag", "query", "what", "--top", "7", "is", "--repeat", "2"])),
        Ok(RunMode::RagQuery { query, top_k: 7, repeat: 2 }) if query == "what is"
    ));
    assert!(matches!(
        parse_rag_query(&arguments(&["what"]), 0),
        Ok(RunMode::RagQuery { top_k: 5, repeat: 1, .. })
    ));
}

#[test]
fn wrong_arguments_are_refused_with_a_reason() {
    assert_eq!(
        refusal(&["--terminal", "x"]),
        "invalid arguments: unknown argument `--terminal`; expected --overlay, --terminal, --benchmark, or rag"
    );
    assert_eq!(
        refusal(&["--benchmark"]),
        "invalid arguments: --benchmark requires AUDIO and accepts [LABEL] [--reference FILE]"
    );
    assert_eq!(
        refusal(&["--benchmark", "a", "b", "c"]),
        "invalid arguments: unexpected benchmark argument: c"
    );
    assert_eq!(
        refusal(&["--benchmark", "a", "--reference"]),
        "invalid arguments: --reference requires a file path"
    );
    assert_eq!(
        refusal(&["--benchmark", "a", "b", "--reference", "c", "d"]),
        "invalid arguments: unexpected benchmark argument: d"
    );
    assert_eq!(
        refusal(&["rag"]),
        "invalid arguments: rag requires an index or query command"
    );
    assert_eq!(
        refusal(&["rag", "drop"]),
        "invalid arguments: unknown rag command `drop`; expected index or query"
    );
    assert_eq!(
        refusal(&["rag", "index"]),
        "invalid arguments: rag index requires a Markdown file or directory"
    );
    assert_eq!(
        refusal(&["rag", "index", "a", "b"]),
        "invalid arguments: unexpected rag index argument: b"
    );
    assert_eq!(
        refusal(&["rag", "query"]),
        "invalid arguments: rag query requires question text"
    );
    assert_eq!(
        refusal(&["rag", "query", "--top"]),
        "invalid arguments: --top requires a positive number"
    );
    assert_eq!(
        refusal(&["rag", "query", "--top", "x"]),
        "invalid arguments: invalid --top value `x`; expected a number"
    );
    assert_eq!(
        refusal(&["rag", "query", "--repeat", "0"]),
        "invalid arguments: --repeat must be greater than zero"
    );
}

#[test]
fn excerpts_are_marked() {
    assert_eq!(excerpt("абвг", 3), "абв...");
    assert_eq!(excerpt("абв", 3), "абв");
}

#[test]
fn the_terminal_is_restored_once() {
    assert_eq!(
        TerminalEchoGuard::read_state(" 4500:5:bf \n"),
        Ok("4500:5:bf".to_owned())
    );
    assert_eq!(
        TerminalEchoGuard::read_state("\n"),
        Err("stty returned an empty terminal state".to_owned())
    );
    let mut guard = TerminalEchoGuard::after_change(Ok("state".to_owned()));
    assert_eq!(guard.take_state(), Some("state".to_owned()));
    assert_eq!(guard.take_state(), None);
    let mut untouched = TerminalEchoGuard::after_change(Err("no terminal".to_owned()));
    assert_eq!(untouched.take_state(), None);
    assert_eq!(TerminalEchoGuard::query_argument(), "-g");
    assert_eq!(TerminalEchoGuard::hide_argument(), "-echoctl");
}

#[test]
fn program_errors_say_what_failed() {
    for (error, words) in [
        (
            AppError::Configuration(ConfigError::Missing { name: "KEY" }),
            "missing required configuration variable KEY",
        ),
        (
            AppError::Tracing("set".to_owned()),
            "failed to install tracing subscriber: set",
        ),
        (
            AppError::Shutdown("denied".to_owned()),
            "failed while waiting for shutdown signal: denied",
        ),
        (
            AppError::LlmQueue(LlmQueueError),
            "LLM request queue closed",
        ),
        (
            AppError::TranscriptWorker(TranscriptWorkerError::LlmQueue(LlmQueueError)),
            "LLM request queue closed",
        ),
        (
            AppError::Output("broken pipe".to_owned()),
            "output sink failed: broken pipe",
        ),
        (
            AppError::Overlay("no display".to_owned()),
            "failed to start overlay: no display",
        ),
        (
            AppError::WorkerStopped("stt"),
            "stt worker stopped unexpectedly",
        ),
    ] {
        assert_eq!(error.message(), words);
    }
}
