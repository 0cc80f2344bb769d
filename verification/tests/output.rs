//! What observers of the pipeline see.

use mague_rc::events::{
    AnswerMeta, AppCommand, AppErrorView, LiveCodingState, Mode, OutputComponent, OutputEvent,
    QueueKind, QueueState, Speaker, StatusKind, StatusMessage, TranscriptView,
};
use mague_rc::output::stats::update_stats;
use mague_rc::output::terminal::TerminalRenderer;
use mague_rc::output::{
    AnswerStatus, AppSnapshot, ChannelOutputError, ConnectionStatus, ConversationTurn,
    OutputStats, TerminalOutputError, WorkerStatus,
};
use mague_rc::overlay::{
    answer_style, answer_text, changed_line_index, needs_rebuild, overlay_outcome, owns_pid_file,
    pipeline_failed, status_label, turn_titles, OverlayError, OverlayState,
};

fn status(kind: StatusKind, text: &str) -> OutputEvent {
    OutputEvent::Status(StatusMessage {
        kind,
        text: text.to_owned(),
    })
}

fn question(sequence: u64, text: &str) -> OutputEvent {
    OutputEvent::Transcript(TranscriptView {
        sequence,
        mode: Mode::Voice,
        speaker: Speaker::Interviewer,
        text: text.to_owned(),
        flush_reason: "test".to_owned(),
    })
}

fn started(request_id: u64) -> OutputEvent {
    OutputEvent::AnswerStarted(AnswerMeta {
        request_id,
        mode: Mode::Voice,
        speaker: Speaker::Interviewer,
    })
}

fn delta(request_id: u64, text: &str) -> OutputEvent {
    OutputEvent::AnswerDelta {
        request_id,
        text: text.to_owned(),
    }
}

fn failure(component: OutputComponent, message: &str) -> OutputEvent {
    OutputEvent::Error(AppErrorView {
        component,
        message: message.to_owned(),
    })
}

#[test]
fn reduces_voice_pipeline_events_into_ui_snapshot() {
    let mut snapshot = AppSnapshot::default();

    snapshot.apply(&status(StatusKind::Started, "started"));
    snapshot.apply(&status(StatusKind::Listening, "listening"));
    snapshot.apply(&question(4, "Что такое ownership?"));
    snapshot.apply(&started(4));
    snapshot.apply(&delta(4, "Ownership "));
    snapshot.apply(&delta(4, "управляет временем жизни данных."));
    snapshot.apply(&OutputEvent::QueueState(QueueState {
        queue: QueueKind::Llm,
        len: 2,
    }));
    snapshot.apply(&OutputEvent::AnswerCompleted { request_id: 4 });

    assert!(snapshot.running);
    assert!(snapshot.listening);
    assert_eq!(snapshot.stt_status, ConnectionStatus::Connected);
    assert_eq!(snapshot.llm_status, WorkerStatus::Idle);
    assert_eq!(snapshot.current_transcript, "Что такое ownership?");
    assert_eq!(
        snapshot.current_answer,
        "Ownership управляет временем жизни данных."
    );
    assert_eq!(snapshot.llm_queue_len, 2);
    assert_eq!(
        snapshot.conversation,
        vec![ConversationTurn {
            request_id: 4,
            speaker: Speaker::Interviewer,
            question: "Что такое ownership?".to_owned(),
            answer: "Ownership управляет временем жизни данных.".to_owned(),
            answer_status: AnswerStatus::Completed,
        }]
    );
}

#[test]
fn ignores_stale_answer_delta_and_tracks_provider_error() {
    let mut snapshot = AppSnapshot::default();
    snapshot.apply(&question(8, "Что такое borrow checker?"));
    snapshot.apply(&started(8));
    snapshot.apply(&delta(7, "stale"));
    snapshot.apply(&failure(OutputComponent::Llm, "timeout"));

    assert!(snapshot.current_answer.is_empty());
    assert_eq!(snapshot.llm_status, WorkerStatus::Error);
    assert_eq!(
        snapshot
            .last_error
            .as_ref()
            .map(|error| error.message.as_str()),
        Some("timeout")
    );
    assert_eq!(snapshot.conversation[0].answer_status, AnswerStatus::Failed);
}

#[test]
fn tracks_queued_turns_by_request_id_and_clears_them() {
    let mut snapshot = AppSnapshot::default();
    snapshot.apply(&OutputEvent::TranscriptDraft {
        speaker: Speaker::Interviewer,
        text: "Черновик".to_owned(),
    });
    snapshot.apply(&question(1, "Первый вопрос"));
    snapshot.apply(&question(2, "Второй вопрос"));
    snapshot.apply(&started(1));
    snapshot.apply(&delta(1, "Первый ответ"));
    snapshot.apply(&OutputEvent::AnswerCompleted { request_id: 1 });

    assert_eq!(snapshot.conversation.len(), 2);
    assert_eq!(snapshot.conversation[0].answer, "Первый ответ");
    assert_eq!(
        snapshot.conversation[0].answer_status,
        AnswerStatus::Completed
    );
    assert_eq!(
        snapshot.conversation[1].answer_status,
        AnswerStatus::Pending
    );

    snapshot.apply(&status(StatusKind::HistoryCleared, "cleared"));

    assert!(snapshot.conversation.is_empty());
    assert!(snapshot.transcript_draft.is_empty());
}

fn rendered(renderer: &mut TerminalRenderer, events: Vec<OutputEvent>) -> String {
    let mut output = String::new();
    for event in events {
        assert!(renderer.can_render());
        output.push_str(&renderer.render(event));
    }
    output
}

#[test]
fn renders_streaming_answer_without_repeating_full_text() {
    let mut renderer = TerminalRenderer::default();
    let output = rendered(
        &mut renderer,
        vec![
            started(7),
            delta(7, "первая "),
            delta(7, "вторая"),
            OutputEvent::AnswerCompleted { request_id: 7 },
        ],
    );

    assert_eq!(output, "\nANSWER #7 [voice]\nпервая вторая\n");
    assert_eq!(renderer.stats.started, 1);
    assert_eq!(renderer.stats.completed, 1);
}

#[test]
fn defers_status_and_transcript_until_streaming_answer_finishes() {
    let mut renderer = TerminalRenderer::default();
    let output = rendered(
        &mut renderer,
        vec![
            started(3),
            delta(3, "цельный ответ"),
            status(StatusKind::Reconnecting, "Deepgram reconnect in 1s"),
            question(4, "Следующий вопрос"),
            OutputEvent::AnswerCompleted { request_id: 3 },
        ],
    );

    assert_eq!(
        output,
        "\nANSWER #3 [voice]\nцельный ответ\n\
         [reconnecting] Deepgram reconnect in 1s\n\
         \nQUESTION #4: Следующий вопрос\n"
    );
}

#[test]
fn llm_error_closes_stream_before_rendering_pending_events() {
    let mut renderer = TerminalRenderer::default();
    let output = rendered(
        &mut renderer,
        vec![
            started(9),
            status(StatusKind::Listening, "Deepgram connected"),
            failure(OutputComponent::Llm, "request #9 failed: timeout"),
        ],
    );

    assert_eq!(
        output,
        "\nANSWER #9 [voice]\n\n\
         ERROR [llm]: request #9 failed: timeout\n\
         [listening] Deepgram connected\n"
    );
    assert_eq!(renderer.stats.failed, 1);
}

#[test]
fn forwards_events_and_collects_stats() {
    let mut stats = OutputStats::default();
    for event in [
        status(StatusKind::Started, "started"),
        question(1, "Вопрос"),
        started(1),
        OutputEvent::AnswerCompleted { request_id: 1 },
        failure(OutputComponent::Llm, "timeout"),
    ] {
        assert!(stats.has_room_for(1));
        update_stats(&mut stats, &event);
    }
    assert_eq!(stats.statuses, 1);
    assert_eq!(stats.transcripts, 1);
    assert_eq!(stats.started, 1);
    assert_eq!(stats.completed, 1);
    assert_eq!(stats.failed, 1);
}

#[test]
fn applies_streaming_output_to_overlay_state() {
    let mut state = OverlayState::new();
    state.apply_output(&status(StatusKind::Listening, "connected"));
    state.apply_output(&question(1, "What is ownership?"));

    assert_eq!(state.status, "Listening");
    assert!(state.snapshot.listening);
    assert_eq!(state.snapshot.current_transcript, "What is ownership?");
    assert_eq!(state.snapshot.conversation.len(), 1);
    assert_eq!(
        state.snapshot.conversation[0].question,
        "What is ownership?"
    );
}

#[test]
fn stopped_status_requests_ui_exit() {
    let mut state = OverlayState::new();
    assert!(state.apply_output(&status(StatusKind::Stopped, "stopped")));
    assert!(!state.apply_output(&status(StatusKind::Paused, "paused")));
}

#[test]
fn applies_live_transcript_draft_to_overlay_state() {
    let mut state = OverlayState::new();
    for text in ["Как работает", "Как работает HashMap?"] {
        state.apply_output(&OutputEvent::TranscriptDraft {
            speaker: Speaker::Interviewer,
            text: text.to_owned(),
        });
    }

    assert_eq!(state.snapshot.transcript_draft, "Как работает HashMap?");
}

#[test]
fn the_status_line_follows_the_answer() {
    let mut state = OverlayState::new();
    assert_eq!(state.status, "Starting");
    state.apply_output(&started(1));
    assert_eq!(state.status, "Thinking");
    assert_eq!(state.status_css_class(), "status-working");
    assert_eq!(state.status_detail(), "Generating answer");
    state.apply_output(&OutputEvent::AnswerCompleted { request_id: 1 });
    assert_eq!(state.status, "Listening");
    state.apply_output(&OutputEvent::AnswerStarted(AnswerMeta {
        request_id: 2,
        mode: Mode::LiveCoding,
        speaker: Speaker::Interviewer,
    }));
    assert_eq!(state.status, "Updating code");
    state.apply_output(&OutputEvent::AnswerStarted(AnswerMeta {
        request_id: 3,
        mode: Mode::LiveCoding,
        speaker: Speaker::Candidate,
    }));
    assert_eq!(state.status, "Coaching");
}

#[test]
fn failures_are_shown_unless_they_are_of_the_knowledge_base() {
    let mut state = OverlayState::new();
    state.apply_output(&failure(OutputComponent::Knowledge, "no index"));
    assert_eq!(state.status, "Starting");
    assert_eq!(state.status_detail(), "knowledge: no index");
    assert_eq!(state.status_css_class(), "status-error");
    state.apply_output(&failure(OutputComponent::Stt, "gone"));
    assert_eq!(state.status, "Error");
    state.command_lost();
    assert_eq!(
        state.status_detail(),
        "app: pipeline command channel closed"
    );
}

#[test]
fn buttons_become_commands() {
    let mut state = OverlayState::new();
    assert_eq!(state.pause_clicked(), AppCommand::PauseListening);
    state.apply_output(&status(StatusKind::Paused, "paused"));
    assert_eq!(state.pause_clicked(), AppCommand::ResumeListening);
    assert_eq!(state.status_detail(), "Audio transcription paused");
    assert_eq!(state.tab_clicked(true), Some(AppCommand::ToggleLiveCoding));
    assert_eq!(state.tab_clicked(false), None);
    state.apply_output(&OutputEvent::ModeChanged {
        mode: Mode::LiveCoding,
    });
    assert_eq!(state.status, "Live coding");
    assert_eq!(state.tab_clicked(true), None);
    assert!(state.toggle_collapsed());
    assert!(!state.toggle_collapsed());
    assert_eq!(state.close_clicked(), Some(AppCommand::Shutdown));
    assert_eq!(state.close_clicked(), None);
    assert_eq!(state.status, "Stopping");
}

#[test]
fn live_coding_texts_have_placeholders() {
    let mut state = OverlayState::new();
    let texts = state.live_coding_texts();
    assert_eq!(texts.revision, "STATE r0");
    assert_eq!(texts.language, "JAVA");
    assert_eq!(texts.change_note, "No generated code yet");
    state.apply_output(&OutputEvent::LiveCodingUpdated(LiveCodingState {
        revision: 12,
        language: "rust".to_owned(),
        ..LiveCodingState::default()
    }));
    let texts = state.live_coding_texts();
    assert_eq!(texts.revision, "STATE r12");
    assert_eq!(texts.language, "rust");
    state.apply_output(&status(StatusKind::HistoryCleared, "cleared"));
    assert_eq!(state.live_coding, LiveCodingState::default());
}

#[test]
fn waiting_work_is_shown() {
    let mut state = OverlayState::new();
    assert_eq!(state.queue_text(), None);
    state.apply_output(&OutputEvent::QueueState(QueueState {
        queue: QueueKind::Audio,
        len: 17,
    }));
    assert_eq!(
        state.queue_text(),
        Some("audio 17  |  answers 0".to_owned())
    );
}

#[test]
fn empty_answers_have_a_text_of_their_own() {
    let mut turn = ConversationTurn {
        request_id: 1,
        speaker: Speaker::Candidate,
        question: "вопрос".to_owned(),
        answer: String::new(),
        answer_status: AnswerStatus::Pending,
    };
    assert_eq!(answer_text(&turn), "Waiting for answer");
    assert_eq!(answer_style(&turn), Some("answer-placeholder"));
    turn.answer_status = AnswerStatus::Failed;
    assert_eq!(answer_text(&turn), "Answer failed");
    assert_eq!(answer_style(&turn), Some("answer-error"));
    turn.answer = "ответ".to_owned();
    assert_eq!(answer_text(&turn), "ответ");
    assert_eq!(answer_style(&turn), None);
    assert_eq!(turn_titles(Speaker::Candidate), ("YOU", "COACH"));
    assert_eq!(turn_titles(Speaker::Interviewer), ("QUESTION", "ANSWER"));
    assert!(needs_rebuild(&vec![2], &vec![turn.clone()]));
    assert!(!needs_rebuild(&vec![1], &vec![turn.clone()]));
    assert!(!needs_rebuild(&Vec::new(), &vec![turn]));
    assert!(needs_rebuild(&vec![1], &Vec::new()));
}

#[test]
fn the_window_has_a_control_file_and_an_exit_status() {
    assert!(owns_pid_file("42\n", 42));
    assert!(!owns_pid_file("43\n", 42));
    assert!(overlay_outcome(0).is_ok());
    assert_eq!(
        overlay_outcome(-3).unwrap_err().message(),
        "GTK application exited with status -3"
    );
    assert_eq!(
        OverlayError::ControlPidFile {
            path: "/tmp/pid".to_owned(),
            source: "denied".to_owned(),
        }
        .message(),
        "could not write overlay control PID file `/tmp/pid`: denied"
    );
    assert_eq!(status_label(StatusKind::HistoryCleared), "History cleared");
    assert_eq!(changed_line_index(0), Some(0));
    assert_eq!(changed_line_index(3), Some(2));
    assert_eq!(changed_line_index(usize::MAX), None);
}

#[test]
fn a_failed_pipeline_is_reported_and_stopped() {
    assert_eq!(
        pipeline_failed("no runtime"),
        vec![
            failure(OutputComponent::App, "no runtime"),
            status(StatusKind::Stopped, "pipeline stopped"),
        ]
    );
}

#[test]
fn sink_errors_say_what_failed() {
    assert!(TerminalOutputError::Write("broken pipe".to_owned())
        .message()
        .contains("broken pipe"));
    assert!(!ChannelOutputError.message().is_empty());
}
