//! What the window shows.
use vstd::prelude::*;

use crate::events::{
    blank_live_coding, AppCommand, AppErrorView, AppErrorViewModel, LiveCodingState,
    LiveCodingStateModel, Mode, OutputComponent, OutputEvent, OutputEventModel, Speaker,
    StatusKind, StatusMessage, StatusMessageModel,
};
use crate::output::state::{
    after_event, blank_snapshot, AnswerStatus, AppSnapshot, AppSnapshotModel, ConnectionStatus,
    ConversationTurn, ConversationTurnModel, WorkerStatus,
};
use crate::text::{decimal, decimal_text, same_text, trim, trimmed};

verus! {

/// Why the window could not be shown.
#[derive(Debug)]
pub enum OverlayError {
    /// The file by which the window is controlled could not be written.
    ControlPidFile { path: String, source: String },
    /// The window's main loop failed.
    Exit(i32),
}

/// An integer in decimal notation.
pub open spec fn signed_decimal(n: int) -> Seq<char> {
    if n < 0 {
        "-"@ + decimal((-n) as nat)
    } else {
        decimal(n as nat)
    }
}

impl OverlayError {
    /// The failure in words.
    pub open spec fn words(self) -> Seq<char> {
        match self {
            OverlayError::ControlPidFile { path, source } =>
                "could not write overlay control PID file `"@ + path@ + "`: "@ + source@,
            OverlayError::Exit(status) => "GTK application exited with status "@
                + signed_decimal(status as int),
        }
    }

    /// The failure in words.
    pub fn message(&self) -> (r: String)
        ensures
            r@ == self.words(),
    {
        match self {
            OverlayError::ControlPidFile { path, source } => {
                let mut text = "could not write overlay control PID file `".to_owned();
                text.append(path.as_str());
                text.append("`: ");
                text.append(source.as_str());
                text
            },
            OverlayError::Exit(status) => {
                let mut text = "GTK application exited with status ".to_owned();
                let wide: i64 = *status as i64;
                if wide < 0 {
                    let mut number = "-".to_owned();
                    number.append(decimal_text((-wide) as u64).as_str());
                    text.append(number.as_str());
                } else {
                    text.append(decimal_text(wide as u64).as_str());
                }
                text
            },
        }
    }
}

/// The outcome of the window's main loop.
pub fn overlay_outcome(status: i32) -> (r: Result<(), OverlayError>)
    ensures
        status == 0 <==> r is Ok,
        r is Err ==> r->Err_0 == OverlayError::Exit(status),
{
    if status == 0 {
        Ok(())
    } else {
        Err(OverlayError::Exit(status))
    }
}

/// Whether a control file was written by the process `pid`.
pub fn owns_pid_file(contents: &str, pid: u32) -> (r: bool)
    ensures
        r == (trim(contents@) == decimal(pid as nat)),
{
    same_text(trimmed(contents).as_str(), decimal_text(pid as u64).as_str())
}

/// What the window shows, and what it was told to do.
#[derive(Debug)]
pub struct OverlayState {
    pub snapshot: AppSnapshot,
    pub live_coding: LiveCodingState,
    pub status: String,
    pub paused: bool,
    pub collapsed: bool,
    pub stopping: bool,
}

/// The value of an [`OverlayState`].
#[verifier::ext_equal]
pub struct OverlayStateModel {
    pub snapshot: AppSnapshotModel,
    pub live_coding: LiveCodingStateModel,
    pub status: Seq<char>,
    pub paused: bool,
    pub collapsed: bool,
    pub stopping: bool,
}

impl View for OverlayState {
    type V = OverlayStateModel;

    open spec fn view(&self) -> OverlayStateModel {
        OverlayStateModel {
            snapshot: self.snapshot@,
            live_coding: self.live_coding@,
            status: self.status@,
            paused: self.paused,
            collapsed: self.collapsed,
            stopping: self.stopping,
        }
    }
}

/// The word for a kind of status.
pub open spec fn status_word(kind: StatusKind) -> Seq<char> {
    match kind {
        StatusKind::Started => "Starting"@,
        StatusKind::Connecting => "Connecting"@,
        StatusKind::Listening => "Listening"@,
        StatusKind::Paused => "Paused"@,
        StatusKind::Reconnecting => "Reconnecting"@,
        StatusKind::HistoryCleared => "History cleared"@,
        StatusKind::Stopped => "Stopped"@,
    }
}

/// The word for an answer that has begun.
pub open spec fn answering_word(mode: Mode, speaker: Speaker) -> Seq<char> {
    if speaker == Speaker::Candidate {
        "Coaching"@
    } else if mode == Mode::LiveCoding {
        "Updating code"@
    } else {
        "Thinking"@
    }
}

/// The status line after an event.
pub open spec fn status_after(s: OverlayStateModel, event: OutputEventModel) -> Seq<char> {
    match event {
        OutputEventModel::ModeChanged { mode } => if mode == Mode::LiveCoding {
            "Live coding"@
        } else {
            "Listening"@
        },
        OutputEventModel::Status(status) => status_word(status.kind),
        OutputEventModel::Error(error) => if error.component == OutputComponent::Knowledge {
            s.status
        } else {
            "Error"@
        },
        OutputEventModel::AnswerStarted(meta) => answering_word(meta.mode, meta.speaker),
        OutputEventModel::AnswerCompleted { .. } => if s.paused {
            s.status
        } else {
            "Listening"@
        },
        _ => s.status,
    }
}

/// Whether speech is ignored after an event.
pub open spec fn paused_after(s: OverlayStateModel, event: OutputEventModel) -> bool {
    match event {
        OutputEventModel::Status(status) => match status.kind {
            StatusKind::Paused => true,
            StatusKind::Listening => false,
            _ => s.paused,
        },
        _ => s.paused,
    }
}

/// The live-coding task after an event.
pub open spec fn task_after(s: OverlayStateModel, event: OutputEventModel) -> LiveCodingStateModel {
    match event {
        OutputEventModel::Status(status) => if status.kind == StatusKind::HistoryCleared {
            blank_live_coding()
        } else {
            s.live_coding
        },
        OutputEventModel::LiveCodingUpdated(updated) => updated,
        _ => s.live_coding,
    }
}

/// What the window shows after an event.
pub open spec fn shown_after(s: OverlayStateModel, event: OutputEventModel) -> OverlayStateModel {
    OverlayStateModel {
        snapshot: after_event(s.snapshot, event),
        live_coding: task_after(s, event),
        status: status_after(s, event),
        paused: paused_after(s, event),
        ..s
    }
}

/// Whether an event closes the window.
pub open spec fn closes(event: OutputEventModel) -> bool {
    match event {
        OutputEventModel::Status(status) => status.kind == StatusKind::Stopped,
        _ => false,
    }
}

/// What the window shows where a command could not be handed on.
pub open spec fn undelivered(s: OverlayStateModel) -> OverlayStateModel {
    OverlayStateModel {
        snapshot: after_event(
            s.snapshot,
            OutputEventModel::Error(
                AppErrorViewModel {
                    component: OutputComponent::App,
                    message: "pipeline command channel closed"@,
                },
            ),
        ),
        status: "Error"@,
        ..s
    }
}

/// The word for a kind of status.
pub fn status_label(kind: StatusKind) -> (r: &'static str)
    ensures
        r@ == status_word(kind),
{
    match kind {
        StatusKind::Started => "Starting",
        StatusKind::Connecting => "Connecting",
        StatusKind::Listening => "Listening",
        StatusKind::Paused => "Paused",
        StatusKind::Reconnecting => "Reconnecting",
        StatusKind::HistoryCleared => "History cleared",
        StatusKind::Stopped => "Stopped",
    }
}

/// The style of the status light.
pub open spec fn status_style(s: OverlayStateModel) -> Seq<char> {
    if s.snapshot.last_error is Some {
        "status-error"@
    } else if s.paused || s.snapshot.stt_status == ConnectionStatus::Connecting
        || s.snapshot.stt_status == ConnectionStatus::Reconnecting || s.snapshot.llm_status
        == WorkerStatus::Working {
        "status-working"@
    } else if s.snapshot.listening {
        "status-listening"@
    } else {
        "status-muted"@
    }
}

/// What the last line says.
pub open spec fn detail(s: OverlayStateModel) -> Seq<char> {
    match s.snapshot.last_error {
        Some(error) => error.component.name() + ": "@ + error.message,
        None => if s.paused {
            "Audio transcription paused"@
        } else {
            match s.snapshot.llm_status {
                WorkerStatus::Working => if s.snapshot.mode == Mode::LiveCoding {
                    "Updating canonical state and code"@
                } else {
                    "Generating answer"@
                },
                WorkerStatus::Error => "Answer provider error"@,
                WorkerStatus::Idle => if s.snapshot.mode == Mode::LiveCoding {
                    "Live coding · interviewer + candidate mic · RAG off"@
                } else if s.snapshot.listening {
                    "Interviewer + candidate mic"@
                } else {
                    "Connecting to speech recognition"@
                },
            }
        },
    }
}

/// What stands in place of an answer that is empty.
pub open spec fn answer_shown(turn: ConversationTurnModel) -> Seq<char> {
    if turn.answer.len() > 0 {
        turn.answer
    } else {
        match turn.answer_status {
            AnswerStatus::Pending => "Waiting for answer"@,
            AnswerStatus::Streaming => "Thinking..."@,
            AnswerStatus::Completed => "No answer returned"@,
            AnswerStatus::Failed => "Answer failed"@,
        }
    }
}

/// The style of an answer, where it has one of its own.
pub open spec fn answer_style_name(turn: ConversationTurnModel) -> Option<Seq<char>> {
    if turn.answer.len() > 0 {
        None
    } else if turn.answer_status == AnswerStatus::Failed {
        Some("answer-error"@)
    } else {
        Some("answer-placeholder"@)
    }
}

/// The lengths of the queues, where anything waits.
pub open spec fn queue_line(s: AppSnapshotModel) -> Option<Seq<char>> {
    if s.audio_queue_len > 0 || s.llm_queue_len > 0 {
        Some(
            "audio "@ + decimal(s.audio_queue_len as nat) + "  |  answers "@ + decimal(
                s.llm_queue_len as nat,
            ),
        )
    } else {
        None
    }
}

/// A text, or another one where it is empty.
pub open spec fn or_else(text: Seq<char>, other: Seq<char>) -> Seq<char> {
    if text.len() > 0 {
        text
    } else {
        other
    }
}

fn text_or(text: &str, other: &str) -> (r: String)
    ensures
        r@ == or_else(text@, other@),
{
    if text.is_empty() {
        other.to_owned()
    } else {
        text.to_owned()
    }
}

/// The texts around the code of a live-coding task.
#[derive(Debug)]
pub struct LiveCodingTexts {
    pub revision: String,
    pub explanation: String,
    pub summary: String,
    pub language: String,
    pub change_note: String,
}

/// Whether the turns that are shown are not the first turns of the
/// conversation.
pub open spec fn outdated(shown: Seq<u64>, turns: Seq<ConversationTurnModel>) -> bool {
    shown.len() > turns.len() || exists|i: int|
        0 <= i < shown.len() && shown[i] != #[trigger] turns[i].request_id
}

/// Whether the turns that are shown have to be built anew.
pub fn needs_rebuild(shown: &Vec<u64>, conversation: &Vec<ConversationTurn>) -> (r: bool)
    ensures
        r == outdated(
            shown@,
            Seq::new(conversation@.len(), |i: int| conversation@[i]@),
        ),
{
    let ghost turns = Seq::new(conversation@.len(), |i: int| conversation@[i]@);
    if shown.len() > conversation.len() {
        return true;
    }
    let mut i: usize = 0;
    while i < shown.len()
        invariant
            i <= shown@.len() <= conversation@.len(),
            turns == Seq::new(conversation@.len(), |k: int| conversation@[k]@),
            forall|k: int| 0 <= k < i ==> shown@[k] == #[trigger] turns[k].request_id,
        decreases shown@.len() - i,
    {
        assert(turns[i as int].request_id == conversation@[i as int].request_id);
        if shown[i] != conversation[i].request_id {
            return true;
        }
        i += 1;
    }
    false
}

/// The titles of a turn.
pub fn turn_titles(speaker: Speaker) -> (r: (&'static str, &'static str))
    ensures
        speaker == Speaker::Candidate ==> r.0@ == "YOU"@ && r.1@ == "COACH"@,
        speaker != Speaker::Candidate ==> r.0@ == "QUESTION"@ && r.1@ == "ANSWER"@,
{
    if speaker == Speaker::Candidate {
        ("YOU", "COACH")
    } else {
        ("QUESTION", "ANSWER")
    }
}

/// What stands for the answer of a turn.
pub fn answer_text(turn: &ConversationTurn) -> (r: String)
    ensures
        r@ == answer_shown(turn@),
{
    if !turn.answer.as_str().is_empty() {
        return turn.answer.clone();
    }
    let text: &str = match turn.answer_status {
        AnswerStatus::Pending => "Waiting for answer",
        AnswerStatus::Streaming => "Thinking...",
        AnswerStatus::Completed => "No answer returned",
        AnswerStatus::Failed => "Answer failed",
    };
    text.to_owned()
}

/// The style of an answer, where it has one of its own.
pub fn answer_style(turn: &ConversationTurn) -> (r: Option<&'static str>)
    ensures
        match r {
            Some(style) => answer_style_name(turn@) == Some(style@),
            None => answer_style_name(turn@) is None,
        },
{
    if !turn.answer.as_str().is_empty() {
        None
    } else if turn.answer_status == AnswerStatus::Failed {
        Some("answer-error")
    } else {
        Some("answer-placeholder")
    }
}

/// The line of a text view, counted from zero, that a changed line is.
pub fn changed_line_index(line: usize) -> (r: Option<i32>)
    ensures
        ({
            let index = if line == 0 {
                0
            } else {
                line - 1
            };
            r == if index <= i32::MAX {
                Some(index as i32)
            } else {
                None
            }
        }),
{
    let index: usize = if line == 0 {
        0
    } else {
        line - 1
    };
    if index <= 2147483647 {
        Some(index as i32)
    } else {
        None
    }
}

impl OverlayState {
    /// The window before anything has happened.
    pub fn new() -> (r: Self)
        ensures
            r@ == (OverlayStateModel {
                snapshot: blank_snapshot(),
                live_coding: blank_live_coding(),
                status: "Starting"@,
                paused: false,
                collapsed: false,
                stopping: false,
            }),
    {
        OverlayState {
            snapshot: AppSnapshot::default(),
            live_coding: LiveCodingState::default(),
            status: "Starting".to_owned(),
            paused: false,
            collapsed: false,
            stopping: false,
        }
    }

    /// Takes in that a command could not be handed on.
    pub fn command_lost(&mut self)
        ensures
            final(self)@ == undelivered(old(self)@),
    {
        let event = OutputEvent::Error(
            AppErrorView {
                component: OutputComponent::App,
                message: "pipeline command channel closed".to_owned(),
            },
        );
        self.snapshot.apply(&event);
        self.status = "Error".to_owned();
    }

    /// Takes in an event. Returns whether the window closes.
    pub fn apply_output(&mut self, event: &OutputEvent) -> (r: bool)
        ensures
            final(self)@ == shown_after(old(self)@, event@),
            r == closes(event@),
    {
        let mut should_exit = false;
        match event {
            OutputEvent::ModeChanged { mode } => {
                self.status = if *mode == Mode::LiveCoding {
                    "Live coding".to_owned()
                } else {
                    "Listening".to_owned()
                };
            },
            OutputEvent::Status(status) => {
                should_exit = status.kind == StatusKind::Stopped;
                self.status = status_label(status.kind).to_owned();
                match status.kind {
                    StatusKind::Paused => {
                        self.paused = true;
                    },
                    StatusKind::Listening => {
                        self.paused = false;
                    },
                    StatusKind::HistoryCleared => {
                        self.live_coding = LiveCodingState::default();
                    },
                    _ => {},
                }
            },
            OutputEvent::Error(error) => {
                if error.component != OutputComponent::Knowledge {
                    self.status = "Error".to_owned();
                }
            },
            OutputEvent::AnswerStarted(meta) => {
                self.status = if meta.speaker == Speaker::Candidate {
                    "Coaching".to_owned()
                } else if meta.mode == Mode::LiveCoding {
                    "Updating code".to_owned()
                } else {
                    "Thinking".to_owned()
                };
            },
            OutputEvent::AnswerCompleted { .. } => {
                if !self.paused {
                    self.status = "Listening".to_owned();
                }
            },
            OutputEvent::LiveCodingUpdated(updated) => {
                self.live_coding = updated.clone();
            },
            _ => {},
        }
        self.snapshot.apply(event);
        should_exit
    }

    /// The command behind the pause button.
    pub fn pause_clicked(&self) -> (r: AppCommand)
        ensures
            r == if self@.paused {
                AppCommand::ResumeListening
            } else {
                AppCommand::PauseListening
            },
    {
        if self.paused {
            AppCommand::ResumeListening
        } else {
            AppCommand::PauseListening
        }
    }

    /// The command behind the tab for interviews, or for live coding.
    pub fn tab_clicked(&self, coding: bool) -> (r: Option<AppCommand>)
        ensures
            r == if coding == (self@.snapshot.mode == Mode::LiveCoding) {
                None
            } else {
                Some(AppCommand::ToggleLiveCoding)
            },
    {
        if coding == (self.snapshot.mode == Mode::LiveCoding) {
            None
        } else {
            Some(AppCommand::ToggleLiveCoding)
        }
    }

    /// The command behind the close button: only the first click counts.
    pub fn close_clicked(&mut self) -> (r: Option<AppCommand>)
        ensures
            r == if old(self)@.stopping {
                None
            } else {
                Some(AppCommand::Shutdown)
            },
            final(self)@ == if old(self)@.stopping {
                old(self)@
            } else {
                OverlayStateModel { stopping: true, status: "Stopping"@, ..old(self)@ }
            },
    {
        if self.stopping {
            return None;
        }
        self.stopping = true;
        self.status = "Stopping".to_owned();
        Some(AppCommand::Shutdown)
    }

    /// Collapses the window, or shows it whole. Returns whether it is
    /// collapsed.
    pub fn toggle_collapsed(&mut self) -> (r: bool)
        ensures
            r == !old(self)@.collapsed,
            final(self)@ == (OverlayStateModel { collapsed: r, ..old(self)@ }),
    {
        self.collapsed = !self.collapsed;
        self.collapsed
    }

    /// The style of the status light.
    pub fn status_css_class(&self) -> (r: &'static str)
        ensures
            r@ == status_style(self@),
    {
        if self.snapshot.last_error.is_some() {
            return "status-error";
        }
        if self.paused || self.snapshot.stt_status == ConnectionStatus::Connecting
            || self.snapshot.stt_status == ConnectionStatus::Reconnecting
            || self.snapshot.llm_status == WorkerStatus::Working {
            return "status-working";
        }
        if self.snapshot.listening {
            "status-listening"
        } else {
            "status-muted"
        }
    }

    /// What the last line says.
    pub fn status_detail(&self) -> (r: String)
        ensures
            r@ == detail(self@),
    {
        if let Some(error) = &self.snapshot.last_error {
            let mut text = error.component.label().to_owned();
            text.append(": ");
            text.append(error.message.as_str());
            return text;
        }
        if self.paused {
            return "Audio transcription paused".to_owned();
        }
        match self.snapshot.llm_status {
            WorkerStatus::Working => if self.snapshot.mode == Mode::LiveCoding {
                "Updating canonical state and code".to_owned()
            } else {
                "Generating answer".to_owned()
            },
            WorkerStatus::Error => "Answer provider error".to_owned(),
            WorkerStatus::Idle => if self.snapshot.mode == Mode::LiveCoding {
                "Live coding · interviewer + candidate mic · RAG off".to_owned()
            } else if self.snapshot.listening {
                "Interviewer + candidate mic".to_owned()
            } else {
                "Connecting to speech recognition".to_owned()
            },
        }
    }

    /// The lengths of the queues, where anything waits.
    pub fn queue_text(&self) -> (r: Option<String>)
        ensures
            match r {
                Some(text) => queue_line(self@.snapshot) == Some(text@),
                None => queue_line(self@.snapshot) is None,
            },
    {
        if self.snapshot.audio_queue_len > 0 || self.snapshot.llm_queue_len > 0 {
            let mut text = "audio ".to_owned();
            text.append(decimal_text(self.snapshot.audio_queue_len as u64).as_str());
            text.append("  |  answers ");
            text.append(decimal_text(self.snapshot.llm_queue_len as u64).as_str());
            Some(text)
        } else {
            None
        }
    }

    /// The texts around the code of the live-coding task.
    pub fn live_coding_texts(&self) -> (r: LiveCodingTexts)
        ensures
            r.revision@ == "STATE r"@ + decimal(self@.live_coding.revision as nat),
            r.explanation@ == or_else(
                self@.live_coding.explanation,
                "A short explanation will appear with the solution"@,
            ),
            r.summary@ == or_else(
                self@.live_coding.summary,
                "Summary will appear after the first task segment"@,
            ),
            r.language@ == or_else(self@.live_coding.language, "JAVA"@),
            r.change_note@ == or_else(self@.live_coding.change_note, "No generated code yet"@),
    {
        let mut revision = "STATE r".to_owned();
        revision.append(decimal_text(self.live_coding.revision).as_str());
        LiveCodingTexts {
            revision,
            explanation: text_or(
                self.live_coding.explanation.as_str(),
                "A short explanation will appear with the solution",
            ),
            summary: text_or(
                self.live_coding.summary.as_str(),
                "Summary will appear after the first task segment",
            ),
            language: text_or(self.live_coding.language.as_str(), "JAVA"),
            change_note: text_or(
                self.live_coding.change_note.as_str(),
                "No generated code yet",
            ),
        }
    }
}

/// What an observer is told where the pipeline has failed.
pub fn pipeline_failed(message: &str) -> (r: Vec<OutputEvent>)
    ensures
        r@.len() == 2,
        r@[0]@ == OutputEventModel::Error(
            AppErrorViewModel { component: OutputComponent::App, message: message@ },
        ),
        r@[1]@ == OutputEventModel::Status(
            StatusMessageModel { kind: StatusKind::Stopped, text: "pipeline stopped"@ },
        ),
{
    let mut events: Vec<OutputEvent> = Vec::new();
    events.push(
        OutputEvent::Error(
            AppErrorView { component: OutputComponent::App, message: message.to_owned() },
        ),
    );
    events.push(
        OutputEvent::Status(
            StatusMessage { kind: StatusKind::Stopped, text: "pipeline stopped".to_owned() },
        ),
    );
    events
}

/// An event neither folds the window nor takes back that it is closing.
pub proof fn events_leave_the_window_alone(s: OverlayStateModel, event: OutputEventModel)
    ensures
        shown_after(s, event).collapsed == s.collapsed,
        shown_after(s, event).stopping == s.stopping,
{
}

/// Clearing the history clears the live-coding task and the conversation.
pub proof fn clearing_leaves_nothing(s: OverlayStateModel, text: Seq<char>)
    ensures
        ({
            let cleared = shown_after(
                s,
                OutputEventModel::Status(
                    StatusMessageModel { kind: StatusKind::HistoryCleared, text },
                ),
            );
            cleared.live_coding == blank_live_coding() && cleared.snapshot.conversation.len() == 0
                && cleared.snapshot.transcript_draft.len() == 0
        }),
{
}

/// A failure of the knowledge base leaves the status line as it is; every
/// other failure is shown there.
pub proof fn knowledge_failures_are_quiet(s: OverlayStateModel, error: AppErrorViewModel)
    ensures
        error.component == OutputComponent::Knowledge ==> shown_after(
            s,
            OutputEventModel::Error(error),
        ).status == s.status,
        error.component != OutputComponent::Knowledge ==> shown_after(
            s,
            OutputEventModel::Error(error),
        ).status == "Error"@,
{
}

/// What is told changes the words and the marks of the window: each kind of
/// event has words of its own, and the others leave them.
pub proof fn events_change_the_words_of_the_window(
    s: OverlayStateModel,
    mode: Mode,
    speaker: Speaker,
    id: u64,
    text: Seq<char>,
)
    ensures
        shown_after(s, OutputEventModel::ModeChanged { mode }).status == if mode
            == Mode::LiveCoding {
            "Live coding"@
        } else {
            "Listening"@
        },
        ({
            let meta = crate::events::AnswerMeta { request_id: id, mode, speaker };
            let after = shown_after(s, OutputEventModel::AnswerStarted(meta)).status;
            &&& speaker == Speaker::Candidate ==> after == "Coaching"@
            &&& speaker != Speaker::Candidate && mode == Mode::LiveCoding ==> after
                == "Updating code"@
            &&& speaker != Speaker::Candidate && mode != Mode::LiveCoding ==> after == "Thinking"@
        }),
        shown_after(s, OutputEventModel::AnswerCompleted { request_id: id }).status == if s.paused {
            s.status
        } else {
            "Listening"@
        },
        shown_after(s, OutputEventModel::TranscriptDraft { speaker, text }).status == s.status,
        shown_after(s, OutputEventModel::AnswerDelta { request_id: id, text }).status == s.status,
        ({
            let after = |kind: StatusKind|
                shown_after(s, OutputEventModel::Status(StatusMessageModel { kind, text }));
            &&& after(StatusKind::Started).status == "Starting"@
            &&& after(StatusKind::Connecting).status == "Connecting"@
            &&& after(StatusKind::Listening).status == "Listening"@
            &&& after(StatusKind::Paused).status == "Paused"@
            &&& after(StatusKind::Reconnecting).status == "Reconnecting"@
            &&& after(StatusKind::HistoryCleared).status == "History cleared"@
            &&& after(StatusKind::Stopped).status == "Stopped"@
            &&& after(StatusKind::Paused).paused
            &&& !after(StatusKind::Listening).paused
            &&& after(StatusKind::Started).paused == s.paused
            &&& after(StatusKind::Connecting).paused == s.paused
            &&& after(StatusKind::Reconnecting).paused == s.paused
            &&& after(StatusKind::HistoryCleared).paused == s.paused
            &&& after(StatusKind::Stopped).paused == s.paused
            &&& after(StatusKind::Listening).live_coding == s.live_coding
            &&& after(StatusKind::Stopped).live_coding == s.live_coding
        }),
        closes(
            OutputEventModel::Status(StatusMessageModel { kind: StatusKind::Stopped, text }),
        ),
        !closes(
            OutputEventModel::Status(StatusMessageModel { kind: StatusKind::Paused, text }),
        ),
        !closes(OutputEventModel::ModeChanged { mode }),
{
}

/// A task is shown in its latest state, and each event is shown in the snapshot.
pub proof fn tasks_are_shown_in_their_latest_state(
    s: OverlayStateModel,
    state: LiveCodingStateModel,
    event: OutputEventModel,
)
    ensures
        shown_after(s, OutputEventModel::LiveCodingUpdated(state)).live_coding == state,
        shown_after(s, event).snapshot == after_event(s.snapshot, event),
        !(event is Status) && !(event is LiveCodingUpdated) ==> shown_after(s, event).live_coding
            == s.live_coding,
        undelivered(s).status == "Error"@,
        undelivered(s).paused == s.paused,
        undelivered(s).live_coding == s.live_coding,
        undelivered(s).snapshot.last_error == Some(
            AppErrorViewModel {
                component: OutputComponent::App,
                message: "pipeline command channel closed"@,
            },
        ),
{
}

/// The style tells of an error before anything else, then of work, then of
/// listening; the line below tells the same in words.
pub proof fn errors_are_told_before_anything_else(s: OverlayStateModel)
    ensures
        ({
            let works = s.paused || s.snapshot.stt_status == ConnectionStatus::Connecting
                || s.snapshot.stt_status == ConnectionStatus::Reconnecting || s.snapshot.llm_status
                == WorkerStatus::Working;
            let calm = s.snapshot.last_error is None;
            &&& !calm ==> status_style(s) == "status-error"@
            &&& calm && works ==> status_style(s) == "status-working"@
            &&& calm && !works && s.snapshot.listening ==> status_style(s) == "status-listening"@
            &&& calm && !works && !s.snapshot.listening ==> status_style(s) == "status-muted"@
            &&& s.snapshot.last_error matches Some(error) ==> detail(s) == error.component.name()
                + seq![':', ' '] + error.message
            &&& calm && s.paused ==> detail(s) == "Audio transcription paused"@
            &&& calm && !s.paused && s.snapshot.llm_status == WorkerStatus::Error ==> detail(s)
                == "Answer provider error"@
            &&& calm && !s.paused && s.snapshot.llm_status == WorkerStatus::Working
                && s.snapshot.mode == Mode::LiveCoding ==> detail(s)
                == "Updating canonical state and code"@
            &&& calm && !s.paused && s.snapshot.llm_status == WorkerStatus::Working
                && s.snapshot.mode != Mode::LiveCoding ==> detail(s) == "Generating answer"@
            &&& calm && !s.paused && s.snapshot.llm_status == WorkerStatus::Idle && s.snapshot.mode
                == Mode::LiveCoding ==> detail(s)
                == "Live coding · interviewer + candidate mic · RAG off"@
            &&& calm && !s.paused && s.snapshot.llm_status == WorkerStatus::Idle && s.snapshot.mode
                != Mode::LiveCoding && s.snapshot.listening ==> detail(s)
                == "Interviewer + candidate mic"@
            &&& calm && !s.paused && s.snapshot.llm_status == WorkerStatus::Idle && s.snapshot.mode
                != Mode::LiveCoding && !s.snapshot.listening ==> detail(s)
                == "Connecting to speech recognition"@
        }),
{
    reveal_strlit(": ");
    assert(": "@ =~= seq![':', ' ']);
}

/// An answer is shown as far as it has come, and words stand in for one that has
/// no text; queues are told of where there is something in them.
pub proof fn answers_are_shown_as_far_as_they_have_come(
    turn: ConversationTurnModel,
    s: AppSnapshotModel,
)
    ensures
        turn.answer.len() > 0 ==> answer_shown(turn) == turn.answer && answer_style_name(
            turn,
        ) is None,
        turn.answer.len() == 0 && turn.answer_status == AnswerStatus::Pending ==> answer_shown(turn)
            == "Waiting for answer"@ && answer_style_name(turn) == Some("answer-placeholder"@),
        turn.answer.len() == 0 && turn.answer_status == AnswerStatus::Streaming ==> answer_shown(
            turn,
        ) == "Thinking..."@ && answer_style_name(turn) == Some("answer-placeholder"@),
        turn.answer.len() == 0 && turn.answer_status == AnswerStatus::Completed ==> answer_shown(
            turn,
        ) == "No answer returned"@ && answer_style_name(turn) == Some("answer-placeholder"@),
        turn.answer.len() == 0 && turn.answer_status == AnswerStatus::Failed ==> answer_shown(turn)
            == "Answer failed"@ && answer_style_name(turn) == Some("answer-error"@),
        queue_line(s) is Some <==> s.audio_queue_len + s.llm_queue_len > 0,
        queue_line(s) matches Some(line) ==> line == "audio "@ + decimal(s.audio_queue_len as nat)
            + "  |  answers "@ + decimal(s.llm_queue_len as nat),
{
}

/// What is shown of a conversation still fits exactly where it is the beginning
/// of it.
pub proof fn conversations_only_grow(shown: Seq<u64>, turns: Seq<ConversationTurnModel>)
    ensures
        !outdated(shown, turns) <==> shown.len() <= turns.len() && forall|i: int|
            0 <= i < shown.len() ==> shown[i] == (#[trigger] turns[i]).request_id,
{
}

/// A number below zero is told by a minus sign and its digits, any other by its
/// digits alone.
pub proof fn minus_signs_stand_before_digits(n: nat)
    ensures
        signed_decimal(n as int) == decimal(n),
        n > 0 ==> signed_decimal(-(n as int)) == seq!['-'] + decimal(n),
{
    reveal_strlit("-");
    assert("-"@ =~= seq!['-']);
}

} // verus!
