//! What an observer of the pipeline knows: the reduction of all output events
//! so far to one snapshot.
use vstd::prelude::*;

use crate::events::{
    AppErrorView, AppErrorViewModel, Mode, OutputComponent, OutputEvent, OutputEventModel,
    QueueKind, Speaker, StatusKind,
};

verus! {

/// Where the connection to the recogniser stands.
#[derive(Clone, Copy, Debug, PartialEq, Eq, Structural)]
pub enum ConnectionStatus {
    Disconnected,
    Connecting,
    Connected,
    Reconnecting,
    Error,
}

/// What the model worker does.
#[derive(Clone, Copy, Debug, PartialEq, Eq, Structural)]
pub enum WorkerStatus {
    Idle,
    Working,
    Error,
}

/// How far an answer has come.
#[derive(Clone, Copy, Debug, PartialEq, Eq, Structural)]
pub enum AnswerStatus {
    Pending,
    Streaming,
    Completed,
    Failed,
}

impl Default for ConnectionStatus {
    fn default() -> (r: Self)
        ensures
            r == ConnectionStatus::Disconnected,
    {
        ConnectionStatus::Disconnected
    }
}

impl Default for WorkerStatus {
    fn default() -> (r: Self)
        ensures
            r == WorkerStatus::Idle,
    {
        WorkerStatus::Idle
    }
}

impl Default for AnswerStatus {
    fn default() -> (r: Self)
        ensures
            r == AnswerStatus::Pending,
    {
        AnswerStatus::Pending
    }
}

/// A question and its answer.
#[derive(Debug, PartialEq, Eq)]
pub struct ConversationTurn {
    pub request_id: u64,
    pub speaker: Speaker,
    pub question: String,
    pub answer: String,
    pub answer_status: AnswerStatus,
}

/// The value of a [`ConversationTurn`].
#[verifier::ext_equal]
pub struct ConversationTurnModel {
    pub request_id: u64,
    pub speaker: Speaker,
    pub question: Seq<char>,
    pub answer: Seq<char>,
    pub answer_status: AnswerStatus,
}

impl View for ConversationTurn {
    type V = ConversationTurnModel;

    open spec fn view(&self) -> ConversationTurnModel {
        ConversationTurnModel {
            request_id: self.request_id,
            speaker: self.speaker,
            question: self.question@,
            answer: self.answer@,
            answer_status: self.answer_status,
        }
    }
}

impl Clone for ConversationTurn {
    fn clone(&self) -> (r: Self)
        ensures
            r@ == self@,
    {
        ConversationTurn {
            request_id: self.request_id,
            speaker: self.speaker,
            question: self.question.clone(),
            answer: self.answer.clone(),
            answer_status: self.answer_status,
        }
    }
}

/// What all output events so far amount to.
#[derive(Debug, PartialEq, Eq)]
pub struct AppSnapshot {
    pub mode: Mode,
    pub running: bool,
    pub listening: bool,
    pub stt_status: ConnectionStatus,
    pub llm_status: WorkerStatus,
    pub transcript_draft: String,
    pub current_transcript: String,
    pub current_answer_id: Option<u64>,
    pub current_answer: String,
    pub audio_queue_len: usize,
    pub llm_queue_len: usize,
    pub last_error: Option<AppErrorView>,
    pub conversation: Vec<ConversationTurn>,
}

/// The value of a [`AppSnapshot`].
#[verifier::ext_equal]
pub struct AppSnapshotModel {
    pub mode: Mode,
    pub running: bool,
    pub listening: bool,
    pub stt_status: ConnectionStatus,
    pub llm_status: WorkerStatus,
    pub transcript_draft: Seq<char>,
    pub current_transcript: Seq<char>,
    pub current_answer_id: Option<u64>,
    pub current_answer: Seq<char>,
    pub audio_queue_len: usize,
    pub llm_queue_len: usize,
    pub last_error: Option<AppErrorViewModel>,
    pub conversation: Seq<ConversationTurnModel>,
}

impl View for AppSnapshot {
    type V = AppSnapshotModel;

    open spec fn view(&self) -> AppSnapshotModel {
        AppSnapshotModel {
            mode: self.mode,
            running: self.running,
            listening: self.listening,
            stt_status: self.stt_status,
            llm_status: self.llm_status,
            transcript_draft: self.transcript_draft@,
            current_transcript: self.current_transcript@,
            current_answer_id: self.current_answer_id,
            current_answer: self.current_answer@,
            audio_queue_len: self.audio_queue_len,
            llm_queue_len: self.llm_queue_len,
            last_error: match self.last_error { Some(inner) => Some(inner@), None => None },
            conversation: Seq::new(self.conversation@.len(), |i: int| self.conversation@[i]@),
        }
    }
}

/// The snapshot before any event.
pub open spec fn blank_snapshot() -> AppSnapshotModel {
    AppSnapshotModel {
        mode: Mode::Voice,
        running: false,
        listening: false,
        stt_status: ConnectionStatus::Disconnected,
        llm_status: WorkerStatus::Idle,
        transcript_draft: Seq::empty(),
        current_transcript: Seq::empty(),
        current_answer_id: None,
        current_answer: Seq::empty(),
        audio_queue_len: 0,
        llm_queue_len: 0,
        last_error: None,
        conversation: Seq::empty(),
    }
}

impl Default for AppSnapshot {
    fn default() -> (r: Self)
        ensures
            r@ == blank_snapshot(),
    {
        let r = AppSnapshot {
            mode: Mode::Voice,
            running: false,
            listening: false,
            stt_status: ConnectionStatus::Disconnected,
            llm_status: WorkerStatus::Idle,
            transcript_draft: String::new(),
            current_transcript: String::new(),
            current_answer_id: None,
            current_answer: String::new(),
            audio_queue_len: 0,
            llm_queue_len: 0,
            last_error: None,
            conversation: Vec::new(),
        };
        assert(r@ =~= blank_snapshot());
        r
    }
}

/// Where the first turn of a request stands, or the number of turns where
/// there is none.
pub open spec fn turn_position(turns: Seq<ConversationTurnModel>, request_id: u64) -> int
    decreases turns.len(),
{
    if turns.len() == 0 {
        0
    } else if turns[0].request_id == request_id {
        0
    } else {
        1 + turn_position(turns.drop_first(), request_id)
    }
}

/// The turns with the first turn of a request, if there is one, replaced.
pub open spec fn with_turn(
    turns: Seq<ConversationTurnModel>,
    request_id: u64,
    turn: ConversationTurnModel,
) -> Seq<ConversationTurnModel> {
    let at = turn_position(turns, request_id);
    if at < turns.len() {
        turns.update(at, turn)
    } else {
        turns
    }
}

/// The turns with the answer to a request set to `answer` and `status`.
pub open spec fn with_answer(
    turns: Seq<ConversationTurnModel>,
    request_id: u64,
    answer: Seq<char>,
    status: AnswerStatus,
) -> Seq<ConversationTurnModel> {
    let turn = turns[turn_position(turns, request_id)];
    with_turn(
        turns,
        request_id,
        ConversationTurnModel { answer: answer, answer_status: status, ..turn },
    )
}

/// The first turn of a request.
pub open spec fn turn_of(turns: Seq<ConversationTurnModel>, request_id: u64) -> ConversationTurnModel {
    turns[turn_position(turns, request_id)]
}

/// The snapshot after a status message.
pub open spec fn after_status(s: AppSnapshotModel, kind: StatusKind) -> AppSnapshotModel {
    match kind {
        StatusKind::Started => AppSnapshotModel { running: true, last_error: None, ..s },
        StatusKind::Connecting => AppSnapshotModel {
            listening: false,
            stt_status: ConnectionStatus::Connecting,
            ..s
        },
        StatusKind::Listening => AppSnapshotModel {
            listening: true,
            stt_status: ConnectionStatus::Connected,
            last_error: None,
            ..s
        },
        StatusKind::Paused => AppSnapshotModel { listening: false, ..s },
        StatusKind::Reconnecting => AppSnapshotModel {
            listening: false,
            stt_status: ConnectionStatus::Reconnecting,
            ..s
        },
        StatusKind::HistoryCleared => AppSnapshotModel {
            transcript_draft: Seq::empty(),
            current_transcript: Seq::empty(),
            current_answer_id: None,
            current_answer: Seq::empty(),
            conversation: Seq::empty(),
            ..s
        },
        StatusKind::Stopped => AppSnapshotModel {
            running: false,
            listening: false,
            stt_status: ConnectionStatus::Disconnected,
            llm_status: WorkerStatus::Idle,
            ..s
        },
    }
}

/// The snapshot after a failure.
pub open spec fn after_error(s: AppSnapshotModel, error: AppErrorViewModel) -> AppSnapshotModel {
    match error.component {
        OutputComponent::Stt => AppSnapshotModel {
            last_error: Some(error),
            listening: false,
            stt_status: ConnectionStatus::Error,
            ..s
        },
        OutputComponent::Llm => AppSnapshotModel {
            last_error: Some(error),
            llm_status: WorkerStatus::Error,
            conversation: match s.current_answer_id {
                Some(id) => with_answer(
                    s.conversation,
                    id,
                    turn_of(s.conversation, id).answer,
                    AnswerStatus::Failed,
                ),
                None => s.conversation,
            },
            ..s
        },
        _ => AppSnapshotModel { last_error: Some(error), ..s },
    }
}

/// The snapshot after an event.
pub open spec fn after_event(s: AppSnapshotModel, event: OutputEventModel) -> AppSnapshotModel {
    match event {
        OutputEventModel::ModeChanged { mode } => AppSnapshotModel { mode: mode, ..s },
        OutputEventModel::Status(status) => after_status(s, status.kind),
        OutputEventModel::TranscriptDraft { speaker, text } => if speaker == Speaker::Interviewer {
            AppSnapshotModel { transcript_draft: text, ..s }
        } else {
            s
        },
        OutputEventModel::Transcript(transcript) => if transcript.mode == Mode::LiveCoding {
            s
        } else {
            AppSnapshotModel {
                current_transcript: transcript.text,
                conversation: if turn_position(s.conversation, transcript.sequence)
                    < s.conversation.len() {
                    with_turn(
                        s.conversation,
                        transcript.sequence,
                        ConversationTurnModel {
                            question: transcript.text,
                            ..turn_of(s.conversation, transcript.sequence)
                        },
                    )
                } else {
                    s.conversation.push(
                        ConversationTurnModel {
                            request_id: transcript.sequence,
                            speaker: transcript.speaker,
                            question: transcript.text,
                            answer: Seq::empty(),
                            answer_status: AnswerStatus::Pending,
                        },
                    )
                },
                ..s
            }
        },
        OutputEventModel::AnswerStarted(meta) => AppSnapshotModel {
            llm_status: WorkerStatus::Working,
            current_answer_id: Some(meta.request_id),
            current_answer: Seq::empty(),
            last_error: None,
            conversation: with_answer(
                s.conversation,
                meta.request_id,
                Seq::empty(),
                AnswerStatus::Streaming,
            ),
            ..s
        },
        OutputEventModel::AnswerDelta { request_id, text } => if s.current_answer_id == Some(
            request_id,
        ) {
            AppSnapshotModel {
                current_answer: s.current_answer + text,
                conversation: with_answer(
                    s.conversation,
                    request_id,
                    turn_of(s.conversation, request_id).answer + text,
                    turn_of(s.conversation, request_id).answer_status,
                ),
                ..s
            }
        } else {
            s
        },
        OutputEventModel::AnswerCompleted { request_id } => if s.current_answer_id == Some(
            request_id,
        ) {
            AppSnapshotModel {
                llm_status: WorkerStatus::Idle,
                conversation: with_answer(
                    s.conversation,
                    request_id,
                    turn_of(s.conversation, request_id).answer,
                    AnswerStatus::Completed,
                ),
                ..s
            }
        } else {
            s
        },
        OutputEventModel::QueueState(queue) => match queue.queue {
            QueueKind::Audio => AppSnapshotModel { audio_queue_len: queue.len, ..s },
            QueueKind::Llm => AppSnapshotModel { llm_queue_len: queue.len, ..s },
        },
        OutputEventModel::Error(error) => after_error(s, error),
        _ => s,
    }
}

/// The values of the turns.
pub open spec fn turn_models(turns: Seq<ConversationTurn>) -> Seq<ConversationTurnModel> {
    Seq::new(turns.len(), |i: int| turns[i]@)
}

proof fn turn_position_is_first(turns: Seq<ConversationTurnModel>, request_id: u64)
    ensures
        0 <= turn_position(turns, request_id) <= turns.len(),
        turn_position(turns, request_id) < turns.len() ==> turns[turn_position(
            turns,
            request_id,
        )].request_id == request_id,
        forall|k: int|
            0 <= k < turn_position(turns, request_id) ==> (#[trigger] turns[k]).request_id
                != request_id,
    decreases turns.len(),
{
    if turns.len() > 0 && turns[0].request_id != request_id {
        let rest = turns.drop_first();
        turn_position_is_first(rest, request_id);
        assert forall|k: int| 0 <= k < turn_position(turns, request_id) implies (
        #[trigger] turns[k]).request_id != request_id by {
            if k > 0 {
                assert(turns[k] == rest[k - 1]);
            }
        }
    }
}

fn find_turn(turns: &Vec<ConversationTurn>, request_id: u64) -> (r: usize)
    ensures
        r == turn_position(turn_models(turns@), request_id),
        r <= turns@.len(),
{
    let ghost all = turn_models(turns@);
    let mut i: usize = 0;
    proof {
        turn_position_is_first(all, request_id);
    }
    while i < turns.len()
        invariant
            all == turn_models(turns@),
            i <= turns@.len(),
            i <= turn_position(all, request_id) <= all.len(),
            turn_position(all, request_id) < all.len() ==> all[turn_position(
                all,
                request_id,
            )].request_id == request_id,
            forall|k: int|
                0 <= k < turn_position(all, request_id) ==> (#[trigger] all[k]).request_id
                    != request_id,
        decreases turns@.len() - i,
    {
        assert(all[i as int].request_id == turns@[i as int].request_id);
        if turns[i].request_id == request_id {
            return i;
        }
        i += 1;
    }
    i
}

/// Sets what `with_answer` says in the turns.
fn set_answer(turns: &mut Vec<ConversationTurn>, at: usize, answer: String, status: AnswerStatus)
    requires
        at < old(turns)@.len(),
    ensures
        turn_models(final(turns)@) == turn_models(old(turns)@).update(
            at as int,
            ConversationTurnModel {
                answer: answer@,
                answer_status: status,
                ..turn_models(old(turns)@)[at as int]
            },
        ),
{
    let turn = ConversationTurn {
        request_id: turns[at].request_id,
        speaker: turns[at].speaker,
        question: turns[at].question.clone(),
        answer: answer,
        answer_status: status,
    };
    turns.set(at, turn);
    assert(turn_models(turns@) =~= turn_models(old(turns)@).update(at as int, turn@));
}

impl AppSnapshot {
    /// Takes in one event.
    pub fn apply(&mut self, event: &OutputEvent)
        ensures
            final(self)@ == after_event(old(self)@, event@),
    {
        match event {
            OutputEvent::ModeChanged { mode } => {
                self.mode = *mode;
            },
            OutputEvent::Status(status) => {
                self.apply_status(status.kind);
            },
            OutputEvent::TranscriptDraft { speaker, text } => {
                if *speaker == Speaker::Interviewer {
                    self.transcript_draft = text.clone();
                }
            },
            OutputEvent::Transcript(transcript) => {
                if transcript.mode != Mode::LiveCoding {
                    self.current_transcript = transcript.text.clone();
                    let at: usize = find_turn(&self.conversation, transcript.sequence);
                    if at < self.conversation.len() {
                        let turn = ConversationTurn {
                            request_id: self.conversation[at].request_id,
                            speaker: self.conversation[at].speaker,
                            question: transcript.text.clone(),
                            answer: self.conversation[at].answer.clone(),
                            answer_status: self.conversation[at].answer_status,
                        };
                        self.conversation.set(at, turn);
                    } else {
                        self.conversation.push(
                            ConversationTurn {
                                request_id: transcript.sequence,
                                speaker: transcript.speaker,
                                question: transcript.text.clone(),
                                answer: String::new(),
                                answer_status: AnswerStatus::Pending,
                            },
                        );
                    }
                }
            },
            OutputEvent::AnswerStarted(meta) => {
                self.llm_status = WorkerStatus::Working;
                self.current_answer_id = Some(meta.request_id);
                self.current_answer = String::new();
                self.last_error = None;
                let at: usize = find_turn(&self.conversation, meta.request_id);
                if at < self.conversation.len() {
                    set_answer(
                        &mut self.conversation,
                        at,
                        String::new(),
                        AnswerStatus::Streaming,
                    );
                }
            },
            OutputEvent::AnswerDelta { request_id, text } => {
                if self.current_answer_id == Some(*request_id) {
                    self.current_answer.append(text.as_str());
                    let at: usize = find_turn(&self.conversation, *request_id);
                    if at < self.conversation.len() {
                        let mut answer = self.conversation[at].answer.clone();
                        answer.append(text.as_str());
                        let status = self.conversation[at].answer_status;
                        set_answer(&mut self.conversation, at, answer, status);
                    }
                }
            },
            OutputEvent::AnswerCompleted { request_id } => {
                if self.current_answer_id == Some(*request_id) {
                    self.llm_status = WorkerStatus::Idle;
                    let at: usize = find_turn(&self.conversation, *request_id);
                    if at < self.conversation.len() {
                        let answer = self.conversation[at].answer.clone();
                        set_answer(&mut self.conversation, at, answer, AnswerStatus::Completed);
                    }
                }
            },
            OutputEvent::QueueState(queue) => {
                match queue.queue {
                    QueueKind::Audio => {
                        self.audio_queue_len = queue.len;
                    },
                    QueueKind::Llm => {
                        self.llm_queue_len = queue.len;
                    },
                }
            },
            OutputEvent::Error(error) => {
                self.apply_error(error);
            },
            OutputEvent::SttObservation { .. } => {},
            OutputEvent::Retrieval(_) => {},
            OutputEvent::LlmQueued { .. } => {},
            OutputEvent::AnswerUsage { .. } => {},
            OutputEvent::LiveCodingUpdated(_) => {},
        }
        assert(self@ =~= after_event(old(self)@, event@));
    }

    fn apply_status(&mut self, kind: StatusKind)
        ensures
            final(self)@ == after_status(old(self)@, kind),
    {
        match kind {
            StatusKind::Started => {
                self.running = true;
                self.last_error = None;
            },
            StatusKind::Connecting => {
                self.listening = false;
                self.stt_status = ConnectionStatus::Connecting;
            },
            StatusKind::Listening => {
                self.listening = true;
                self.stt_status = ConnectionStatus::Connected;
                self.last_error = None;
            },
            StatusKind::Paused => {
                self.listening = false;
            },
            StatusKind::Reconnecting => {
                self.listening = false;
                self.stt_status = ConnectionStatus::Reconnecting;
            },
            StatusKind::HistoryCleared => {
                self.transcript_draft = String::new();
                self.current_transcript = String::new();
                self.current_answer_id = None;
                self.current_answer = String::new();
                self.conversation = Vec::new();
            },
            StatusKind::Stopped => {
                self.running = false;
                self.listening = false;
                self.stt_status = ConnectionStatus::Disconnected;
                self.llm_status = WorkerStatus::Idle;
            },
        }
        assert(self@ =~= after_status(old(self)@, kind));
    }

    fn apply_error(&mut self, error: &AppErrorView)
        ensures
            final(self)@ == after_error(old(self)@, error@),
    {
        self.last_error = Some(error.clone());
        match error.component {
            OutputComponent::Stt => {
                self.listening = false;
                self.stt_status = ConnectionStatus::Error;
            },
            OutputComponent::Llm => {
                self.llm_status = WorkerStatus::Error;
                if let Some(request_id) = self.current_answer_id {
                    let at: usize = find_turn(&self.conversation, request_id);
                    if at < self.conversation.len() {
                        let answer = self.conversation[at].answer.clone();
                        set_answer(&mut self.conversation, at, answer, AnswerStatus::Failed);
                    }
                }
            },
            _ => {},
        }
        assert(self@ =~= after_error(old(self)@, error@));
    }
}

/// The snapshot after all the events, in order.
pub open spec fn after_events(s: AppSnapshotModel, events: Seq<OutputEventModel>) -> AppSnapshotModel
    decreases events.len(),
{
    if events.len() == 0 {
        s
    } else {
        after_event(after_events(s, events.drop_last()), events.last())
    }
}

/// Whether no request has two turns.
pub open spec fn one_turn_each(turns: Seq<ConversationTurnModel>) -> bool {
    forall|i: int, j: int|
        0 <= i < j < turns.len() ==> (#[trigger] turns[i]).request_id != (
        #[trigger] turns[j]).request_id
}

/// No event gives a request a second turn.
pub proof fn a_request_keeps_one_turn(s: AppSnapshotModel, event: OutputEventModel)
    requires
        one_turn_each(s.conversation),
    ensures
        one_turn_each(after_event(s, event).conversation),
{
    let turns = s.conversation;
    match event {
        OutputEventModel::Transcript(transcript) => {
            turn_position_is_first(turns, transcript.sequence);
        },
        OutputEventModel::AnswerStarted(meta) => {
            turn_position_is_first(turns, meta.request_id);
        },
        OutputEventModel::AnswerDelta { request_id, text } => {
            turn_position_is_first(turns, request_id);
        },
        OutputEventModel::AnswerCompleted { request_id } => {
            turn_position_is_first(turns, request_id);
        },
        OutputEventModel::Error(error) => {
            if let Some(id) = s.current_answer_id {
                turn_position_is_first(turns, id);
            }
        },
        _ => {},
    }
}

/// Whatever the events, no request has two turns.
pub proof fn conversation_has_one_turn_per_request(events: Seq<OutputEventModel>)
    ensures
        one_turn_each(after_events(blank_snapshot(), events).conversation),
    decreases events.len(),
{
    if events.len() > 0 {
        conversation_has_one_turn_per_request(events.drop_last());
        a_request_keeps_one_turn(
            after_events(blank_snapshot(), events.drop_last()),
            events.last(),
        );
    }
}

/// The end of an answer, or more of it, changes nothing unless that answer is
/// the current one.
pub proof fn stale_answers_are_ignored(s: AppSnapshotModel, request_id: u64, text: Seq<char>)
    requires
        s.current_answer_id != Some(request_id),
    ensures
        after_event(s, OutputEventModel::AnswerDelta { request_id, text }) == s,
        after_event(s, OutputEventModel::AnswerCompleted { request_id }) == s,
{
}

/// The deltas of an answer, in order.
pub open spec fn deltas(request_id: u64, texts: Seq<Seq<char>>) -> Seq<OutputEventModel> {
    Seq::new(texts.len(), |i: int| OutputEventModel::AnswerDelta { request_id, text: texts[i] })
}

/// After an answer has started, its text is what its deltas say in a row, both
/// as the current answer and in the turn of the request.
pub proof fn an_answer_is_the_sum_of_its_deltas(
    s: AppSnapshotModel,
    meta: crate::events::AnswerMeta,
    texts: Seq<Seq<char>>,
)
    ensures
        ({
            let started = after_event(s, OutputEventModel::AnswerStarted(meta));
            let end = after_events(started, deltas(meta.request_id, texts));
            let at = turn_position(s.conversation, meta.request_id);
            &&& end.current_answer_id == Some(meta.request_id)
            &&& end.current_answer == crate::text::concat(texts)
            &&& end.conversation.len() == s.conversation.len()
            &&& at < s.conversation.len() ==> end.conversation[at].answer == crate::text::concat(
                texts,
            ) && end.conversation[at].answer_status == AnswerStatus::Streaming
            &&& turn_position(end.conversation, meta.request_id) == at
        }),
    decreases texts.len(),
{
    let id = meta.request_id;
    let started = after_event(s, OutputEventModel::AnswerStarted(meta));
    let events = deltas(id, texts);
    let at = turn_position(s.conversation, id);
    turn_position_is_first(s.conversation, id);
    if texts.len() == 0 {
        replacing_keeps_position(s.conversation, id, started.conversation);
    } else {
        an_answer_is_the_sum_of_its_deltas(s, meta, texts.drop_last());
        assert(events.drop_last() =~= deltas(id, texts.drop_last()));
        let before = after_events(started, events.drop_last());
        let end = after_events(started, events);
        turn_position_is_first(before.conversation, id);
        replacing_keeps_position(before.conversation, id, end.conversation);
    }
}

proof fn replacing_keeps_position(
    turns: Seq<ConversationTurnModel>,
    request_id: u64,
    other: Seq<ConversationTurnModel>,
)
    requires
        turns.len() == other.len(),
        forall|k: int|
            0 <= k < turns.len() ==> (#[trigger] turns[k]).request_id == (
            #[trigger] other[k]).request_id,
    ensures
        turn_position(turns, request_id) == turn_position(other, request_id),
    decreases turns.len(),
{
    if turns.len() > 0 && turns[0].request_id != request_id {
        assert(turns[0].request_id == other[0].request_id);
        let a = turns.drop_first();
        let b = other.drop_first();
        assert forall|k: int| 0 <= k < a.len() implies (#[trigger] a[k]).request_id == (
        #[trigger] b[k]).request_id by {
            assert(turns[k + 1].request_id == other[k + 1].request_id);
        }
        replacing_keeps_position(a, request_id, b);
    }
}

/// A turn is found by the number of its request: the first that has it, and the
/// end where none has.
pub proof fn turns_are_found_by_their_request(turns: Seq<ConversationTurnModel>, request_id: u64)
    ensures
        ({
            let at = turn_position(turns, request_id);
            &&& 0 <= at <= turns.len()
            &&& at < turns.len() ==> turns[at].request_id == request_id
            &&& forall|k: int| 0 <= k < at ==> (#[trigger] turns[k]).request_id != request_id
        }),
{
    turn_position_is_first(turns, request_id);
}

/// A question opens a turn that waits for its answer, and a question that is put
/// anew takes the place of the one before; live coding has no turns.
pub proof fn questions_open_turns(s: AppSnapshotModel, t: crate::events::TranscriptViewModel)
    ensures
        ({
            let after = after_event(s, OutputEventModel::Transcript(t));
            let at = turn_position(s.conversation, t.sequence);
            &&& t.mode == Mode::LiveCoding ==> after == s
            &&& t.mode != Mode::LiveCoding ==> {
                &&& after.current_transcript == t.text
                &&& at == s.conversation.len() ==> after.conversation == s.conversation.push(
                    ConversationTurnModel {
                        request_id: t.sequence,
                        speaker: t.speaker,
                        question: t.text,
                        answer: Seq::empty(),
                        answer_status: AnswerStatus::Pending,
                    },
                )
                &&& at < s.conversation.len() ==> after.conversation == s.conversation.update(
                    at,
                    ConversationTurnModel { question: t.text, ..s.conversation[at] },
                )
                &&& after.transcript_draft == s.transcript_draft
                &&& after.current_answer == s.current_answer
                &&& after.current_answer_id == s.current_answer_id
                &&& after.llm_status == s.llm_status
            }
        }),
{
    turn_position_is_first(s.conversation, t.sequence);
}

/// An answer begins anew, grows by what comes, and is over when it is complete
/// or fails; only the turn of its request changes.
pub proof fn answers_change_their_own_turn(
    s: AppSnapshotModel,
    meta: crate::events::AnswerMeta,
    text: Seq<char>,
    message: Seq<char>,
    k: int,
)
    requires
        0 <= k < s.conversation.len(),
    ensures
        ({
            let at = turn_position(s.conversation, meta.request_id);
            let started = after_event(s, OutputEventModel::AnswerStarted(meta));
            &&& started.llm_status == WorkerStatus::Working
            &&& started.current_answer_id == Some(meta.request_id)
            &&& started.current_answer.len() == 0
            &&& started.last_error is None
            &&& started.conversation.len() == s.conversation.len()
            &&& k != at ==> started.conversation[k] == s.conversation[k]
            &&& k == at ==> started.conversation[k] == (ConversationTurnModel {
                answer: Seq::empty(),
                answer_status: AnswerStatus::Streaming,
                ..s.conversation[k]
            })
        }),
        s.current_answer_id == Some(meta.request_id) ==> {
            let at = turn_position(s.conversation, meta.request_id);
            let grown = after_event(
                s,
                OutputEventModel::AnswerDelta { request_id: meta.request_id, text },
            );
            let done = after_event(
                s,
                OutputEventModel::AnswerCompleted { request_id: meta.request_id },
            );
            let failed = after_event(
                s,
                OutputEventModel::Error(
                    AppErrorViewModel { component: OutputComponent::Llm, message },
                ),
            );
            &&& grown.current_answer == s.current_answer + text
            &&& grown.llm_status == s.llm_status
            &&& k != at ==> grown.conversation[k] == s.conversation[k]
            &&& k == at ==> grown.conversation[k] == (ConversationTurnModel {
                answer: s.conversation[k].answer + text,
                ..s.conversation[k]
            })
            &&& done.llm_status == WorkerStatus::Idle
            &&& done.current_answer == s.current_answer
            &&& k != at ==> done.conversation[k] == s.conversation[k]
            &&& k == at ==> done.conversation[k] == (ConversationTurnModel {
                answer_status: AnswerStatus::Completed,
                ..s.conversation[k]
            })
            &&& failed.llm_status == WorkerStatus::Error
            &&& failed.last_error is Some
            &&& k != at ==> failed.conversation[k] == s.conversation[k]
            &&& k == at ==> failed.conversation[k] == (ConversationTurnModel {
                answer_status: AnswerStatus::Failed,
                ..s.conversation[k]
            })
        },
{
    turn_position_is_first(s.conversation, meta.request_id);
}

/// What is told of the state of the pipeline changes what is shown of it, and
/// nothing else.
pub proof fn reports_change_what_they_are_about(
    s: AppSnapshotModel,
    text: Seq<char>,
    error: AppErrorViewModel,
    len: usize,
    mode: Mode,
)
    ensures
        ({
            let after = |kind: StatusKind|
                after_event(
                    s,
                    OutputEventModel::Status(crate::events::StatusMessageModel { kind, text }),
                );
            &&& after(StatusKind::Started) == (AppSnapshotModel {
                running: true,
                last_error: None,
                ..s
            })
            &&& after(StatusKind::Connecting) == (AppSnapshotModel {
                listening: false,
                stt_status: ConnectionStatus::Connecting,
                ..s
            })
            &&& after(StatusKind::Listening) == (AppSnapshotModel {
                listening: true,
                stt_status: ConnectionStatus::Connected,
                last_error: None,
                ..s
            })
            &&& after(StatusKind::Paused) == (AppSnapshotModel { listening: false, ..s })
            &&& after(StatusKind::Reconnecting) == (AppSnapshotModel {
                listening: false,
                stt_status: ConnectionStatus::Reconnecting,
                ..s
            })
            &&& after(StatusKind::HistoryCleared) == (AppSnapshotModel {
                transcript_draft: Seq::empty(),
                current_transcript: Seq::empty(),
                current_answer_id: None,
                current_answer: Seq::empty(),
                conversation: Seq::empty(),
                ..s
            })
            &&& after(StatusKind::Stopped) == (AppSnapshotModel {
                running: false,
                listening: false,
                stt_status: ConnectionStatus::Disconnected,
                llm_status: WorkerStatus::Idle,
                ..s
            })
        }),
        error.component == OutputComponent::Stt ==> after_event(s, OutputEventModel::Error(error))
            == (AppSnapshotModel {
            last_error: Some(error),
            listening: false,
            stt_status: ConnectionStatus::Error,
            ..s
        }),
        error.component != OutputComponent::Stt && error.component != OutputComponent::Llm
            ==> after_event(s, OutputEventModel::Error(error)) == (AppSnapshotModel {
            last_error: Some(error),
            ..s
        }),
        after_event(s, OutputEventModel::ModeChanged { mode }) == (AppSnapshotModel { mode, ..s }),
        after_event(
            s,
            OutputEventModel::QueueState(
                crate::events::QueueState { queue: QueueKind::Audio, len },
            ),
        ) == (AppSnapshotModel { audio_queue_len: len, ..s }),
        after_event(
            s,
            OutputEventModel::QueueState(crate::events::QueueState { queue: QueueKind::Llm, len }),
        ) == (AppSnapshotModel { llm_queue_len: len, ..s }),
        after_event(
            s,
            OutputEventModel::TranscriptDraft { speaker: Speaker::Interviewer, text },
        ) == (AppSnapshotModel { transcript_draft: text, ..s }),
        after_event(
            s,
            OutputEventModel::TranscriptDraft { speaker: Speaker::Candidate, text },
        ) == s,
        blank_snapshot().conversation.len() == 0,
        blank_snapshot().mode == Mode::Voice,
        !blank_snapshot().running,
        !blank_snapshot().listening,
{
}

} // verus!
