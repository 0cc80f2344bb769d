//! The pipeline as lines of text, without anything between the parts of a
//! streaming answer.
use std::collections::VecDeque;

use vstd::prelude::*;

use crate::events::{
    event_models, AnswerMeta, AppErrorViewModel, OutputComponent, OutputEvent, OutputEventModel,
    StatusKind,
};
use crate::output::stats::{counted, no_output, update_stats, OutputStats};
use crate::text::{decimal, decimal_text};

verus! {

/// The terminal as a destination of output events.
#[derive(Clone, Copy, Debug, PartialEq, Eq, Structural)]
pub struct TerminalOutputSink;

/// Why nothing can be put out any more.
#[derive(Debug, PartialEq, Eq)]
pub enum TerminalOutputError {
    /// The terminal refused the text, for the given reason.
    Write(String),
}

impl TerminalOutputError {
    /// The failure in words.
    pub fn message(&self) -> (r: String)
        ensures
            self matches TerminalOutputError::Write(reason) && r@
                == "could not write LLM output to terminal: "@ + reason@,
    {
        match self {
            TerminalOutputError::Write(reason) => {
                let mut out = "could not write LLM output to terminal: ".to_owned();
                out.append(reason.as_str());
                out
            },
        }
    }
}

/// Turns events into text and holds back what would split an answer.
#[derive(Debug)]
pub struct TerminalRenderer {
    /// The request whose answer is streaming.
    pub active_answer: Option<u64>,
    /// What is held back until that answer is over.
    pub pending: VecDeque<OutputEvent>,
    pub stats: OutputStats,
}

/// The value of a [`TerminalRenderer`].
#[verifier::ext_equal]
pub struct TerminalRendererModel {
    pub active_answer: Option<u64>,
    pub pending: Seq<OutputEventModel>,
    pub stats: OutputStats,
}

impl View for TerminalRenderer {
    type V = TerminalRendererModel;

    open spec fn view(&self) -> TerminalRendererModel {
        TerminalRendererModel {
            active_answer: self.active_answer,
            pending: event_models(self.pending@),
            stats: self.stats,
        }
    }
}

/// The renderer before any event.
pub open spec fn blank_renderer() -> TerminalRendererModel {
    TerminalRendererModel { active_answer: None, pending: Seq::empty(), stats: no_output() }
}

impl Default for TerminalRenderer {
    fn default() -> (r: Self)
        ensures
            r@ == blank_renderer(),
    {
        let r = TerminalRenderer {
            active_answer: None,
            pending: VecDeque::new(),
            stats: OutputStats::default(),
        };
        assert(r@ =~= blank_renderer());
        r
    }
}

/// The word in front of a status line.
pub open spec fn status_word(kind: StatusKind) -> Seq<char> {
    match kind {
        StatusKind::Started => "started"@,
        StatusKind::Connecting => "connecting"@,
        StatusKind::Listening => "listening"@,
        StatusKind::Paused => "paused"@,
        StatusKind::Reconnecting => "reconnecting"@,
        StatusKind::HistoryCleared => "history"@,
        StatusKind::Stopped => "stopped"@,
    }
}

/// The line above an answer.
pub open spec fn answer_heading(meta: AnswerMeta) -> Seq<char> {
    "\nANSWER #"@ + decimal(meta.request_id as nat) + " ["@ + meta.mode.name() + "]\n"@
}

/// The line for a failure.
pub open spec fn error_line(component: OutputComponent, message: Seq<char>) -> Seq<char> {
    "ERROR ["@ + component.name() + "]: "@ + message + "\n"@
}

/// The lines for an event that comes while no answer streams.
pub open spec fn event_lines(event: OutputEventModel) -> Seq<char> {
    match event {
        OutputEventModel::Status(status) => "["@ + status_word(status.kind) + "] "@ + status.text
            + "\n"@,
        OutputEventModel::Transcript(transcript) => "\nQUESTION #"@ + decimal(
            transcript.sequence as nat,
        ) + ": "@ + transcript.text + "\n"@,
        OutputEventModel::AnswerStarted(meta) => answer_heading(meta),
        OutputEventModel::QueueState(queue) => if queue.len > 1 {
            "[queue:"@ + queue.queue.name() + "] "@ + decimal(queue.len as nat) + " pending\n"@
        } else {
            Seq::empty()
        },
        OutputEventModel::Error(error) => error_line(error.component, error.message),
        _ => Seq::empty(),
    }
}

/// Whether an event is never shown.
pub open spec fn is_silent(event: OutputEventModel) -> bool {
    match event {
        OutputEventModel::SttObservation { .. } => true,
        OutputEventModel::TranscriptDraft { .. } => true,
        OutputEventModel::AnswerUsage { .. } => true,
        OutputEventModel::ModeChanged { .. } => true,
        OutputEventModel::Retrieval(_) => true,
        OutputEventModel::LlmQueued { .. } => true,
        OutputEventModel::LiveCodingUpdated(_) => true,
        _ => false,
    }
}

/// Whether an event is a part or the end of some answer.
pub open spec fn is_answer_progress(event: OutputEventModel) -> bool {
    event is AnswerDelta || event is AnswerCompleted
}

/// The renderer after an event that comes while no answer streams.
pub open spec fn shown(r: TerminalRendererModel, event: OutputEventModel) -> TerminalRendererModel {
    if is_silent(event) || is_answer_progress(event) {
        r
    } else {
        TerminalRendererModel {
            active_answer: match event {
                OutputEventModel::AnswerStarted(meta) => Some(meta.request_id),
                _ => r.active_answer,
            },
            stats: counted(r.stats, event),
            ..r
        }
    }
}

/// What is shown of an event that comes while no answer streams.
pub open spec fn shown_text(event: OutputEventModel) -> Seq<char> {
    if is_silent(event) || is_answer_progress(event) {
        Seq::empty()
    } else {
        event_lines(event)
    }
}

/// The renderer, and what it shows, once it has shown the held back events up
/// to the next start of an answer.
pub open spec fn released(r: TerminalRendererModel) -> (TerminalRendererModel, Seq<char>)
    decreases r.pending.len(),
{
    if r.active_answer is Some || r.pending.len() == 0 {
        (r, Seq::empty())
    } else {
        let event = r.pending[0];
        let rest = released(
            shown(TerminalRendererModel { pending: r.pending.drop_first(), ..r }, event),
        );
        (rest.0, shown_text(event) + rest.1)
    }
}

/// The renderer and what it shows after an event.
pub open spec fn rendered(r: TerminalRendererModel, event: OutputEventModel) -> (
    TerminalRendererModel,
    Seq<char>,
) {
    let over = TerminalRendererModel {
        active_answer: None,
        stats: counted(r.stats, event),
        ..r
    };
    if r.active_answer is None {
        (shown(r, event), shown_text(event))
    } else {
        match event {
            OutputEventModel::AnswerDelta { request_id, text } => if r.active_answer == Some(
                request_id,
            ) {
                (r, text)
            } else {
                (r, Seq::empty())
            },
            OutputEventModel::AnswerCompleted { request_id } => if r.active_answer == Some(
                request_id,
            ) {
                (released(over).0, "\n"@ + released(over).1)
            } else {
                (r, Seq::empty())
            },
            OutputEventModel::Error(error) => if error.component == OutputComponent::Llm {
                (
                    released(over).0,
                    "\n"@ + error_line(error.component, error.message) + released(over).1,
                )
            } else {
                (TerminalRendererModel { pending: r.pending.push(event), ..r }, Seq::empty())
            },
            _ => if is_silent(event) {
                (r, Seq::empty())
            } else {
                (TerminalRendererModel { pending: r.pending.push(event), ..r }, Seq::empty())
            },
        }
    }
}

fn status_label(kind: StatusKind) -> (r: &'static str)
    ensures
        r@ == status_word(kind),
{
    match kind {
        StatusKind::Started => "started",
        StatusKind::Connecting => "connecting",
        StatusKind::Listening => "listening",
        StatusKind::Paused => "paused",
        StatusKind::Reconnecting => "reconnecting",
        StatusKind::HistoryCleared => "history",
        StatusKind::Stopped => "stopped",
    }
}

fn error_text(component: OutputComponent, message: &str) -> (r: String)
    ensures
        r@ == error_line(component, message@),
{
    let mut out = "ERROR [".to_owned();
    out.append(component.label());
    out.append("]: ");
    out.append(message);
    out.append("\n");
    out
}

fn is_event_silent(event: &OutputEvent) -> (r: bool)
    ensures
        r == is_silent(event@),
{
    match event {
        OutputEvent::SttObservation { .. } => true,
        OutputEvent::TranscriptDraft { .. } => true,
        OutputEvent::AnswerUsage { .. } => true,
        OutputEvent::ModeChanged { .. } => true,
        OutputEvent::Retrieval(_) => true,
        OutputEvent::LlmQueued { .. } => true,
        OutputEvent::LiveCodingUpdated(_) => true,
        _ => false,
    }
}

fn lines_of(event: &OutputEvent) -> (r: String)
    ensures
        r@ == event_lines(event@),
{
    match event {
        OutputEvent::Status(status) => {
            let mut out = "[".to_owned();
            out.append(status_label(status.kind));
            out.append("] ");
            out.append(status.text.as_str());
            out.append("\n");
            out
        },
        OutputEvent::Transcript(transcript) => {
            let mut out = "\nQUESTION #".to_owned();
            out.append(decimal_text(transcript.sequence).as_str());
            out.append(": ");
            out.append(transcript.text.as_str());
            out.append("\n");
            out
        },
        OutputEvent::AnswerStarted(meta) => {
            let mut out = "\nANSWER #".to_owned();
            out.append(decimal_text(meta.request_id).as_str());
            out.append(" [");
            out.append(meta.mode.label());
            out.append("]\n");
            out
        },
        OutputEvent::QueueState(queue) => {
            if queue.len > 1 {
                let mut out = "[queue:".to_owned();
                out.append(queue.queue.label());
                out.append("] ");
                out.append(decimal_text(queue.len as u64).as_str());
                out.append(" pending\n");
                out
            } else {
                String::new()
            }
        },
        OutputEvent::Error(error) => error_text(error.component, error.message.as_str()),
        _ => String::new(),
    }
}

impl TerminalRenderer {
    /// Whether the counts have room for all the renderer may still have to
    /// show, and one event more.
    pub open spec fn has_room(self) -> bool {
        self.stats.room_for(self.pending@.len() as int + 1)
    }

    /// Whether one more event can be taken in.
    pub fn can_render(&self) -> (r: bool)
        ensures
            r == self.has_room(),
    {
        let held: u64 = self.pending.len() as u64;
        held < u64::MAX && self.stats.has_room_for(held + 1)
    }

    /// Takes in one event and returns what is to be written.
    pub fn render(&mut self, event: OutputEvent) -> (r: String)
        requires
            old(self).has_room(),
        ensures
            (final(self)@, r@) == rendered(old(self)@, event@),
    {
        let ghost before = self@;
        let ghost model = event@;
        match self.active_answer {
            None => { self.show(&event) },
            Some(active) => {
                match &event {
                    OutputEvent::AnswerDelta { request_id, text } => {
                        if *request_id == active {
                            return text.clone();
                        } else {
                            return String::new();
                        }
                    },
                    OutputEvent::AnswerCompleted { request_id } => {
                        if *request_id == active {
                            update_stats(&mut self.stats, &event);
                            self.active_answer = None;
                            let mut out = "\n".to_owned();
                            let rest = self.flush_pending();
                            out.append(rest.as_str());
                            return out;
                        } else {
                            return String::new();
                        }
                    },
                    OutputEvent::Error(error) => {
                        if error.component == OutputComponent::Llm {
                            update_stats(&mut self.stats, &event);
                            self.active_answer = None;
                            let mut out = "\n".to_owned();
                            out.append(error_text(error.component, error.message.as_str()).as_str());
                            let rest = self.flush_pending();
                            out.append(rest.as_str());
                            return out;
                        }
                    },
                    _ => {
                        if is_event_silent(&event) {
                            return String::new();
                        }
                    },
                }
                self.pending.push_back(event);
                assert(event_models(self.pending@) =~= before.pending.push(model));
                String::new()
            },
        }
    }

    /// Shows what was held back, up to the next start of an answer.
    fn flush_pending(&mut self) -> (r: String)
        requires
            old(self).stats.room_for(old(self).pending@.len() as int),
        ensures
            (final(self)@, r@) == released(old(self)@),
    {
        let ghost start = self@;
        let mut out = String::new();
        assert(out@ + released(self@).1 =~= released(self@).1);
        while self.active_answer.is_none() && self.pending.len() > 0
            invariant
                self.stats.room_for(self.pending@.len() as int),
                released(start) == (released(self@).0, out@ + released(self@).1),
            decreases self.pending@.len(),
        {
            let ghost before = self@;
            let ghost written = out@;
            match self.pending.pop_front() {
                Some(event) => {
                    assert(self@ =~= TerminalRendererModel {
                        pending: before.pending.drop_first(),
                        ..before
                    });
                    let shown_now = self.show(&event);
                    out.append(shown_now.as_str());
                    assert(event@ == before.pending[0]);
                    assert(out@ + released(self@).1 =~= written + (shown_text(event@) + released(
                        self@,
                    ).1));
                },
                None => {},
            }
        }
        assert(out@ + Seq::<char>::empty() =~= out@);
        out
    }

    /// Shows an event while no answer streams.
    fn show(&mut self, event: &OutputEvent) -> (r: String)
        requires
            old(self).stats.room_for(1),
        ensures
            final(self)@ == shown(old(self)@, event@),
            r@ == shown_text(event@),
            final(self).pending@ == old(self).pending@,
            forall|count: int|
                old(self).stats.room_for(count + 1) ==> #[trigger] final(self).stats.room_for(count),
    {
        if is_event_silent(event) {
            return String::new();
        }
        match event {
            OutputEvent::AnswerDelta { .. } => {
                return String::new();
            },
            OutputEvent::AnswerCompleted { .. } => {
                return String::new();
            },
            OutputEvent::AnswerStarted(meta) => {
                self.active_answer = Some(meta.request_id);
            },
            _ => {},
        }
        update_stats(&mut self.stats, event);
        lines_of(event)
    }
}

/// While an answer streams, an event shows nothing unless it is a part of that
/// answer, its end, or a failure of the model.
pub proof fn nothing_splits_an_answer(r: TerminalRendererModel, event: OutputEventModel)
    requires
        r.active_answer is Some,
    ensures
        rendered(r, event).1.len() > 0 ==> {
            ||| event matches OutputEventModel::AnswerDelta { request_id, text }
                && r.active_answer == Some(request_id)
            ||| event matches OutputEventModel::AnswerCompleted { request_id } && r.active_answer
                == Some(request_id)
            ||| event matches OutputEventModel::Error(error) && error.component
                == OutputComponent::Llm
        },
{
}

/// Events are held back only while an answer streams.
pub proof fn idle_renderer_holds_nothing(r: TerminalRendererModel, event: OutputEventModel)
    requires
        r.active_answer is None ==> r.pending.len() == 0,
    ensures
        ({
            let after = rendered(r, event).0;
            after.active_answer is None ==> after.pending.len() == 0
        }),
{
    let over = TerminalRendererModel {
        active_answer: None,
        stats: counted(r.stats, event),
        ..r
    };
    released_leaves_nothing_idle(over);
}

proof fn released_leaves_nothing_idle(r: TerminalRendererModel)
    ensures
        released(r).0.active_answer is None ==> released(r).0.pending.len() == 0,
    decreases r.pending.len(),
{
    if r.active_answer is None && r.pending.len() > 0 {
        released_leaves_nothing_idle(
            shown(TerminalRendererModel { pending: r.pending.drop_first(), ..r }, r.pending[0]),
        );
    }
}

/// What each of the events shows, in a row.
pub open spec fn all_shown(events: Seq<OutputEventModel>) -> Seq<char>
    decreases events.len(),
{
    if events.len() == 0 {
        Seq::empty()
    } else {
        shown_text(events[0]) + all_shown(events.drop_first())
    }
}

/// When an answer is over and no other one is held back, all that was held
/// back is shown, in the order in which it came.
pub proof fn held_back_events_are_shown_in_order(r: TerminalRendererModel)
    requires
        r.active_answer is None,
        forall|i: int| 0 <= i < r.pending.len() ==> !(#[trigger] r.pending[i] is AnswerStarted),
    ensures
        released(r).1 == all_shown(r.pending),
        released(r).0.pending.len() == 0,
    decreases r.pending.len(),
{
    if r.pending.len() > 0 {
        let next = shown(
            TerminalRendererModel { pending: r.pending.drop_first(), ..r },
            r.pending[0],
        );
        assert forall|i: int| 0 <= i < next.pending.len() implies !(#[trigger] next.pending[i]
            is AnswerStarted) by {
            assert(next.pending[i] == r.pending[i + 1]);
        }
        held_back_events_are_shown_in_order(next);
    }
}

/// While no answer streams, an event is shown at once and counted; parts of an
/// answer that is not streaming are not shown.
pub proof fn events_are_shown_as_they_come(r: TerminalRendererModel, event: OutputEventModel)
    requires
        r.active_answer is None,
    ensures
        ({
            let (next, text) = rendered(r, event);
            &&& event matches OutputEventModel::Status(status) ==> text == "["@ + status_word(
                status.kind,
            ) + "] "@ + status.text + "\n"@ && next.stats == counted(r.stats, event)
            &&& event matches OutputEventModel::Transcript(t) ==> text == "\nQUESTION #"@ + decimal(
                t.sequence as nat,
            ) + ": "@ + t.text + "\n"@ && next.stats == counted(r.stats, event)
            &&& event matches OutputEventModel::AnswerStarted(meta) ==> text == "\nANSWER #"@
                + decimal(meta.request_id as nat) + " ["@ + meta.mode.name() + "]\n"@
                && next.active_answer == Some(meta.request_id) && next.stats == counted(
                r.stats,
                event,
            )
            &&& event matches OutputEventModel::QueueState(queue) ==> (queue.len > 1 ==> text
                == "[queue:"@ + queue.queue.name() + "] "@ + decimal(queue.len as nat)
                + " pending\n"@) && (queue.len <= 1 ==> text.len() == 0)
            &&& event matches OutputEventModel::Error(error) ==> text == "ERROR ["@
                + error.component.name() + "]: "@ + error.message + "\n"@ && next.stats == counted(
                r.stats,
                event,
            )
            &&& event is AnswerDelta || event is AnswerCompleted || event is SttObservation || event
                is TranscriptDraft || event is AnswerUsage || event is ModeChanged || event
                is Retrieval || event is LlmQueued || event is LiveCodingUpdated ==> text.len() == 0
                && next == r
            &&& !(event is AnswerStarted) ==> next.active_answer is None
            &&& next.pending == r.pending
        }),
{
}

/// While an answer streams, its own parts are shown at once, what else is to be
/// shown is held back in order, and what is never shown is dropped.
pub proof fn other_events_wait_for_the_answer(r: TerminalRendererModel, event: OutputEventModel)
    requires
        r.active_answer is Some,
    ensures
        ({
            let (next, text) = rendered(r, event);
            let held = event is Status || event is Transcript || event is AnswerStarted || event
                is QueueState || (event matches OutputEventModel::Error(error) && error.component
                != OutputComponent::Llm);
            &&& held ==> text.len() == 0 && next == (TerminalRendererModel {
                pending: r.pending.push(event),
                ..r
            })
            &&& event matches OutputEventModel::AnswerDelta { request_id, text: part } ==> next == r
                && (r.active_answer == Some(request_id) ==> text == part) && (r.active_answer
                != Some(request_id) ==> text.len() == 0)
            &&& event matches OutputEventModel::AnswerCompleted { request_id } ==> (r.active_answer
                != Some(request_id) ==> next == r && text.len() == 0)
            &&& event is SttObservation || event is TranscriptDraft || event is AnswerUsage || event
                is ModeChanged || event is Retrieval || event is LlmQueued || event
                is LiveCodingUpdated ==> text.len() == 0 && next == r
        }),
{
}

/// When an answer is over, its line is ended and what was held back is shown: in
/// order, up to and with the next answer that begins.
pub proof fn what_was_held_back_follows_the_answer(
    r: TerminalRendererModel,
    request_id: u64,
    message: Seq<char>,
)
    requires
        r.active_answer == Some(request_id),
    ensures
        ({
            let done = OutputEventModel::AnswerCompleted { request_id };
            let failed = OutputEventModel::Error(
                AppErrorViewModel { component: OutputComponent::Llm, message },
            );
            let over = TerminalRendererModel {
                active_answer: None,
                stats: counted(r.stats, done),
                ..r
            };
            let lost = TerminalRendererModel {
                active_answer: None,
                stats: counted(r.stats, failed),
                ..r
            };
            &&& rendered(r, done).0 == released(over).0
            &&& rendered(r, done).1 == seq!['\n'] + released(over).1
            &&& rendered(r, failed).0 == released(lost).0
            &&& rendered(r, failed).1 == seq!['\n'] + ("ERROR ["@ + OutputComponent::Llm.name()
                + "]: "@ + message + "\n"@) + released(lost).1
        }),
        r.pending.len() > 0 && r.pending[0] is AnswerStarted ==> {
            let idle = TerminalRendererModel { active_answer: None, ..r };
            &&& released(idle).0.pending == r.pending.skip(1)
            &&& released(idle).0.active_answer is Some
            &&& released(idle).1 == shown_text(r.pending[0])
        },
        r.pending.len() == 0 ==> released(
            TerminalRendererModel { active_answer: None, ..r },
        ).1.len() == 0,
{
    reveal_strlit("\n");
    assert("\n"@ =~= seq!['\n']);
    if r.pending.len() > 0 && r.pending[0] is AnswerStarted {
        let idle = TerminalRendererModel { active_answer: None, ..r };
        let after = shown(
            TerminalRendererModel { pending: r.pending.drop_first(), ..idle },
            r.pending[0],
        );
        assert(after.active_answer is Some);
        assert(released(after) == (after, Seq::<char>::empty()));
        assert(r.pending.drop_first() =~= r.pending.skip(1));
        assert(shown_text(r.pending[0]) + Seq::<char>::empty() =~= shown_text(r.pending[0]));
    }
}

} // verus!
