//! The latest questions and answers of a conversation.
use std::collections::VecDeque;

use vstd::prelude::*;

use crate::events::Mode;
use crate::llm::provider::{message_models, ChatMessage, ChatMessageModel, ChatRole};

verus! {

#[derive(Debug)]
struct HistoryPair {
    user: String,
    assistant: String,
}

/// A question and its answer.
pub struct PairModel {
    pub user: Seq<char>,
    pub assistant: Seq<char>,
}

/// The pairs after one more: where there are as many as may be, the oldest
/// leaves.
pub open spec fn recorded(pairs: Seq<PairModel>, maximum: nat, pair: PairModel) -> Seq<PairModel> {
    if pairs.len() == maximum && pairs.len() > 0 {
        pairs.drop_first().push(pair)
    } else {
        pairs.push(pair)
    }
}

/// The pairs as messages of a dialogue.
pub open spec fn pair_messages(pairs: Seq<PairModel>) -> Seq<ChatMessageModel>
    decreases pairs.len(),
{
    if pairs.len() == 0 {
        Seq::empty()
    } else {
        pair_messages(pairs.drop_last()).push(
            ChatMessageModel { role: ChatRole::User, content: pairs.last().user },
        ).push(ChatMessageModel { role: ChatRole::Assistant, content: pairs.last().assistant })
    }
}

#[derive(Debug)]
struct ChatHistory {
    pairs: VecDeque<HistoryPair>,
}

spec fn pair_models(pairs: Seq<HistoryPair>) -> Seq<PairModel> {
    Seq::new(
        pairs.len(),
        |i: int| PairModel { user: pairs[i].user@, assistant: pairs[i].assistant@ },
    )
}

impl ChatHistory {
    spec fn model(&self) -> Seq<PairModel> {
        pair_models(self.pairs@)
    }

    fn new() -> (r: Self)
        ensures
            r.model() == Seq::<PairModel>::empty(),
    {
        let r = ChatHistory { pairs: VecDeque::new() };
        assert(r.model() =~= Seq::empty());
        r
    }

    fn record(&mut self, maximum_pairs: usize, user: String, assistant: String)
        ensures
            final(self).model() == recorded(
                old(self).model(),
                maximum_pairs as nat,
                PairModel { user: user@, assistant: assistant@ },
            ),
    {
        let ghost before = self.model();
        if self.pairs.len() == maximum_pairs {
            let oldest = self.pairs.pop_front();
            proof {
                if before.len() > 0 {
                    assert(self.model() =~= before.drop_first());
                } else {
                    assert(self.model() =~= before);
                }
            }
        }
        let ghost kept = self.model();
        let ghost pair = PairModel { user: user@, assistant: assistant@ };
        self.pairs.push_back(HistoryPair { user, assistant });
        assert(self.model() =~= kept.push(pair));
    }

    fn messages(&self) -> (r: Vec<ChatMessage>)
        ensures
            message_models(r@) == pair_messages(self.model()),
    {
        let mut out: Vec<ChatMessage> = Vec::new();
        let mut i: usize = 0;
        let ghost all = self.model();
        assert(all.take(0) =~= Seq::empty());
        assert(message_models(out@) =~= Seq::empty());
        while i < self.pairs.len()
            invariant
                all == self.model(),
                i <= self.pairs@.len(),
                message_models(out@) == pair_messages(all.take(i as int)),
            decreases self.pairs@.len() - i,
        {
            let ghost before = message_models(out@);
            let user = ChatMessage::user(self.pairs[i].user.clone());
            let assistant = ChatMessage::assistant(self.pairs[i].assistant.clone());
            let ghost user_model = user@;
            let ghost assistant_model = assistant@;
            out.push(user);
            out.push(assistant);
            assert(message_models(out@) =~= before.push(user_model).push(assistant_model));
            assert(all.take(i + 1).drop_last() =~= all.take(i as int));
            assert(all.take(i + 1).last() == all[i as int]);
            i += 1;
        }
        assert(all.take(i as int) =~= all);
        out
    }

    fn clear(&mut self)
        ensures
            final(self).model() == Seq::<PairModel>::empty(),
    {
        self.pairs.clear();
        assert(self.model() =~= Seq::empty());
    }
}

/// The conversations so far: one for spoken and one for read questions, or one
/// for both.
#[derive(Debug)]
pub struct ConversationHistories {
    maximum_pairs: usize,
    voice: ChatHistory,
    ocr: ChatHistory,
    separate: bool,
}

/// The value of [`ConversationHistories`].
#[verifier::ext_equal]
pub struct HistoriesModel {
    pub maximum_pairs: nat,
    pub separate: bool,
    pub voice: Seq<PairModel>,
    pub ocr: Seq<PairModel>,
}

impl View for ConversationHistories {
    type V = HistoriesModel;

    closed spec fn view(&self) -> HistoriesModel {
        HistoriesModel {
            maximum_pairs: self.maximum_pairs as nat,
            separate: self.separate,
            voice: self.voice.model(),
            ocr: self.ocr.model(),
        }
    }
}

impl HistoriesModel {
    /// Whether a mode has the conversation of read questions.
    pub open spec fn uses_ocr(self, mode: Mode) -> bool {
        self.separate && mode == Mode::Ocr
    }

    /// The conversation of a mode.
    pub open spec fn of(self, mode: Mode) -> Seq<PairModel> {
        if self.uses_ocr(mode) {
            self.ocr
        } else {
            self.voice
        }
    }

    /// The conversations after one more question and answer.
    pub open spec fn with_pair(self, mode: Mode, pair: PairModel) -> HistoriesModel {
        if self.uses_ocr(mode) {
            HistoriesModel { ocr: recorded(self.ocr, self.maximum_pairs, pair), ..self }
        } else {
            HistoriesModel { voice: recorded(self.voice, self.maximum_pairs, pair), ..self }
        }
    }

    /// The conversations with nothing said.
    pub open spec fn cleared(self) -> HistoriesModel {
        HistoriesModel { voice: Seq::empty(), ocr: Seq::empty(), ..self }
    }
}

impl ConversationHistories {
    /// Empty conversations that keep at most so many pairs each.
    pub fn new(maximum_pairs: usize, separate: bool) -> (r: Self)
        ensures
            r@ == (HistoriesModel {
                maximum_pairs: maximum_pairs as nat,
                separate,
                voice: Seq::empty(),
                ocr: Seq::empty(),
            }),
    {
        ConversationHistories {
            maximum_pairs,
            voice: ChatHistory::new(),
            ocr: ChatHistory::new(),
            separate,
        }
    }

    /// The conversation of a mode as messages of a dialogue.
    pub fn messages(&self, mode: Mode) -> (r: Vec<ChatMessage>)
        ensures
            message_models(r@) == pair_messages(self@.of(mode)),
    {
        if self.separate && mode == Mode::Ocr {
            self.ocr.messages()
        } else {
            self.voice.messages()
        }
    }

    /// Adds a question and its answer to the conversation of a mode.
    pub fn record(&mut self, mode: Mode, user: String, assistant: String)
        ensures
            final(self)@ == old(self)@.with_pair(
                mode,
                PairModel { user: user@, assistant: assistant@ },
            ),
    {
        if self.separate && mode == Mode::Ocr {
            self.ocr.record(self.maximum_pairs, user, assistant);
        } else {
            self.voice.record(self.maximum_pairs, user, assistant);
        }
    }

    /// Forgets all that was said.
    pub fn clear(&mut self)
        ensures
            final(self)@ == old(self)@.cleared(),
    {
        self.voice.clear();
        self.ocr.clear();
    }
}

/// The pairs after all of `added`, from nothing.
pub open spec fn all_recorded(added: Seq<PairModel>, maximum: nat) -> Seq<PairModel>
    decreases added.len(),
{
    if added.len() == 0 {
        Seq::empty()
    } else {
        recorded(all_recorded(added.drop_last(), maximum), maximum, added.last())
    }
}

/// A history holds the latest pairs, in the order in which they came, and as
/// many as it may.
pub proof fn history_holds_the_latest_pairs(added: Seq<PairModel>, maximum: nat)
    requires
        maximum > 0,
    ensures
        all_recorded(added, maximum) == if added.len() <= maximum {
            added
        } else {
            added.skip(added.len() - maximum)
        },
    decreases added.len(),
{
    if added.len() == 0 {
        assert(added =~= Seq::empty());
    } else {
        let before = added.drop_last();
        history_holds_the_latest_pairs(before, maximum);
        let kept = all_recorded(before, maximum);
        let now = all_recorded(added, maximum);
        if added.len() <= maximum {
            assert(now =~= added);
        } else if before.len() == maximum {
            assert(now =~= added.skip(added.len() - maximum));
        } else {
            assert(now =~= added.skip(added.len() - maximum));
        }
    }
}

/// With separate conversations a spoken question leaves the read ones alone,
/// and the other way round.
pub proof fn separate_conversations_do_not_mix(h: HistoriesModel, pair: PairModel)
    requires
        h.separate,
    ensures
        h.with_pair(Mode::Voice, pair).of(Mode::Ocr) == h.of(Mode::Ocr),
        h.with_pair(Mode::Ocr, pair).of(Mode::Voice) == h.of(Mode::Voice),
{
}

/// Without separation all modes have one conversation.
pub proof fn shared_conversation_is_the_same_for_all(h: HistoriesModel, a: Mode, b: Mode)
    requires
        !h.separate,
    ensures
        h.of(a) == h.of(b),
{
}

/// After clearing no mode has anything to say.
pub proof fn cleared_conversations_are_empty(h: HistoriesModel, mode: Mode)
    ensures
        pair_messages(h.cleared().of(mode)).len() == 0,
{
}

/// Without a limit every pair is kept.
pub proof fn history_without_a_limit_keeps_all(added: Seq<PairModel>)
    ensures
        all_recorded(added, 0) == added,
    decreases added.len(),
{
    if added.len() > 0 {
        history_without_a_limit_keeps_all(added.drop_last());
        assert(added =~= added.drop_last().push(added.last()));
    } else {
        assert(all_recorded(added, 0) =~= added);
    }
}

/// A dialogue has two messages for each pair, in order: what the user said, and
/// what the assistant answered.
pub proof fn questions_and_answers_alternate(pairs: Seq<PairModel>, k: int)
    requires
        0 <= k < pairs.len(),
    ensures
        pair_messages(pairs).len() == 2 * pairs.len(),
        pair_messages(pairs)[2 * k] == (ChatMessageModel {
            role: ChatRole::User,
            content: pairs[k].user,
        }),
        pair_messages(pairs)[2 * k + 1] == (ChatMessageModel {
            role: ChatRole::Assistant,
            content: pairs[k].assistant,
        }),
    decreases pairs.len(),
{
    let before = pairs.drop_last();
    if before.len() > 0 {
        questions_and_answers_alternate(before, 0);
    } else {
        assert(pair_messages(before).len() == 0);
    }
    let messages = pair_messages(before).push(
        ChatMessageModel { role: ChatRole::User, content: pairs.last().user },
    ).push(ChatMessageModel { role: ChatRole::Assistant, content: pairs.last().assistant });
    assert(pair_messages(pairs) == messages);
    assert(messages.len() == 2 * pairs.len());
    if k < before.len() {
        questions_and_answers_alternate(before, k);
        assert(before[k] == pairs[k]);
        assert(pair_messages(pairs)[2 * k] == pair_messages(before)[2 * k]);
        assert(pair_messages(pairs)[2 * k + 1] == pair_messages(before)[2 * k + 1]);
    }
}

/// A pair goes to the conversation of its mode and is the last of it; there is
/// one of its own for what was read from the screen only where conversations
/// are separate.
pub proof fn pairs_go_to_their_conversation(h: HistoriesModel, mode: Mode, pair: PairModel)
    ensures
        h.with_pair(mode, pair).of(mode).last() == pair,
        h.with_pair(mode, pair).of(mode).len() > 0,
        h.maximum_pairs > 0 && h.of(mode).len() <= h.maximum_pairs ==> h.with_pair(mode, pair).of(
            mode,
        ).len() <= h.maximum_pairs,
        h.of(mode).len() < h.maximum_pairs ==> h.with_pair(mode, pair).of(mode) == h.of(mode).push(
            pair,
        ),
        h.of(mode).len() == h.maximum_pairs && h.maximum_pairs > 0 ==> h.with_pair(mode, pair).of(
            mode,
        ) == h.of(mode).skip(1).push(pair),
        h.with_pair(mode, pair).maximum_pairs == h.maximum_pairs,
        h.with_pair(mode, pair).separate == h.separate,
        h.of(mode) == if h.separate && mode == Mode::Ocr {
            h.ocr
        } else {
            h.voice
        },
        h.separate && mode == Mode::Ocr ==> h.with_pair(mode, pair).voice == h.voice,
        !(h.separate && mode == Mode::Ocr) ==> h.with_pair(mode, pair).ocr == h.ocr,
        h.cleared().maximum_pairs == h.maximum_pairs,
        h.cleared().separate == h.separate,
        h.cleared().voice.len() == 0,
        h.cleared().ocr.len() == 0,
{
    if h.of(mode).len() > 0 {
        assert(h.of(mode).drop_first() =~= h.of(mode).skip(1));
    }
}

} // verus!
