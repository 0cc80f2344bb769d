//! Puts recognised words together until they are worth submitting.
use vstd::prelude::*;

use crate::events::{TranscriptChunk, TranscriptChunkModel};
use crate::text::{
    begins, black_count, chars_of, count_black, is_white, join, join_texts, joins_follow_one_another,
    normalize, normalized, same_text, slice_text, starts_with, trim, trimmed, views, visible,
    visible_characters_stay_in_order, white,
};

verus! {

/// The words of an utterance as they come in, final ones and those that may
/// still change.
#[derive(Debug)]
pub struct TranscriptWindowAssembler {
    min_utterance_chars: usize,
    pending_finals: Vec<String>,
    current_interim: String,
    sent_interim: String,
    next_sequence: u64,
}

/// The value of a [`TranscriptWindowAssembler`].
#[verifier::ext_equal]
pub struct AssemblerModel {
    /// The least number of visible characters of a chunk.
    pub min_utterance_chars: nat,
    /// Final texts that were not submitted.
    pub finals: Seq<Seq<char>>,
    /// The words that may still change.
    pub interim: Seq<char>,
    /// What of them was submitted already.
    pub sent: Seq<char>,
    /// The number of the next chunk.
    pub next_sequence: u64,
}

impl View for TranscriptWindowAssembler {
    type V = AssemblerModel;

    closed spec fn view(&self) -> AssemblerModel {
        AssemblerModel {
            min_utterance_chars: self.min_utterance_chars as nat,
            finals: views(self.pending_finals@),
            interim: self.current_interim@,
            sent: self.sent_interim@,
            next_sequence: self.next_sequence,
        }
    }
}

/// What `current` adds to `previous`: the words behind it, or all of `current`
/// where it does not go on from `previous`.
pub open spec fn novel(previous: Seq<char>, current: Seq<char>) -> Option<Seq<char>> {
    if current.len() == 0 || current == previous {
        None
    } else if previous.len() == 0 {
        Some(current)
    } else {
        let tail = current.skip(previous.len() as int);
        if begins(current, previous) && tail.len() > 0 && white(tail[0]) && trim(tail).len() > 0 {
            Some(trim(tail))
        } else {
            Some(current)
        }
    }
}

/// A number by one greater, up to the greatest there is.
pub open spec fn bumped(n: u64) -> u64 {
    if n == u64::MAX {
        n
    } else {
        (n + 1) as u64
    }
}

impl AssemblerModel {
    /// The assembler after more words.
    pub open spec fn pushed(self, text: Seq<char>, is_final: bool) -> AssemblerModel {
        let words = normalized(text);
        if is_final {
            AssemblerModel {
                finals: match novel(self.sent, words) {
                    Some(added) => self.finals.push(added),
                    None => self.finals,
                },
                interim: Seq::empty(),
                sent: Seq::empty(),
                ..self
            }
        } else {
            AssemblerModel { interim: words, ..self }
        }
    }

    /// The final texts and what the changing words add to what was submitted.
    pub open spec fn parts(self) -> Seq<Seq<char>> {
        match novel(self.sent, self.interim) {
            Some(added) => self.finals.push(added),
            None => self.finals,
        }
    }

    /// All that was not submitted, as one text.
    pub open spec fn preview_text(self) -> Seq<char> {
        join(self.parts(), " "@)
    }

    /// Whether a text is long enough to be a chunk.
    pub open spec fn long_enough(self, text: Seq<char>) -> bool {
        black_count(text) >= self.min_utterance_chars
    }

    /// The chunk with the next number.
    pub open spec fn next_chunk(self, text: Seq<char>) -> TranscriptChunkModel {
        TranscriptChunkModel { sequence: self.next_sequence, text: text }
    }

    /// The assembler without words.
    pub open spec fn emptied(self) -> AssemblerModel {
        AssemblerModel {
            finals: Seq::empty(),
            interim: Seq::empty(),
            sent: Seq::empty(),
            ..self
        }
    }

    /// The assembler and the chunk after the window has passed.
    pub open spec fn flushed(self) -> (AssemblerModel, Option<TranscriptChunkModel>) {
        if self.finals.len() > 0 {
            let text = join(self.finals, " "@);
            if self.long_enough(text) {
                (
                    AssemblerModel {
                        finals: Seq::empty(),
                        next_sequence: bumped(self.next_sequence),
                        ..self
                    },
                    Some(self.next_chunk(text)),
                )
            } else {
                (self, None)
            }
        } else {
            match novel(self.sent, self.interim) {
                Some(text) => if self.long_enough(text) {
                    (
                        AssemblerModel {
                            sent: self.interim,
                            next_sequence: bumped(self.next_sequence),
                            ..self
                        },
                        Some(self.next_chunk(text)),
                    )
                } else {
                    (self, None)
                },
                None => (self, None),
            }
        }
    }

    /// The assembler and the chunk after the utterance is over.
    pub open spec fn finished(self) -> (AssemblerModel, Option<TranscriptChunkModel>) {
        let text = self.preview_text();
        if self.long_enough(text) {
            (
                AssemblerModel { next_sequence: bumped(self.next_sequence), ..self.emptied() },
                Some(self.next_chunk(text)),
            )
        } else {
            (self.emptied(), None)
        }
    }
}

/// What `current` adds to `previous`.
pub fn novel_text(previous: &str, current: &str) -> (r: Option<String>)
    ensures
        match r {
            Some(text) => novel(previous@, current@) == Some(text@),
            None => novel(previous@, current@) is None,
        },
{
    if current.is_empty() || same_text(current, previous) {
        return None;
    }
    if previous.is_empty() {
        return Some(current.to_owned());
    }
    if starts_with(current, previous) {
        let chars = chars_of(current);
        let head: usize = chars_of(previous).len();
        if head < chars.len() && is_white(chars[head]) {
            let tail = slice_text(&chars, head, chars.len());
            assert(tail@ =~= current@.skip(previous@.len() as int));
            assert(tail@[0] == chars@[head as int]);
            let words = trimmed(tail.as_str());
            if !words.as_str().is_empty() {
                return Some(words);
            }
        }
    }
    Some(current.to_owned())
}

impl TranscriptWindowAssembler {
    /// An assembler without words, whose chunks have at least so many visible
    /// characters.
    pub fn new(min_utterance_chars: usize) -> (r: Self)
        ensures
            r@ == (AssemblerModel {
                min_utterance_chars: min_utterance_chars as nat,
                finals: Seq::empty(),
                interim: Seq::empty(),
                sent: Seq::empty(),
                next_sequence: 0,
            }),
    {
        let r = TranscriptWindowAssembler {
            min_utterance_chars,
            pending_finals: Vec::new(),
            current_interim: String::new(),
            sent_interim: String::new(),
            next_sequence: 0,
        };
        assert(views(r.pending_finals@) =~= Seq::empty());
        r
    }

    /// Takes in more words.
    pub fn push_transcript(&mut self, text: &str, is_final: bool)
        ensures
            final(self)@ == old(self)@.pushed(text@, is_final),
    {
        let words = normalize(text);
        if is_final {
            let ghost before = views(self.pending_finals@);
            if let Some(added) = novel_text(self.sent_interim.as_str(), words.as_str()) {
                let ghost model = added@;
                self.pending_finals.push(added);
                assert(views(self.pending_finals@) =~= before.push(model));
            }
            self.current_interim = String::new();
            self.sent_interim = String::new();
        } else {
            self.current_interim = words;
        }
    }

    /// Hands out what is worth submitting when the window has passed: the
    /// final texts, or else what the changing words added.
    pub fn flush(&mut self) -> (r: Option<TranscriptChunk>)
        ensures
            final(self)@ == old(self)@.flushed().0,
            match r {
                Some(chunk) => old(self)@.flushed().1 == Some(chunk@),
                None => old(self)@.flushed().1 is None,
            },
    {
        if self.pending_finals.len() > 0 {
            let text = join_texts(&self.pending_finals, " ");
            if count_black(text.as_str()) < self.min_utterance_chars {
                return None;
            }
            self.pending_finals = Vec::new();
            assert(views(self.pending_finals@) =~= Seq::empty());
            return Some(self.chunk(text));
        }
        match novel_text(self.sent_interim.as_str(), self.current_interim.as_str()) {
            Some(text) => {
                if count_black(text.as_str()) < self.min_utterance_chars {
                    return None;
                }
                self.sent_interim = self.current_interim.clone();
                Some(self.chunk(text))
            },
            None => None,
        }
    }

    /// Hands out all that was not submitted and starts anew.
    pub fn finish(&mut self) -> (r: Option<TranscriptChunk>)
        ensures
            final(self)@ == old(self)@.finished().0,
            match r {
                Some(chunk) => old(self)@.finished().1 == Some(chunk@),
                None => old(self)@.finished().1 is None,
            },
    {
        let text = self.preview();
        self.discard_pending();
        if count_black(text.as_str()) < self.min_utterance_chars {
            return None;
        }
        Some(self.chunk(text))
    }

    /// All that was not submitted, as one text.
    pub fn preview(&self) -> (r: String)
        ensures
            r@ == self@.preview_text(),
    {
        match novel_text(self.sent_interim.as_str(), self.current_interim.as_str()) {
            Some(added) => {
                let mut text = join_texts(&self.pending_finals, " ");
                if self.pending_finals.len() > 0 {
                    text.append(" ");
                }
                text.append(added.as_str());
                proof {
                    let parts = self@.parts();
                    assert(parts.drop_last() =~= self@.finals);
                    assert(parts.last() == added@);
                    if self@.finals.len() == 0 {
                        assert(text@ =~= added@);
                    }
                }
                text
            },
            None => join_texts(&self.pending_finals, " "),
        }
    }

    /// Forgets all that was not submitted.
    pub fn discard_pending(&mut self)
        ensures
            final(self)@ == old(self)@.emptied(),
    {
        self.pending_finals = Vec::new();
        self.current_interim = String::new();
        self.sent_interim = String::new();
        assert(views(self.pending_finals@) =~= Seq::empty());
    }

    /// Whether there are changing words that were not submitted.
    pub fn has_unfinalized_interim(&self) -> (r: bool)
        ensures
            r == (novel(self@.sent, self@.interim) is Some),
    {
        match novel_text(self.sent_interim.as_str(), self.current_interim.as_str()) {
            Some(_) => true,
            None => false,
        }
    }

    fn chunk(&mut self, text: String) -> (r: TranscriptChunk)
        ensures
            r@ == old(self)@.next_chunk(text@),
            final(self)@ == (AssemblerModel {
                next_sequence: bumped(old(self)@.next_sequence),
                ..old(self)@
            }),
    {
        let chunk = TranscriptChunk { sequence: self.next_sequence, text: text };
        self.next_sequence = self.next_sequence.saturating_add(1);
        chunk
    }
}

/// After the end of an utterance nothing is left of it, and a second end gives
/// no chunk unless chunks without visible characters are wanted.
pub proof fn finish_leaves_nothing(a: AssemblerModel)
    ensures
        a.finished().0.preview_text().len() == 0,
        a.min_utterance_chars > 0 ==> a.finished().0.finished().1 is None,
        a.finished().0.next_sequence == if a.finished().1 is Some {
            bumped(a.next_sequence)
        } else {
            a.next_sequence
        },
{
    let b = a.finished().0;
    assert(b.parts() =~= Seq::empty());
    assert(b.preview_text() =~= Seq::empty());
}

/// With no final text waiting, the window passing twice without new words gives
/// at most one chunk.
pub proof fn flush_repeats_nothing(a: AssemblerModel)
    requires
        a.finals.len() == 0,
        a.flushed().1 is Some,
    ensures
        a.flushed().0.flushed().1 is None,
{
}

/// Words that were submitted while they could change, and then became final
/// as they were, are not submitted again.
pub proof fn submitted_words_are_not_repeated(a: AssemblerModel, text: Seq<char>)
    requires
        normalized(text) == a.sent,
    ensures
        a.pushed(text, true).finals == a.finals,
{
}

/// Every chunk has as many visible characters as were asked for, and carries
/// the next number.
pub proof fn chunks_are_long_enough(a: AssemblerModel)
    ensures
        a.flushed().1 matches Some(chunk) ==> a.long_enough(chunk.text) && chunk.sequence
            == a.next_sequence && a.flushed().0.next_sequence == bumped(a.next_sequence),
        a.finished().1 matches Some(chunk) ==> a.long_enough(chunk.text) && chunk.sequence
            == a.next_sequence && a.finished().0.next_sequence == bumped(a.next_sequence),
{
}

/// Words that only grow are handed out once: the chunk holds what was added.
pub proof fn growing_words_add_their_tail(previous: Seq<char>, added: Seq<char>)
    requires
        previous.len() > 0,
        added.len() > 0,
        !white(added[0]),
        !white(added.last()),
    ensures
        novel(previous, previous + seq![' '] + added) == Some(added),
{
    let current = previous + seq![' '] + added;
    let tail = current.skip(previous.len() as int);
    assert(tail =~= seq![' '] + added);
    assert(current.take(previous.len() as int) =~= previous);
    assert(tail.drop_first() =~= added);
    assert(crate::text::trim_start(tail) == crate::text::trim_start(added));
    assert(trim(tail) == added);
    assert(current.len() != previous.len());
}

/// What is new of a text is what stands behind the words that were there
/// before, and all of it where it does not go on from them.
pub proof fn words_are_new_unless_they_were_there(
    previous: Seq<char>,
    current: Seq<char>,
    gap: char,
    more: Seq<char>,
)
    ensures
        novel(previous, Seq::empty()) is None,
        novel(current, current) is None,
        current.len() > 0 ==> novel(Seq::empty(), current) == Some(current),
        current.len() > 0 && current != previous && !(current.len() >= previous.len()
            && current.take(previous.len() as int) == previous) ==> novel(previous, current) == Some(
            current,
        ),
        !white(gap) && previous.len() > 0 ==> novel(previous, previous.push(gap) + more) == Some(
            previous.push(gap) + more,
        ),
        white(gap) && previous.len() > 0 && trim(more).len() > 0 ==> novel(
            previous,
            previous.push(gap) + more,
        ) == Some(trim(more)),
        white(gap) && previous.len() > 0 && trim(more).len() == 0 ==> novel(
            previous,
            previous.push(gap) + more,
        ) == Some(previous.push(gap) + more),
{
    let whole = previous.push(gap) + more;
    let tail = whole.skip(previous.len() as int);
    assert(whole.take(previous.len() as int) =~= previous);
    assert(tail[0] == gap);
    assert(tail.drop_first() =~= more);
    assert(whole.len() > previous.len());
}

/// Changing words replace the changing words before them and nothing else;
/// final words end them and are kept behind the final ones before.
pub proof fn final_words_are_kept(a: AssemblerModel, text: Seq<char>)
    ensures
        ({
            let b = a.pushed(text, false);
            &&& b.interim == normalized(text)
            &&& b.finals == a.finals
            &&& b.sent == a.sent
            &&& b.next_sequence == a.next_sequence
            &&& b.min_utterance_chars == a.min_utterance_chars
        }),
        ({
            let b = a.pushed(text, true);
            &&& b.interim.len() == 0
            &&& b.sent.len() == 0
            &&& b.next_sequence == a.next_sequence
            &&& b.min_utterance_chars == a.min_utterance_chars
            &&& a.sent.len() == 0 && normalized(text).len() > 0 ==> b.finals == a.finals.push(
                normalized(text),
            )
            &&& novel(a.sent, normalized(text)) matches Some(added) ==> b.finals == a.finals.push(
                added,
            )
            &&& novel(a.sent, normalized(text)) is None ==> b.finals == a.finals
        }),
{
}

/// All that waits is one text with a blank between each two parts: one more
/// final text goes behind the others.
pub proof fn final_words_follow_one_another(a: AssemblerModel, text: Seq<char>)
    requires
        a.sent.len() == 0,
        normalized(text).len() > 0,
    ensures
        a.finals.len() == 0 ==> a.pushed(text, true).preview_text() == normalized(text),
        a.finals.len() > 0 ==> a.pushed(text, true).preview_text() == join(a.finals, seq![' '])
            + seq![' '] + normalized(text),
        a.finals.len() == 0 ==> a.pushed(text, false).preview_text() == normalized(text),
        a.finals.len() > 0 ==> a.pushed(text, false).preview_text() == join(a.finals, seq![' '])
            + seq![' '] + normalized(text),
{
    reveal_strlit(" ");
    assert(" "@ =~= seq![' ']);
    let more = seq![normalized(text)];
    if a.finals.len() > 0 {
        joins_follow_one_another(a.finals, more, normalized(text), seq![' ']);
        assert(a.finals + more =~= a.finals.push(normalized(text)));
    } else {
        joins_follow_one_another(more, more, normalized(text), seq![' ']);
        assert(a.finals.push(normalized(text)) =~= more);
    }
}

/// The end of an utterance gives all that waits, exactly where it has as many
/// visible characters as were asked for; whatever waited is gone.
pub proof fn the_end_gives_what_waits(a: AssemblerModel)
    ensures
        a.finished().1 is Some <==> visible(a.preview_text()).len() >= a.min_utterance_chars,
        a.finished().1 matches Some(chunk) ==> chunk.text == a.preview_text() && chunk.sequence
            == a.next_sequence,
        a.finished().0.finals.len() == 0,
        a.finished().0.interim.len() == 0,
        a.finished().0.sent.len() == 0,
        a.finished().0.min_utterance_chars == a.min_utterance_chars,
        a.finished().1 is Some && a.next_sequence < u64::MAX ==> a.finished().0.next_sequence
            == a.next_sequence + 1,
        a.finished().1 is None ==> a.finished().0.next_sequence == a.next_sequence,
{
    visible_characters_stay_in_order(a.preview_text(), Seq::empty(), ' ');
}

/// When the window has passed, the final texts are given where there are any,
/// and else what is new of the changing words; what is too short waits.
pub proof fn the_window_gives_final_words_first(a: AssemblerModel)
    ensures
        a.finals.len() > 0 ==> {
            let text = join(a.finals, seq![' ']);
            &&& a.flushed().1 is Some <==> visible(text).len() >= a.min_utterance_chars
            &&& a.flushed().1 matches Some(chunk) ==> chunk.text == text && chunk.sequence
                == a.next_sequence
            &&& a.flushed().1 is Some ==> a.flushed().0.finals.len() == 0 && a.flushed().0.sent
                == a.sent
        },
        a.finals.len() == 0 ==> match novel(a.sent, a.interim) {
            Some(text) => {
                &&& a.flushed().1 is Some <==> visible(text).len() >= a.min_utterance_chars
                &&& a.flushed().1 matches Some(chunk) ==> chunk.text == text && chunk.sequence
                    == a.next_sequence
                &&& a.flushed().1 is Some ==> a.flushed().0.sent == a.interim
                    && a.flushed().0.finals.len() == 0
            },
            None => a.flushed().1 is None,
        },
        a.flushed().1 is None ==> a.flushed().0 == a,
        a.flushed().0.interim == a.interim,
        a.flushed().0.min_utterance_chars == a.min_utterance_chars,
        a.flushed().1 is Some && a.next_sequence < u64::MAX ==> a.flushed().0.next_sequence
            == a.next_sequence + 1,
{
    reveal_strlit(" ");
    assert(" "@ =~= seq![' ']);
    visible_characters_stay_in_order(join(a.finals, seq![' ']), Seq::empty(), ' ');
    if let Some(text) = novel(a.sent, a.interim) {
        visible_characters_stay_in_order(text, Seq::empty(), ' ');
    }
}

} // verus!
