//! Whether a pause in speech ends an utterance or only interrupts it.
use vstd::prelude::*;

use crate::text::{
    chars_of, fields, fields_are_what_separators_leave, is_white, same_text, split_fields, views,
    white, Separator,
};
use crate::unicode::{alphanumeric, lowercase, to_lowercase};

verus! {

/// Words that hardly end a sentence.
pub open spec fn dangling_word(w: Seq<char>) -> bool {
    ||| w == "а"@
    ||| w == "без"@
    ||| w == "в"@
    ||| w == "во"@
    ||| w == "для"@
    ||| w == "за"@
    ||| w == "если"@
    ||| w == "и"@
    ||| w == "из"@
    ||| w == "или"@
    ||| w == "к"@
    ||| w == "ко"@
    ||| w == "которого"@
    ||| w == "котором"@
    ||| w == "которой"@
    ||| w == "которому"@
    ||| w == "которым"@
    ||| w == "которыми"@
    ||| w == "которую"@
    ||| w == "которые"@
    ||| w == "которых"@
    ||| w == "который"@
    ||| w == "которая"@
    ||| w == "которое"@
    ||| w == "какая"@
    ||| w == "какие"@
    ||| w == "каким"@
    ||| w == "какими"@
    ||| w == "какого"@
    ||| w == "какое"@
    ||| w == "какой"@
    ||| w == "какую"@
    ||| w == "каких"@
    ||| w == "либо"@
    ||| w == "между"@
    ||| w == "на"@
    ||| w == "над"@
    ||| w == "не"@
    ||| w == "ни"@
    ||| w == "но"@
    ||| w == "о"@
    ||| w == "об"@
    ||| w == "обо"@
    ||| w == "от"@
    ||| w == "перед"@
    ||| w == "по"@
    ||| w == "под"@
    ||| w == "пока"@
    ||| w == "потому"@
    ||| w == "при"@
    ||| w == "про"@
    ||| w == "с"@
    ||| w == "со"@
    ||| w == "у"@
    ||| w == "хотя"@
    ||| w == "через"@
    ||| w == "что"@
    ||| w == "чего"@
    ||| w == "чем"@
    ||| w == "чтобы"@
}

fn is_dangling_word(word: &str) -> (r: bool)
    ensures
        r == dangling_word(word@),
{
    same_text(word, "а")
        || same_text(word, "без")
        || same_text(word, "в")
        || same_text(word, "во")
        || same_text(word, "для")
        || same_text(word, "за")
        || same_text(word, "если")
        || same_text(word, "и")
        || same_text(word, "из")
        || same_text(word, "или")
        || same_text(word, "к")
        || same_text(word, "ко")
        || same_text(word, "которого")
        || same_text(word, "котором")
        || same_text(word, "которой")
        || same_text(word, "которому")
        || same_text(word, "которым")
        || same_text(word, "которыми")
        || same_text(word, "которую")
        || same_text(word, "которые")
        || same_text(word, "которых")
        || same_text(word, "который")
        || same_text(word, "которая")
        || same_text(word, "которое")
        || same_text(word, "какая")
        || same_text(word, "какие")
        || same_text(word, "каким")
        || same_text(word, "какими")
        || same_text(word, "какого")
        || same_text(word, "какое")
        || same_text(word, "какой")
        || same_text(word, "какую")
        || same_text(word, "каких")
        || same_text(word, "либо")
        || same_text(word, "между")
        || same_text(word, "на")
        || same_text(word, "над")
        || same_text(word, "не")
        || same_text(word, "ни")
        || same_text(word, "но")
        || same_text(word, "о")
        || same_text(word, "об")
        || same_text(word, "обо")
        || same_text(word, "от")
        || same_text(word, "перед")
        || same_text(word, "по")
        || same_text(word, "под")
        || same_text(word, "пока")
        || same_text(word, "потому")
        || same_text(word, "при")
        || same_text(word, "про")
        || same_text(word, "с")
        || same_text(word, "со")
        || same_text(word, "у")
        || same_text(word, "хотя")
        || same_text(word, "через")
        || same_text(word, "что")
        || same_text(word, "чего")
        || same_text(word, "чем")
        || same_text(word, "чтобы")
}

/// Whether the words end with `a` and `b`.
pub open spec fn ends_with_two(words: Seq<Seq<char>>, a: Seq<char>, b: Seq<char>) -> bool {
    words.len() >= 2 && words[words.len() - 2] == a && words[words.len() - 1] == b
}

/// Whether the words end with `a`, `b` and `c`.
pub open spec fn ends_with_three(
    words: Seq<Seq<char>>,
    a: Seq<char>,
    b: Seq<char>,
    c: Seq<char>,
) -> bool {
    words.len() >= 3 && words[words.len() - 3] == a && words[words.len() - 2] == b
        && words[words.len() - 1] == c
}

fn last_two(words: &Vec<String>, a: &str, b: &str) -> (r: bool)
    ensures
        r == ends_with_two(views(words@), a@, b@),
{
    let n: usize = words.len();
    n >= 2 && same_text(words[n - 2].as_str(), a) && same_text(words[n - 1].as_str(), b)
}

fn last_three(words: &Vec<String>, a: &str, b: &str, c: &str) -> (r: bool)
    ensures
        r == ends_with_three(views(words@), a@, b@, c@),
{
    let n: usize = words.len();
    n >= 3 && same_text(words[n - 3].as_str(), a) && same_text(words[n - 2].as_str(), b)
        && same_text(words[n - 1].as_str(), c)
}

/// Phrases that hardly end a sentence.
pub open spec fn dangling_phrase(words: Seq<Seq<char>>) -> bool {
    ||| ends_with_two(words, "в"@, "каких"@)
    ||| ends_with_two(words, "в"@, "каком"@)
    ||| ends_with_three(words, "для"@, "того"@, "чтобы"@)
    ||| ends_with_two(words, "за"@, "счет"@)
    ||| ends_with_two(words, "за"@, "счёт"@)
    ||| ends_with_two(words, "и"@, "какая"@)
    ||| ends_with_two(words, "и"@, "какие"@)
    ||| ends_with_two(words, "и"@, "какой"@)
    ||| ends_with_two(words, "и"@, "какую"@)
    ||| ends_with_three(words, "если"@, "у"@, "нас"@)
    ||| ends_with_two(words, "потому"@, "что"@)
}

fn has_dangling_phrase(words: &Vec<String>) -> (r: bool)
    ensures
        r == dangling_phrase(views(words@)),
{
    last_two(words, "в", "каких")
        || last_two(words, "в", "каком")
        || last_three(words, "для", "того", "чтобы")
        || last_two(words, "за", "счет")
        || last_two(words, "за", "счёт")
        || last_two(words, "и", "какая")
        || last_two(words, "и", "какие")
        || last_two(words, "и", "какой")
        || last_two(words, "и", "какую")
        || last_three(words, "если", "у", "нас")
        || last_two(words, "потому", "что")
}

/// Words that ask for an account.
pub open spec fn request_word(w: Seq<char>) -> bool {
    ||| w == "объясни"@
    ||| w == "объясните"@
    ||| w == "опиши"@
    ||| w == "опишите"@
    ||| w == "покажи"@
    ||| w == "покажите"@
    ||| w == "расскажи"@
    ||| w == "расскажите"@
    ||| w == "сравни"@
    ||| w == "сравните"@
}

fn is_request_word(word: &str) -> (r: bool)
    ensures
        r == request_word(word@),
{
    same_text(word, "объясни")
        || same_text(word, "объясните")
        || same_text(word, "опиши")
        || same_text(word, "опишите")
        || same_text(word, "покажи")
        || same_text(word, "покажите")
        || same_text(word, "расскажи")
        || same_text(word, "расскажите")
        || same_text(word, "сравни")
        || same_text(word, "сравните")
}

/// Words that ask a question.
pub open spec fn question_word(w: Seq<char>) -> bool {
    ||| w == "где"@
    ||| w == "зачем"@
    ||| w == "как"@
    ||| w == "какая"@
    ||| w == "какие"@
    ||| w == "каким"@
    ||| w == "какими"@
    ||| w == "какого"@
    ||| w == "какое"@
    ||| w == "какой"@
    ||| w == "какую"@
    ||| w == "каких"@
    ||| w == "когда"@
    ||| w == "почему"@
    ||| w == "сколько"@
    ||| w == "чего"@
    ||| w == "чем"@
    ||| w == "что"@
}

fn is_question_word(word: &str) -> (r: bool)
    ensures
        r == question_word(word@),
{
    same_text(word, "где")
        || same_text(word, "зачем")
        || same_text(word, "как")
        || same_text(word, "какая")
        || same_text(word, "какие")
        || same_text(word, "каким")
        || same_text(word, "какими")
        || same_text(word, "какого")
        || same_text(word, "какое")
        || same_text(word, "какой")
        || same_text(word, "какую")
        || same_text(word, "каких")
        || same_text(word, "когда")
        || same_text(word, "почему")
        || same_text(word, "сколько")
        || same_text(word, "чего")
        || same_text(word, "чем")
        || same_text(word, "что")
}

/// Words that set a scene.
pub open spec fn supposition_word(w: Seq<char>) -> bool {
    ||| w == "допустим"@
    ||| w == "предположим"@
    ||| w == "представим"@
}

fn is_supposition_word(word: &str) -> (r: bool)
    ensures
        r == supposition_word(word@),
{
    same_text(word, "допустим")
        || same_text(word, "предположим")
        || same_text(word, "представим")
}

/// Words that open a conversation.
pub open spec fn beginning_word(w: Seq<char>) -> bool {
    ||| w == "начнем"@
    ||| w == "начнём"@
    ||| w == "начнемте"@
    ||| w == "начнёмте"@
}

fn is_beginning_word(word: &str) -> (r: bool)
    ensures
        r == beginning_word(word@),
{
    same_text(word, "начнем")
        || same_text(word, "начнём")
        || same_text(word, "начнемте")
        || same_text(word, "начнёмте")
}

/// The word that proposes to do something together.
pub open spec fn invitation_word(w: Seq<char>) -> bool {
    ||| w == "давайте"@
}

fn is_invitation_word(word: &str) -> (r: bool)
    ensures
        r == invitation_word(word@),
{
    same_text(word, "давайте")
}

/// Whether some word asks for an account.
pub open spec fn any_request(words: Seq<Seq<char>>) -> bool {
    exists|i: int| 0 <= i < words.len() && request_word(#[trigger] words[i])
}

fn is_any_request(words: &Vec<String>) -> (r: bool)
    ensures
        r == any_request(views(words@)),
{
    let mut i: usize = 0;
    while i < words.len()
        invariant
            i <= words@.len(),
            forall|k: int| 0 <= k < i ==> !request_word(#[trigger] views(words@)[k]),
        decreases words@.len() - i,
    {
        if is_request_word(words[i].as_str()) {
            assert(request_word(views(words@)[i as int]));
            return true;
        }
        i += 1;
    }
    false
}

/// Whether some word asks a question.
pub open spec fn any_question(words: Seq<Seq<char>>) -> bool {
    exists|i: int| 0 <= i < words.len() && question_word(#[trigger] words[i])
}

fn is_any_question(words: &Vec<String>) -> (r: bool)
    ensures
        r == any_question(views(words@)),
{
    let mut i: usize = 0;
    while i < words.len()
        invariant
            i <= words@.len(),
            forall|k: int| 0 <= k < i ==> !question_word(#[trigger] views(words@)[k]),
        decreases words@.len() - i,
    {
        if is_question_word(words[i].as_str()) {
            assert(question_word(views(words@)[i as int]));
            return true;
        }
        i += 1;
    }
    false
}

/// Whether some word sets a scene.
pub open spec fn any_supposition(words: Seq<Seq<char>>) -> bool {
    exists|i: int| 0 <= i < words.len() && supposition_word(#[trigger] words[i])
}

fn is_any_supposition(words: &Vec<String>) -> (r: bool)
    ensures
        r == any_supposition(views(words@)),
{
    let mut i: usize = 0;
    while i < words.len()
        invariant
            i <= words@.len(),
            forall|k: int| 0 <= k < i ==> !supposition_word(#[trigger] views(words@)[k]),
        decreases words@.len() - i,
    {
        if is_supposition_word(words[i].as_str()) {
            assert(supposition_word(views(words@)[i as int]));
            return true;
        }
        i += 1;
    }
    false
}

/// Whether some word opens a conversation.
pub open spec fn any_beginning(words: Seq<Seq<char>>) -> bool {
    exists|i: int| 0 <= i < words.len() && beginning_word(#[trigger] words[i])
}

fn is_any_beginning(words: &Vec<String>) -> (r: bool)
    ensures
        r == any_beginning(views(words@)),
{
    let mut i: usize = 0;
    while i < words.len()
        invariant
            i <= words@.len(),
            forall|k: int| 0 <= k < i ==> !beginning_word(#[trigger] views(words@)[k]),
        decreases words@.len() - i,
    {
        if is_beginning_word(words[i].as_str()) {
            assert(beginning_word(views(words@)[i as int]));
            return true;
        }
        i += 1;
    }
    false
}

/// Whether some word proposes to do something together.
pub open spec fn any_invitation(words: Seq<Seq<char>>) -> bool {
    exists|i: int| 0 <= i < words.len() && invitation_word(#[trigger] words[i])
}

fn is_any_invitation(words: &Vec<String>) -> (r: bool)
    ensures
        r == any_invitation(views(words@)),
{
    let mut i: usize = 0;
    while i < words.len()
        invariant
            i <= words@.len(),
            forall|k: int| 0 <= k < i ==> !invitation_word(#[trigger] views(words@)[k]),
        decreases words@.len() - i,
    {
        if is_invitation_word(words[i].as_str()) {
            assert(invitation_word(views(words@)[i as int]));
            return true;
        }
        i += 1;
    }
    false
}

/// Whether "we have" stands among the words.
pub open spec fn says_we_have(words: Seq<Seq<char>>) -> bool {
    exists|i: int|
        0 <= i < words.len() - 2 && #[trigger] words[i] == "у"@ && words[i + 1] == "нас"@ && words[i
            + 2] == "есть"@
}

fn is_saying_we_have(words: &Vec<String>) -> (r: bool)
    ensures
        r == says_we_have(views(words@)),
{
    let ghost all = views(words@);
    if words.len() < 3 {
        return false;
    }
    let mut i: usize = 0;
    while i < words.len() - 2
        invariant
            3 <= words@.len(),
            all == views(words@),
            i <= words@.len() - 2,
            forall|k: int|
                0 <= k < i ==> !(#[trigger] all[k] == "у"@ && all[k + 1] == "нас"@ && all[k + 2]
                    == "есть"@),
        decreases words@.len() - i,
    {
        assert(all[i as int] == words@[i as int]@ && all[i + 1] == words@[i + 1]@ && all[i + 2]
            == words@[i + 2]@);
        if same_text(words[i].as_str(), "у") && same_text(words[i + 1].as_str(), "нас")
            && same_text(words[i + 2].as_str(), "есть") {
            return true;
        }
        i += 1;
    }
    false
}

/// Why an utterance seems to go on after a pause.
#[derive(Clone, Copy, Debug, PartialEq, Eq, Structural)]
pub enum BoundaryDeferral {
    DanglingSuffix,
    Introduction,
    Setup,
    ShortFragment,
}

impl BoundaryDeferral {
    /// The word for the reason.
    pub open spec fn name(self) -> Seq<char> {
        match self {
            BoundaryDeferral::DanglingSuffix => "dangling_suffix"@,
            BoundaryDeferral::Introduction => "introduction"@,
            BoundaryDeferral::Setup => "setup"@,
            BoundaryDeferral::ShortFragment => "short_fragment"@,
        }
    }

    /// The word for the reason.
    pub fn reason(self) -> (r: &'static str)
        ensures
            r@ == self.name(),
    {
        match self {
            BoundaryDeferral::DanglingSuffix => "dangling_suffix",
            BoundaryDeferral::Introduction => "introduction",
            BoundaryDeferral::Setup => "setup",
            BoundaryDeferral::ShortFragment => "short_fragment",
        }
    }
}

/// The words of a text in lower case.
pub open spec fn spoken_words(text: Seq<char>) -> Seq<Seq<char>> {
    let parts = fields(text, Separator::NotWord);
    Seq::new(parts.len(), |i: int| lowercase(parts[i]))
}

/// Whether a character may follow the question mark that ends a question.
pub open spec fn closes(c: char) -> bool {
    white(c) || c == '"' || c == '\'' || c == ')' || c == ']'
}

/// Whether a text ends with a question mark, but for white space, quotes and
/// brackets.
pub open spec fn asks(text: Seq<char>) -> bool
    decreases text.len(),
{
    if text.len() == 0 {
        false
    } else if closes(text.last()) {
        asks(text.drop_last())
    } else {
        text.last() == '?'
    }
}

/// Why an utterance of these words seems to go on; nothing where it is a
/// question or has no words.
pub open spec fn deferral(words: Seq<Seq<char>>, question: bool) -> Option<BoundaryDeferral> {
    if words.len() == 0 || question {
        None
    } else if dangling_phrase(words) || dangling_word(words.last()) {
        Some(BoundaryDeferral::DanglingSuffix)
    } else if any_invitation(words) && any_beginning(words) && !any_request(words) {
        Some(BoundaryDeferral::Introduction)
    } else if (any_supposition(words) || says_we_have(words)) && !any_request(words) {
        Some(BoundaryDeferral::Setup)
    } else if words.len() <= 6 && !any_request(words) && !any_question(words) {
        Some(BoundaryDeferral::ShortFragment)
    } else {
        None
    }
}

/// Why an utterance of these words, in lower case, seems to go on.
pub fn deferral_of_words(words: &Vec<String>, question: bool) -> (r: Option<BoundaryDeferral>)
    ensures
        r == deferral(views(words@), question),
{
    let n: usize = words.len();
    if n == 0 || question {
        return None;
    }
    if has_dangling_phrase(words) || is_dangling_word(words[n - 1].as_str()) {
        return Some(BoundaryDeferral::DanglingSuffix);
    }
    let request = is_any_request(words);
    if is_any_invitation(words) && is_any_beginning(words) && !request {
        return Some(BoundaryDeferral::Introduction);
    }
    if (is_any_supposition(words) || is_saying_we_have(words)) && !request {
        return Some(BoundaryDeferral::Setup);
    }
    if n <= 6 && !request && !is_any_question(words) {
        return Some(BoundaryDeferral::ShortFragment);
    }
    None
}

fn ends_with_question_mark(text: &str) -> (r: bool)
    ensures
        r == asks(text@),
{
    let chars = chars_of(text);
    let mut n: usize = chars.len();
    assert(chars@.take(n as int) =~= chars@);
    while n > 0
        invariant
            n <= chars@.len(),
            asks(chars@.take(n as int)) == asks(text@),
        decreases n,
    {
        let c = chars[n - 1];
        assert(chars@.take(n as int).last() == c);
        assert(chars@.take(n as int).drop_last() =~= chars@.take(n - 1));
        if is_white(c) || c == '"' || c == '\'' || c == ')' || c == ']' {
            n -= 1;
        } else {
            return c == '?';
        }
    }
    false
}

fn normalized_words(text: &str) -> (r: Vec<String>)
    ensures
        views(r@) == spoken_words(text@),
{
    let parts = split_fields(text, Separator::NotWord);
    let mut out: Vec<String> = Vec::new();
    let mut i: usize = 0;
    while i < parts.len()
        invariant
            i <= parts@.len(),
            views(parts@) == fields(text@, Separator::NotWord),
            views(out@) == spoken_words(text@).take(i as int),
        decreases parts@.len() - i,
    {
        let word = to_lowercase(parts[i].as_str());
        let ghost before = views(out@);
        let ghost model = word@;
        assert(parts@[i as int]@ == views(parts@)[i as int]);
        out.push(word);
        i += 1;
        assert(views(out@) =~= before.push(model));
        assert(spoken_words(text@).take(i as int) =~= spoken_words(text@).take(i - 1).push(
            spoken_words(text@)[i - 1],
        ));
    }
    assert(spoken_words(text@).take(i as int) =~= spoken_words(text@));
    out
}

/// Why the utterance seems to go on after a pause.
pub fn boundary_deferral(text: &str) -> (r: Option<BoundaryDeferral>)
    ensures
        r == deferral(spoken_words(text@), asks(text@)),
{
    let words = normalized_words(text);
    let question = ends_with_question_mark(text);
    deferral_of_words(&words, question)
}

/// A text that ends with a question mark is always complete.
pub proof fn questions_are_complete(text: Seq<char>)
    ensures
        deferral(spoken_words(text + seq!['?']), asks(text + seq!['?'])) is None,
{
    let asked = text + seq!['?'];
    assert(asked.last() == '?');
}

/// A request that does not break off is complete, however short it is.
pub proof fn requests_are_complete(words: Seq<Seq<char>>)
    requires
        any_request(words),
        !dangling_phrase(words),
        !dangling_word(words.last()),
    ensures
        deferral(words, false) is None,
{
}

/// A sentence hardly ends with one of these words, and may end with any other.
pub proof fn some_words_hardly_end_a_sentence(w: Seq<char>)
    ensures
        dangling_word(w) <==> {
            ||| w == "а"@
            ||| w == "без"@
            ||| w == "в"@
            ||| w == "во"@
            ||| w == "для"@
            ||| w == "если"@
            ||| w == "за"@
            ||| w == "и"@
            ||| w == "из"@
            ||| w == "или"@
            ||| w == "к"@
            ||| w == "какая"@
            ||| w == "какие"@
            ||| w == "каким"@
            ||| w == "какими"@
            ||| w == "каких"@
            ||| w == "какого"@
            ||| w == "какое"@
            ||| w == "какой"@
            ||| w == "какую"@
            ||| w == "ко"@
            ||| w == "которая"@
            ||| w == "которого"@
            ||| w == "которое"@
            ||| w == "которой"@
            ||| w == "котором"@
            ||| w == "которому"@
            ||| w == "которую"@
            ||| w == "которые"@
            ||| w == "который"@
            ||| w == "которым"@
            ||| w == "которыми"@
            ||| w == "которых"@
            ||| w == "либо"@
            ||| w == "между"@
            ||| w == "на"@
            ||| w == "над"@
            ||| w == "не"@
            ||| w == "ни"@
            ||| w == "но"@
            ||| w == "о"@
            ||| w == "об"@
            ||| w == "обо"@
            ||| w == "от"@
            ||| w == "перед"@
            ||| w == "по"@
            ||| w == "под"@
            ||| w == "пока"@
            ||| w == "потому"@
            ||| w == "при"@
            ||| w == "про"@
            ||| w == "с"@
            ||| w == "со"@
            ||| w == "у"@
            ||| w == "хотя"@
            ||| w == "чего"@
            ||| w == "чем"@
            ||| w == "через"@
            ||| w == "что"@
            ||| w == "чтобы"@
        },
{
}

/// These words ask for an account, and no others.
pub proof fn some_words_ask_for_an_account(w: Seq<char>)
    ensures
        request_word(w) <==> {
            ||| w == "объясни"@
            ||| w == "объясните"@
            ||| w == "опиши"@
            ||| w == "опишите"@
            ||| w == "покажи"@
            ||| w == "покажите"@
            ||| w == "расскажи"@
            ||| w == "расскажите"@
            ||| w == "сравни"@
            ||| w == "сравните"@
        },
{
}

/// These words ask a question, and no others.
pub proof fn some_words_ask_a_question(w: Seq<char>)
    ensures
        question_word(w) <==> {
            ||| w == "где"@
            ||| w == "зачем"@
            ||| w == "как"@
            ||| w == "какая"@
            ||| w == "какие"@
            ||| w == "каким"@
            ||| w == "какими"@
            ||| w == "каких"@
            ||| w == "какого"@
            ||| w == "какое"@
            ||| w == "какой"@
            ||| w == "какую"@
            ||| w == "когда"@
            ||| w == "почему"@
            ||| w == "сколько"@
            ||| w == "чего"@
            ||| w == "чем"@
            ||| w == "что"@
        },
{
}

/// These words set a scene, and no others.
pub proof fn some_words_set_a_scene(w: Seq<char>)
    ensures
        supposition_word(w) <==> {
            ||| w == "допустим"@
            ||| w == "предположим"@
            ||| w == "представим"@
        },
{
}

/// These words open a conversation, and no others.
pub proof fn some_words_open_a_conversation(w: Seq<char>)
    ensures
        beginning_word(w) <==> {
            ||| w == "начнем"@
            ||| w == "начнемте"@
            ||| w == "начнём"@
            ||| w == "начнёмте"@
        },
{
}

/// An utterance breaks off behind these words in a row, whatever stands before
/// them.
pub proof fn some_phrases_hardly_end_a_sentence(before: Seq<Seq<char>>)
    ensures
        deferral(before.push("в"@).push("каких"@), false) == Some(
            BoundaryDeferral::DanglingSuffix,
        ),
        deferral(before.push("в"@).push("каком"@), false) == Some(
            BoundaryDeferral::DanglingSuffix,
        ),
        deferral(before.push("для"@).push("того"@).push("чтобы"@), false) == Some(
            BoundaryDeferral::DanglingSuffix,
        ),
        deferral(before.push("за"@).push("счет"@), false) == Some(
            BoundaryDeferral::DanglingSuffix,
        ),
        deferral(before.push("за"@).push("счёт"@), false) == Some(
            BoundaryDeferral::DanglingSuffix,
        ),
        deferral(before.push("и"@).push("какая"@), false) == Some(
            BoundaryDeferral::DanglingSuffix,
        ),
        deferral(before.push("и"@).push("какие"@), false) == Some(
            BoundaryDeferral::DanglingSuffix,
        ),
        deferral(before.push("и"@).push("какой"@), false) == Some(
            BoundaryDeferral::DanglingSuffix,
        ),
        deferral(before.push("и"@).push("какую"@), false) == Some(
            BoundaryDeferral::DanglingSuffix,
        ),
        deferral(before.push("если"@).push("у"@).push("нас"@), false) == Some(
            BoundaryDeferral::DanglingSuffix,
        ),
        deferral(before.push("потому"@).push("что"@), false) == Some(
            BoundaryDeferral::DanglingSuffix,
        ),
{
    assert(dangling_phrase(before.push("в"@).push("каких"@)));
    assert(dangling_phrase(before.push("в"@).push("каком"@)));
    assert(dangling_phrase(before.push("для"@).push("того"@).push("чтобы"@)));
    assert(dangling_phrase(before.push("за"@).push("счет"@)));
    assert(dangling_phrase(before.push("за"@).push("счёт"@)));
    assert(dangling_phrase(before.push("и"@).push("какая"@)));
    assert(dangling_phrase(before.push("и"@).push("какие"@)));
    assert(dangling_phrase(before.push("и"@).push("какой"@)));
    assert(dangling_phrase(before.push("и"@).push("какую"@)));
    assert(dangling_phrase(before.push("если"@).push("у"@).push("нас"@)));
    assert(dangling_phrase(before.push("потому"@).push("что"@)));
}

/// An utterance breaks off only at its end: what its last three words are
/// decides.
pub proof fn only_the_end_breaks_off(words: Seq<Seq<char>>, other: Seq<Seq<char>>)
    requires
        words.len() >= 3,
        other.len() >= 3,
        words.skip(words.len() - 3) == other.skip(other.len() - 3),
    ensures
        (deferral(words, false) == Some(BoundaryDeferral::DanglingSuffix)) == (deferral(
            other,
            false,
        ) == Some(BoundaryDeferral::DanglingSuffix)),
{
    let end = words.skip(words.len() - 3);
    assert(end[0] == words[words.len() - 3] && end[1] == words[words.len() - 2] && end[2]
        == words[words.len() - 1]);
    let tail = other.skip(other.len() - 3);
    assert(tail[0] == other[other.len() - 3] && tail[1] == other[other.len() - 2] && tail[2]
        == other[other.len() - 1]);
}

/// An utterance that ends with a word that hardly ends a sentence goes on,
/// whatever else is in it.
pub proof fn dangling_utterances_go_on(words: Seq<Seq<char>>)
    requires
        words.len() > 0,
        dangling_word(words.last()),
    ensures
        deferral(words, false) == Some(BoundaryDeferral::DanglingSuffix),
        deferral(words, true) is None,
{
}

/// An utterance breaks off exactly where its last word hardly ends a sentence,
/// or where it ends with one of four phrases whose last word might.
pub proof fn nothing_else_breaks_off(words: Seq<Seq<char>>)
    requires
        words.len() > 0,
    ensures
        (deferral(words, false) == Some(BoundaryDeferral::DanglingSuffix)) <==> {
            let n = words.len() as int;
            ||| dangling_word(words[n - 1])
            ||| n >= 2 && words[n - 2] == "в"@ && words[n - 1] == "каком"@
            ||| n >= 2 && words[n - 2] == "за"@ && words[n - 1] == "счет"@
            ||| n >= 2 && words[n - 2] == "за"@ && words[n - 1] == "счёт"@
            ||| n >= 3 && words[n - 3] == "если"@ && words[n - 2] == "у"@ && words[n - 1] == "нас"@
        },
{
}

/// Whether an utterance neither breaks off, nor opens a conversation, nor sets
/// a scene.
pub open spec fn stands_alone(words: Seq<Seq<char>>) -> bool {
    &&& deferral(words, false) != Some(BoundaryDeferral::DanglingSuffix)
    &&& (forall|i: int| 0 <= i < words.len() ==> #[trigger] words[i] != "давайте"@) || (forall|
        i: int,
    |
        0 <= i < words.len() ==> !beginning_word(#[trigger] words[i]))
    &&& forall|i: int| 0 <= i < words.len() ==> !supposition_word(#[trigger] words[i])
    &&& forall|i: int|
        0 <= i < words.len() - 2 ==> !(#[trigger] words[i] == "у"@ && words[i + 1] == "нас"@
            && words[i + 2] == "есть"@)
}

/// An utterance with a question word, or with a word that asks for an account,
/// is complete, however many words it has and wherever the word stands.
pub proof fn utterances_that_ask_are_complete(words: Seq<Seq<char>>, at: int)
    requires
        0 <= at < words.len(),
        question_word(words[at]) || request_word(words[at]),
        stands_alone(words),
    ensures
        deferral(words, false) is None,
{
    if question_word(words[at]) {
        assert(any_question(words));
    } else {
        assert(any_request(words));
    }
}

/// An utterance with a word that asks for an account is complete unless it
/// breaks off, whatever scene it sets.
pub proof fn requests_end_introductions_and_scenes(words: Seq<Seq<char>>, at: int)
    requires
        0 <= at < words.len(),
        request_word(words[at]),
        deferral(words, false) != Some(BoundaryDeferral::DanglingSuffix),
    ensures
        deferral(words, false) is None,
{
    assert(any_request(words));
}

/// An utterance that asks nothing and stands alone is a fragment up to six
/// words, and complete from seven on.
pub proof fn short_utterances_that_ask_nothing_are_fragments(words: Seq<Seq<char>>)
    requires
        words.len() > 0,
        stands_alone(words),
        forall|i: int|
            0 <= i < words.len() ==> !question_word(#[trigger] words[i]) && !request_word(words[i]),
    ensures
        words.len() <= 6 ==> deferral(words, false) == Some(BoundaryDeferral::ShortFragment),
        words.len() >= 7 ==> deferral(words, false) is None,
{
}

/// An utterance that proposes to begin is an introduction, wherever the two
/// words stand, unless it breaks off or asks for an account.
pub proof fn proposals_to_begin_are_introductions(words: Seq<Seq<char>>, i: int, j: int)
    requires
        0 <= i < words.len(),
        0 <= j < words.len(),
        words[i] == "давайте"@,
        beginning_word(words[j]),
        forall|k: int| 0 <= k < words.len() ==> !request_word(#[trigger] words[k]),
        deferral(words, false) != Some(BoundaryDeferral::DanglingSuffix),
    ensures
        deferral(words, false) == Some(BoundaryDeferral::Introduction),
{
    assert(invitation_word(words[i]));
}

/// An utterance that sets a scene is a setup, wherever it does so, unless it
/// breaks off, proposes to begin or asks for an account.
pub proof fn scenes_are_setups(words: Seq<Seq<char>>, at: int)
    requires
        0 <= at < words.len(),
        supposition_word(words[at]) || (at + 2 < words.len() && words[at] == "у"@ && words[at + 1]
            == "нас"@ && words[at + 2] == "есть"@),
        forall|k: int| 0 <= k < words.len() ==> !request_word(#[trigger] words[k]),
        (forall|i: int| 0 <= i < words.len() ==> #[trigger] words[i] != "давайте"@) || (forall|
            i: int,
        |
            0 <= i < words.len() ==> !beginning_word(#[trigger] words[i])),
        deferral(words, false) != Some(BoundaryDeferral::DanglingSuffix),
    ensures
        deferral(words, false) == Some(BoundaryDeferral::Setup),
{
    if supposition_word(words[at]) {
        assert(any_supposition(words));
    } else {
        assert(says_we_have(words));
    }
}

/// An utterance without words is never held back.
pub proof fn silence_is_not_held_back(question: bool)
    ensures
        deferral(Seq::empty(), question) is None,
{
}

/// A question mark ends a question, and nothing but white space, quotes and
/// closing brackets may follow it.
pub proof fn question_marks_end_questions(text: Seq<char>, tail: Seq<char>, c: char)
    requires
        forall|k: int|
            0 <= k < tail.len() ==> white(#[trigger] tail[k]) || tail[k] == '"' || tail[k] == '\''
                || tail[k] == ')' || tail[k] == ']',
        !white(c),
        c != '"',
        c != '\'',
        c != ')',
        c != ']',
    ensures
        asks(text.push(c) + tail) == (c == '?'),
        !asks(tail),
    decreases tail.len(),
{
    let whole = text.push(c) + tail;
    if tail.len() == 0 {
        assert(whole =~= text.push(c));
    } else {
        let shorter = tail.drop_last();
        assert forall|k: int| 0 <= k < shorter.len() implies white(#[trigger] shorter[k])
            || shorter[k] == '"' || shorter[k] == '\'' || shorter[k] == ')' || shorter[k] == ']' by {
            assert(shorter[k] == tail[k]);
        }
        question_marks_end_questions(text, shorter, c);
        let last = tail[tail.len() - 1];
        assert(closes(last));
        assert(whole.last() == last);
        assert(whole.drop_last() =~= text.push(c) + shorter);
    }
}

/// Spoken words are the longest runs of letters, digits and hyphens, in lower
/// case and in order.
pub proof fn spoken_words_are_runs_of_letters(
    a: Seq<char>,
    c: char,
    b: Seq<char>,
    word: Seq<char>,
)
    requires
        !alphanumeric(c),
        c != '-',
        word.len() > 0,
        forall|k: int| 0 <= k < word.len() ==> alphanumeric(#[trigger] word[k]) || word[k] == '-',
    ensures
        spoken_words(a.push(c) + b) == spoken_words(a) + spoken_words(b),
        spoken_words(word) == seq![lowercase(word)],
{
    fields_are_what_separators_leave(a, c, b, word, Separator::NotWord);
    assert(spoken_words(a.push(c) + b) =~= spoken_words(a) + spoken_words(b));
    assert(spoken_words(word) =~= seq![lowercase(word)]);
}

} // verus!
