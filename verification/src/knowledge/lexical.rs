//! The terms of a text, and how many of them another text has too.
use vstd::prelude::*;

use crate::text::{
    char_len, fields, fields_are_what_separators_leave, same_text, split_fields, views, Separator,
};
use crate::unicode::{alphanumeric, lowercase, to_lowercase};

verus! {

/// Words that say nothing of the subject of a text.
pub open spec fn stopword(term: Seq<char>) -> bool {
    ||| term == "как"@
    ||| term == "что"@
    ||| term == "это"@
    ||| term == "для"@
    ||| term == "при"@
    ||| term == "или"@
    ||| term == "его"@
    ||| term == "она"@
    ||| term == "они"@
    ||| term == "чем"@
    ||| term == "когда"@
    ||| term == "который"@
    ||| term == "какие"@
    ||| term == "the"@
    ||| term == "and"@
    ||| term == "for"@
    ||| term == "with"@
    ||| term == "what"@
    ||| term == "how"@
}

fn is_stopword(term: &str) -> (r: bool)
    ensures
        r == stopword(term@),
{
    same_text(term, "как")
        || same_text(term, "что")
        || same_text(term, "это")
        || same_text(term, "для")
        || same_text(term, "при")
        || same_text(term, "или")
        || same_text(term, "его")
        || same_text(term, "она")
        || same_text(term, "они")
        || same_text(term, "чем")
        || same_text(term, "когда")
        || same_text(term, "который")
        || same_text(term, "какие")
        || same_text(term, "the")
        || same_text(term, "and")
        || same_text(term, "for")
        || same_text(term, "with")
        || same_text(term, "what")
        || same_text(term, "how")
}

/// Whether a word counts as a term.
pub open spec fn is_term(word: Seq<char>) -> bool {
    word.len() >= 3 && !stopword(word)
}

/// The words in lower case.
pub open spec fn lowered(words: Seq<Seq<char>>) -> Seq<Seq<char>> {
    Seq::new(words.len(), |i: int| lowercase(words[i]))
}

/// The first of each of the words that count as terms.
pub open spec fn distinct_terms(words: Seq<Seq<char>>) -> Seq<Seq<char>>
    decreases words.len(),
{
    if words.len() == 0 {
        Seq::empty()
    } else {
        let before = distinct_terms(words.drop_last());
        let word = words.last();
        if is_term(word) && !before.contains(word) {
            before.push(word)
        } else {
            before
        }
    }
}

/// The terms of a text.
pub open spec fn terms(text: Seq<char>) -> Seq<Seq<char>> {
    distinct_terms(lowered(fields(text, Separator::NotAlphanumeric)))
}

/// How many of the terms are among others.
pub open spec fn shared_count(query: Seq<Seq<char>>, document: Seq<Seq<char>>) -> nat
    decreases query.len(),
{
    if query.len() == 0 {
        0
    } else {
        shared_count(query.drop_last(), document) + if document.contains(query.last()) {
            1nat
        } else {
            0nat
        }
    }
}

fn has_term(items: &Vec<String>, term: &str) -> (r: bool)
    ensures
        r == views(items@).contains(term@),
{
    let ghost all = views(items@);
    let mut i: usize = 0;
    while i < items.len()
        invariant
            all == views(items@),
            i <= items@.len(),
            forall|k: int| 0 <= k < i ==> #[trigger] all[k] != term@,
        decreases items@.len() - i,
    {
        assert(all[i as int] == items@[i as int]@);
        if same_text(items[i].as_str(), term) {
            return true;
        }
        i += 1;
    }
    false
}

/// The words that count as terms, each once.
pub fn select_terms(words: &Vec<String>) -> (r: Vec<String>)
    ensures
        views(r@) == distinct_terms(views(words@)),
{
    let ghost all = views(words@);
    let mut out: Vec<String> = Vec::new();
    let mut i: usize = 0;
    assert(all.take(0) =~= Seq::empty());
    assert(views(out@) =~= Seq::empty());
    while i < words.len()
        invariant
            all == views(words@),
            i <= words@.len(),
            views(out@) == distinct_terms(all.take(i as int)),
        decreases words@.len() - i,
    {
        assert(all.take(i + 1).drop_last() =~= all.take(i as int));
        assert(all.take(i + 1).last() == words@[i as int]@);
        let word = words[i].as_str();
        if char_len(word) >= 3 && !is_stopword(word) && !has_term(&out, word) {
            let ghost before = views(out@);
            out.push(words[i].clone());
            assert(views(out@) =~= before.push(words@[i as int]@));
        }
        i += 1;
    }
    assert(all.take(i as int) =~= all);
    out
}

fn to_lower_words(words: &Vec<String>) -> (r: Vec<String>)
    ensures
        views(r@) == lowered(views(words@)),
{
    let mut out: Vec<String> = Vec::new();
    let mut i: usize = 0;
    while i < words.len()
        invariant
            i <= words@.len(),
            views(out@) == lowered(views(words@)).take(i as int),
        decreases words@.len() - i,
    {
        let ghost before = views(out@);
        let word = to_lowercase(words[i].as_str());
        let ghost model = word@;
        out.push(word);
        assert(views(out@) =~= before.push(model));
        assert(lowered(views(words@)).take(i + 1) =~= before.push(model));
        i += 1;
    }
    assert(lowered(views(words@)).take(i as int) =~= lowered(views(words@)));
    out
}

/// The terms of the text, each once, in lower case.
pub fn lexical_terms(text: &str) -> (r: Vec<String>)
    ensures
        views(r@) == terms(text@),
{
    let words = split_fields(text, Separator::NotAlphanumeric);
    let lower = to_lower_words(&words);
    select_terms(&lower)
}

/// How many of the terms are among others.
pub fn count_shared(query: &Vec<String>, document: &Vec<String>) -> (r: usize)
    ensures
        r == shared_count(views(query@), views(document@)),
        r <= query@.len(),
{
    let ghost all = views(query@);
    let mut count: usize = 0;
    let mut i: usize = 0;
    assert(all.take(0) =~= Seq::empty());
    while i < query.len()
        invariant
            all == views(query@),
            i <= query@.len(),
            count <= i,
            count == shared_count(all.take(i as int), views(document@)),
        decreases query@.len() - i,
    {
        assert(all.take(i + 1).drop_last() =~= all.take(i as int));
        assert(all.take(i + 1).last() == query@[i as int]@);
        if has_term(document, query[i].as_str()) {
            count += 1;
        }
        i += 1;
    }
    assert(all.take(i as int) =~= all);
    count
}

/// How many of the terms of a question the text has.
pub fn lexical_matches(query_terms: &Vec<String>, text: &str) -> (r: usize)
    ensures
        r == shared_count(views(query_terms@), terms(text@)),
        r <= query_terms@.len(),
{
    let document = lexical_terms(text);
    count_shared(query_terms, &document)
}

/// No term is listed twice, and each one counts as a term.
pub proof fn terms_are_distinct(words: Seq<Seq<char>>)
    ensures
        distinct_terms(words).no_duplicates(),
        forall|k: int|
            0 <= k < distinct_terms(words).len() ==> is_term(#[trigger] distinct_terms(words)[k]),
    decreases words.len(),
{
    if words.len() > 0 {
        terms_are_distinct(words.drop_last());
        let before = distinct_terms(words.drop_last());
        let all = distinct_terms(words);
        assert forall|i: int, j: int|
            0 <= i < all.len() && 0 <= j < all.len() && i != j implies all[i] != all[j] by {
            if i < before.len() && j < before.len() {
                assert(before[i] != before[j]);
            } else if i < before.len() {
                assert(before.contains(before[i]));
            } else if j < before.len() {
                assert(before.contains(before[j]));
            }
        }
    }
}

/// A text shares all of its terms with itself, and no text shares more than
/// there are.
pub proof fn a_text_shares_all_its_terms(query: Seq<Seq<char>>, document: Seq<Seq<char>>)
    ensures
        shared_count(query, document) <= query.len(),
        (forall|k: int| 0 <= k < query.len() ==> document.contains(#[trigger] query[k]))
            ==> shared_count(query, document) == query.len(),
    decreases query.len(),
{
    if query.len() > 0 {
        let shorter = query.drop_last();
        a_text_shares_all_its_terms(shorter, document);
        if forall|k: int| 0 <= k < query.len() ==> document.contains(#[trigger] query[k]) {
            assert forall|k: int| 0 <= k < shorter.len() implies document.contains(
                #[trigger] shorter[k],
            ) by {
                assert(shorter[k] == query[k]);
            }
            assert(document.contains(query[query.len() - 1]));
        }
    }
}

/// Words of at least three characters are terms, but for these.
pub proof fn short_and_empty_words_are_no_terms(word: Seq<char>)
    ensures
        is_term(word) <==> word.len() >= 3 && !{
            ||| word == "and"@
            ||| word == "for"@
            ||| word == "how"@
            ||| word == "the"@
            ||| word == "what"@
            ||| word == "with"@
            ||| word == "для"@
            ||| word == "его"@
            ||| word == "или"@
            ||| word == "как"@
            ||| word == "какие"@
            ||| word == "когда"@
            ||| word == "который"@
            ||| word == "она"@
            ||| word == "они"@
            ||| word == "при"@
            ||| word == "чем"@
            ||| word == "что"@
            ||| word == "это"@
        },
{
}

/// The terms of words are all of them that count as terms, wherever they stand
/// and however often.
pub proof fn terms_are_all_words_that_count(words: Seq<Seq<char>>, word: Seq<char>)
    ensures
        distinct_terms(words).contains(word) <==> words.contains(word) && is_term(word),
    decreases words.len(),
{
    if words.len() > 0 {
        let before = distinct_terms(words.drop_last());
        let all = distinct_terms(words);
        let last = words[words.len() - 1];
        terms_are_all_words_that_count(words.drop_last(), word);
        if before.contains(word) {
            let k = choose|k: int| 0 <= k < before.len() && before[k] == word;
            assert(all[k] == word);
        }
        if words.contains(word) && word != last {
            let k = choose|k: int| 0 <= k < words.len() && words[k] == word;
            assert(words.drop_last()[k] == word);
        }
        if words.drop_last().contains(word) {
            let k = choose|k: int| 0 <= k < words.drop_last().len() && words.drop_last()[k] == word;
            assert(words[k] == word);
        }
        if all.contains(word) && !before.contains(word) {
            let k = choose|k: int| 0 <= k < all.len() && all[k] == word;
            if k < before.len() {
                assert(before[k] == word);
            }
            assert(word == last);
        }
        if word == last && is_term(word) && !before.contains(word) {
            assert(all[all.len() - 1] == word);
        }
    }
}

/// How many terms a question shares with a document is the number of terms that
/// both have: a term counts one where the document has it, and nothing where it
/// lacks it.
pub proof fn shared_terms_are_those_of_both(
    query: Seq<Seq<char>>,
    document: Seq<Seq<char>>,
    term: Seq<char>,
)
    ensures
        shared_count(query.push(term), document) == shared_count(query, document)
            + if document.contains(term) {
            1nat
        } else {
            0nat
        },
        query.no_duplicates() ==> shared_count(query, document) == query.to_set().intersect(
            document.to_set(),
        ).len(),
    decreases query.len(),
{
    assert(query.push(term).drop_last() =~= query);
    if query.no_duplicates() {
        let both = query.to_set().intersect(document.to_set());
        if query.len() == 0 {
            assert(both =~= Set::empty());
        } else {
            let shorter = query.drop_last();
            let last = query.last();
            assert(shorter.no_duplicates()) by {
                assert forall|i: int, j: int|
                    0 <= i < shorter.len() && 0 <= j < shorter.len() && i != j implies shorter[i]
                    != shorter[j] by {
                    assert(query[i] != query[j]);
                }
            }
            shared_terms_are_those_of_both(shorter, document, term);
            let before = shorter.to_set().intersect(document.to_set());
            assert(!shorter.contains(last)) by {
                if shorter.contains(last) {
                    let k = choose|k: int| 0 <= k < shorter.len() && shorter[k] == last;
                    assert(query[k] == query[query.len() - 1]);
                }
            }
            vstd::seq_lib::seq_to_set_is_finite(shorter);
            assert(query.to_set() =~= shorter.to_set().insert(last)) by {
                assert forall|w: Seq<char>| #[trigger]
                    query.to_set().contains(w) <==> shorter.to_set().insert(last).contains(w) by {
                    if query.contains(w) {
                        let k = choose|k: int| 0 <= k < query.len() && query[k] == w;
                        if k < shorter.len() {
                            assert(shorter[k] == w);
                        }
                    }
                    if shorter.contains(w) {
                        let k = choose|k: int| 0 <= k < shorter.len() && shorter[k] == w;
                        assert(query[k] == w);
                    }
                    assert(query[query.len() - 1] == last);
                }
            }
            if document.contains(last) {
                assert(both =~= before.insert(last));
            } else {
                assert(both =~= before);
            }
        }
    }
}

/// The terms of a text are its longest runs of letters and digits in lower
/// case: those on both sides of another character are its terms.
pub proof fn terms_are_runs_of_letters_and_digits(
    a: Seq<char>,
    c: char,
    b: Seq<char>,
    run: Seq<char>,
    term: Seq<char>,
)
    requires
        !alphanumeric(c),
        run.len() > 0,
        forall|k: int| 0 <= k < run.len() ==> alphanumeric(#[trigger] run[k]),
    ensures
        terms(a.push(c) + b).contains(term) <==> terms(a).contains(term) || terms(b).contains(term),
        terms(run).contains(term) <==> term == lowercase(run) && is_term(term),
{
    fields_are_what_separators_leave(a, c, b, run, Separator::NotAlphanumeric);
    let left = lowered(fields(a, Separator::NotAlphanumeric));
    let right = lowered(fields(b, Separator::NotAlphanumeric));
    let whole = lowered(fields(a.push(c) + b, Separator::NotAlphanumeric));
    assert(whole =~= left + right);
    terms_are_all_words_that_count(whole, term);
    terms_are_all_words_that_count(left, term);
    terms_are_all_words_that_count(right, term);
    if left.contains(term) {
        let k = choose|k: int| 0 <= k < left.len() && left[k] == term;
        assert(whole[k] == term);
    }
    if right.contains(term) {
        let k = choose|k: int| 0 <= k < right.len() && right[k] == term;
        assert(whole[left.len() + k] == term);
    }
    if whole.contains(term) {
        let k = choose|k: int| 0 <= k < whole.len() && whole[k] == term;
        if k < left.len() {
            assert(left[k] == term);
        } else {
            assert(right[k - left.len()] == term);
        }
    }
    let one = lowered(fields(run, Separator::NotAlphanumeric));
    assert(one =~= seq![lowercase(run)]);
    terms_are_all_words_that_count(one, term);
    assert(one[0] == lowercase(run));
    assert(one.contains(term) <==> term == lowercase(run));
}

} // verus!
