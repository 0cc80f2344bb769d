//! How well speech was recognised, against a reference.
use vstd::prelude::*;

use crate::text::{
    chars_of, fields, fields_are_what_separators_leave, is_white, join, join_texts, lines,
    non_empty, same_text, split_lines, split_words, trim, trim_end_is_prefix, trim_start,
    trim_start_is_suffix, trimmed, unparted_texts_are_one_piece, views, visible,
    visible_characters_stay_in_order, white, words, Separator,
};
use crate::unicode::{alphanumeric, char_lowercase, char_to_lowercase, is_alphanumeric};

verus! {

/// The least number of insertions, deletions and replacements that turn `a`
/// into `b`.
pub open spec fn distance<T>(a: Seq<T>, b: Seq<T>) -> nat
    decreases a.len() + b.len(),
{
    if a.len() == 0 {
        b.len()
    } else if b.len() == 0 {
        a.len()
    } else {
        let replaced = distance(a.drop_last(), b.drop_last()) + if a.last() == b.last() {
            0nat
        } else {
            1nat
        };
        let inserted = distance(a, b.drop_last()) + 1;
        let deleted = distance(a.drop_last(), b) + 1;
        least(replaced, inserted, deleted)
    }
}

/// The least of three numbers.
pub open spec fn least(a: nat, b: nat, c: nat) -> nat {
    let ab = if b < a {
        b
    } else {
        a
    };
    if c < ab {
        c
    } else {
        ab
    }
}

/// Nothing has to be changed exactly where both are the same.
pub proof fn distance_is_zero_for_equal_texts<T>(a: Seq<T>, b: Seq<T>)
    ensures
        distance(a, b) == 0 <==> a == b,
    decreases a.len() + b.len(),
{
    if a.len() == 0 {
        if b.len() == 0 {
            assert(a =~= b);
        }
    } else if b.len() > 0 {
        distance_is_zero_for_equal_texts(a.drop_last(), b.drop_last());
        distance_is_zero_for_equal_texts(a, b.drop_last());
        distance_is_zero_for_equal_texts(a.drop_last(), b);
        if distance(a, b) == 0 {
            assert(a.last() == b.last());
            assert(a =~= a.drop_last().push(a.last()));
            assert(b =~= b.drop_last().push(b.last()));
        }
    }
}

/// It takes as many changes from one text to the other as back.
pub proof fn distance_is_symmetric<T>(a: Seq<T>, b: Seq<T>)
    ensures
        distance(a, b) == distance(b, a),
    decreases a.len() + b.len(),
{
    if a.len() > 0 && b.len() > 0 {
        distance_is_symmetric(a.drop_last(), b.drop_last());
        distance_is_symmetric(a, b.drop_last());
        distance_is_symmetric(a.drop_last(), b);
    }
}

/// It never takes more changes than the longer text has parts, nor fewer than
/// the lengths differ by.
pub proof fn distance_is_bounded<T>(a: Seq<T>, b: Seq<T>)
    ensures
        distance(a, b) <= if a.len() > b.len() {
            a.len()
        } else {
            b.len()
        },
        distance(a, b) >= a.len() - b.len(),
        distance(a, b) >= b.len() - a.len(),
    decreases a.len() + b.len(),
{
    if a.len() > 0 && b.len() > 0 {
        distance_is_bounded(a.drop_last(), b.drop_last());
        distance_is_bounded(a, b.drop_last());
        distance_is_bounded(a.drop_last(), b);
    }
}

/// Whether the entries are the distances between the first `row` parts of `a`
/// and one part of `b`, two parts, and so on.
spec fn is_row<T>(entries: Seq<usize>, a: Seq<T>, b: Seq<T>, row: int) -> bool {
    forall|k: int|
        0 <= k < entries.len() ==> #[trigger] entries[k] == distance(a.take(row), b.take(k + 1))
}

/// The distance between the first `row` parts of `a` and `column` parts of
/// `b`, where the entries are those of the row.
fn entry(entries: &Vec<usize>, row: usize, column: usize) -> (r: usize)
    requires
        column <= entries@.len(),
    ensures
        r == if column == 0 {
            row
        } else {
            entries@[column - 1]
        },
{
    if column == 0 {
        row
    } else {
        entries[column - 1]
    }
}

proof fn table_step<T>(a: Seq<T>, b: Seq<T>, row: int, column: int)
    requires
        0 <= row < a.len(),
        0 <= column < b.len(),
        a.len() <= usize::MAX,
        b.len() <= usize::MAX,
    ensures
        distance(a.take(row + 1), b.take(column + 1)) == least(
            distance(a.take(row), b.take(column)) + if a[row] == b[column] {
                0nat
            } else {
                1nat
            },
            distance(a.take(row + 1), b.take(column)) + 1,
            distance(a.take(row), b.take(column + 1)) + 1,
        ),
        distance(a.take(row + 1), b.take(column + 1)) <= usize::MAX,
        column == 0 ==> distance(a.take(row), b.take(column)) == row && distance(
            a.take(row + 1),
            b.take(column),
        ) == row + 1,
{
    assert(a.take(row + 1).drop_last() =~= a.take(row));
    assert(b.take(column + 1).drop_last() =~= b.take(column));
    assert(a.take(row + 1).last() == a[row]);
    assert(b.take(column + 1).last() == b[column]);
    distance_is_bounded(a.take(row + 1), b.take(column + 1));
}

fn least_of(a: usize, b: usize, c: usize) -> (r: usize)
    ensures
        r == least(a as nat, b as nat, c as nat),
{
    let ab: usize = if b < a {
        b
    } else {
        a
    };
    if c < ab {
        c
    } else {
        ab
    }
}

fn first_row(columns: usize) -> (r: Vec<usize>)
    ensures
        r@.len() == columns,
        forall|k: int| 0 <= k < columns ==> #[trigger] r@[k] == k + 1,
{
    let mut out: Vec<usize> = Vec::new();
    let mut i: usize = 0;
    while i < columns
        invariant
            i <= columns,
            out@.len() == i,
            forall|k: int| 0 <= k < i ==> #[trigger] out@[k] == k + 1,
        decreases columns - i,
    {
        i += 1;
        out.push(i);
    }
    out
}

/// The least number of words that have to be inserted, deleted or replaced.
pub fn edit_distance_words(reference: &Vec<String>, recognized: &Vec<String>) -> (r: usize)
    ensures
        r == distance(views(reference@), views(recognized@)),
{
    let ghost a = views(reference@);
    let ghost b = views(recognized@);
    let rows: usize = reference.len();
    let columns: usize = recognized.len();
    let mut previous = first_row(columns);
    let mut row: usize = 0;
    proof {
        assert(a.take(0) =~= Seq::empty());
        assert forall|k: int| 0 <= k < columns implies #[trigger] previous@[k] == distance(
            a.take(0),
            b.take(k + 1),
        ) by {
            assert(b.take(k + 1).len() == k + 1);
        }
    }
    while row < rows
        invariant
            a == views(reference@),
            b == views(recognized@),
            rows == reference@.len() == a.len(),
            columns == recognized@.len() == b.len(),
            row <= rows,
            previous@.len() == columns,
            is_row(previous@, a, b, row as int),
        decreases rows - row,
    {
        let mut current: Vec<usize> = Vec::new();
        let mut column: usize = 0;
        while column < columns
            invariant
                a == views(reference@),
                b == views(recognized@),
                rows == reference@.len() == a.len(),
                columns == recognized@.len() == b.len(),
                row < rows,
                column <= columns,
                previous@.len() == columns,
                is_row(previous@, a, b, row as int),
                current@.len() == column,
                is_row(current@, a, b, row + 1),
            decreases columns - column,
        {
            proof {
                table_step(a, b, row as int, column as int);
                assert(previous@[column as int] == distance(a.take(row as int), b.take(column + 1)));
                if column > 0 {
                    assert(previous@[column - 1] == distance(
                        a.take(row as int),
                        b.take(column as int),
                    ));
                    assert(current@[column - 1] == distance(
                        a.take(row + 1),
                        b.take(column as int),
                    ));
                }
                assert(a[row as int] == reference@[row as int]@);
                assert(b[column as int] == recognized@[column as int]@);
            }
            let differs: usize = if same_text(reference[row].as_str(), recognized[column].as_str()) {
                0
            } else {
                1
            };
            let substitution: usize = entry(&previous, row, column).saturating_add(differs);
            let insertion: usize = entry(&current, row + 1, column).saturating_add(1);
            let deletion: usize = previous[column].saturating_add(1);
            let ghost before = current@;
            current.push(least_of(substitution, insertion, deletion));
            assert forall|k: int| 0 <= k < current@.len() implies #[trigger] current@[k]
                == distance(a.take(row + 1), b.take(k + 1)) by {
                if k < before.len() {
                    assert(current@[k] == before[k]);
                }
            }
            column += 1;
        }
        previous = current;
        row += 1;
    }
    assert(a.take(rows as int) =~= a);
    assert(b.take(columns as int) =~= b);
    entry(&previous, rows, columns)
}

/// The least number of characters that have to be inserted, deleted or replaced.
pub fn edit_distance_chars(reference: &Vec<char>, recognized: &Vec<char>) -> (r: usize)
    ensures
        r == distance(reference@, recognized@),
{
    let ghost a = reference@;
    let ghost b = recognized@;
    let rows: usize = reference.len();
    let columns: usize = recognized.len();
    let mut previous = first_row(columns);
    let mut row: usize = 0;
    proof {
        assert(a.take(0) =~= Seq::empty());
        assert forall|k: int| 0 <= k < columns implies #[trigger] previous@[k] == distance(
            a.take(0),
            b.take(k + 1),
        ) by {
            assert(b.take(k + 1).len() == k + 1);
        }
    }
    while row < rows
        invariant
            a == reference@,
            b == recognized@,
            rows == reference@.len() == a.len(),
            columns == recognized@.len() == b.len(),
            row <= rows,
            previous@.len() == columns,
            is_row(previous@, a, b, row as int),
        decreases rows - row,
    {
        let mut current: Vec<usize> = Vec::new();
        let mut column: usize = 0;
        while column < columns
            invariant
                a == reference@,
                b == recognized@,
                rows == reference@.len() == a.len(),
                columns == recognized@.len() == b.len(),
                row < rows,
                column <= columns,
                previous@.len() == columns,
                is_row(previous@, a, b, row as int),
                current@.len() == column,
                is_row(current@, a, b, row + 1),
            decreases columns - column,
        {
            proof {
                table_step(a, b, row as int, column as int);
                assert(previous@[column as int] == distance(a.take(row as int), b.take(column + 1)));
                if column > 0 {
                    assert(previous@[column - 1] == distance(
                        a.take(row as int),
                        b.take(column as int),
                    ));
                    assert(current@[column - 1] == distance(
                        a.take(row + 1),
                        b.take(column as int),
                    ));
                }
            }
            let differs: usize = if reference[row] == recognized[column] {
                0
            } else {
                1
            };
            let substitution: usize = entry(&previous, row, column).saturating_add(differs);
            let insertion: usize = entry(&current, row + 1, column).saturating_add(1);
            let deletion: usize = previous[column].saturating_add(1);
            let ghost before = current@;
            current.push(least_of(substitution, insertion, deletion));
            assert forall|k: int| 0 <= k < current@.len() implies #[trigger] current@[k]
                == distance(a.take(row + 1), b.take(k + 1)) by {
                if k < before.len() {
                    assert(current@[k] == before[k]);
                }
            }
            column += 1;
        }
        previous = current;
        row += 1;
    }
    assert(a.take(rows as int) =~= a);
    assert(b.take(columns as int) =~= b);
    entry(&previous, rows, columns)
}

/// A text in lower case, character by character.
pub open spec fn lowered(value: Seq<char>) -> Seq<char>
    decreases value.len(),
{
    if value.len() == 0 {
        Seq::empty()
    } else {
        lowered(value.drop_last()) + char_lowercase(value.last())
    }
}

/// A letter as it is compared: two spellings of one letter are the same.
pub open spec fn folded(c: char) -> char {
    if c == 'ё' {
        'е'
    } else {
        c
    }
}

/// A text with each run of what is neither letter nor digit made one blank, and
/// none at its start.
pub open spec fn spaced(value: Seq<char>) -> Seq<char>
    decreases value.len(),
{
    if value.len() == 0 {
        Seq::empty()
    } else {
        let before = spaced(value.drop_last());
        let c = folded(value.last());
        if alphanumeric(c) {
            before.push(c)
        } else if before.len() == 0 || before.last() == ' ' {
            before
        } else {
            before.push(' ')
        }
    }
}

/// A text as it is compared: letters and digits in lower case, with single
/// blanks between words.
pub open spec fn comparable(value: Seq<char>) -> Seq<char> {
    trim(spaced(lowered(value)))
}

fn lower_chars(value: &str) -> (r: Vec<char>)
    ensures
        r@ == lowered(value@),
{
    let chars = chars_of(value);
    let mut out: Vec<char> = Vec::new();
    let mut i: usize = 0;
    assert(chars@.take(0) =~= Seq::empty());
    while i < chars.len()
        invariant
            i <= chars@.len(),
            out@ == lowered(chars@.take(i as int)),
        decreases chars@.len() - i,
    {
        assert(chars@.take(i + 1).drop_last() =~= chars@.take(i as int));
        let lower = char_to_lowercase(chars[i]);
        let mut more = chars_of(lower.as_str());
        out.append(&mut more);
        i += 1;
    }
    assert(chars@.take(i as int) =~= chars@);
    out
}

/// A text of characters in lower case with single blanks between words. The
/// last character is a blank only where the last one was neither letter nor
/// digit; letters and digits are never blanks.
fn space(chars: &Vec<char>) -> (r: String)
    ensures
        r@ == spaced(chars@),
{
    let mut out = String::new();
    let mut after_blank = true;
    let mut i: usize = 0;
    assert(chars@.take(0) =~= Seq::empty());
    while i < chars.len()
        invariant
            i <= chars@.len(),
            out@ == spaced(chars@.take(i as int)),
            after_blank == (out@.len() == 0 || out@.last() == ' '),
        decreases chars@.len() - i,
    {
        assert(chars@.take(i + 1).drop_last() =~= chars@.take(i as int));
        let c = if chars[i] == 'ё' {
            'е'
        } else {
            chars[i]
        };
        if is_alphanumeric(c) {
            out.push(c);
            after_blank = c == ' ';
        } else if !after_blank {
            out.push(' ');
            after_blank = true;
        }
        i += 1;
    }
    assert(chars@.take(i as int) =~= chars@);
    out
}

/// The text as it is compared.
pub fn normalize_transcript(value: &str) -> (r: String)
    ensures
        r@ == comparable(value@),
{
    let lower = lower_chars(value);
    let text = space(&lower);
    trimmed(text.as_str())
}

fn visible_chars(text: &str) -> (r: Vec<char>)
    ensures
        r@ == visible(text@),
        r@.len() <= text@.len(),
{
    let chars = chars_of(text);
    let mut out: Vec<char> = Vec::new();
    let mut i: usize = 0;
    assert(chars@.take(0) =~= Seq::empty());
    while i < chars.len()
        invariant
            i <= chars@.len(),
            out@.len() <= i,
            out@ == visible(chars@.take(i as int)),
        decreases chars@.len() - i,
    {
        assert(chars@.take(i + 1).drop_last() =~= chars@.take(i as int));
        if !is_white(chars[i]) {
            out.push(chars[i]);
        }
        i += 1;
    }
    assert(chars@.take(i as int) =~= chars@);
    out
}

/// How many words and characters of a reference were recognised wrongly. The
/// rates of error are the errors by the words and characters of the reference.
#[derive(Clone, Copy, Debug, PartialEq, Eq, Structural)]
pub struct AccuracyScores {
    pub word_errors: usize,
    pub reference_words: usize,
    pub character_errors: usize,
    pub reference_characters: usize,
}

/// The scores of texts as they are compared.
pub open spec fn scores_of(reference: Seq<char>, recognized: Seq<char>) -> AccuracyScores {
    AccuracyScores {
        word_errors: distance(words(reference), words(recognized)) as usize,
        reference_words: words(reference).len() as usize,
        character_errors: distance(visible(reference), visible(recognized)) as usize,
        reference_characters: visible(reference).len() as usize,
    }
}

impl AccuracyScores {
    /// The scores of texts that are already as they are compared.
    pub fn of_comparable(reference: &str, recognized: &str) -> (r: Self)
        ensures
            r == scores_of(reference@, recognized@),
    {
        let reference_words = split_words(reference);
        let recognized_words = split_words(recognized);
        let reference_chars = visible_chars(reference);
        let recognized_chars = visible_chars(recognized);
        AccuracyScores {
            word_errors: edit_distance_words(&reference_words, &recognized_words),
            reference_words: reference_words.len(),
            character_errors: edit_distance_chars(&reference_chars, &recognized_chars),
            reference_characters: reference_chars.len(),
        }
    }

    /// The scores of what was recognised.
    pub fn new(reference: &str, recognized: &str) -> (r: Self)
        ensures
            r == scores_of(comparable(reference@), comparable(recognized@)),
    {
        let normalized_reference = normalize_transcript(reference);
        let normalized_recognized = normalize_transcript(recognized);
        AccuracyScores::of_comparable(
            normalized_reference.as_str(),
            normalized_recognized.as_str(),
        )
    }
}

/// One line of the reference and what was recognised for it.
#[derive(Debug)]
pub struct AccuracySegment {
    pub sequence: usize,
    pub reference: String,
    pub recognized: String,
    pub scores: AccuracyScores,
}

/// The value of an [`AccuracySegment`].
#[verifier::ext_equal]
pub struct SegmentModel {
    pub sequence: usize,
    pub reference: Seq<char>,
    pub recognized: Seq<char>,
    pub scores: AccuracyScores,
}

impl View for AccuracySegment {
    type V = SegmentModel;

    open spec fn view(&self) -> SegmentModel {
        SegmentModel {
            sequence: self.sequence,
            reference: self.reference@,
            recognized: self.recognized@,
            scores: self.scores,
        }
    }
}

/// How well speech was recognised, as a whole and line by line.
#[derive(Debug)]
pub struct AccuracySummary {
    pub reference_text: String,
    pub recognized_text: String,
    pub scores: AccuracyScores,
    pub segments: Vec<AccuracySegment>,
}

/// The value of an [`AccuracySummary`].
#[verifier::ext_equal]
pub struct AccuracyModel {
    pub reference_text: Seq<char>,
    pub recognized_text: Seq<char>,
    pub scores: AccuracyScores,
    pub segments: Seq<SegmentModel>,
}

/// The values of the segments.
pub open spec fn segment_models(segments: Seq<AccuracySegment>) -> Seq<SegmentModel> {
    Seq::new(segments.len(), |i: int| segments[i]@)
}

impl View for AccuracySummary {
    type V = AccuracyModel;

    open spec fn view(&self) -> AccuracyModel {
        AccuracyModel {
            reference_text: self.reference_text@,
            recognized_text: self.recognized_text@,
            scores: self.scores,
            segments: segment_models(self.segments@),
        }
    }
}

/// The lines of a reference that are not blank, without white space around
/// them.
pub open spec fn reference_lines(all: Seq<Seq<char>>) -> Seq<Seq<char>>
    decreases all.len(),
{
    if all.len() == 0 {
        Seq::empty()
    } else if trim(all.last()).len() == 0 {
        reference_lines(all.drop_last())
    } else {
        reference_lines(all.drop_last()).push(trim(all.last()))
    }
}

/// One of the texts, or none where there are fewer.
pub open spec fn text_at(texts: Seq<Seq<char>>, i: int) -> Seq<char> {
    if i < texts.len() {
        texts[i]
    } else {
        Seq::empty()
    }
}

/// The lines of a reference beside what was recognised, for as many as there
/// are of either.
pub open spec fn paired(reference: Seq<Seq<char>>, recognized: Seq<Seq<char>>) -> Seq<SegmentModel> {
    let count = if reference.len() > recognized.len() {
        reference.len()
    } else {
        recognized.len()
    };
    Seq::new(
        count,
        |i: int|
            SegmentModel {
                sequence: i as usize,
                reference: text_at(reference, i),
                recognized: text_at(recognized, i),
                scores: scores_of(
                    comparable(text_at(reference, i)),
                    comparable(text_at(recognized, i)),
                ),
            },
    )
}

/// How well speech was recognised.
pub open spec fn accuracy(reference: Seq<char>, recognized: Seq<Seq<char>>) -> AccuracyModel {
    let text = join(recognized, " "@);
    AccuracyModel {
        reference_text: trim(reference),
        recognized_text: text,
        scores: scores_of(comparable(reference), comparable(text)),
        segments: paired(reference_lines(lines(reference)), recognized),
    }
}

fn keep_lines(reference: &str) -> (r: Vec<String>)
    ensures
        views(r@) == reference_lines(lines(reference@)),
{
    let all = split_lines(reference);
    let ghost every = views(all@);
    let mut out: Vec<String> = Vec::new();
    let mut i: usize = 0;
    assert(every.take(0) =~= Seq::empty());
    assert(views(out@) =~= Seq::empty());
    while i < all.len()
        invariant
            every == views(all@),
            i <= all@.len(),
            views(out@) == reference_lines(every.take(i as int)),
        decreases all@.len() - i,
    {
        assert(every.take(i + 1).drop_last() =~= every.take(i as int));
        assert(every.take(i + 1).last() == all@[i as int]@);
        let line = trimmed(all[i].as_str());
        if !line.as_str().is_empty() {
            let ghost before = views(out@);
            let ghost model = line@;
            out.push(line);
            assert(views(out@) =~= before.push(model));
        }
        i += 1;
    }
    assert(every.take(i as int) =~= every);
    out
}

fn pick_text(texts: &Vec<String>, i: usize) -> (r: String)
    ensures
        r@ == text_at(views(texts@), i as int),
{
    if i < texts.len() {
        texts[i].clone()
    } else {
        String::new()
    }
}

impl AccuracySummary {
    /// How well the segments of speech were recognised, against a reference
    /// with one line for each.
    pub fn new(reference: &str, recognized_segments: &Vec<String>) -> (r: Self)
        ensures
            r@ == accuracy(reference@, views(recognized_segments@)),
    {
        let recognized_text = join_texts(recognized_segments, " ");
        let reference_segments = keep_lines(reference);
        let ghost all = paired(views(reference_segments@), views(recognized_segments@));
        let count: usize = if reference_segments.len() > recognized_segments.len() {
            reference_segments.len()
        } else {
            recognized_segments.len()
        };
        let mut segments: Vec<AccuracySegment> = Vec::new();
        let mut i: usize = 0;
        assert(segment_models(segments@) =~= all.take(0));
        while i < count
            invariant
                all == paired(views(reference_segments@), views(recognized_segments@)),
                i <= count == all.len(),
                segment_models(segments@) == all.take(i as int),
            decreases count - i,
        {
            let line = pick_text(&reference_segments, i);
            let heard = pick_text(recognized_segments, i);
            let scores = AccuracyScores::new(line.as_str(), heard.as_str());
            let segment = AccuracySegment { sequence: i, reference: line, recognized: heard, scores };
            let ghost before = segment_models(segments@);
            let ghost model = segment@;
            assert(model =~= all[i as int]);
            segments.push(segment);
            assert(segment_models(segments@) =~= before.push(model));
            i += 1;
            assert(all.take(i as int) =~= all.take(i - 1).push(all[i - 1]));
        }
        assert(all.take(i as int) =~= all);
        let scores = AccuracyScores::new(reference, recognized_text.as_str());
        AccuracySummary {
            reference_text: trimmed(reference),
            recognized_text,
            scores,
            segments,
        }
    }
}

/// A text that is recognised as it is has no errors, whatever its case and
/// its punctuation.
pub proof fn equal_texts_have_no_errors(reference: Seq<char>, recognized: Seq<char>)
    requires
        comparable(reference) == comparable(recognized),
    ensures
        ({
            let scores = scores_of(comparable(reference), comparable(recognized));
            scores.word_errors == 0 && scores.character_errors == 0
        }),
{
    distance_is_zero_for_equal_texts(
        words(comparable(reference)),
        words(comparable(recognized)),
    );
    distance_is_zero_for_equal_texts(visible(comparable(reference)), visible(comparable(recognized)));
}

proof fn white_is_not_visible(s: Seq<char>)
    requires
        forall|k: int| 0 <= k < s.len() ==> white(#[trigger] s[k]),
    ensures
        visible(s) == Seq::<char>::empty(),
    decreases s.len(),
{
    if s.len() > 0 {
        assert(white(s[s.len() - 1]));
        assert forall|k: int| 0 <= k < s.drop_last().len() implies white(
            #[trigger] s.drop_last()[k],
        ) by {
            assert(s.drop_last()[k] == s[k]);
        }
        white_is_not_visible(s.drop_last());
    }
}

proof fn words_behind_white(left: Seq<char>, s: Seq<char>)
    requires
        forall|k: int| 0 <= k < left.len() ==> white(#[trigger] left[k]),
    ensures
        words(left + s) == words(s),
    decreases left.len(),
{
    if left.len() == 0 {
        assert(left + s =~= s);
    } else {
        let c = left[0];
        let rest = left.drop_first();
        assert forall|k: int| 0 <= k < rest.len() implies white(#[trigger] rest[k]) by {
            assert(rest[k] == left[k + 1]);
        }
        words_behind_white(rest, s);
        let none = Seq::<char>::empty();
        assert(white(c));
        fields_are_what_separators_leave(none, c, rest + s, none, Separator::White);
        assert(left + s =~= none.push(c) + (rest + s));
        assert(words(left + s) =~= words(rest + s));
    }
}

proof fn words_before_white(s: Seq<char>, right: Seq<char>)
    requires
        forall|k: int| 0 <= k < right.len() ==> white(#[trigger] right[k]),
    ensures
        words(s + right) == words(s),
    decreases right.len(),
{
    if right.len() == 0 {
        assert(s + right =~= s);
    } else {
        let c = right.last();
        let rest = right.drop_last();
        assert(white(right[right.len() - 1]));
        assert forall|k: int| 0 <= k < rest.len() implies white(#[trigger] rest[k]) by {
            assert(rest[k] == right[k]);
        }
        words_before_white(s, rest);
        let none = Seq::<char>::empty();
        fields_are_what_separators_leave(s + rest, c, none, none, Separator::White);
        assert(s + right =~= (s + rest).push(c) + none);
        assert(words(s + right) =~= words(s + rest));
    }
}

proof fn trimming_hides_nothing(s: Seq<char>)
    ensures
        visible(trim(s)) == visible(s),
        words(trim(s)) == words(s),
{
    trim_start_is_suffix(s);
    let t = trim_start(s);
    trim_end_is_prefix(t);
    let left = s.take(s.len() - t.len());
    let right = t.skip(trim(s).len() as int);
    assert(s =~= left + t);
    assert(t =~= trim(s) + right);
    white_is_not_visible(left);
    white_is_not_visible(right);
    visible_characters_stay_in_order(left, t, ' ');
    visible_characters_stay_in_order(trim(s), right, ' ');
    assert(visible(s) =~= visible(trim(s)));
    words_behind_white(left, t);
    words_before_white(trim(s), right);
}

/// Lower case is made character by character.
pub proof fn characters_are_lowered_one_by_one(a: Seq<char>, b: Seq<char>, c: char)
    ensures
        lowered(a + b) == lowered(a) + lowered(b),
        lowered(seq![c]) == char_lowercase(c),
        lowered(Seq::empty()) == Seq::<char>::empty(),
    decreases b.len(),
{
    assert(seq![c].drop_last() =~= Seq::empty());
    assert(lowered(seq![c].drop_last()) =~= Seq::empty());
    assert(lowered(seq![c]) =~= char_lowercase(c));
    if b.len() == 0 {
        assert(a + b =~= a);
        assert(lowered(a) + lowered(b) =~= lowered(a));
    } else {
        characters_are_lowered_one_by_one(a, b.drop_last(), c);
        assert((a + b).drop_last() =~= a + b.drop_last());
        assert(lowered(a + b) =~= lowered(a) + lowered(b));
    }
}

/// The letters and digits of a text as they are compared, in order: in lower
/// case, with two spellings of one letter made the same.
pub open spec fn letters(value: Seq<char>) -> Seq<char> {
    lowered(value).map_values(
        |c: char|
            if c == 'ё' {
                'е'
            } else {
                c
            },
    ).filter(|c: char| alphanumeric(c) && !white(c))
}

proof fn spacing_keeps_letters(x: Seq<char>)
    ensures
        visible(spaced(x)) == x.map_values(
            |c: char|
                if c == 'ё' {
                    'е'
                } else {
                    c
                },
        ).filter(|c: char| alphanumeric(c) && !white(c)),
    decreases x.len(),
{
    reveal(Seq::filter);
    let folds = |c: char|
        if c == 'ё' {
            'е'
        } else {
            c
        };
    let all = x.map_values(folds);
    if x.len() > 0 {
        let before = x.drop_last();
        spacing_keeps_letters(before);
        assert(all.drop_last() =~= before.map_values(folds));
        let c = folded(x.last());
        assert(all.last() == c);
        assert(white(' '));
        let spaces = spaced(before);
        visible_characters_stay_in_order(spaces, seq![c], c);
        visible_characters_stay_in_order(spaces, seq![' '], ' ');
        assert(spaces.push(c) =~= spaces + seq![c]);
        assert(spaces.push(' ') =~= spaces + seq![' ']);
        assert(visible(spaces) + Seq::<char>::empty() =~= visible(spaces));
        assert(visible(spaces) + seq![c] =~= visible(spaces).push(c));
    }
}

/// Comparing keeps every letter and digit of a text, in order, and nothing
/// else.
pub proof fn comparing_keeps_letters_and_digits(value: Seq<char>)
    ensures
        visible(comparable(value)) == letters(value),
        letters(value) == lowered(value).map_values(
            |c: char|
                if c == 'ё' {
                    'е'
                } else {
                    c
                },
        ).filter(|c: char| alphanumeric(c) && !white(c)),
{
    spacing_keeps_letters(lowered(value));
    trimming_hides_nothing(spaced(lowered(value)));
}

/// Letters and digits are recognised one by one: a character that is one, or
/// whose lower case is one, is compared wherever it stands, and any other is
/// not.
pub proof fn letters_and_digits_are_compared(a: Seq<char>, c: char, d: char, b: Seq<char>)
    requires
        char_lowercase(c) == seq![d],
        d != 'ё',
        !white(d),
    ensures
        alphanumeric(d) ==> visible(comparable(a.push(c) + b)) == visible(comparable(a)).push(d)
            + visible(comparable(b)),
        !alphanumeric(d) ==> visible(comparable(a.push(c) + b)) == visible(comparable(a)) + visible(
            comparable(b),
        ),
{
    let folds = |c: char|
        if c == 'ё' {
            'е'
        } else {
            c
        };
    let keeps = |c: char| alphanumeric(c) && !white(c);
    let x = lowered(a).map_values(folds);
    let y = lowered(b).map_values(folds);
    let one = seq![d].map_values(folds);
    comparing_keeps_letters_and_digits(a);
    comparing_keeps_letters_and_digits(b);
    comparing_keeps_letters_and_digits(a.push(c) + b);
    assert(a.push(c) + b =~= (a + seq![c]) + b);
    characters_are_lowered_one_by_one(a, seq![c], c);
    characters_are_lowered_one_by_one(a + seq![c], b, c);
    let whole = lowered(a.push(c) + b).map_values(folds);
    assert(one =~= seq![d]);
    assert(whole =~= (x + one) + y);
    Seq::filter_distributes_over_add(x + one, y, keeps);
    Seq::filter_distributes_over_add(x, one, keeps);
    assert(seq![d].filter(keeps) =~= if alphanumeric(d) {
        seq![d]
    } else {
        Seq::<char>::empty()
    }) by {
        reveal_with_fuel(Seq::filter, 2);
        assert(seq![d].drop_last() =~= Seq::empty());
    }
    if alphanumeric(d) {
        assert(x.filter(keeps) + seq![d] =~= x.filter(keeps).push(d));
    } else {
        assert(x.filter(keeps) + Seq::<char>::empty() =~= x.filter(keeps));
    }
}

/// Texts that differ in a letter or a digit have errors, and texts that differ
/// in none have no wrong character.
pub proof fn errors_are_differences_of_letters(reference: Seq<char>, recognized: Seq<char>)
    requires
        letters(reference).len() <= usize::MAX,
        letters(recognized).len() <= usize::MAX,
    ensures
        ({
            let scores = scores_of(comparable(reference), comparable(recognized));
            &&& scores.character_errors == distance(letters(reference), letters(recognized))
            &&& scores.character_errors == 0 <==> letters(reference) == letters(recognized)
            &&& scores.reference_characters == letters(reference).len()
        }),
{
    comparing_keeps_letters_and_digits(reference);
    comparing_keeps_letters_and_digits(recognized);
    distance_is_zero_for_equal_texts(letters(reference), letters(recognized));
    distance_is_bounded(letters(reference), letters(recognized));
}

proof fn spaced_runs(x: Seq<char>, run: Seq<char>)
    requires
        forall|k: int|
            0 <= k < x.len() && alphanumeric(folded(#[trigger] x[k])) ==> !white(folded(x[k])),
        forall|k: int|
            0 <= k < run.len() ==> alphanumeric(folded(#[trigger] run[k])) && !white(
                folded(run[k]),
            ),
    ensures
        words(spaced(x + run)) == fields(
            (x + run).map_values(|c: char| folded(c)),
            Separator::NotAlphanumeric,
        ),
    decreases x.len(),
{
    let folds = |c: char| folded(c);
    let whole = x + run;
    let none = Seq::<char>::empty();
    if x.len() == 0 {
        assert(whole =~= run);
        runs_are_kept(none, run);
        assert(none + run =~= run);
        let kept = run.map_values(folds);
        assert(spaced(none) =~= none);
        assert(spaced(run) =~= kept);
        assert(white(' '));
        assert(Separator::White.separates(' '));
        fields_are_what_separators_leave(none, ' ', none, kept, Separator::White);
        assert forall|k: int| 0 <= k < kept.len() implies !Separator::NotAlphanumeric.separates(
            #[trigger] kept[k],
        ) by {
            assert(kept[k] == folded(run[k]));
        }
        separators_stand_alone(kept, Separator::NotAlphanumeric);
        assert(whole.map_values(folds) =~= kept);
    } else if alphanumeric(folded(x.last())) {
        let shorter = x.drop_last();
        let longer = seq![x.last()] + run;
        assert(!white(folded(x[x.len() - 1])));
        assert forall|k: int|
            0 <= k < shorter.len() && alphanumeric(folded(#[trigger] shorter[k])) implies !white(
            folded(shorter[k]),
        ) by {
            assert(shorter[k] == x[k]);
        }
        assert forall|k: int| 0 <= k < longer.len() implies alphanumeric(
            folded(#[trigger] longer[k]),
        ) && !white(folded(longer[k])) by {
            if k > 0 {
                assert(longer[k] == run[k - 1]);
            }
        }
        spaced_runs(shorter, longer);
        assert(shorter + longer =~= whole);
    } else {
        let shorter = x.drop_last();
        let c = folded(x.last());
        assert forall|k: int|
            0 <= k < shorter.len() && alphanumeric(folded(#[trigger] shorter[k])) implies !white(
            folded(shorter[k]),
        ) by {
            assert(shorter[k] == x[k]);
        }
        spaced_runs(shorter, none);
        assert(shorter + none =~= shorter);
        runs_are_kept(x, run);
        let kept = run.map_values(folds);
        let before = spaced(shorter);
        assert forall|k: int| 0 <= k < kept.len() implies !Separator::NotAlphanumeric.separates(
            #[trigger] kept[k],
        ) && !Separator::White.separates(kept[k]) by {
            assert(kept[k] == folded(run[k]));
        }
        fields_are_what_separators_leave(
            shorter.map_values(folds),
            c,
            kept,
            kept,
            Separator::NotAlphanumeric,
        );
        assert(whole.map_values(folds) =~= shorter.map_values(folds).push(c) + kept);
        assert(white(' '));
        fields_are_what_separators_leave(before, ' ', kept, kept, Separator::White);
        if spaced(x) == before.push(' ') {
            assert(spaced(whole) =~= before.push(' ') + kept);
        } else if before.len() == 0 {
            assert(spaced(whole) =~= kept);
            assert(before =~= none);
            separators_stand_alone(none, Separator::White);
            assert(words(before) + words(kept) =~= words(kept));
        } else {
            let first = before.drop_last();
            assert(before =~= first.push(' '));
            assert(spaced(whole) =~= first.push(' ') + kept);
            fields_are_what_separators_leave(first, ' ', kept, kept, Separator::White);
            fields_are_what_separators_leave(first, ' ', none, none, Separator::White);
            assert(before =~= first.push(' ') + none);
            assert(words(before) =~= words(first));
        }
    }
}

proof fn separators_stand_alone(plain: Seq<char>, sep: Separator)
    requires
        forall|k: int| 0 <= k < plain.len() ==> !sep.separates(#[trigger] plain[k]),
    ensures
        plain.len() > 0 ==> fields(plain, sep) == seq![plain],
        plain.len() == 0 ==> fields(plain, sep) == Seq::<Seq<char>>::empty(),
{
    unparted_texts_are_one_piece(plain, sep);
    assert(seq![plain].drop_last() =~= Seq::empty());
    assert(non_empty(seq![plain].drop_last()) =~= Seq::empty());
    if plain.len() > 0 {
        assert(non_empty(seq![plain]) =~= seq![plain]);
    }
}

proof fn runs_are_kept(x: Seq<char>, run: Seq<char>)
    requires
        forall|k: int| 0 <= k < run.len() ==> alphanumeric(folded(#[trigger] run[k])),
    ensures
        spaced(x + run) == spaced(x) + run.map_values(|c: char| folded(c)),
    decreases run.len(),
{
    let folds = |c: char| folded(c);
    if run.len() == 0 {
        assert(x + run =~= x);
        assert(spaced(x) + run.map_values(folds) =~= spaced(x));
    } else {
        let rest = run.drop_last();
        assert(alphanumeric(folded(run[run.len() - 1])));
        assert forall|k: int| 0 <= k < rest.len() implies alphanumeric(
            folded(#[trigger] rest[k]),
        ) by {
            assert(rest[k] == run[k]);
        }
        runs_are_kept(x, rest);
        assert((x + run).drop_last() =~= x + rest);
        assert(run.map_values(folds) =~= rest.map_values(folds).push(folded(run.last())));
        assert(spaced(x + run) =~= spaced(x) + run.map_values(folds));
    }
}

/// The words that are compared are the longest runs of letters and digits, in
/// order. Letters and digits are taken not to be white space.
pub proof fn words_are_runs_of_letters_and_digits(value: Seq<char>)
    requires
        forall|c: char| #[trigger] alphanumeric(c) ==> !white(c),
    ensures
        words(comparable(value)) == fields(
            lowered(value).map_values(
                |c: char|
                    if c == 'ё' {
                        'е'
                    } else {
                        c
                    },
            ),
            Separator::NotAlphanumeric,
        ),
{
    let x = lowered(value);
    let none = Seq::<char>::empty();
    trimming_hides_nothing(spaced(x));
    spaced_runs(x, none);
    assert(x + none =~= x);
    assert(x.map_values(|c: char| folded(c)) =~= x.map_values(
        |c: char|
            if c == 'ё' {
                'е'
            } else {
                c
            },
    ));
}

/// Whether parts of two texts are set side by side, in order and each at most
/// once.
pub open spec fn aligned<T>(a: Seq<T>, b: Seq<T>, pairs: Seq<(int, int)>) -> bool {
    &&& forall|k: int|
        0 <= k < pairs.len() ==> 0 <= (#[trigger] pairs[k]).0 < a.len() && 0 <= pairs[k].1 < b.len()
    &&& forall|k: int, l: int|
        0 <= k < l < pairs.len() ==> (#[trigger] pairs[k]).0 < (#[trigger] pairs[l]).0 && pairs[k].1
            < pairs[l].1
}

/// What it costs to turn one text into the other with parts side by side: one
/// for each part that has no other beside it, and one for each two that differ.
pub open spec fn cost<T>(a: Seq<T>, b: Seq<T>, pairs: Seq<(int, int)>) -> int {
    a.len() - pairs.len() + b.len() - pairs.len() + pairs.filter(
        |p: (int, int)| a[p.0] != b[p.1],
    ).len()
}

proof fn differing_pairs<T>(a: Seq<T>, b: Seq<T>, x: Seq<T>, y: Seq<T>, pairs: Seq<(int, int)>)
    requires
        forall|k: int|
            0 <= k < pairs.len() ==> a[(#[trigger] pairs[k]).0] == x[pairs[k].0] && b[pairs[k].1]
                == y[pairs[k].1],
    ensures
        pairs.filter(|p: (int, int)| a[p.0] != b[p.1]).len() == pairs.filter(
            |p: (int, int)| x[p.0] != y[p.1],
        ).len(),
    decreases pairs.len(),
{
    reveal(Seq::filter);
    if pairs.len() > 0 {
        let rest = pairs.drop_last();
        assert forall|k: int| 0 <= k < rest.len() implies a[(#[trigger] rest[k]).0] == x[rest[k].0]
            && b[rest[k].1] == y[rest[k].1] by {
            assert(rest[k] == pairs[k]);
        }
        differing_pairs(a, b, x, y, rest);
        let last = pairs[pairs.len() - 1];
        assert(a[last.0] == x[last.0]);
    }
}

proof fn no_alignment_is_cheaper<T>(a: Seq<T>, b: Seq<T>, pairs: Seq<(int, int)>)
    requires
        aligned(a, b, pairs),
    ensures
        distance(a, b) <= cost(a, b, pairs),
    decreases a.len() + b.len(),
{
    reveal(Seq::filter);
    let n = pairs.len() as int;
    if a.len() == 0 || b.len() == 0 {
        if n > 0 {
            assert(0 <= pairs[0].0 < a.len() && 0 <= pairs[0].1 < b.len());
        }
    } else if n > 0 && pairs[n - 1] == (a.len() - 1, b.len() - 1) {
        let x = a.drop_last();
        let y = b.drop_last();
        let rest = pairs.drop_last();
        assert forall|k: int| 0 <= k < rest.len() implies 0 <= (#[trigger] rest[k]).0 < x.len()
            && 0 <= rest[k].1 < y.len() by {
            assert(pairs[k].0 < pairs[n - 1].0 && pairs[k].1 < pairs[n - 1].1);
        }
        assert forall|k: int, l: int| 0 <= k < l < rest.len() implies (#[trigger] rest[k]).0 < (
        #[trigger] rest[l]).0 && rest[k].1 < rest[l].1 by {
            assert(pairs[k].0 < pairs[l].0 && pairs[k].1 < pairs[l].1);
        }
        no_alignment_is_cheaper(x, y, rest);
        differing_pairs(a, b, x, y, rest);
        assert(pairs.last() == pairs[n - 1]);
    } else if n == 0 || pairs[n - 1].0 < a.len() - 1 {
        let x = a.drop_last();
        assert forall|k: int| 0 <= k < n implies 0 <= (#[trigger] pairs[k]).0 < x.len() && 0
            <= pairs[k].1 < b.len() by {
            if k < n - 1 {
                assert(pairs[k].0 < pairs[n - 1].0);
            }
        }
        no_alignment_is_cheaper(x, b, pairs);
        differing_pairs(a, b, x, b, pairs);
    } else {
        let y = b.drop_last();
        assert(pairs[n - 1].1 < b.len() - 1);
        assert forall|k: int| 0 <= k < n implies 0 <= (#[trigger] pairs[k]).0 < a.len() && 0
            <= pairs[k].1 < y.len() by {
            if k < n - 1 {
                assert(pairs[k].1 < pairs[n - 1].1);
            }
        }
        no_alignment_is_cheaper(a, y, pairs);
        differing_pairs(a, b, a, y, pairs);
    }
}

proof fn some_alignment_is_as_cheap<T>(a: Seq<T>, b: Seq<T>) -> (pairs: Seq<(int, int)>)
    ensures
        aligned(a, b, pairs),
        cost(a, b, pairs) == distance(a, b),
    decreases a.len() + b.len(),
{
    reveal(Seq::filter);
    if a.len() == 0 || b.len() == 0 {
        Seq::empty()
    } else {
        let x = a.drop_last();
        let y = b.drop_last();
        if distance(a, b) == distance(x, b) + 1 {
            let pairs = some_alignment_is_as_cheap(x, b);
            differing_pairs(a, b, x, b, pairs);
            pairs
        } else if distance(a, b) == distance(a, y) + 1 {
            let pairs = some_alignment_is_as_cheap(a, y);
            differing_pairs(a, b, a, y, pairs);
            pairs
        } else {
            let rest = some_alignment_is_as_cheap(x, y);
            let pairs = rest.push((a.len() - 1, b.len() - 1));
            assert forall|k: int| 0 <= k < pairs.len() implies 0 <= (#[trigger] pairs[k]).0 < a.len()
                && 0 <= pairs[k].1 < b.len() by {
                if k < rest.len() {
                    assert(pairs[k] == rest[k]);
                }
            }
            assert forall|k: int, l: int| 0 <= k < l < pairs.len() implies (#[trigger] pairs[k]).0
                < (#[trigger] pairs[l]).0 && pairs[k].1 < pairs[l].1 by {
                assert(pairs[k] == rest[k]);
                if l < rest.len() {
                    assert(pairs[l] == rest[l]);
                }
            }
            differing_pairs(a, b, x, y, rest);
            assert(pairs.drop_last() =~= rest);
            pairs
        }
    }
}

/// The distance is what the cheapest way costs to set the parts of two texts
/// side by side.
pub proof fn distance_is_the_least_cost<T>(a: Seq<T>, b: Seq<T>)
    ensures
        forall|pairs: Seq<(int, int)>| #[trigger]
            aligned(a, b, pairs) ==> distance(a, b) <= cost(a, b, pairs),
        exists|pairs: Seq<(int, int)>| #[trigger]
            aligned(a, b, pairs) && cost(a, b, pairs) == distance(a, b),
{
    assert forall|pairs: Seq<(int, int)>| #[trigger] aligned(a, b, pairs) implies distance(a, b)
        <= cost(a, b, pairs) by {
        no_alignment_is_cheaper(a, b, pairs);
    }
    let pairs = some_alignment_is_as_cheap(a, b);
    assert(aligned(a, b, pairs));
}

/// The lines of a reference are all that are not blank, in order and without
/// the white space around them.
pub proof fn blank_lines_are_no_reference(all: Seq<Seq<char>>)
    ensures
        reference_lines(all) == all.map_values(|line: Seq<char>| trim(line)).filter(
            |line: Seq<char>| line.len() > 0,
        ),
    decreases all.len(),
{
    reveal(Seq::filter);
    let trims = |line: Seq<char>| trim(line);
    if all.len() > 0 {
        blank_lines_are_no_reference(all.drop_last());
        assert(all.map_values(trims).drop_last() =~= all.drop_last().map_values(trims));
        assert(all.map_values(trims).last() == trim(all.last()));
    }
}

/// Each line of the reference stands beside what was recognised in its place,
/// and each has its own scores; where there are fewer of one than of the
/// other, nothing stands beside the rest.
pub proof fn lines_stand_beside_what_was_recognised(
    reference: Seq<char>,
    recognized: Seq<Seq<char>>,
    k: int,
)
    requires
        0 <= k < reference_lines(lines(reference)).len() || 0 <= k < recognized.len(),
        k <= usize::MAX,
    ensures
        ({
            let expected = reference_lines(lines(reference));
            let segments = accuracy(reference, recognized).segments;
            &&& segments.len() >= expected.len()
            &&& segments.len() >= recognized.len()
            &&& segments.len() == expected.len() || segments.len() == recognized.len()
            &&& segments[k].sequence == k
            &&& k < expected.len() ==> segments[k].reference == expected[k]
            &&& k >= expected.len() ==> segments[k].reference == Seq::<char>::empty()
            &&& k < recognized.len() ==> segments[k].recognized == recognized[k]
            &&& k >= recognized.len() ==> segments[k].recognized == Seq::<char>::empty()
            &&& segments[k].scores == scores_of(
                comparable(segments[k].reference),
                comparable(segments[k].recognized),
            )
        }),
        accuracy(reference, recognized).scores == scores_of(
            comparable(reference),
            comparable(join(recognized, seq![' '])),
        ),
        accuracy(reference, recognized).reference_text == trim(reference),
        accuracy(reference, recognized).recognized_text == join(recognized, seq![' ']),
{
    reveal_strlit(" ");
    assert(" "@ =~= seq![' ']);
}

/// Words are counted and compared as whole words, characters without the
/// blanks between them.
pub proof fn scores_count_words_and_characters(reference: Seq<char>, recognized: Seq<char>)
    requires
        words(reference).len() <= usize::MAX,
        words(recognized).len() <= usize::MAX,
        visible(reference).len() <= usize::MAX,
        visible(recognized).len() <= usize::MAX,
    ensures
        ({
            let scores = scores_of(reference, recognized);
            &&& scores.reference_words == words(reference).len()
            &&& scores.reference_characters == visible(reference).len()
            &&& scores.word_errors == distance(words(reference), words(recognized))
            &&& scores.character_errors == distance(visible(reference), visible(recognized))
            &&& scores.word_errors == 0 <==> words(reference) == words(recognized)
        }),
{
    distance_is_bounded(words(reference), words(recognized));
    distance_is_bounded(visible(reference), visible(recognized));
    distance_is_zero_for_equal_texts(words(reference), words(recognized));
}

} // verus!
