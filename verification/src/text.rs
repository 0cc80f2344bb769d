//! Text as a sequence of characters: trimming, splitting, joining and the
//! decimal and hexadecimal notation of numbers.
use vstd::prelude::*;

use crate::unicode::{alphanumeric, is_alphanumeric};

verus! {

/// `String::push` of the standard library: appends one character.
pub assume_specification[ String::push ](text: &mut String, ch: char)
    ensures
        final(text)@ == old(text)@.push(ch),
;

/// The characters of Unicode's `White_Space` property.
pub open spec fn white(c: char) -> bool {
    ||| '\u{9}' <= c <= '\u{d}'
    ||| c == ' '
    ||| c == '\u{85}'
    ||| c == '\u{a0}'
    ||| c == '\u{1680}'
    ||| '\u{2000}' <= c <= '\u{200a}'
    ||| c == '\u{2028}'
    ||| c == '\u{2029}'
    ||| c == '\u{202f}'
    ||| c == '\u{205f}'
    ||| c == '\u{3000}'
}

/// Whether `c` is white space.
pub fn is_white(c: char) -> (r: bool)
    ensures
        r == white(c),
{
    ('\u{9}' <= c && c <= '\u{d}') || c == ' ' || c == '\u{85}' || c == '\u{a0}' || c == '\u{1680}'
        || ('\u{2000}' <= c && c <= '\u{200a}') || c == '\u{2028}' || c == '\u{2029}'
        || c == '\u{202f}' || c == '\u{205f}' || c == '\u{3000}'
}

/// The characters of a text as a vector.
pub fn chars_of(text: &str) -> (r: Vec<char>)
    ensures
        r@ == text@,
{
    let mut out: Vec<char> = Vec::new();
    for c in it: text.chars()
        invariant
            it.seq() == text@,
            out@ == it.seq().take(it.index()),
    {
        out.push(c);
        assert(out@ =~= it.seq().take(it.index() + 1));
    }
    assert(out@ =~= text@);
    out
}

/// The text made of the characters from `start` up to `end`.
pub fn slice_text(chars: &Vec<char>, start: usize, end: usize) -> (r: String)
    requires
        start <= end <= chars@.len(),
    ensures
        r@ == chars@.subrange(start as int, end as int),
{
    let mut out = String::new();
    let mut i: usize = start;
    while i < end
        invariant
            start <= i <= end <= chars@.len(),
            out@ == chars@.subrange(start as int, i as int),
        decreases end - i,
    {
        out.push(chars[i]);
        i += 1;
        assert(out@ =~= chars@.subrange(start as int, i as int));
    }
    out
}

/// The text made of all the characters.
pub fn text_of(chars: &Vec<char>) -> (r: String)
    ensures
        r@ == chars@,
{
    let r = slice_text(chars, 0, chars.len());
    assert(chars@.subrange(0, chars@.len() as int) =~= chars@);
    r
}

/// Whether two texts hold the same characters.
pub fn same_text(a: &str, b: &str) -> (r: bool)
    ensures
        r == (a@ == b@),
{
    a.to_owned() == b.to_owned()
}

// ---------------------------------------------------------------------------
// Trimming
// ---------------------------------------------------------------------------

/// `s` without its leading white space.
pub open spec fn trim_start(s: Seq<char>) -> Seq<char>
    decreases s.len(),
{
    if s.len() > 0 && white(s[0]) {
        trim_start(s.drop_first())
    } else {
        s
    }
}

/// `s` without its trailing white space.
pub open spec fn trim_end(s: Seq<char>) -> Seq<char>
    decreases s.len(),
{
    if s.len() > 0 && white(s.last()) {
        trim_end(s.drop_last())
    } else {
        s
    }
}

/// `s` without the white space at its two ends.
pub open spec fn trim(s: Seq<char>) -> Seq<char> {
    trim_end(trim_start(s))
}

/// Where the text without its surrounding white space begins and ends.
pub fn trim_bounds(chars: &Vec<char>) -> (r: (usize, usize))
    ensures
        r.0 <= r.1 <= chars@.len(),
        trim(chars@) == chars@.subrange(r.0 as int, r.1 as int),
{
    let n: usize = chars.len();
    let mut start: usize = 0;
    assert(chars@.subrange(0, n as int) =~= chars@);
    while start < n && is_white(chars[start])
        invariant
            start <= n == chars@.len(),
            trim_start(chars@) == trim_start(chars@.subrange(start as int, n as int)),
        decreases n - start,
    {
        assert(chars@.subrange(start as int, n as int).drop_first() =~= chars@.subrange(
            start + 1,
            n as int,
        ));
        start += 1;
    }
    let mut end: usize = n;
    while end > start && is_white(chars[end - 1])
        invariant
            start <= end <= n == chars@.len(),
            trim_end(chars@.subrange(start as int, n as int)) == trim_end(
                chars@.subrange(start as int, end as int),
            ),
        decreases end - start,
    {
        assert(chars@.subrange(start as int, end as int).drop_last() =~= chars@.subrange(
            start as int,
            end - 1,
        ));
        end -= 1;
    }
    (start, end)
}

/// The text without the white space at its two ends.
pub fn trimmed(text: &str) -> (r: String)
    ensures
        r@ == trim(text@),
{
    let chars = chars_of(text);
    let (start, end) = trim_bounds(&chars);
    slice_text(&chars, start, end)
}

/// Whether nothing but white space is in the text.
pub fn is_blank(text: &str) -> (r: bool)
    ensures
        r == (trim(text@).len() == 0),
{
    let chars = chars_of(text);
    let (start, end) = trim_bounds(&chars);
    start == end
}

/// A text that is blank after trimming has white space only.
pub proof fn blank_means_all_white(s: Seq<char>)
    ensures
        trim(s).len() == 0 <==> forall|i: int| 0 <= i < s.len() ==> white(#[trigger] s[i]),
    decreases s.len(),
{
    let t = trim_start(s);
    trim_start_is_suffix(s);
    trim_end_keeps_black_start(t);
    if t.len() == 0 {
    } else {
        assert(!white(s[s.len() - t.len()]));
    }
}

/// Trimming at the start leaves a suffix, and what it took off was white space.
pub proof fn trim_start_is_suffix(s: Seq<char>)
    ensures
        trim_start(s).len() <= s.len(),
        trim_start(s) == s.skip(s.len() - trim_start(s).len()),
        forall|i: int| 0 <= i < s.len() - trim_start(s).len() ==> white(#[trigger] s[i]),
        trim_start(s).len() > 0 ==> !white(trim_start(s)[0]),
    decreases s.len(),
{
    if s.len() > 0 && white(s[0]) {
        trim_start_is_suffix(s.drop_first());
        let t = trim_start(s);
        assert(t =~= s.skip(s.len() - t.len()));
        assert forall|i: int| 0 <= i < s.len() - t.len() implies white(#[trigger] s[i]) by {
            if i > 0 {
                assert(s[i] == s.drop_first()[i - 1]);
            }
        }
    } else {
        assert(s =~= s.skip(0));
    }
}

/// Trimming at the end leaves a prefix, and what it took off was white space.
pub proof fn trim_end_is_prefix(s: Seq<char>)
    ensures
        trim_end(s).len() <= s.len(),
        trim_end(s) == s.take(trim_end(s).len() as int),
        forall|i: int| trim_end(s).len() <= i < s.len() ==> white(#[trigger] s[i]),
        trim_end(s).len() > 0 ==> !white(trim_end(s).last()),
    decreases s.len(),
{
    if s.len() > 0 && white(s.last()) {
        trim_end_is_prefix(s.drop_last());
        let t = trim_end(s);
        assert(t =~= s.take(t.len() as int));
        assert forall|i: int| t.len() <= i < s.len() implies white(#[trigger] s[i]) by {
            if i < s.len() - 1 {
                assert(s[i] == s.drop_last()[i]);
            }
        }
    } else {
        assert(s =~= s.take(s.len() as int));
    }
}

proof fn trim_end_keeps_black_start(s: Seq<char>)
    requires
        s.len() > 0 ==> !white(s[0]),
    ensures
        s.len() > 0 ==> trim_end(s).len() > 0,
{
    trim_end_is_prefix(s);
}

// ---------------------------------------------------------------------------
// Splitting and joining
// ---------------------------------------------------------------------------

/// The texts behind a sequence of strings.
pub open spec fn views(v: Seq<String>) -> Seq<Seq<char>> {
    Seq::new(v.len(), |i: int| v[i]@)
}

/// A copy of the texts, in order.
pub fn copy_texts(items: &Vec<String>) -> (r: Vec<String>)
    ensures
        views(r@) == views(items@),
{
    let mut out: Vec<String> = Vec::new();
    let mut i: usize = 0;
    while i < items.len()
        invariant
            i <= items@.len(),
            out@.len() == i,
            forall|k: int| 0 <= k < i ==> #[trigger] out@[k]@ == items@[k]@,
        decreases items@.len() - i,
    {
        out.push(items[i].clone());
        i += 1;
    }
    assert(views(out@) =~= views(items@));
    out
}

/// Which characters part the fields of a text.
#[derive(Clone, Copy)]
pub enum Separator {
    /// Any white space.
    White,
    /// This character alone.
    Only(char),
    /// Whatever is neither alphabetic nor numeric.
    NotAlphanumeric,
    /// Whatever is neither alphabetic nor numeric nor a hyphen.
    NotWord,
}

impl Separator {
    /// Whether `c` parts two fields.
    pub open spec fn separates(self, c: char) -> bool {
        match self {
            Separator::White => white(c),
            Separator::Only(only) => c == only,
            Separator::NotAlphanumeric => !alphanumeric(c),
            Separator::NotWord => !alphanumeric(c) && c != '-',
        }
    }

    /// Whether `c` parts two fields.
    pub fn is_separator(self, c: char) -> (r: bool)
        ensures
            r == self.separates(c),
    {
        match self {
            Separator::White => is_white(c),
            Separator::Only(only) => c == only,
            Separator::NotAlphanumeric => !is_alphanumeric(c),
            Separator::NotWord => !is_alphanumeric(c) && c != '-',
        }
    }
}

/// The pieces between the separators of `s`, empty ones too.
pub open spec fn pieces(s: Seq<char>, sep: Separator) -> Seq<Seq<char>>
    decreases s.len(),
{
    if s.len() == 0 {
        seq![Seq::<char>::empty()]
    } else {
        let before = pieces(s.drop_last(), sep);
        if sep.separates(s.last()) {
            before.push(Seq::<char>::empty())
        } else {
            before.drop_last().push(before.last().push(s.last()))
        }
    }
}

/// The texts of `parts` that are not empty, in order.
pub open spec fn non_empty(parts: Seq<Seq<char>>) -> Seq<Seq<char>>
    decreases parts.len(),
{
    if parts.len() == 0 {
        Seq::empty()
    } else if parts.last().len() > 0 {
        non_empty(parts.drop_last()).push(parts.last())
    } else {
        non_empty(parts.drop_last())
    }
}

/// The pieces between the separators of `s` that are not empty.
pub open spec fn fields(s: Seq<char>, sep: Separator) -> Seq<Seq<char>> {
    non_empty(pieces(s, sep))
}

/// The words of `s`: what stands between its white space.
pub open spec fn words(s: Seq<char>) -> Seq<Seq<char>> {
    fields(s, Separator::White)
}

/// `parts` in a row with `sep` between each two.
pub open spec fn join(parts: Seq<Seq<char>>, sep: Seq<char>) -> Seq<char>
    decreases parts.len(),
{
    if parts.len() == 0 {
        Seq::empty()
    } else if parts.len() == 1 {
        parts[0]
    } else {
        join(parts.drop_last(), sep) + sep + parts.last()
    }
}

/// `s` with each run of white space made one blank, and none at its ends.
pub open spec fn normalized(s: Seq<char>) -> Seq<char> {
    join(words(s), " "@)
}

/// There is always at least one piece.
pub proof fn pieces_not_empty(s: Seq<char>, sep: Separator)
    ensures
        pieces(s, sep).len() > 0,
    decreases s.len(),
{
    if s.len() > 0 {
        pieces_not_empty(s.drop_last(), sep);
    }
}

/// The fields of the text: its pieces between separators that are not empty.
pub fn split_fields(text: &str, sep: Separator) -> (r: Vec<String>)
    ensures
        views(r@) == fields(text@, sep),
{
    let chars = chars_of(text);
    let mut out: Vec<String> = Vec::new();
    let mut current = String::new();
    let mut i: usize = 0;
    assert(chars@.take(0) =~= Seq::<char>::empty());
    assert(views(out@) =~= Seq::<Seq<char>>::empty());
    assert(pieces(chars@.take(0), sep).drop_last() =~= Seq::<Seq<char>>::empty());
    while i < chars.len()
        invariant
            i <= chars@.len(),
            pieces(chars@.take(i as int), sep).len() > 0,
            pieces(chars@.take(i as int), sep).last() == current@,
            non_empty(pieces(chars@.take(i as int), sep).drop_last()) == views(out@),
        decreases chars@.len() - i,
    {
        let ghost before = pieces(chars@.take(i as int), sep);
        let ghost after = pieces(chars@.take(i + 1), sep);
        assert(chars@.take(i + 1).drop_last() =~= chars@.take(i as int));
        let c = chars[i];
        if sep.is_separator(c) {
            assert(after.drop_last() =~= before);
            if current.as_str().is_empty() {
            } else {
                let ghost kept = views(out@);
                let ghost piece = current@;
                out.push(current);
                assert(views(out@) =~= kept.push(piece));
            }
            current = String::new();
        } else {
            assert(after.drop_last() =~= before.drop_last());
            current.push(c);
        }
        i += 1;
    }
    assert(chars@.take(i as int) =~= chars@);
    if !current.as_str().is_empty() {
        let ghost kept = views(out@);
        let ghost piece = current@;
        out.push(current);
        assert(views(out@) =~= kept.push(piece));
    }
    out
}

/// The pieces between the separators of the text, empty ones too.
pub fn split_pieces(text: &str, sep: Separator) -> (r: Vec<String>)
    ensures
        views(r@) == pieces(text@, sep),
{
    let chars = chars_of(text);
    let mut out: Vec<String> = Vec::new();
    let mut current = String::new();
    let mut i: usize = 0;
    assert(chars@.take(0) =~= Seq::<char>::empty());
    assert(views(out@).push(current@) =~= pieces(chars@.take(0), sep));
    while i < chars.len()
        invariant
            i <= chars@.len(),
            pieces(chars@.take(i as int), sep) == views(out@).push(current@),
        decreases chars@.len() - i,
    {
        let ghost done = views(out@);
        let ghost piece = current@;
        assert(chars@.take(i + 1).drop_last() =~= chars@.take(i as int));
        assert(done.push(piece).drop_last() =~= done);
        let c = chars[i];
        if sep.is_separator(c) {
            out.push(current);
            assert(views(out@) =~= done.push(piece));
            current = String::new();
        } else {
            current.push(c);
        }
        i += 1;
    }
    assert(chars@.take(i as int) =~= chars@);
    let ghost done = views(out@);
    let ghost piece = current@;
    out.push(current);
    assert(views(out@) =~= done.push(piece));
    out
}

/// The words of the text.
pub fn split_words(text: &str) -> (r: Vec<String>)
    ensures
        views(r@) == words(text@),
{
    split_fields(text, Separator::White)
}

/// The parts in a row with `sep` between each two.
pub fn join_texts(parts: &Vec<String>, sep: &str) -> (r: String)
    ensures
        r@ == join(views(parts@), sep@),
{
    let mut out = String::new();
    let mut i: usize = 0;
    while i < parts.len()
        invariant
            i <= parts@.len(),
            out@ == join(views(parts@).take(i as int), sep@),
        decreases parts@.len() - i,
    {
        let ghost all = views(parts@);
        assert(all.take(i + 1).drop_last() =~= all.take(i as int));
        if i > 0 {
            out.append(sep);
        }
        out.append(parts[i].as_str());
        if i == 0 {
            assert(out@ =~= all[0]);
        }
        i += 1;
    }
    assert(views(parts@).take(i as int) =~= views(parts@));
    out
}

/// The text with each run of white space made one blank, and none at its ends.
pub fn normalize(text: &str) -> (r: String)
    ensures
        r@ == normalized(text@),
{
    let parts = split_words(text);
    join_texts(&parts, " ")
}

// ---------------------------------------------------------------------------
// Lines
// ---------------------------------------------------------------------------

/// The lines of `s`, each with the line feed that ends it.
pub open spec fn line_segments(s: Seq<char>) -> Seq<Seq<char>>
    decreases s.len(),
{
    if s.len() == 0 {
        Seq::empty()
    } else {
        let before = line_segments(s.drop_last());
        if s.len() == 1 || s[s.len() - 2] == '\n' {
            before.push(seq![s.last()])
        } else {
            before.drop_last().push(before.last().push(s.last()))
        }
    }
}

/// A line without the line feed that ends it, or the carriage return and line
/// feed.
pub open spec fn chomp(line: Seq<char>) -> Seq<char> {
    if line.len() > 0 && line.last() == '\n' {
        let body = line.drop_last();
        if body.len() > 0 && body.last() == '\r' {
            body.drop_last()
        } else {
            body
        }
    } else {
        line
    }
}

/// The lines of `s` without what ends them.
pub open spec fn lines(s: Seq<char>) -> Seq<Seq<char>> {
    Seq::new(line_segments(s).len(), |i: int| chomp(line_segments(s)[i]))
}

/// All of `parts` in a row.
pub open spec fn concat(parts: Seq<Seq<char>>) -> Seq<char>
    decreases parts.len(),
{
    if parts.len() == 0 {
        Seq::empty()
    } else {
        concat(parts.drop_last()) + parts.last()
    }
}

/// The lines with their endings, put in a row, are the text; and none is empty.
pub proof fn line_segments_make_the_text(s: Seq<char>)
    ensures
        concat(line_segments(s)) == s,
        forall|i: int| 0 <= i < line_segments(s).len() ==> #[trigger] line_segments(s)[i].len() > 0,
        s.len() > 0 ==> line_segments(s).len() > 0,
    decreases s.len(),
{
    if s.len() > 0 {
        let init = s.drop_last();
        line_segments_make_the_text(init);
        let before = line_segments(init);
        let all = line_segments(s);
        if s.len() == 1 || s[s.len() - 2] == '\n' {
            assert(all.drop_last() =~= before);
            assert(concat(all) =~= s);
        } else {
            assert(all.drop_last() =~= before.drop_last());
            assert(concat(before) == concat(before.drop_last()) + before.last());
            assert(concat(all) =~= init.push(s.last()));
            assert(concat(all) =~= s);
        }
    }
}

/// The lines of the text, each with the line feed that ends it.
pub fn split_line_segments(text: &str) -> (r: Vec<String>)
    ensures
        views(r@) == line_segments(text@),
{
    let chars = chars_of(text);
    let mut out: Vec<String> = Vec::new();
    let mut current = String::new();
    let mut i: usize = 0;
    assert(chars@.take(0) =~= Seq::<char>::empty());
    while i < chars.len()
        invariant
            i <= chars@.len(),
            line_segments(chars@.take(i as int)) == if current@.len() > 0 {
                views(out@).push(current@)
            } else {
                views(out@)
            },
            i > 0 ==> ((current@.len() == 0) == (chars@[i - 1] == '\n')),
            i == 0 ==> current@.len() == 0,
        decreases chars@.len() - i,
    {
        let ghost seen = chars@.take(i as int);
        let ghost next = chars@.take(i + 1);
        assert(next.drop_last() =~= seen);
        assert(next.last() == chars@[i as int]);
        if i > 0 {
            assert(next[next.len() - 2] == chars@[i - 1]);
        }
        let ghost old_current = current@;
        let ghost old_out = views(out@);
        let c = chars[i];
        current.push(c);
        proof {
            if old_current.len() == 0 {
                assert(current@ =~= seq![c]);
            }
            assert(line_segments(next) =~= old_out.push(current@));
        }
        if c == '\n' {
            let ghost whole = current@;
            out.push(current);
            assert(views(out@) =~= old_out.push(whole));
            current = String::new();
        }
        i += 1;
    }
    assert(chars@.take(i as int) =~= chars@);
    if !current.as_str().is_empty() {
        let ghost old_out = views(out@);
        let ghost whole = current@;
        out.push(current);
        assert(views(out@) =~= old_out.push(whole));
    }
    out
}

/// The lines of the text without what ends them.
pub fn split_lines(text: &str) -> (r: Vec<String>)
    ensures
        views(r@) == lines(text@),
{
    let segments = split_line_segments(text);
    let mut out: Vec<String> = Vec::new();
    let mut i: usize = 0;
    while i < segments.len()
        invariant
            i <= segments@.len(),
            views(segments@) == line_segments(text@),
            views(out@) == lines(text@).take(i as int),
        decreases segments@.len() - i,
    {
        let chars = chars_of(segments[i].as_str());
        assert(chars@ == line_segments(text@)[i as int]);
        let mut end: usize = chars.len();
        if end > 0 && chars[end - 1] == '\n' {
            end -= 1;
            if end > 0 && chars[end - 1] == '\r' {
                end -= 1;
            }
        }
        let line = slice_text(&chars, 0, end);
        assert(line@ =~= chomp(chars@));
        let ghost before = views(out@);
        out.push(line);
        i += 1;
        assert(views(out@) =~= before.push(line@));
        assert(lines(text@).take(i as int) =~= lines(text@).take(i - 1).push(lines(text@)[i - 1]));
    }
    assert(lines(text@).take(i as int) =~= lines(text@));
    out
}

// ---------------------------------------------------------------------------
// Prefixes, suffixes and counting
// ---------------------------------------------------------------------------

/// Whether `s` begins with `prefix`.
pub open spec fn begins(s: Seq<char>, prefix: Seq<char>) -> bool {
    prefix.len() <= s.len() && s.take(prefix.len() as int) == prefix
}

/// Whether `s` ends with `suffix`.
pub open spec fn ends(s: Seq<char>, suffix: Seq<char>) -> bool {
    suffix.len() <= s.len() && s.skip(s.len() - suffix.len()) == suffix
}

/// Whether `s` holds `part` somewhere.
pub open spec fn holds(s: Seq<char>, part: Seq<char>) -> bool {
    exists|i: int| #![trigger s.skip(i)] 0 <= i <= s.len() && begins(s.skip(i), part)
}

/// Whether `part` stands at position `at` of `chars`.
pub fn stands_at(chars: &Vec<char>, part: &Vec<char>, at: usize) -> (r: bool)
    requires
        at <= chars@.len(),
    ensures
        r == begins(chars@.skip(at as int), part@),
{
    let n: usize = chars.len();
    if n - at < part.len() {
        return false;
    }
    let mut i: usize = 0;
    while i < part.len()
        invariant
            n == chars@.len(),
            i <= part@.len() <= n - at,
            forall|j: int| 0 <= j < i ==> chars@[at + j] == part@[j],
        decreases part@.len() - i,
    {
        if chars[at + i] != part[i] {
            assert(chars@.skip(at as int).take(part@.len() as int)[i as int] != part@[i as int]);
            return false;
        }
        i += 1;
    }
    assert(chars@.skip(at as int).take(part@.len() as int) =~= part@);
    true
}

/// Whether the text begins with `prefix`.
pub fn starts_with(text: &str, prefix: &str) -> (r: bool)
    ensures
        r == begins(text@, prefix@),
{
    let chars = chars_of(text);
    let part = chars_of(prefix);
    assert(chars@.skip(0) =~= chars@);
    stands_at(&chars, &part, 0)
}

/// Whether the text ends with `suffix`.
pub fn ends_with(text: &str, suffix: &str) -> (r: bool)
    ensures
        r == ends(text@, suffix@),
{
    let chars = chars_of(text);
    let part = chars_of(suffix);
    if part.len() > chars.len() {
        return false;
    }
    let at: usize = chars.len() - part.len();
    assert(chars@.skip(at as int).take(part@.len() as int) =~= chars@.skip(at as int));
    stands_at(&chars, &part, at)
}

/// Whether the text holds `part` somewhere.
pub fn contains(text: &str, part: &str) -> (r: bool)
    ensures
        r == holds(text@, part@),
{
    let chars = chars_of(text);
    let part_chars = chars_of(part);
    let mut i: usize = 0;
    while i < chars.len()
        invariant
            chars@ == text@,
            part_chars@ == part@,
            i <= chars@.len(),
            forall|j: int| 0 <= j < i ==> !begins(#[trigger] text@.skip(j), part@),
        decreases chars@.len() - i,
    {
        if stands_at(&chars, &part_chars, i) {
            assert(begins(text@.skip(i as int), part@));
            return true;
        }
        i += 1;
    }
    proof {
        assert(text@.skip(i as int).take(0) =~= Seq::<char>::empty());
        if part@.len() == 0 {
            assert(part@ =~= Seq::<char>::empty());
            assert(begins(text@.skip(i as int), part@));
        }
    }
    part_chars.len() == 0
}

/// The characters of a text that are not white space.
pub open spec fn visible(s: Seq<char>) -> Seq<char>
    decreases s.len(),
{
    if s.len() == 0 {
        Seq::empty()
    } else if white(s.last()) {
        visible(s.drop_last())
    } else {
        visible(s.drop_last()).push(s.last())
    }
}

/// How many characters of `s` are not white space.
pub open spec fn black_count(s: Seq<char>) -> nat
    decreases s.len(),
{
    if s.len() == 0 {
        0
    } else {
        black_count(s.drop_last()) + if white(s.last()) {
            0nat
        } else {
            1nat
        }
    }
}

/// How many characters of the text are not white space.
pub fn count_black(text: &str) -> (r: usize)
    ensures
        r == black_count(text@),
{
    let chars = chars_of(text);
    let mut count: usize = 0;
    let mut i: usize = 0;
    assert(chars@.take(0) =~= Seq::<char>::empty());
    while i < chars.len()
        invariant
            i <= chars@.len(),
            count <= i,
            count == black_count(chars@.take(i as int)),
        decreases chars@.len() - i,
    {
        assert(chars@.take(i + 1).drop_last() =~= chars@.take(i as int));
        if !is_white(chars[i]) {
            count += 1;
        }
        i += 1;
    }
    assert(chars@.take(i as int) =~= chars@);
    count
}

/// The first `count` characters of `s`, or all of them where it has fewer.
pub open spec fn first(s: Seq<char>, count: nat) -> Seq<char> {
    if s.len() <= count {
        s
    } else {
        s.take(count as int)
    }
}

/// The first `count` characters of the text.
pub fn first_chars(text: &str, count: usize) -> (r: String)
    ensures
        r@ == first(text@, count as nat),
{
    let chars = chars_of(text);
    if chars.len() <= count {
        text.to_owned()
    } else {
        slice_text(&chars, 0, count)
    }
}

/// The number of characters of the text.
pub fn char_len(text: &str) -> (r: usize)
    ensures
        r == text@.len(),
{
    let chars = chars_of(text);
    chars.len()
}

// ---------------------------------------------------------------------------
// Letters of the Latin alphabet
// ---------------------------------------------------------------------------

/// `c` in lower case, where it is one of the letters from `A` to `Z`.
pub open spec fn ascii_lower(c: char) -> char {
    if 'A' <= c <= 'Z' {
        ((c as u8) + 32) as u8 as char
    } else {
        c
    }
}

/// `s` with its letters from `A` to `Z` in lower case.
pub open spec fn ascii_lowered(s: Seq<char>) -> Seq<char> {
    Seq::new(s.len(), |i: int| ascii_lower(s[i]))
}

/// The text with its letters from `A` to `Z` in lower case.
pub fn to_ascii_lower(text: &str) -> (r: String)
    ensures
        r@ == ascii_lowered(text@),
{
    let chars = chars_of(text);
    let mut out = String::new();
    let mut i: usize = 0;
    while i < chars.len()
        invariant
            chars@ == text@,
            i <= chars@.len(),
            out@ == ascii_lowered(text@).take(i as int),
        decreases chars@.len() - i,
    {
        let c = chars[i];
        let lower = if 'A' <= c && c <= 'Z' {
            ((c as u8) + 32) as char
        } else {
            c
        };
        out.push(lower);
        i += 1;
        assert(out@ =~= ascii_lowered(text@).take(i as int));
    }
    assert(out@ =~= ascii_lowered(text@));
    out
}

// ---------------------------------------------------------------------------
// Reading numbers
// ---------------------------------------------------------------------------

/// Why a text is not a number of a given range.
#[derive(Clone, Copy, Debug, PartialEq, Eq, Structural)]
pub enum NumberFault {
    Empty,
    InvalidDigit,
    TooLarge,
}

impl NumberFault {
    /// The fault in words.
    pub open spec fn words(self) -> Seq<char> {
        match self {
            NumberFault::Empty => "cannot parse integer from empty string"@,
            NumberFault::InvalidDigit => "invalid digit found in string"@,
            NumberFault::TooLarge => "number too large to fit in target type"@,
        }
    }

    /// The fault in words.
    pub fn message(self) -> (r: &'static str)
        ensures
            r@ == self.words(),
    {
        match self {
            NumberFault::Empty => "cannot parse integer from empty string",
            NumberFault::InvalidDigit => "invalid digit found in string",
            NumberFault::TooLarge => "number too large to fit in target type",
        }
    }
}

/// The value of decimal digits up to `max`; the first fault from the left
/// counts.
pub open spec fn digits_value(s: Seq<char>, max: nat) -> Result<nat, NumberFault>
    decreases s.len(),
{
    if s.len() == 0 {
        Ok(0)
    } else {
        match digits_value(s.drop_last(), max) {
            Err(fault) => Err(fault),
            Ok(before) => if !('0' <= s.last() <= '9') {
                Err(NumberFault::InvalidDigit)
            } else {
                let value = before * 10 + (s.last() as nat - '0' as nat) as nat;
                if value > max {
                    Err(NumberFault::TooLarge)
                } else {
                    Ok(value)
                }
            },
        }
    }
}

/// The value of a text that is a decimal number up to `max`, perhaps with a
/// plus sign.
pub open spec fn number_value(s: Seq<char>, max: nat) -> Result<nat, NumberFault> {
    if s.len() == 0 {
        Err(NumberFault::Empty)
    } else if s[0] == '+' && s.len() > 1 {
        digits_value(s.skip(1), max)
    } else {
        digits_value(s, max)
    }
}

/// A fault among the first digits is the fault of all of them.
proof fn early_fault_stays(s: Seq<char>, n: int, max: nat)
    requires
        0 <= n <= s.len(),
        digits_value(s.take(n), max) is Err,
    ensures
        digits_value(s, max) == digits_value(s.take(n), max),
    decreases s.len(),
{
    if n == s.len() {
        assert(s.take(n) =~= s);
    } else {
        assert(s.drop_last().take(n) =~= s.take(n));
        early_fault_stays(s.drop_last(), n, max);
    }
}

/// The number that the text is, if it is one up to `max`.
pub fn parse_number(text: &str, max: u64) -> (r: Result<u64, NumberFault>)
    ensures
        match r {
            Ok(value) => number_value(text@, max as nat) == Ok::<nat, NumberFault>(value as nat)
                && value <= max,
            Err(fault) => number_value(text@, max as nat) == Err::<nat, NumberFault>(fault),
        },
{
    let chars = chars_of(text);
    let n: usize = chars.len();
    if n == 0 {
        return Err(NumberFault::Empty);
    }
    let start: usize = if chars[0] == '+' && n > 1 {
        1
    } else {
        0
    };
    let ghost all = chars@.skip(start as int);
    assert(chars@.skip(0) =~= chars@);
    let mut value: u64 = 0;
    let mut i: usize = start;
    assert(all.take(0) =~= Seq::empty());
    while i < n
        invariant
            n == chars@.len(),
            start <= i <= n,
            all == chars@.skip(start as int),
            number_value(text@, max as nat) == digits_value(all, max as nat),
            value <= max,
            digits_value(all.take(i - start), max as nat) == Ok::<nat, NumberFault>(value as nat),
        decreases n - i,
    {
        let c = chars[i];
        let ghost longer = all.take(i - start + 1);
        assert(longer.drop_last() =~= all.take(i - start));
        assert(longer.last() == c);
        if !('0' <= c && c <= '9') {
            proof {
                early_fault_stays(all, i - start + 1, max as nat);
            }
            return Err(NumberFault::InvalidDigit);
        }
        let d: u64 = c as u64 - '0' as u64;
        let wide: u128 = value as u128 * 10 + d as u128;
        if wide > max as u128 {
            proof {
                early_fault_stays(all, i - start + 1, max as nat);
            }
            return Err(NumberFault::TooLarge);
        }
        value = wide as u64;
        i += 1;
    }
    assert(all.take(i - start) =~= all);
    Ok(value)
}

// ---------------------------------------------------------------------------
// Notation of numbers
// ---------------------------------------------------------------------------

/// The digit with the value `d`, below sixteen.
pub open spec fn digit_char(d: nat) -> char {
    if d == 0 { '0' } else if d == 1 { '1' } else if d == 2 { '2' } else if d == 3 { '3' }
    else if d == 4 { '4' } else if d == 5 { '5' } else if d == 6 { '6' } else if d == 7 { '7' }
    else if d == 8 { '8' } else if d == 9 { '9' } else if d == 10 { 'a' } else if d == 11 { 'b' }
    else if d == 12 { 'c' } else if d == 13 { 'd' } else if d == 14 { 'e' } else { 'f' }
}

fn digit(d: u64) -> (c: char)
    requires
        d < 16,
    ensures
        c == digit_char(d as nat),
{
    if d == 0 { '0' } else if d == 1 { '1' } else if d == 2 { '2' } else if d == 3 { '3' }
    else if d == 4 { '4' } else if d == 5 { '5' } else if d == 6 { '6' } else if d == 7 { '7' }
    else if d == 8 { '8' } else if d == 9 { '9' } else if d == 10 { 'a' } else if d == 11 { 'b' }
    else if d == 12 { 'c' } else if d == 13 { 'd' } else if d == 14 { 'e' } else { 'f' }
}

/// The notation of `n` to the base `base`.
pub open spec fn notation(n: nat, base: nat) -> Seq<char>
    decreases n,
{
    if base < 2 || n < base {
        seq![digit_char(n)]
    } else {
        proof {
            assert(n / base < n) by (nonlinear_arith)
                requires
                    n >= base,
                    base >= 2,
            ;
        }
        notation(n / base, base).push(digit_char(n % base))
    }
}

/// The decimal notation of `n`.
pub open spec fn decimal(n: nat) -> Seq<char> {
    notation(n, 10)
}

/// `s` with zeros before it, up to `width` characters.
pub open spec fn zero_padded(s: Seq<char>, width: nat) -> Seq<char>
    decreases width - s.len(),
{
    if s.len() >= width {
        s
    } else {
        zero_padded(seq!['0'] + s, width)
    }
}

fn digits(n: u64, base: u64) -> (r: Vec<char>)
    requires
        2 <= base <= 16,
    ensures
        r@ == notation(n as nat, base as nat),
    decreases n,
{
    if n < base {
        let mut out: Vec<char> = Vec::new();
        out.push(digit(n));
        assert(out@ =~= notation(n as nat, base as nat));
        out
    } else {
        assert(n / base < n) by (nonlinear_arith)
            requires
                n >= base,
                base >= 2,
        ;
        let mut out = digits(n / base, base);
        out.push(digit(n % base));
        out
    }
}

/// The decimal notation of the number.
pub fn decimal_text(n: u64) -> (r: String)
    ensures
        r@ == decimal(n as nat),
{
    let out = digits(n, 10);
    text_of(&out)
}

/// The hexadecimal notation of the number, with zeros up to sixteen digits.
pub fn hex16_text(n: u64) -> (r: String)
    ensures
        r@ == zero_padded(notation(n as nat, 16), 16),
{
    let out = digits(n, 16);
    padded_text(out, 16)
}

/// The decimal notation of the number, with zeros up to `width` digits.
pub fn padded_decimal_text(n: u64, width: usize) -> (r: String)
    ensures
        r@ == zero_padded(decimal(n as nat), width as nat),
{
    let out = digits(n, 10);
    padded_text(out, width)
}

fn padded_text(number: Vec<char>, width: usize) -> (r: String)
    ensures
        r@ == zero_padded(number@, width as nat),
{
    let mut out = number;
    while out.len() < width
        invariant
            zero_padded(number@, width as nat) == zero_padded(out@, width as nat),
        decreases width - out@.len(),
    {
        let ghost before = out@;
        out.insert(0, '0');
        assert(out@ =~= seq!['0'] + before);
    }
    text_of(&out)
}

/// The value of a digit.
pub open spec fn digit_value(c: char) -> nat {
    if '0' <= c <= '9' {
        (c as nat - '0' as nat) as nat
    } else if 'a' <= c <= 'f' {
        (c as nat - 'a' as nat + 10) as nat
    } else {
        0
    }
}

/// The value of digits to the base `base`.
pub open spec fn digits_number(s: Seq<char>, base: nat) -> nat
    decreases s.len(),
{
    if s.len() == 0 {
        0
    } else {
        digits_number(s.drop_last(), base) * base + digit_value(s.last())
    }
}

proof fn notation_is_read_back(n: nat, base: nat)
    requires
        2 <= base <= 16,
    ensures
        digits_number(notation(n, base), base) == n,
        notation(n, base).len() > 0,
        !notation(n, base).contains('-'),
    decreases n,
{
    let s = notation(n, base);
    if n < base {
        assert(s.drop_last() =~= Seq::empty());
        assert(digits_number(s.drop_last(), base) * base == 0) by (nonlinear_arith)
            requires
                digits_number(s.drop_last(), base) == 0,
        ;
        assert(digit_value(digit_char(n)) == n);
    } else {
        assert(n / base < n && n % base < base && (n / base) * base + n % base == n)
            by (nonlinear_arith)
            requires
                n >= base,
                base >= 2,
        ;
        notation_is_read_back(n / base, base);
        let d = n % base;
        assert(digit_value(digit_char(d)) == d);
        assert(s.drop_last() =~= notation(n / base, base));
        assert forall|i: int| 0 <= i < s.len() implies s[i] != '-' by {
            if i < s.len() - 1 {
                assert(s[i] == notation(n / base, base)[i]);
                assert(notation(n / base, base).contains(s[i]));
            }
        }
    }
}

proof fn leading_zero_counts_nothing(s: Seq<char>, base: nat)
    ensures
        digits_number(seq!['0'] + s, base) == digits_number(s, base),
    decreases s.len(),
{
    let longer = seq!['0'] + s;
    if s.len() == 0 {
        assert(longer.drop_last() =~= Seq::empty());
        assert(digits_number(longer.drop_last(), base) * base == 0) by (nonlinear_arith)
            requires
                digits_number(longer.drop_last(), base) == 0,
        ;
    } else {
        assert(longer.drop_last() =~= seq!['0'] + s.drop_last());
        leading_zero_counts_nothing(s.drop_last(), base);
    }
}

proof fn padding_counts_nothing(s: Seq<char>, width: nat, base: nat)
    requires
        !s.contains('-'),
    ensures
        digits_number(zero_padded(s, width), base) == digits_number(s, base),
        !zero_padded(s, width).contains('-'),
    decreases width - s.len(),
{
    if s.len() < width {
        let longer = seq!['0'] + s;
        assert forall|i: int| 0 <= i < longer.len() implies longer[i] != '-' by {
            if i > 0 {
                assert(s.contains(s[i - 1]));
            }
        }
        padding_counts_nothing(longer, width, base);
        leading_zero_counts_nothing(s, base);
    }
}

/// The notation of a number, with or without zeros before it, has the value of
/// the number, and no sign.
pub proof fn notations_are_read_back(n: nat, base: nat, width: nat)
    requires
        2 <= base <= 16,
    ensures
        digits_number(zero_padded(notation(n, base), width), base) == n,
        !zero_padded(notation(n, base), width).contains('-'),
{
    notation_is_read_back(n, base);
    padding_counts_nothing(notation(n, base), width, base);
}

proof fn decimal_digits_are_read(n: nat, max: nat)
    requires
        n <= max,
    ensures
        digits_value(decimal(n), max) == Ok::<nat, NumberFault>(n),
        decimal(n).len() > 0,
    decreases n,
{
    let s = decimal(n);
    if n < 10 {
        assert(s.drop_last() =~= Seq::empty());
    } else {
        decimal_digits_are_read(n / 10, max);
        assert(s.drop_last() =~= decimal(n / 10));
    }
}

/// A number that is written down in decimal notation is read back.
pub proof fn decimals_are_read_back(n: nat, max: nat)
    requires
        n <= max,
    ensures
        number_value(decimal(n), max) == Ok::<nat, NumberFault>(n),
{
    let s = decimal(n);
    decimal_digits_are_read(n, max);
    if s[0] == '+' {
        assert(s.take(1).drop_last() =~= Seq::empty());
        assert(digits_value(s.take(1), max) is Err);
        early_fault_stays(s, 1, max);
    }
}

// ---------------------------------------------------------------------------
// What holds of texts
// ---------------------------------------------------------------------------

/// White space is what Unicode lists as such, by the numbers of the
/// characters.
pub proof fn white_space_is_listed(c: char)
    ensures
        white(c) <==> {
            let n = c as int;
            ||| 9 <= n <= 13
            ||| n == 32
            ||| n == 133
            ||| n == 160
            ||| n == 5760
            ||| 8192 <= n <= 8202
            ||| n == 8232
            ||| n == 8233
            ||| n == 8239
            ||| n == 8287
            ||| n == 12288
        },
{
}

/// Words stop at white space, terms at whatever is no letter or digit, and
/// spoken words also go on over a hyphen.
pub proof fn separators_are_known(c: char, only: char)
    ensures
        Separator::White.separates(c) <==> white(c),
        Separator::Only(only).separates(c) <==> c == only,
        Separator::NotAlphanumeric.separates(c) <==> !alphanumeric(c),
        Separator::NotWord.separates(c) <==> !(alphanumeric(c) || c == '-'),
{
}

/// A text without separators is one piece.
pub proof fn unparted_texts_are_one_piece(s: Seq<char>, sep: Separator)
    requires
        forall|k: int| 0 <= k < s.len() ==> !sep.separates(#[trigger] s[k]),
    ensures
        pieces(s, sep) == seq![s],
    decreases s.len(),
{
    if s.len() == 0 {
        assert(s =~= Seq::empty());
        assert(pieces(s, sep) =~= seq![s]);
    } else {
        assert(!sep.separates(s[s.len() - 1]));
        unparted_texts_are_one_piece(s.drop_last(), sep);
        assert(s.drop_last().push(s.last()) =~= s);
        assert(pieces(s, sep) =~= seq![s]);
    }
}

/// A separator parts a text into two, whose pieces follow one another.
pub proof fn separators_part_texts(a: Seq<char>, c: char, b: Seq<char>, sep: Separator)
    requires
        sep.separates(c),
    ensures
        pieces(a.push(c) + b, sep) == pieces(a, sep) + pieces(b, sep),
    decreases b.len(),
{
    let s = a.push(c) + b;
    if b.len() == 0 {
        assert(s =~= a.push(c));
        assert(s.drop_last() =~= a);
        assert(pieces(s, sep) =~= pieces(a, sep) + pieces(b, sep));
    } else {
        separators_part_texts(a, c, b.drop_last(), sep);
        pieces_not_empty(b.drop_last(), sep);
        assert(s.drop_last() =~= a.push(c) + b.drop_last());
        assert(s.last() == b.last());
        assert(pieces(s, sep) =~= pieces(a, sep) + pieces(b, sep));
    }
}

proof fn non_empty_of_sum(x: Seq<Seq<char>>, y: Seq<Seq<char>>)
    ensures
        non_empty(x + y) == non_empty(x) + non_empty(y),
    decreases y.len(),
{
    if y.len() == 0 {
        assert(x + y =~= x);
        assert(non_empty(x) + non_empty(y) =~= non_empty(x));
    } else {
        non_empty_of_sum(x, y.drop_last());
        assert((x + y).drop_last() =~= x + y.drop_last());
        assert(non_empty(x + y) =~= non_empty(x) + non_empty(y));
    }
}

/// The fields of a text are its longest parts without separators: those on both
/// sides of a separator follow one another, and a text without any is one
/// field, or none where it is empty.
pub proof fn fields_are_what_separators_leave(
    a: Seq<char>,
    c: char,
    b: Seq<char>,
    plain: Seq<char>,
    sep: Separator,
)
    requires
        sep.separates(c),
        forall|k: int| 0 <= k < plain.len() ==> !sep.separates(#[trigger] plain[k]),
    ensures
        fields(a.push(c) + b, sep) == fields(a, sep) + fields(b, sep),
        plain.len() > 0 ==> fields(plain, sep) == seq![plain],
        plain.len() == 0 ==> fields(plain, sep) == Seq::<Seq<char>>::empty(),
{
    separators_part_texts(a, c, b, sep);
    non_empty_of_sum(pieces(a, sep), pieces(b, sep));
    unparted_texts_are_one_piece(plain, sep);
    assert(seq![plain].drop_last() =~= Seq::empty());
    assert(non_empty(seq![plain].drop_last()) =~= Seq::empty());
    if plain.len() > 0 {
        assert(non_empty(seq![plain]) =~= seq![plain]);
    }
}

/// Trimming takes off the white space around a text, and nothing else.
pub proof fn trimming_takes_off_what_is_around(left: Seq<char>, s: Seq<char>, right: Seq<char>)
    requires
        forall|k: int| 0 <= k < left.len() ==> white(#[trigger] left[k]),
        forall|k: int| 0 <= k < right.len() ==> white(#[trigger] right[k]),
        s.len() > 0 ==> !white(s[0]) && !white(s.last()),
    ensures
        trim(left + s + right) == s,
    decreases left.len() + right.len(),
{
    let whole = left + s + right;
    if left.len() > 0 {
        let shorter = left.drop_first();
        assert forall|k: int| 0 <= k < shorter.len() implies white(#[trigger] shorter[k]) by {
            assert(shorter[k] == left[k + 1]);
        }
        assert(white(left[0]));
        assert(whole[0] == left[0]);
        assert(whole.drop_first() =~= shorter + s + right);
        trimming_takes_off_what_is_around(shorter, s, right);
    } else if s.len() == 0 {
        blank_means_all_white(whole);
        assert forall|k: int| 0 <= k < whole.len() implies white(#[trigger] whole[k]) by {
            assert(whole[k] == right[k]);
        }
        assert(trim(whole) =~= s);
    } else {
        assert(whole[0] == s[0]);
        assert(trim_start(whole) == whole);
        if right.len() > 0 {
            let shorter = right.drop_last();
            assert forall|k: int| 0 <= k < shorter.len() implies white(#[trigger] shorter[k]) by {
                assert(shorter[k] == right[k]);
            }
            assert(white(right[right.len() - 1]));
            assert(whole.last() == right.last());
            assert(whole.drop_last() =~= left + s + shorter);
            trimming_takes_off_what_is_around(left, s, shorter);
            assert((left + s + shorter)[0] == s[0]);
        } else {
            assert(whole =~= s);
        }
    }
}

proof fn line_segments_of_one_line(s: Seq<char>)
    requires
        s.len() > 0,
        forall|k: int| 0 <= k < s.len() - 1 ==> #[trigger] s[k] != '\n',
    ensures
        line_segments(s) == seq![s],
    decreases s.len(),
{
    if s.len() == 1 {
        assert(line_segments(s.drop_last()) =~= Seq::empty());
        assert(seq![s.last()] =~= s);
        assert(line_segments(s) =~= seq![s]);
    } else {
        let init = s.drop_last();
        assert forall|k: int| 0 <= k < init.len() - 1 implies #[trigger] init[k] != '\n' by {
            assert(init[k] == s[k]);
        }
        line_segments_of_one_line(init);
        assert(s[s.len() - 2] != '\n');
        assert(init.push(s.last()) =~= s);
        assert(line_segments(s) =~= seq![s]);
    }
}

proof fn line_segments_of_sum(line: Seq<char>, rest: Seq<char>)
    requires
        line.len() > 0,
        line.last() == '\n',
        forall|k: int| 0 <= k < line.len() - 1 ==> #[trigger] line[k] != '\n',
    ensures
        line_segments(line + rest) == seq![line] + line_segments(rest),
    decreases rest.len(),
{
    let s = line + rest;
    if rest.len() == 0 {
        assert(s =~= line);
        line_segments_of_one_line(line);
        assert(seq![line] + line_segments(rest) =~= seq![line]);
    } else {
        line_segments_of_sum(line, rest.drop_last());
        line_segments_make_the_text(rest.drop_last());
        assert(s.drop_last() =~= line + rest.drop_last());
        assert(s.last() == rest.last());
        if rest.len() == 1 {
            assert(s[s.len() - 2] == line.last());
        } else {
            assert(s[s.len() - 2] == rest[rest.len() - 2]);
        }
        assert(line_segments(s) =~= seq![line] + line_segments(rest));
    }
}

/// A line feed, with a carriage return before it or without, ends a line; the
/// last line need not be ended.
pub proof fn line_feeds_end_lines(line: Seq<char>, rest: Seq<char>)
    requires
        forall|k: int| 0 <= k < line.len() ==> #[trigger] line[k] != '\n',
    ensures
        line.len() == 0 || line.last() != '\r' ==> lines(line.push('\n') + rest) == seq![line]
            + lines(rest),
        lines(line.push('\r').push('\n') + rest) == seq![line] + lines(rest),
        line.len() > 0 ==> lines(line) == seq![line],
        lines(Seq::empty()) == Seq::<Seq<char>>::empty(),
        line_segments(line.push('\n') + rest) == seq![line.push('\n')] + line_segments(rest),
        line.len() > 0 ==> line_segments(line) == seq![line],
{
    let plain = line.push('\n');
    let returned = line.push('\r').push('\n');
    assert(plain.drop_last() =~= line);
    assert(returned.drop_last() =~= line.push('\r'));
    assert(returned.drop_last().drop_last() =~= line);
    line_segments_of_sum(plain, rest);
    line_segments_of_sum(returned, rest);
    assert(lines(returned + rest) =~= seq![line] + lines(rest));
    if line.len() == 0 || line.last() != '\r' {
        assert(lines(plain + rest) =~= seq![line] + lines(rest));
    }
    if line.len() > 0 {
        line_segments_of_one_line(line);
        assert(line[line.len() - 1] != '\n');
        assert(lines(line) =~= seq![line]);
    }
    assert(lines(Seq::empty()) =~= Seq::<Seq<char>>::empty());
}

/// What is visible of two texts in a row is visible of each, and of a single
/// character what is not white space.
pub proof fn visible_characters_stay_in_order(a: Seq<char>, b: Seq<char>, c: char)
    ensures
        visible(a + b) == visible(a) + visible(b),
        visible(seq![c]) == if white(c) {
            Seq::<char>::empty()
        } else {
            seq![c]
        },
        black_count(a) == visible(a).len(),
    decreases a.len() + b.len(),
{
    assert(seq![c].drop_last() =~= Seq::empty());
    assert(visible(seq![c].drop_last()) =~= Seq::empty());
    assert(visible(seq![c]) =~= if white(c) {
        Seq::<char>::empty()
    } else {
        seq![c]
    });
    if a.len() > 0 {
        visible_characters_stay_in_order(a.drop_last(), Seq::empty(), c);
    }
    if b.len() == 0 {
        assert(a + b =~= a);
        assert(visible(a) + visible(b) =~= visible(a));
    } else {
        visible_characters_stay_in_order(a, b.drop_last(), c);
        assert((a + b).drop_last() =~= a + b.drop_last());
        assert(visible(a + b) =~= visible(a) + visible(b));
    }
}

/// Texts are joined with one separator between each two: the join of two lists
/// is that of the first, a separator, and that of the second.
pub proof fn joins_follow_one_another(
    a: Seq<Seq<char>>,
    b: Seq<Seq<char>>,
    one: Seq<char>,
    sep: Seq<char>,
)
    requires
        a.len() > 0,
        b.len() > 0,
    ensures
        join(a + b, sep) == join(a, sep) + sep + join(b, sep),
        join(seq![one], sep) == one,
        join(Seq::empty(), sep) == Seq::<char>::empty(),
    decreases b.len(),
{
    let all = a + b;
    assert(all.drop_last() =~= a + b.drop_last());
    assert(all.last() == b.last());
    if b.len() == 1 {
        assert(a + b.drop_last() =~= a);
    } else {
        joins_follow_one_another(a, b.drop_last(), one, sep);
        assert(join(all, sep) =~= join(a, sep) + sep + join(b, sep));
    }
}

proof fn normal_words(parts: Seq<Seq<char>>)
    requires
        forall|k: int, i: int|
            0 <= k < parts.len() && 0 <= i < parts[k].len() ==> !white(#[trigger] parts[k][i]),
        forall|k: int| 0 <= k < parts.len() ==> (#[trigger] parts[k]).len() > 0,
    ensures
        words(join(parts, " "@)) == parts,
    decreases parts.len(),
{
    reveal_strlit(" ");
    if parts.len() == 0 {
        fields_are_what_separators_leave(
            Seq::empty(),
            ' ',
            Seq::empty(),
            Seq::empty(),
            Separator::White,
        );
        assert(words(join(parts, " "@)) =~= parts);
    } else {
        let last = parts[parts.len() - 1];
        assert forall|i: int| 0 <= i < last.len() implies !Separator::White.separates(
            #[trigger] last[i],
        ) by {
            assert(!white(parts[parts.len() - 1][i]));
        }
        let before = parts.drop_last();
        fields_are_what_separators_leave(
            join(before, " "@),
            ' ',
            last,
            last,
            Separator::White,
        );
        if parts.len() == 1 {
            assert(parts =~= seq![last]);
        } else {
            assert forall|k: int, i: int|
                0 <= k < before.len() && 0 <= i < before[k].len() implies !white(
                #[trigger] before[k][i],
            ) by {
                assert(before[k] == parts[k]);
                assert(!white(parts[k][i]));
            }
            assert forall|k: int| 0 <= k < before.len() implies (#[trigger] before[k]).len()
                > 0 by {
                assert(before[k] == parts[k]);
            }
            normal_words(before);
            assert(join(parts, " "@) =~= join(before, " "@).push(' ') + last);
            assert(before + seq![last] =~= parts);
        }
    }
}

proof fn pieces_hold_no_separator(s: Seq<char>, sep: Separator)
    ensures
        forall|k: int, i: int|
            0 <= k < pieces(s, sep).len() && 0 <= i < pieces(s, sep)[k].len() ==> !sep.separates(
                #[trigger] pieces(s, sep)[k][i],
            ),
    decreases s.len(),
{
    if s.len() > 0 {
        pieces_hold_no_separator(s.drop_last(), sep);
        pieces_not_empty(s.drop_last(), sep);
        let before = pieces(s.drop_last(), sep);
        let all = pieces(s, sep);
        assert forall|k: int, i: int| 0 <= k < all.len() && 0 <= i < all[k].len() implies !sep
            .separates(#[trigger] all[k][i]) by {
            if k < before.len() - 1 {
                assert(all[k] == before[k]);
                assert(!sep.separates(before[k][i]));
            } else if k == before.len() - 1 && i < before[k].len() {
                assert(all[k][i] == before[k][i]);
                assert(!sep.separates(before[k][i]));
            }
        }
    }
}

proof fn non_empty_is_a_choice(parts: Seq<Seq<char>>)
    ensures
        forall|k: int|
            0 <= k < non_empty(parts).len() ==> (#[trigger] non_empty(parts)[k]).len() > 0
                && parts.contains(non_empty(parts)[k]),
    decreases parts.len(),
{
    if parts.len() > 0 {
        let before = non_empty(parts.drop_last());
        let all = non_empty(parts);
        non_empty_is_a_choice(parts.drop_last());
        assert forall|k: int| 0 <= k < all.len() implies (#[trigger] all[k]).len() > 0
            && parts.contains(all[k]) by {
            if k < before.len() {
                assert(all[k] == before[k]);
                let at = choose|at: int|
                    0 <= at < parts.drop_last().len() && parts.drop_last()[at] == before[k];
                assert(parts[at] == all[k]);
            } else {
                assert(parts[parts.len() - 1] == all[k]);
            }
        }
    }
}

/// No field is empty or holds a separator.
pub proof fn fields_hold_no_separator(s: Seq<char>, sep: Separator)
    ensures
        forall|k: int| 0 <= k < fields(s, sep).len() ==> (#[trigger] fields(s, sep)[k]).len() > 0,
        forall|k: int, i: int|
            0 <= k < fields(s, sep).len() && 0 <= i < fields(s, sep)[k].len() ==> !sep.separates(
                #[trigger] fields(s, sep)[k][i],
            ),
{
    let parts = pieces(s, sep);
    pieces_hold_no_separator(s, sep);
    non_empty_is_a_choice(parts);
    let all = fields(s, sep);
    assert forall|k: int, i: int| 0 <= k < all.len() && 0 <= i < all[k].len() implies !sep.separates(
        #[trigger] all[k][i],
    ) by {
        assert(parts.contains(all[k]));
        let at = choose|at: int| 0 <= at < parts.len() && parts[at] == all[k];
        assert(!sep.separates(parts[at][i]));
    }
}

/// A text keeps its words when its white space is made regular, and a text
/// that is regular stays as it is.
pub proof fn regular_texts_keep_their_words(s: Seq<char>)
    ensures
        words(normalized(s)) == words(s),
        normalized(normalized(s)) == normalized(s),
{
    fields_hold_no_separator(s, Separator::White);
    let all = words(s);
    assert forall|k: int, i: int| 0 <= k < all.len() && 0 <= i < all[k].len() implies !white(
        #[trigger] all[k][i],
    ) by {
        assert(!Separator::White.separates(fields(s, Separator::White)[k][i]));
    }
    normal_words(all);
}

/// A text is found where it stands, and the first characters of a text are its
/// beginning.
pub proof fn parts_are_found(left: Seq<char>, part: Seq<char>, right: Seq<char>, count: nat)
    ensures
        begins(part + right, part),
        ends(left + part, part),
        holds(left + part + right, part),
        first(part + right, part.len()) == part,
        first(part, count).len() == if part.len() < count {
            part.len()
        } else {
            count
        },
{
    let whole = left + part + right;
    assert((part + right).take(part.len() as int) =~= part);
    assert((left + part).skip(left.len() as int) =~= part);
    assert(whole.skip(left.len() as int) =~= part + right);
    assert(begins(whole.skip(left.len() as int), part));
    if right.len() == 0 {
        assert(part + right =~= part);
    }
}

/// Only the letters from `A` to `Z` change in lower case, each into the one
/// thirty-two places on.
pub proof fn latin_letters_are_lowered(c: char)
    ensures
        65 <= c as int <= 90 ==> ascii_lower(c) as int == c as int + 32,
        !(65 <= c as int <= 90) ==> ascii_lower(c) == c,
{
}

/// Of some texts those that are not empty are all chosen, in order.
pub proof fn non_empty_texts_are_chosen(parts: Seq<Seq<char>>)
    ensures
        non_empty(parts) == parts.filter(|part: Seq<char>| part.len() > 0),
    decreases parts.len(),
{
    reveal(Seq::filter);
    if parts.len() > 0 {
        non_empty_texts_are_chosen(parts.drop_last());
    }
}

/// A number is read digit by digit: each makes it ten times as large and adds
/// its own value. What is no digit is refused, and so is what is too large; a
/// single plus sign may stand before it.
pub proof fn numbers_are_read_digit_by_digit(s: Seq<char>, c: char, max: nat)
    requires
        s.len() > 0,
        s[0] != '+',
    ensures
        number_value(s, max) matches Ok(n) ==> {
            let longer = number_value(s.push(c), max);
            &&& '0' <= c <= '9' && 10 * n + (c as nat - '0' as nat) <= max ==> longer == Ok::<
                nat,
                NumberFault,
            >((10 * n + (c as nat - '0' as nat)) as nat)
            &&& '0' <= c <= '9' && 10 * n + (c as nat - '0' as nat) > max ==> longer == Err::<
                nat,
                NumberFault,
            >(NumberFault::TooLarge)
            &&& !('0' <= c <= '9') ==> longer == Err::<nat, NumberFault>(NumberFault::InvalidDigit)
        },
        number_value(s, max) matches Err(fault) ==> number_value(s.push(c), max) == Err::<
            nat,
            NumberFault,
        >(fault),
        '0' <= c <= '9' && c as nat - '0' as nat <= max ==> number_value(seq![c], max) == Ok::<
            nat,
            NumberFault,
        >((c as nat - '0' as nat) as nat),
        !('0' <= c <= '9') ==> number_value(seq![c], max) == Err::<nat, NumberFault>(
            NumberFault::InvalidDigit,
        ),
        number_value(seq!['+'] + s, max) == number_value(s, max),
        number_value(Seq::empty(), max) == Err::<nat, NumberFault>(NumberFault::Empty),
{
    assert(s.push(c).drop_last() =~= s);
    assert(s.push(c)[0] == s[0]);
    assert((seq!['+'] + s).skip(1) =~= s);
    assert(seq![c].drop_last() =~= Seq::empty());
    assert(digits_value(seq![c].drop_last(), max) == Ok::<nat, NumberFault>(0));
}

} // verus!
