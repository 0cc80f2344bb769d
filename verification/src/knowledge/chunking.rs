//! Cuts long texts into chunks of bounded size, at paragraphs and sentences
//! where there are any.
use vstd::prelude::*;

use crate::text::{
    chars_of, char_len, is_white, join, slice_text, trim, trim_end_is_prefix, trim_start,
    trim_start_is_suffix, trimmed, views, visible, white,
};

verus! {

/// The most characters of a chunk.
pub const MAX_CHUNK_CHARS: usize = 1_200;

/// Half of the most characters of a chunk: where the search for a good place
/// to cut ends.
pub const MIN_CUT: usize = 600;

/// Where the first empty line begins, or the length where there is none.
pub open spec fn gap(s: Seq<char>) -> int
    decreases s.len(),
{
    if s.len() < 2 {
        s.len() as int
    } else if s[0] == '\n' && s[1] == '\n' {
        0
    } else {
        1 + gap(s.drop_first())
    }
}

/// The texts between empty lines.
pub open spec fn paragraphs(s: Seq<char>) -> Seq<Seq<char>>
    decreases s.len(),
{
    let at = gap(s);
    if at >= s.len() {
        seq![s]
    } else {
        proof {
            gap_is_a_gap(s);
        }
        seq![s.take(at)] + paragraphs(s.skip(at + 2))
    }
}

/// Where the first empty line begins is inside the text, and an empty line is
/// there.
pub proof fn gap_is_a_gap(s: Seq<char>)
    ensures
        0 <= gap(s) <= s.len(),
        gap(s) < s.len() ==> gap(s) + 2 <= s.len() && s[gap(s)] == '\n' && s[gap(s) + 1] == '\n',
        forall|k: int|
            0 <= k < gap(s) && k + 1 < s.len() ==> !(#[trigger] s[k] == '\n' && s[k + 1] == '\n'),
    decreases s.len(),
{
    if s.len() >= 2 && !(s[0] == '\n' && s[1] == '\n') {
        let rest = s.drop_first();
        gap_is_a_gap(rest);
        assert forall|k: int| 0 <= k < gap(s) && k + 1 < s.len() implies !(#[trigger] s[k] == '\n'
            && s[k + 1] == '\n') by {
            if k > 0 {
                assert(s[k] == rest[k - 1] && s[k + 1] == rest[k]);
            }
        }
    }
}

fn find_gap(chars: &Vec<char>, start: usize) -> (r: usize)
    requires
        start <= chars@.len(),
    ensures
        r == start + gap(chars@.skip(start as int)),
        start <= r <= chars@.len(),
{
    let n: usize = chars.len();
    let mut i: usize = start;
    while i < n && n - i >= 2 && !(chars[i] == '\n' && chars[i + 1] == '\n')
        invariant
            start <= i <= n == chars@.len(),
            start + gap(chars@.skip(start as int)) == i + gap(chars@.skip(i as int)),
        decreases n - i,
    {
        assert(chars@.skip(i as int).drop_first() =~= chars@.skip(i + 1));
        i += 1;
    }
    proof {
        gap_is_a_gap(chars@.skip(start as int));
        gap_is_a_gap(chars@.skip(i as int));
    }
    if n - i < 2 {
        n
    } else {
        i
    }
}

/// The texts between the empty lines of the text.
pub fn split_paragraphs(text: &str) -> (r: Vec<String>)
    ensures
        views(r@) == paragraphs(text@),
{
    let chars = chars_of(text);
    let n: usize = chars.len();
    let mut out: Vec<String> = Vec::new();
    let mut start: usize = 0;
    assert(chars@.skip(0) =~= chars@);
    assert(views(out@) + paragraphs(chars@) =~= paragraphs(chars@));
    loop
        invariant
            chars@ == text@,
            start <= n == chars@.len(),
            paragraphs(text@) == views(out@) + paragraphs(chars@.skip(start as int)),
        decreases n - start,
    {
        let ghost rest = chars@.skip(start as int);
        let ghost done = views(out@);
        proof {
            gap_is_a_gap(rest);
        }
        let at: usize = find_gap(&chars, start);
        let piece = slice_text(&chars, start, at);
        let ghost model = piece@;
        out.push(piece);
        assert(views(out@) =~= done.push(model));
        if at == n {
            assert(model =~= rest);
            assert(views(out@) =~= done + seq![rest]);
            return out;
        }
        assert(model =~= rest.take(at - start));
        assert(rest.skip(at - start + 2) =~= chars@.skip(at + 2));
        assert(done + (seq![model] + paragraphs(chars@.skip(at + 2))) =~= done.push(model)
            + paragraphs(chars@.skip(at + 2)));
        start = at + 2;
    }
}

/// Whether a text may be cut behind a character.
pub open spec fn ends_part(c: char) -> bool {
    c == '.' || c == '!' || c == '?' || c == ';' || c == '\n' || white(c)
}

/// The place to cut: behind the last character before `limit` after which a
/// text may be cut, but not before the shortest part; else at the most
/// characters of a chunk.
pub open spec fn cut_below(s: Seq<char>, limit: int) -> int
    decreases limit,
{
    if limit <= MIN_CUT {
        MAX_CHUNK_CHARS as int
    } else if ends_part(s[limit - 1]) {
        limit
    } else {
        cut_below(s, limit - 1)
    }
}

/// Where a text that is too long is cut.
pub open spec fn cut(s: Seq<char>) -> int {
    cut_below(s, MAX_CHUNK_CHARS as int)
}

proof fn cut_is_in_range(s: Seq<char>, limit: int)
    requires
        limit <= MAX_CHUNK_CHARS,
    ensures
        MIN_CUT < cut_below(s, limit) <= MAX_CHUNK_CHARS,
    decreases limit,
{
    if limit > MIN_CUT && !ends_part(s[limit - 1]) {
        cut_is_in_range(s, limit - 1);
    }
}

/// The parts of a text without white space at its ends, each of bounded size.
pub open spec fn bounded_parts(s: Seq<char>) -> Seq<Seq<char>>
    decreases s.len(),
{
    if s.len() > MAX_CHUNK_CHARS {
        proof {
            bounded_parts_get_shorter(s);
        }
        seq![trim(s.take(cut(s)))] + bounded_parts(trim(s.skip(cut(s))))
    } else if s.len() > 0 {
        seq![s]
    } else {
        Seq::empty()
    }
}

/// What is left of a text that is cut is shorter.
pub proof fn bounded_parts_get_shorter(s: Seq<char>)
    requires
        s.len() > MAX_CHUNK_CHARS,
    ensures
        MIN_CUT < cut(s) <= MAX_CHUNK_CHARS,
        trim(s.skip(cut(s))).len() < s.len(),
        trim(s.take(cut(s))).len() <= MAX_CHUNK_CHARS,
{
    cut_is_in_range(s, MAX_CHUNK_CHARS as int);
    trim_is_part(s.skip(cut(s)));
    trim_is_part(s.take(cut(s)));
}

proof fn trim_is_part(s: Seq<char>)
    ensures
        trim(s).len() <= s.len(),
{
    trim_start_is_suffix(s);
    trim_end_is_prefix(trim_start(s));
}

/// The parts of a paragraph.
pub open spec fn block_parts(block: Seq<char>) -> Seq<Seq<char>> {
    if block.len() <= MAX_CHUNK_CHARS {
        seq![block]
    } else {
        bounded_parts(trim(block))
    }
}

/// The parts of the first `count` paragraphs that are not empty.
pub open spec fn all_parts(blocks: Seq<Seq<char>>) -> Seq<Seq<char>>
    decreases blocks.len(),
{
    if blocks.len() == 0 {
        Seq::empty()
    } else {
        all_parts(blocks.drop_last()) + crate::text::non_empty(block_parts(blocks.last()))
    }
}

/// The chunks that are full and the one that is being filled.
pub struct Packing {
    pub full: Seq<Seq<char>>,
    pub current: Seq<char>,
}

/// The packing after one more part.
pub open spec fn packed_one(p: Packing, part: Seq<char>) -> Packing {
    if p.current.len() == 0 {
        Packing { current: part, ..p }
    } else if p.current.len() + 2 + part.len() > MAX_CHUNK_CHARS {
        Packing { full: p.full.push(p.current), current: part }
    } else {
        Packing { current: p.current + "\n\n"@ + part, ..p }
    }
}

/// The packing of all parts.
pub open spec fn packed(parts: Seq<Seq<char>>) -> Packing
    decreases parts.len(),
{
    if parts.len() == 0 {
        Packing { full: Seq::empty(), current: Seq::empty() }
    } else {
        packed_one(packed(parts.drop_last()), parts.last())
    }
}

/// The chunks of a packing.
pub open spec fn chunks_of(p: Packing) -> Seq<Seq<char>> {
    if p.current.len() == 0 {
        p.full
    } else {
        p.full.push(p.current)
    }
}

/// The chunks of a text: its paragraphs, or parts of them where they are too
/// long, as many together as a chunk can hold.
pub open spec fn chunks(text: Seq<char>) -> Seq<Seq<char>> {
    chunks_of(packed(all_parts(paragraphs(text))))
}

fn find_cut(chars: &Vec<char>) -> (r: usize)
    requires
        chars@.len() > MAX_CHUNK_CHARS,
    ensures
        r == cut(chars@),
{
    let mut limit: usize = MAX_CHUNK_CHARS;
    while limit > MIN_CUT
        invariant
            chars@.len() > MAX_CHUNK_CHARS,
            MIN_CUT <= limit <= MAX_CHUNK_CHARS,
            cut(chars@) == cut_below(chars@, limit as int),
        decreases limit,
    {
        let c = chars[limit - 1];
        if c == '.' || c == '!' || c == '?' || c == ';' || c == '\n' || is_white(c) {
            return limit;
        }
        limit -= 1;
    }
    MAX_CHUNK_CHARS
}

/// The parts of a paragraph.
pub fn split_long_block(block: &str) -> (r: Vec<String>)
    ensures
        views(r@) == block_parts(block@),
{
    let mut parts: Vec<String> = Vec::new();
    if char_len(block) <= MAX_CHUNK_CHARS {
        parts.push(block.to_owned());
        assert(views(parts@) =~= seq![block@]);
        return parts;
    }
    let mut remaining = trimmed(block);
    assert(views(parts@) + bounded_parts(remaining@) =~= bounded_parts(remaining@));
    loop
        invariant
            bounded_parts(trim(block@)) == views(parts@) + bounded_parts(remaining@),
            block@.len() > MAX_CHUNK_CHARS,
        decreases remaining@.len(),
    {
        let ghost done = views(parts@);
        let ghost whole = remaining@;
        let chars = chars_of(remaining.as_str());
        if chars.len() <= MAX_CHUNK_CHARS {
            if chars.len() > 0 {
                parts.push(remaining);
                assert(views(parts@) =~= done + seq![whole]);
            } else {
                assert(views(parts@) =~= done + Seq::empty());
            }
            return parts;
        }
        proof {
            bounded_parts_get_shorter(whole);
        }
        let split: usize = find_cut(&chars);
        let head = slice_text(&chars, 0, split);
        let tail = slice_text(&chars, split, chars.len());
        assert(head@ =~= whole.take(split as int));
        assert(tail@ =~= whole.skip(split as int));
        let part = trimmed(head.as_str());
        let ghost model = part@;
        parts.push(part);
        assert(views(parts@) =~= done.push(model));
        remaining = trimmed(tail.as_str());
        assert(done + (seq![model] + bounded_parts(remaining@)) =~= done.push(model)
            + bounded_parts(remaining@));
    }
}

fn add_non_empty(out: &mut Vec<String>, parts: Vec<String>)
    ensures
        views(final(out)@) == views(old(out)@) + crate::text::non_empty(views(parts@)),
{
    let ghost start = views(out@);
    let ghost all = views(parts@);
    let mut i: usize = 0;
    assert(all.take(0) =~= Seq::empty());
    assert(start + crate::text::non_empty(all.take(0)) =~= start);
    while i < parts.len()
        invariant
            all == views(parts@),
            i <= parts@.len(),
            views(out@) == start + crate::text::non_empty(all.take(i as int)),
        decreases parts@.len() - i,
    {
        assert(all.take(i + 1).drop_last() =~= all.take(i as int));
        assert(all.take(i + 1).last() == parts@[i as int]@);
        if !parts[i].as_str().is_empty() {
            let ghost before = views(out@);
            let ghost model = parts@[i as int]@;
            out.push(parts[i].clone());
            assert(views(out@) =~= before.push(model));
            assert(before.push(model) =~= start + crate::text::non_empty(all.take(i + 1)));
        }
        i += 1;
    }
    assert(all.take(i as int) =~= all);
}

/// The chunks of the text.
pub fn chunk_text(text: &str) -> (r: Vec<String>)
    ensures
        views(r@) == chunks(text@),
{
    let blocks = split_paragraphs(text);
    let ghost all_blocks = views(blocks@);
    let mut parts: Vec<String> = Vec::new();
    let mut i: usize = 0;
    assert(views(parts@) =~= Seq::empty());
    assert(all_blocks.take(0) =~= Seq::empty());
    while i < blocks.len()
        invariant
            all_blocks == views(blocks@),
            i <= blocks@.len(),
            views(parts@) == all_parts(all_blocks.take(i as int)),
        decreases blocks@.len() - i,
    {
        assert(all_blocks.take(i + 1).drop_last() =~= all_blocks.take(i as int));
        assert(all_blocks.take(i + 1).last() == blocks@[i as int]@);
        let more = split_long_block(blocks[i].as_str());
        add_non_empty(&mut parts, more);
        i += 1;
    }
    assert(all_blocks.take(i as int) =~= all_blocks);
    pack(&parts)
}

fn pack(parts: &Vec<String>) -> (r: Vec<String>)
    ensures
        views(r@) == chunks_of(packed(views(parts@))),
{
    let ghost all = views(parts@);
    let mut full: Vec<String> = Vec::new();
    let mut current = String::new();
    let mut i: usize = 0;
    assert(all.take(0) =~= Seq::empty());
    assert(views(full@) =~= Seq::empty());
    while i < parts.len()
        invariant
            all == views(parts@),
            i <= parts@.len(),
            packed(all.take(i as int)) == (Packing { full: views(full@), current: current@ }),
        decreases parts@.len() - i,
    {
        assert(all.take(i + 1).drop_last() =~= all.take(i as int));
        assert(all.take(i + 1).last() == parts@[i as int]@);
        let have: usize = char_len(current.as_str());
        let more: usize = char_len(parts[i].as_str());
        if have == 0 {
            current = parts[i].clone();
        } else if have > MAX_CHUNK_CHARS || more > MAX_CHUNK_CHARS || have + 2 + more
            > MAX_CHUNK_CHARS {
            let ghost before = views(full@);
            let ghost model = current@;
            full.push(current);
            assert(views(full@) =~= before.push(model));
            current = parts[i].clone();
        } else {
            current.append("\n\n");
            current.append(parts[i].as_str());
        }
        i += 1;
    }
    assert(all.take(i as int) =~= all);
    if !current.as_str().is_empty() {
        let ghost before = views(full@);
        let ghost model = current@;
        full.push(current);
        assert(views(full@) =~= before.push(model));
    }
    full
}

// ---------------------------------------------------------------------------
// What holds of the chunks
// ---------------------------------------------------------------------------

proof fn bounded_parts_are_bounded(s: Seq<char>)
    ensures
        forall|k: int|
            0 <= k < bounded_parts(s).len() ==> (#[trigger] bounded_parts(s)[k]).len()
                <= MAX_CHUNK_CHARS,
    decreases s.len(),
{
    if s.len() > MAX_CHUNK_CHARS {
        bounded_parts_get_shorter(s);
        let rest = bounded_parts(trim(s.skip(cut(s))));
        bounded_parts_are_bounded(trim(s.skip(cut(s))));
        assert forall|k: int| 0 <= k < bounded_parts(s).len() implies (
        #[trigger] bounded_parts(s)[k]).len() <= MAX_CHUNK_CHARS by {
            if k > 0 {
                assert(bounded_parts(s)[k] == rest[k - 1]);
            }
        }
    }
}

proof fn non_empty_keeps(parts: Seq<Seq<char>>)
    requires
        forall|k: int| 0 <= k < parts.len() ==> (#[trigger] parts[k]).len() <= MAX_CHUNK_CHARS,
    ensures
        forall|k: int|
            0 <= k < crate::text::non_empty(parts).len() ==> 0 < (
            #[trigger] crate::text::non_empty(parts)[k]).len() <= MAX_CHUNK_CHARS,
    decreases parts.len(),
{
    if parts.len() > 0 {
        let shorter = parts.drop_last();
        assert forall|k: int| 0 <= k < shorter.len() implies (#[trigger] shorter[k]).len()
            <= MAX_CHUNK_CHARS by {
            assert(shorter[k] == parts[k]);
        }
        non_empty_keeps(shorter);
        let before = crate::text::non_empty(shorter);
        let all = crate::text::non_empty(parts);
        assert forall|k: int| 0 <= k < all.len() implies 0 < (#[trigger] all[k]).len()
            <= MAX_CHUNK_CHARS by {
            if k < before.len() {
                assert(all[k] == before[k]);
            } else {
                assert(all[k] == parts[parts.len() - 1]);
            }
        }
    }
}

proof fn all_parts_are_bounded(blocks: Seq<Seq<char>>)
    ensures
        forall|k: int|
            0 <= k < all_parts(blocks).len() ==> 0 < (#[trigger] all_parts(blocks)[k]).len()
                <= MAX_CHUNK_CHARS,
    decreases blocks.len(),
{
    if blocks.len() > 0 {
        all_parts_are_bounded(blocks.drop_last());
        let before = all_parts(blocks.drop_last());
        let parts = block_parts(blocks.last());
        bounded_parts_are_bounded(trim(blocks.last()));
        non_empty_keeps(parts);
        let more = crate::text::non_empty(parts);
        assert forall|k: int| 0 <= k < all_parts(blocks).len() implies 0 < (
        #[trigger] all_parts(blocks)[k]).len() <= MAX_CHUNK_CHARS by {
            if k < before.len() {
                assert(all_parts(blocks)[k] == before[k]);
            } else {
                assert(all_parts(blocks)[k] == more[k - before.len()]);
            }
        }
    }
}

proof fn packing_is_bounded(parts: Seq<Seq<char>>)
    requires
        forall|k: int| 0 <= k < parts.len() ==> 0 < (#[trigger] parts[k]).len() <= MAX_CHUNK_CHARS,
    ensures
        packed(parts).current.len() <= MAX_CHUNK_CHARS,
        forall|k: int|
            0 <= k < packed(parts).full.len() ==> 0 < (#[trigger] packed(parts).full[k]).len()
                <= MAX_CHUNK_CHARS,
    decreases parts.len(),
{
    if parts.len() > 0 {
        packing_is_bounded(parts.drop_last());
        reveal_strlit("\n\n");
    }
}

/// No chunk is empty, and none has more characters than a chunk may have.
pub proof fn chunks_are_bounded(text: Seq<char>)
    ensures
        forall|k: int|
            0 <= k < chunks(text).len() ==> 0 < (#[trigger] chunks(text)[k]).len()
                <= MAX_CHUNK_CHARS,
{
    let parts = all_parts(paragraphs(text));
    all_parts_are_bounded(paragraphs(text));
    packing_is_bounded(parts);
}

/// The visible characters of texts in a row.
pub open spec fn all_visible(parts: Seq<Seq<char>>) -> Seq<char>
    decreases parts.len(),
{
    if parts.len() == 0 {
        Seq::empty()
    } else {
        all_visible(parts.drop_last()) + visible(parts.last())
    }
}

proof fn visible_of_sum(a: Seq<char>, b: Seq<char>)
    ensures
        visible(a + b) == visible(a) + visible(b),
    decreases b.len(),
{
    if b.len() == 0 {
        assert(a + b =~= a);
        assert(visible(a) + visible(b) =~= visible(a));
    } else {
        visible_of_sum(a, b.drop_last());
        assert((a + b).drop_last() =~= a + b.drop_last());
        assert(visible(a + b) =~= visible(a) + visible(b));
    }
}

proof fn white_is_not_visible(s: Seq<char>)
    requires
        forall|i: int| 0 <= i < s.len() ==> white(#[trigger] s[i]),
    ensures
        visible(s) == Seq::<char>::empty(),
    decreases s.len(),
{
    if s.len() > 0 {
        white_is_not_visible(s.drop_last());
    }
}

proof fn trimming_loses_nothing_visible(s: Seq<char>)
    ensures
        visible(trim(s)) == visible(s),
{
    let t = trim_start(s);
    trim_start_is_suffix(s);
    let head = s.take(s.len() - t.len());
    assert(s =~= head + t);
    white_is_not_visible(head);
    visible_of_sum(head, t);
    assert(visible(s) =~= visible(t));
    trim_end_is_prefix(t);
    let e = crate::text::trim_end(t);
    let tail = t.skip(e.len() as int);
    assert(t =~= e + tail);
    white_is_not_visible(tail);
    visible_of_sum(e, tail);
    assert(visible(t) =~= visible(e));
}

proof fn all_visible_of_sum(a: Seq<Seq<char>>, b: Seq<Seq<char>>)
    ensures
        all_visible(a + b) == all_visible(a) + all_visible(b),
    decreases b.len(),
{
    if b.len() == 0 {
        assert(a + b =~= a);
        assert(all_visible(a) + all_visible(b) =~= all_visible(a));
    } else {
        all_visible_of_sum(a, b.drop_last());
        assert((a + b).drop_last() =~= a + b.drop_last());
        assert(all_visible(a + b) =~= all_visible(a) + all_visible(b));
    }
}

proof fn all_visible_of_one(s: Seq<char>)
    ensures
        all_visible(seq![s]) == visible(s),
{
    assert(seq![s].drop_last() =~= Seq::empty());
    assert(all_visible(seq![s].drop_last()) =~= Seq::empty());
    assert(all_visible(seq![s]) =~= visible(s));
}

proof fn bounded_parts_lose_nothing(s: Seq<char>)
    ensures
        all_visible(bounded_parts(s)) == visible(s),
    decreases s.len(),
{
    if s.len() > MAX_CHUNK_CHARS {
        bounded_parts_get_shorter(s);
        let head = s.take(cut(s));
        let tail = s.skip(cut(s));
        bounded_parts_lose_nothing(trim(tail));
        trimming_loses_nothing_visible(head);
        trimming_loses_nothing_visible(tail);
        assert(s =~= head + tail);
        visible_of_sum(head, tail);
        all_visible_of_one(trim(head));
        all_visible_of_sum(seq![trim(head)], bounded_parts(trim(tail)));
    } else if s.len() > 0 {
        all_visible_of_one(s);
    } else {
        assert(visible(s) =~= Seq::empty());
    }
}

proof fn non_empty_loses_nothing(parts: Seq<Seq<char>>)
    ensures
        all_visible(crate::text::non_empty(parts)) == all_visible(parts),
    decreases parts.len(),
{
    if parts.len() > 0 {
        non_empty_loses_nothing(parts.drop_last());
        let before = crate::text::non_empty(parts.drop_last());
        if parts.last().len() > 0 {
            assert(before.push(parts.last()).drop_last() =~= before);
        } else {
            assert(visible(parts.last()) =~= Seq::empty());
            assert(all_visible(parts) =~= all_visible(parts.drop_last()));
        }
    }
}

proof fn parts_lose_nothing(blocks: Seq<Seq<char>>)
    ensures
        all_visible(all_parts(blocks)) == all_visible(blocks),
    decreases blocks.len(),
{
    if blocks.len() > 0 {
        parts_lose_nothing(blocks.drop_last());
        let block = blocks.last();
        let parts = block_parts(block);
        non_empty_loses_nothing(parts);
        if block.len() <= MAX_CHUNK_CHARS {
            all_visible_of_one(block);
        } else {
            bounded_parts_lose_nothing(trim(block));
            trimming_loses_nothing_visible(block);
        }
        all_visible_of_sum(all_parts(blocks.drop_last()), crate::text::non_empty(parts));
    }
}

proof fn paragraphs_lose_nothing(s: Seq<char>)
    ensures
        all_visible(paragraphs(s)) == visible(s),
    decreases s.len(),
{
    gap_is_a_gap(s);
    let at = gap(s);
    if at >= s.len() {
        all_visible_of_one(s);
    } else {
        let head = s.take(at);
        let middle = s.subrange(at, at + 2);
        let tail = s.skip(at + 2);
        paragraphs_lose_nothing(tail);
        all_visible_of_one(head);
        all_visible_of_sum(seq![head], paragraphs(tail));
        assert(s =~= head + (middle + tail));
        visible_of_sum(head, middle + tail);
        visible_of_sum(middle, tail);
        white_is_not_visible(middle);
        assert(visible(middle) + visible(tail) =~= visible(tail));
    }
}

proof fn packing_loses_nothing(parts: Seq<Seq<char>>)
    ensures
        all_visible(packed(parts).full) + visible(packed(parts).current) == all_visible(parts),
    decreases parts.len(),
{
    if parts.len() == 0 {
        assert(all_visible(packed(parts).full) + visible(packed(parts).current) =~= all_visible(
            parts,
        ));
    } else {
        let p = packed(parts.drop_last());
        let part = parts.last();
        packing_loses_nothing(parts.drop_last());
        let now = packed_one(p, part);
        if p.current.len() == 0 {
            assert(visible(p.current) =~= Seq::empty());
            assert(all_visible(p.full) + visible(p.current) =~= all_visible(p.full));
        } else if p.current.len() + 2 + part.len() > MAX_CHUNK_CHARS {
            assert(p.full.push(p.current).drop_last() =~= p.full);
            assert(all_visible(now.full) == all_visible(p.full) + visible(p.current));
        } else {
            reveal_strlit("\n\n");
            white_is_not_visible("\n\n"@);
            visible_of_sum(p.current, "\n\n"@);
            visible_of_sum(p.current + "\n\n"@, part);
            assert(visible(p.current) + Seq::<char>::empty() =~= visible(p.current));
            assert(all_visible(p.full) + (visible(p.current) + visible(part)) =~= all_visible(
                p.full,
            ) + visible(p.current) + visible(part));
        }
    }
}

/// Cutting a text into chunks loses, adds and moves nothing but white space.
pub proof fn chunks_hold_the_whole_text(text: Seq<char>)
    ensures
        all_visible(chunks(text)) == visible(text),
{
    let blocks = paragraphs(text);
    let parts = all_parts(blocks);
    let p = packed(parts);
    paragraphs_lose_nothing(text);
    parts_lose_nothing(blocks);
    packing_loses_nothing(parts);
    if p.current.len() == 0 {
        assert(visible(p.current) =~= Seq::empty());
        assert(all_visible(p.full) + visible(p.current) =~= all_visible(p.full));
    } else {
        assert(p.full.push(p.current).drop_last() =~= p.full);
    }
}

/// A text that is too long is cut inside a word only where there is no other
/// way: behind the last character in the second half of the window that ends a
/// sentence, a clause or a line, or is white space; else at the end of the
/// window.
pub proof fn long_texts_are_cut_behind_a_part(s: Seq<char>)
    requires
        s.len() > 1200,
    ensures
        601 <= cut(s) <= 1200,
        (exists|k: int|
            600 <= k < 1200 && {
                let c = #[trigger] s[k];
                c == '.' || c == '!' || c == '?' || c == ';' || c == '\n' || white(c)
            }) ==> {
            let c = s[cut(s) - 1];
            c == '.' || c == '!' || c == '?' || c == ';' || c == '\n' || white(c)
        },
        forall|k: int|
            cut(s) <= k < 1200 ==> {
                let c = #[trigger] s[k];
                !(c == '.' || c == '!' || c == '?' || c == ';' || c == '\n' || white(c))
            },
        (forall|k: int|
            600 <= k < 1200 ==> {
                let c = #[trigger] s[k];
                !(c == '.' || c == '!' || c == '?' || c == ';' || c == '\n' || white(c))
            }) ==> cut(s) == 1200,
{
    cut_is_last(s, 1200);
}

proof fn cut_is_last(s: Seq<char>, limit: int)
    requires
        s.len() > 1200,
        600 <= limit <= 1200,
        forall|k: int|
            limit <= k < 1200 ==> {
                let c = #[trigger] s[k];
                !(c == '.' || c == '!' || c == '?' || c == ';' || c == '\n' || white(c))
            },
    ensures
        601 <= cut_below(s, limit) <= 1200,
        forall|k: int|
            cut_below(s, limit) <= k < 1200 ==> {
                let c = #[trigger] s[k];
                !(c == '.' || c == '!' || c == '?' || c == ';' || c == '\n' || white(c))
            },
        ({
            let c = s[cut_below(s, limit) - 1];
            c == '.' || c == '!' || c == '?' || c == ';' || c == '\n' || white(c)
        }) || (cut_below(s, limit) == 1200 && forall|k: int|
            600 <= k < 1200 ==> {
                let c = #[trigger] s[k];
                !(c == '.' || c == '!' || c == '?' || c == ';' || c == '\n' || white(c))
            }),
    decreases limit,
{
    if limit > 600 && !ends_part(s[limit - 1]) {
        cut_is_last(s, limit - 1);
    }
}

/// The parts of a text that is too long are what stands before its cut and the
/// parts of what stands behind it, without the white space around them; a text
/// that is not too long stays as it is.
pub proof fn long_texts_are_cut_from_their_start(s: Seq<char>)
    ensures
        s.len() > 1200 ==> bounded_parts(s) == seq![trim(s.take(cut(s)))] + bounded_parts(
            trim(s.skip(cut(s))),
        ),
        0 < s.len() <= 1200 ==> bounded_parts(s) == seq![s],
        s.len() <= 1200 ==> block_parts(s) == seq![s],
        s.len() > 1200 ==> block_parts(s) == bounded_parts(trim(s)),
{
}

/// Empty lines part paragraphs: the first stands before the first empty line,
/// and what stands behind it has the others.
pub proof fn empty_lines_part_paragraphs(before: Seq<char>, behind: Seq<char>)
    requires
        forall|k: int|
            0 <= k < before.len() - 1 ==> !(#[trigger] before[k] == '\n' && before[k + 1] == '\n'),
        before.len() > 0 ==> before.last() != '\n',
    ensures
        paragraphs(before.push('\n').push('\n') + behind) == seq![before] + paragraphs(behind),
        paragraphs(before) == seq![before],
{
    let s = before.push('\n').push('\n') + behind;
    gap_is_a_gap(s);
    gap_is_a_gap(before);
    let at = gap(s);
    let n = before.len() as int;
    assert(s[n] == '\n' && s[n + 1] == '\n');
    if at < n {
        assert(s[at] == before[at]);
        if at + 1 < n {
            assert(s[at + 1] == before[at + 1]);
        } else {
            assert(before.last() == s[at]);
        }
    }
    if at > n {
        assert(!(s[n] == '\n' && s[n + 1] == '\n'));
    }
    assert(s.take(n) =~= before);
    assert(s.skip(n + 2) =~= behind);
    if gap(before) < before.len() {
        assert(before[gap(before)] == '\n' && before[gap(before) + 1] == '\n');
    }
}

proof fn packing_is_tight(parts: Seq<Seq<char>>)
    requires
        forall|k: int| 0 <= k < parts.len() ==> (#[trigger] parts[k]).len() > 0,
    ensures
        ({
            let p = packed(parts);
            &&& parts.len() > 0 ==> p.current.len() >= parts.last().len()
            &&& p.current.len() == 0 ==> p.full.len() == 0
            &&& p.full.len() > 0 ==> p.full.last().len() + 2 + p.current.len() > 1200
            &&& forall|k: int|
                0 <= k < p.full.len() - 1 ==> (#[trigger] p.full[k]).len() + 2 + p.full[k + 1].len()
                    > 1200
        }),
    decreases parts.len(),
{
    if parts.len() > 0 {
        let before = packed(parts.drop_last());
        let p = packed(parts);
        assert forall|k: int| 0 <= k < parts.drop_last().len() implies (
        #[trigger] parts.drop_last()[k]).len() > 0 by {
            assert(parts.drop_last()[k] == parts[k]);
        }
        packing_is_tight(parts.drop_last());
        assert(parts[parts.len() - 1].len() > 0);
        reveal_strlit("\n\n");
        assert forall|k: int| 0 <= k < p.full.len() - 1 implies (#[trigger] p.full[k]).len() + 2
            + p.full[k + 1].len() > 1200 by {
            if k + 1 < before.full.len() {
                assert(p.full[k] == before.full[k] && p.full[k + 1] == before.full[k + 1]);
            } else {
                assert(p.full[k] == before.full[k]);
                assert(k == before.full.len() - 1);
                assert(p.full[k + 1] == before.current);
            }
        }
    }
}

/// No two chunks in a row would fit into one.
pub proof fn chunks_are_filled(text: Seq<char>)
    ensures
        forall|k: int|
            0 <= k < chunks(text).len() - 1 ==> (#[trigger] chunks(text)[k]).len() + 2 + chunks(
                text,
            )[k + 1].len() > 1200,
{
    let parts = all_parts(paragraphs(text));
    all_parts_are_bounded(paragraphs(text));
    packing_is_tight(parts);
    let p = packed(parts);
    assert forall|k: int| 0 <= k < chunks(text).len() - 1 implies (#[trigger] chunks(
        text,
    )[k]).len() + 2 + chunks(text)[k + 1].len() > 1200 by {
        assert(chunks(text)[k] == p.full[k]);
        if k + 1 < p.full.len() {
            assert(chunks(text)[k + 1] == p.full[k + 1]);
        }
    }
}

proof fn one_chunk_holds_all(parts: Seq<Seq<char>>)
    requires
        parts.len() > 0,
        forall|k: int| 0 <= k < parts.len() ==> (#[trigger] parts[k]).len() > 0,
        join(parts, "\n\n"@).len() <= 1200,
    ensures
        packed(parts).full == Seq::<Seq<char>>::empty(),
        packed(parts).current == join(parts, "\n\n"@),
    decreases parts.len(),
{
    reveal_strlit("\n\n");
    let shorter = parts.drop_last();
    assert(parts[parts.len() - 1].len() > 0);
    if parts.len() == 1 {
        assert(packed(shorter).full =~= Seq::empty());
        assert(parts[0] == parts.last());
    } else {
        assert forall|k: int| 0 <= k < shorter.len() implies (#[trigger] shorter[k]).len() > 0 by {
            assert(shorter[k] == parts[k]);
        }
        one_chunk_holds_all(shorter);
        join_of_parts_is_not_empty(shorter);
    }
}

proof fn join_of_parts_is_not_empty(parts: Seq<Seq<char>>)
    requires
        parts.len() > 0,
        forall|k: int| 0 <= k < parts.len() ==> (#[trigger] parts[k]).len() > 0,
    ensures
        join(parts, "\n\n"@).len() > 0,
{
    assert(parts[parts.len() - 1].len() > 0);
}

/// Parts that fit into one chunk together are one chunk, with an empty line
/// between each two.
pub proof fn parts_that_fit_are_one_chunk(parts: Seq<Seq<char>>)
    requires
        parts.len() > 0,
        forall|k: int| 0 <= k < parts.len() ==> (#[trigger] parts[k]).len() > 0,
        join(parts, "\n\n"@).len() <= 1200,
    ensures
        chunks_of(packed(parts)) == seq![join(parts, "\n\n"@)],
{
    one_chunk_holds_all(parts);
    join_of_parts_is_not_empty(parts);
    assert(chunks_of(packed(parts)) =~= seq![join(parts, "\n\n"@)]);
}

} // verus!
