//! What changed between two versions of a program text.
//!
//! Both versions are compared line by line along a longest common subsequence
//! of their lines. The lines of the new version that are off the subsequence
//! are the changed ones; the edits turn the old version into the new one and
//! leave the common lines alone.
use vstd::prelude::*;

use crate::events::{CodeEdit, CodeEditModel};
use crate::text::{
    chars_of, concat, line_segments, line_segments_make_the_text, lines, same_text, slice_text,
    split_line_segments, split_lines, views,
};

verus! {

/// The length of a longest common subsequence of `a` from `i` on and `b` from
/// `j` on.
pub open spec fn common(a: Seq<Seq<char>>, b: Seq<Seq<char>>, i: int, j: int) -> nat
    decreases a.len() - i, b.len() - j,
{
    if i >= a.len() || j >= b.len() || i < 0 || j < 0 {
        0
    } else if a[i] == b[j] {
        common(a, b, i + 1, j + 1) + 1
    } else {
        let down = common(a, b, i + 1, j);
        let right = common(a, b, i, j + 1);
        if down >= right {
            down
        } else {
            right
        }
    }
}

/// Whether the pairs of positions name equal lines in rising order: a common
/// subsequence of `a` from `i` on and `b` from `j` on.
pub open spec fn is_common_subsequence(
    a: Seq<Seq<char>>,
    b: Seq<Seq<char>>,
    i: int,
    j: int,
    pairs: Seq<(int, int)>,
) -> bool {
    &&& forall|k: int|
        0 <= k < pairs.len() ==> {
            &&& i <= (#[trigger] pairs[k]).0 < a.len()
            &&& j <= pairs[k].1 < b.len()
            &&& a[pairs[k].0] == b[pairs[k].1]
        }
    &&& forall|k: int, l: int|
        0 <= k < l < pairs.len() ==> (#[trigger] pairs[k]).0 < (#[trigger] pairs[l]).0 && pairs[k].1
            < pairs[l].1
}

/// No common subsequence is longer than `common` says.
pub proof fn common_is_longest(
    a: Seq<Seq<char>>,
    b: Seq<Seq<char>>,
    i: int,
    j: int,
    pairs: Seq<(int, int)>,
)
    requires
        0 <= i,
        0 <= j,
        is_common_subsequence(a, b, i, j, pairs),
    ensures
        pairs.len() <= common(a, b, i, j),
    decreases a.len() - i, b.len() - j,
{
    if pairs.len() == 0 {
    } else {
        let first = pairs[0];
        if a[i] == b[j] {
            // Whatever the first pair is, the others lie behind both heads.
            let rest = pairs.drop_first();
            assert(is_common_subsequence(a, b, i + 1, j + 1, rest)) by {
                assert forall|k: int| 0 <= k < rest.len() implies {
                    &&& i + 1 <= (#[trigger] rest[k]).0 < a.len()
                    &&& j + 1 <= rest[k].1 < b.len()
                    &&& a[rest[k].0] == b[rest[k].1]
                } by {
                    assert(rest[k] == pairs[k + 1]);
                    assert(pairs[0].0 < pairs[k + 1].0 && pairs[0].1 < pairs[k + 1].1);
                }
                assert forall|k: int, l: int| 0 <= k < l < rest.len() implies (
                #[trigger] rest[k]).0 < (#[trigger] rest[l]).0 && rest[k].1 < rest[l].1 by {
                    assert(rest[k] == pairs[k + 1] && rest[l] == pairs[l + 1]);
                }
            }
            common_is_longest(a, b, i + 1, j + 1, rest);
        } else if first.0 > i {
            assert(is_common_subsequence(a, b, i + 1, j, pairs)) by {
                assert forall|k: int| 0 <= k < pairs.len() implies (#[trigger] pairs[k]).0 >= i
                    + 1 by {
                    if k > 0 {
                        assert(pairs[0].0 < pairs[k].0);
                    }
                }
            }
            common_is_longest(a, b, i + 1, j, pairs);
        } else {
            assert(first.1 > j);
            assert(is_common_subsequence(a, b, i, j + 1, pairs)) by {
                assert forall|k: int| 0 <= k < pairs.len() implies (#[trigger] pairs[k]).1 >= j
                    + 1 by {
                    if k > 0 {
                        assert(pairs[0].1 < pairs[k].1);
                    }
                }
            }
            common_is_longest(a, b, i, j + 1, pairs);
        }
    }
}

/// The pairs of equal lines met on the way from `(i, j)`: a line is skipped in
/// the version where that keeps the longer common rest, in the old one if both
/// do.
pub open spec fn matches_from(a: Seq<Seq<char>>, b: Seq<Seq<char>>, i: int, j: int) -> Seq<
    (int, int),
>
    decreases a.len() - i, b.len() - j,
{
    if i >= a.len() || j >= b.len() || i < 0 || j < 0 {
        Seq::empty()
    } else if a[i] == b[j] {
        seq![(i, j)] + matches_from(a, b, i + 1, j + 1)
    } else if common(a, b, i + 1, j) >= common(a, b, i, j + 1) {
        matches_from(a, b, i + 1, j)
    } else {
        matches_from(a, b, i, j + 1)
    }
}

/// The lines that are kept form a common subsequence of the greatest length.
pub proof fn matches_are_a_longest_common_subsequence(
    a: Seq<Seq<char>>,
    b: Seq<Seq<char>>,
    i: int,
    j: int,
)
    requires
        0 <= i,
        0 <= j,
    ensures
        is_common_subsequence(a, b, i, j, matches_from(a, b, i, j)),
        matches_from(a, b, i, j).len() == common(a, b, i, j),
    decreases a.len() - i, b.len() - j,
{
    if i >= a.len() || j >= b.len() {
    } else if a[i] == b[j] {
        matches_are_a_longest_common_subsequence(a, b, i + 1, j + 1);
        let rest = matches_from(a, b, i + 1, j + 1);
        let all = matches_from(a, b, i, j);
        assert forall|k: int| 0 <= k < all.len() implies {
            &&& i <= (#[trigger] all[k]).0 < a.len()
            &&& j <= all[k].1 < b.len()
            &&& a[all[k].0] == b[all[k].1]
        } by {
            if k > 0 {
                assert(all[k] == rest[k - 1]);
            }
        }
        assert forall|k: int, l: int| 0 <= k < l < all.len() implies (#[trigger] all[k]).0 < (
        #[trigger] all[l]).0 && all[k].1 < all[l].1 by {
            assert(all[l] == rest[l - 1]);
            if k > 0 {
                assert(all[k] == rest[k - 1]);
            }
        }
    } else if common(a, b, i + 1, j) >= common(a, b, i, j + 1) {
        matches_are_a_longest_common_subsequence(a, b, i + 1, j);
    } else {
        matches_are_a_longest_common_subsequence(a, b, i, j + 1);
    }
}

/// Whether the new line at `line` is one of the kept ones.
pub open spec fn is_kept(pairs: Seq<(int, int)>, line: int) -> bool {
    exists|k: int| 0 <= k < pairs.len() && (#[trigger] pairs[k]).1 == line
}

/// The numbers, from one, of the first `count` new lines that are not kept.
pub open spec fn not_kept(pairs: Seq<(int, int)>, count: nat) -> Seq<usize>
    decreases count,
{
    if count == 0 {
        Seq::empty()
    } else if is_kept(pairs, count - 1) {
        not_kept(pairs, (count - 1) as nat)
    } else {
        not_kept(pairs, (count - 1) as nat).push(count as usize)
    }
}

/// The numbers of the lines that changed: none where the lines are the same, else the
/// lines that are not kept, and the last line where something was only
/// removed.
pub open spec fn changed_lines(old_lines: Seq<Seq<char>>, new_lines: Seq<Seq<char>>) -> Seq<usize> {
    let off = not_kept(matches_from(old_lines, new_lines, 0, 0), new_lines.len());
    if old_lines == new_lines {
        Seq::empty()
    } else if off.len() == 0 && new_lines.len() > 0 {
        seq![new_lines.len() as usize]
    } else {
        off
    }
}

proof fn not_kept_rise(pairs: Seq<(int, int)>, count: nat)
    requires
        count <= usize::MAX,
    ensures
        forall|k: int|
            0 <= k < not_kept(pairs, count).len() ==> 1 <= #[trigger] not_kept(pairs, count)[k]
                <= count && !is_kept(pairs, not_kept(pairs, count)[k] - 1),
        forall|k: int, l: int|
            0 <= k < l < not_kept(pairs, count).len() ==> #[trigger] not_kept(pairs, count)[k]
                < #[trigger] not_kept(pairs, count)[l],
    decreases count,
{
    if count > 0 {
        let shorter = not_kept(pairs, (count - 1) as nat);
        let all = not_kept(pairs, count);
        not_kept_rise(pairs, (count - 1) as nat);
        assert forall|k: int| 0 <= k < all.len() implies 1 <= #[trigger] all[k] <= count
            && !is_kept(pairs, all[k] - 1) by {
            if k < shorter.len() {
                assert(all[k] == shorter[k]);
            }
        }
        assert forall|k: int, l: int| 0 <= k < l < all.len() implies #[trigger] all[k]
            < #[trigger] all[l] by {
            assert(all[k] == shorter[k]);
            if l < shorter.len() {
                assert(all[l] == shorter[l]);
            }
        }
    }
}

/// Lines are marked exactly where the new version has lines and differs, and
/// the marks are numbers of its lines in rising order.
pub proof fn changed_lines_mark_the_new_version(
    old_lines: Seq<Seq<char>>,
    new_lines: Seq<Seq<char>>,
)
    requires
        new_lines.len() <= usize::MAX,
    ensures
        changed_lines(old_lines, new_lines).len() > 0 <==> old_lines != new_lines && new_lines.len()
            > 0,
        forall|k: int|
            0 <= k < changed_lines(old_lines, new_lines).len() ==> 1 <= #[trigger] changed_lines(
                old_lines,
                new_lines,
            )[k] <= new_lines.len(),
        forall|k: int, l: int|
            0 <= k < l < changed_lines(old_lines, new_lines).len() ==> #[trigger] changed_lines(
                old_lines,
                new_lines,
            )[k] < #[trigger] changed_lines(old_lines, new_lines)[l],
{
    not_kept_rise(matches_from(old_lines, new_lines, 0, 0), new_lines.len());
}

/// The table of the lengths of the longest common rests. The entry for the
/// lines from `i` and from `j` on stands in row `a.len() - i` at
/// `b.len() - j`.
pub open spec fn is_common_table(
    table: Seq<Vec<usize>>,
    a: Seq<Seq<char>>,
    b: Seq<Seq<char>>,
) -> bool {
    &&& table.len() == a.len() + 1
    &&& forall|row: int| 0 <= row <= a.len() ==> is_common_row(#[trigger] table[row]@, a, b, row)
}

/// The row of the table for the last `row` lines of `a`.
pub open spec fn is_common_row(
    entries: Seq<usize>,
    a: Seq<Seq<char>>,
    b: Seq<Seq<char>>,
    row: int,
) -> bool {
    &&& entries.len() == b.len() + 1
    &&& forall|column: int|
        0 <= column <= b.len() ==> #[trigger] entries[column] == common(
            a,
            b,
            a.len() - row,
            b.len() - column,
        )
}

proof fn common_is_bounded(a: Seq<Seq<char>>, b: Seq<Seq<char>>, i: int, j: int)
    requires
        0 <= i <= a.len(),
        0 <= j <= b.len(),
    ensures
        common(a, b, i, j) <= a.len() - i,
    decreases a.len() - i, b.len() - j,
{
    if i < a.len() && j < b.len() {
        if a[i] == b[j] {
            common_is_bounded(a, b, i + 1, j + 1);
        } else {
            common_is_bounded(a, b, i + 1, j);
            common_is_bounded(a, b, i, j + 1);
        }
    }
}

fn common_table(a: &Vec<String>, b: &Vec<String>) -> (table: Vec<Vec<usize>>)
    ensures
        is_common_table(table@, views(a@), views(b@)),
{
    let ghost old_lines = views(a@);
    let ghost new_lines = views(b@);
    let rows: usize = a.len();
    let columns: usize = b.len();
    let mut table: Vec<Vec<usize>> = Vec::new();
    let mut first: Vec<usize> = Vec::new();
    first.push(0);
    let mut column: usize = 0;
    while column < columns
        invariant
            column <= columns == new_lines.len(),
            rows == old_lines.len(),
            first@.len() == column + 1,
            forall|k: int| 0 <= k <= column ==> #[trigger] first@[k] == 0,
        decreases columns - column,
    {
        first.push(0);
        column += 1;
    }
    assert(is_common_row(first@, old_lines, new_lines, 0));
    table.push(first);
    let mut row: usize = 0;
    while row < rows
        invariant
            row <= rows == a@.len() == old_lines.len(),
            columns == b@.len() == new_lines.len(),
            old_lines == views(a@),
            new_lines == views(b@),
            table@.len() == row + 1,
            forall|k: int|
                0 <= k <= row ==> is_common_row(#[trigger] table@[k]@, old_lines, new_lines, k),
        decreases rows - row,
    {
        let i: usize = rows - row - 1;
        let mut entries: Vec<usize> = Vec::new();
        entries.push(0);
        let mut column: usize = 0;
        while column < columns
            invariant
                column <= columns == b@.len() == new_lines.len(),
                row < rows == a@.len() == old_lines.len(),
                i == rows - row - 1,
                old_lines == views(a@),
                new_lines == views(b@),
                table@.len() == row + 1,
                is_common_row(table@[row as int]@, old_lines, new_lines, row as int),
                entries@.len() == column + 1,
                forall|k: int|
                    0 <= k <= column ==> #[trigger] entries@[k] == common(
                        old_lines,
                        new_lines,
                        i as int,
                        columns - k,
                    ),
            decreases columns - column,
        {
            let j: usize = columns - column - 1;
            let below: usize = table[row][column + 1];
            let diagonal: usize = table[row][column];
            let right: usize = entries[column];
            proof {
                common_is_bounded(old_lines, new_lines, i + 1, j + 1);
                assert(right == common(old_lines, new_lines, i as int, j + 1));
                assert(below == common(old_lines, new_lines, i + 1, j as int));
                assert(diagonal == common(old_lines, new_lines, i + 1, j + 1));
                assert(old_lines[i as int] == a@[i as int]@);
                assert(new_lines[j as int] == b@[j as int]@);
            }
            let entry: usize = if a[i] == b[j] {
                diagonal + 1
            } else if below >= right {
                below
            } else {
                right
            };
            entries.push(entry);
            column += 1;
        }
        assert(is_common_row(entries@, old_lines, new_lines, row + 1));
        table.push(entries);
        row += 1;
    }
    table
}

/// Whether the kept lines are those that are marked and those still ahead.
spec fn kept_or_ahead(marks: Seq<bool>, pairs: Seq<(int, int)>, ahead: Seq<(int, int)>) -> bool {
    forall|line: int|
        0 <= line < marks.len() ==> (is_kept(pairs, line) <==> (#[trigger] marks[line] || is_kept(
            ahead,
            line,
        )))
}

/// The numbers, from one, of the lines of `new_code` to mark as changed.
pub fn changed_line_numbers(old_code: &str, new_code: &str) -> (r: Vec<usize>)
    ensures
        r@ == changed_lines(lines(old_code@), lines(new_code@)),
{
    let old_lines = split_lines(old_code);
    let new_lines = split_lines(new_code);
    let ghost a = views(old_lines@);
    let ghost b = views(new_lines@);
    if same_lines(&old_lines, &new_lines) {
        let none: Vec<usize> = Vec::new();
        assert(none@ =~= Seq::<usize>::empty());
        return none;
    }
    let table = common_table(&old_lines, &new_lines);
    let mut kept: Vec<bool> = Vec::new();
    let mut at: usize = 0;
    while at < new_lines.len()
        invariant
            at <= new_lines@.len(),
            kept@.len() == at,
            forall|k: int| 0 <= k < at ==> !(#[trigger] kept@[k]),
        decreases new_lines@.len() - at,
    {
        kept.push(false);
        at += 1;
    }
    let ghost pairs = matches_from(a, b, 0, 0);
    proof {
        matches_are_a_longest_common_subsequence(a, b, 0, 0);
    }
    let mut i: usize = 0;
    let mut j: usize = 0;
    while i < old_lines.len() && j < new_lines.len()
        invariant
            a == views(old_lines@),
            b == views(new_lines@),
            i <= old_lines@.len(),
            j <= new_lines@.len(),
            is_common_table(table@, a, b),
            kept@.len() == new_lines@.len(),
            pairs == matches_from(a, b, 0, 0),
            kept_or_ahead(kept@, pairs, matches_from(a, b, i as int, j as int)),
        decreases old_lines@.len() - i + new_lines@.len() - j,
    {
        let ghost rest = matches_from(a, b, i as int, j as int);
        let ghost was = kept@;
        let old_rest: usize = old_lines.len() - i;
        let new_rest: usize = new_lines.len() - j;
        assert(a[i as int] == old_lines@[i as int]@ && b[j as int] == new_lines@[j as int]@);
        if old_lines[i] == new_lines[j] {
            kept.set(j, true);
            proof {
                let tail = matches_from(a, b, i + 1, j + 1);
                assert forall|line: int| 0 <= line < b.len() implies (is_kept(pairs, line) <==> (
                #[trigger] kept@[line] || is_kept(tail, line))) by {
                    assert(is_kept(pairs, line) <==> (was[line] || is_kept(rest, line)));
                    if is_kept(tail, line) {
                        let k = choose|k: int| 0 <= k < tail.len() && (#[trigger] tail[k]).1 == line;
                        assert(rest[k + 1] == tail[k]);
                    }
                    if is_kept(rest, line) && line != j {
                        let k = choose|k: int| 0 <= k < rest.len() && (#[trigger] rest[k]).1 == line;
                        assert(rest[0].1 == j);
                        assert(tail[k - 1] == rest[k]);
                    }
                    if line == j {
                        assert(rest[0].1 == line);
                    }
                }
                assert(kept_or_ahead(kept@, pairs, tail));
            }
            i += 1;
            j += 1;
        } else {
            let below: usize = table[old_rest - 1][new_rest];
            let right: usize = table[old_rest][new_rest - 1];
            assert(is_common_row(table@[old_rest - 1]@, a, b, old_rest - 1));
            assert(is_common_row(table@[old_rest as int]@, a, b, old_rest as int));
            assert(below == common(a, b, i + 1, j as int));
            assert(right == common(a, b, i as int, j + 1));
            if below >= right {
                assert(rest == matches_from(a, b, i + 1, j as int));
                i += 1;
            } else {
                assert(rest == matches_from(a, b, i as int, j + 1));
                j += 1;
            }
        }
    }
    let ghost ahead = matches_from(a, b, i as int, j as int);
    assert(ahead =~= Seq::empty());
    assert(forall|line: int| 0 <= line < b.len() ==> !is_kept(ahead, line));
    let mut changed: Vec<usize> = Vec::new();
    let mut line: usize = 0;
    assert(changed@ =~= not_kept(pairs, 0));
    while line < new_lines.len()
        invariant
            line <= new_lines@.len() == b.len() == kept@.len(),
            forall|l: int| 0 <= l < b.len() ==> (is_kept(pairs, l) <==> #[trigger] kept@[l]),
            changed@ == not_kept(pairs, line as nat),
        decreases new_lines@.len() - line,
    {
        assert(is_kept(pairs, line as int) <==> kept@[line as int]);
        if !kept[line] {
            changed.push(line + 1);
        }
        line += 1;
    }
    if changed.len() == 0 && new_lines.len() > 0 {
        changed.push(new_lines.len());
        assert(changed@ =~= seq![b.len() as usize]);
    }
    changed
}

fn same_lines(a: &Vec<String>, b: &Vec<String>) -> (r: bool)
    ensures
        r == (views(a@) == views(b@)),
{
    if a.len() != b.len() {
        assert(views(a@).len() != views(b@).len());
        return false;
    }
    let mut i: usize = 0;
    while i < a.len()
        invariant
            i <= a@.len() == b@.len(),
            forall|k: int| 0 <= k < i ==> #[trigger] a@[k]@ == b@[k]@,
        decreases a@.len() - i,
    {
        if a[i] != b[i] {
            assert(views(a@)[i as int] != views(b@)[i as int]);
            return false;
        }
        i += 1;
    }
    assert(views(a@) =~= views(b@));
    true
}

// ---------------------------------------------------------------------------
// Edits
// ---------------------------------------------------------------------------

/// The number of characters before line `i`.
pub open spec fn line_offset(segments: Seq<Seq<char>>, i: int) -> nat {
    concat(segments.take(i)).len()
}

/// Where the run of differing lines that begins at `(i, j)` ends: at the next
/// pair of equal lines, or at the end of both versions.
pub open spec fn run_end(a: Seq<Seq<char>>, b: Seq<Seq<char>>, i: int, j: int) -> (int, int)
    decreases a.len() - i, b.len() - j,
{
    if i < 0 || j < 0 || (i >= a.len() && j >= b.len()) || (i < a.len() && j < b.len() && a[i]
        == b[j]) {
        (i, j)
    } else if i < a.len() && (j >= b.len() || common(a, b, i + 1, j) >= common(a, b, i, j + 1)) {
        run_end(a, b, i + 1, j)
    } else {
        run_end(a, b, i, j + 1)
    }
}

/// The edits from `(i, j)` on: one for each run of differing lines.
pub open spec fn edits_from(a: Seq<Seq<char>>, b: Seq<Seq<char>>, i: int, j: int) -> Seq<
    CodeEditModel,
>
    decreases a.len() - i + b.len() - j,
{
    if i < 0 || j < 0 || i > a.len() || j > b.len() || (i == a.len() && j == b.len()) {
        Seq::empty()
    } else if i < a.len() && j < b.len() && a[i] == b[j] {
        edits_from(a, b, i + 1, j + 1)
    } else {
        let end = run_end(a, b, i, j);
        proof {
            run_goes_on(a, b, i, j);
        }
        seq![
            CodeEditModel {
                start_offset: line_offset(a, i) as usize,
                end_offset: line_offset(a, end.0) as usize,
                replacement: concat(b.subrange(j, end.1)),
            },
        ] + edits_from(a, b, end.0, end.1)
    }
}

/// A run of differing lines ends inside both versions and is not empty.
pub proof fn run_goes_on(a: Seq<Seq<char>>, b: Seq<Seq<char>>, i: int, j: int)
    requires
        0 <= i <= a.len(),
        0 <= j <= b.len(),
    ensures
        i <= run_end(a, b, i, j).0 <= a.len(),
        j <= run_end(a, b, i, j).1 <= b.len(),
        !((i == a.len() && j == b.len()) || (i < a.len() && j < b.len() && a[i] == b[j]))
            ==> run_end(a, b, i, j).0 + run_end(a, b, i, j).1 > i + j,
    decreases a.len() - i, b.len() - j,
{
    if (i >= a.len() && j >= b.len()) || (i < a.len() && j < b.len() && a[i] == b[j]) {
    } else if i < a.len() && (j >= b.len() || common(a, b, i + 1, j) >= common(a, b, i, j + 1)) {
        run_goes_on(a, b, i + 1, j);
    } else {
        run_goes_on(a, b, i, j + 1);
    }
}

/// The edits that turn one version into the other.
pub open spec fn edits_between(old_code: Seq<char>, new_code: Seq<char>) -> Seq<CodeEditModel> {
    edits_from(line_segments(old_code), line_segments(new_code), 0, 0)
}

/// `code` with the characters that `edit` names replaced.
pub open spec fn edited(code: Seq<char>, edit: CodeEditModel) -> Seq<char> {
    code.take(edit.start_offset as int) + edit.replacement + code.skip(edit.end_offset as int)
}

/// `code` after all the edits. The last one is made first, so that no edit
/// moves what an earlier one names.
pub open spec fn all_edited(code: Seq<char>, edits: Seq<CodeEditModel>) -> Seq<char>
    decreases edits.len(),
{
    if edits.len() == 0 {
        code
    } else {
        all_edited(edited(code, edits.last()), edits.drop_last())
    }
}

/// The values of the edits.
pub open spec fn edit_models(edits: Seq<CodeEdit>) -> Seq<CodeEditModel> {
    Seq::new(edits.len(), |i: int| edits[i]@)
}

proof fn concat_of_sum(x: Seq<Seq<char>>, y: Seq<Seq<char>>)
    ensures
        concat(x + y) == concat(x) + concat(y),
    decreases y.len(),
{
    if y.len() == 0 {
        assert(x + y =~= x);
        assert(concat(x + y) =~= concat(x) + concat(y));
    } else {
        concat_of_sum(x, y.drop_last());
        assert((x + y).drop_last() =~= x + y.drop_last());
        assert(concat(x + y) =~= concat(x) + concat(y));
    }
}

proof fn first_edit_comes_last(code: Seq<char>, first: CodeEditModel, rest: Seq<CodeEditModel>)
    ensures
        all_edited(code, seq![first] + rest) == edited(all_edited(code, rest), first),
    decreases rest.len(),
{
    let all = seq![first] + rest;
    if rest.len() == 0 {
        assert(all =~= seq![first]);
        assert(all.drop_last() =~= Seq::empty());
        assert(all_edited(edited(code, first), Seq::empty()) == edited(code, first));
    } else {
        assert(all.drop_last() =~= seq![first] + rest.drop_last());
        assert(all.last() == rest.last());
        first_edit_comes_last(edited(code, rest.last()), first, rest.drop_last());
    }
}

proof fn offsets_rise(a: Seq<Seq<char>>, i: int, j: int)
    requires
        0 <= i <= j <= a.len(),
    ensures
        line_offset(a, i) <= line_offset(a, j) <= concat(a).len(),
        concat(a).take(line_offset(a, i) as int) == concat(a.take(i)),
{
    assert(a.take(j) =~= a.take(i) + a.subrange(i, j));
    concat_of_sum(a.take(i), a.subrange(i, j));
    assert(a =~= a.take(j) + a.skip(j));
    concat_of_sum(a.take(j), a.skip(j));
    assert(concat(a).take(line_offset(a, i) as int) =~= concat(a.take(i)));
}

proof fn edits_rebuild(a: Seq<Seq<char>>, b: Seq<Seq<char>>, i: int, j: int)
    requires
        0 <= i <= a.len(),
        0 <= j <= b.len(),
        concat(a).len() <= usize::MAX,
    ensures
        all_edited(concat(a), edits_from(a, b, i, j)) == concat(a.take(i)) + concat(b.skip(j)),
    decreases a.len() - i + b.len() - j,
{
    if i == a.len() && j == b.len() {
        assert(a.take(i) =~= a);
        assert(b.skip(j) =~= Seq::empty());
        assert(concat(a.take(i)) + concat(b.skip(j)) =~= concat(a));
    } else if i < a.len() && j < b.len() && a[i] == b[j] {
        edits_rebuild(a, b, i + 1, j + 1);
        assert(a.take(i + 1).drop_last() =~= a.take(i));
        assert(b.skip(j) =~= seq![b[j]] + b.skip(j + 1));
        concat_of_sum(seq![b[j]], b.skip(j + 1));
        assert(seq![b[j]].drop_last() =~= Seq::empty());
        assert(concat(seq![b[j]].drop_last()) =~= Seq::empty());
        assert(seq![b[j]].last() == b[j]);
        assert(concat(seq![b[j]]) =~= b[j]);
        assert(concat(a.take(i + 1)) + concat(b.skip(j + 1)) =~= concat(a.take(i)) + concat(
            b.skip(j),
        ));
    } else {
        run_goes_on(a, b, i, j);
        let end = run_end(a, b, i, j);
        edits_rebuild(a, b, end.0, end.1);
        offsets_rise(a, i, end.0);
        offsets_rise(a, end.0, end.0);
        let rest = edits_from(a, b, end.0, end.1);
        let edit = CodeEditModel {
            start_offset: line_offset(a, i) as usize,
            end_offset: line_offset(a, end.0) as usize,
            replacement: concat(b.subrange(j, end.1)),
        };
        assert(edits_from(a, b, i, j) == seq![edit] + rest);
        first_edit_comes_last(concat(a), edit, rest);
        assert(a.take(end.0) =~= a.take(i) + a.subrange(i, end.0));
        concat_of_sum(a.take(i), a.subrange(i, end.0));
        assert(b.skip(j) =~= b.subrange(j, end.1) + b.skip(end.1));
        concat_of_sum(b.subrange(j, end.1), b.skip(end.1));
        let half = concat(a.take(end.0)) + concat(b.skip(end.1));
        assert(half.take(edit.start_offset as int) =~= concat(a.take(i)));
        assert(half.skip(edit.end_offset as int) =~= concat(b.skip(end.1)));
        assert(edited(half, edit) =~= concat(a.take(i)) + concat(b.skip(j)));
    }
}

/// The edits between two versions, made on the old one, give the new one.
pub proof fn edits_turn_old_into_new(old_code: Seq<char>, new_code: Seq<char>)
    requires
        old_code.len() <= usize::MAX,
    ensures
        all_edited(old_code, edits_between(old_code, new_code)) == new_code,
{
    let a = line_segments(old_code);
    let b = line_segments(new_code);
    line_segments_make_the_text(old_code);
    line_segments_make_the_text(new_code);
    edits_rebuild(a, b, 0, 0);
    assert(a.take(0) =~= Seq::empty());
    assert(b.skip(0) =~= b);
    assert(concat(a.take(0)) + concat(b.skip(0)) =~= new_code);
}

proof fn same_lines_need_no_edit(a: Seq<Seq<char>>, i: int)
    requires
        0 <= i <= a.len(),
    ensures
        edits_from(a, a, i, i) == Seq::<CodeEditModel>::empty(),
    decreases a.len() - i,
{
    if i < a.len() {
        same_lines_need_no_edit(a, i + 1);
    }
}

/// There is nothing to edit exactly where the versions are the same.
pub proof fn no_edits_between_equal_versions(old_code: Seq<char>, new_code: Seq<char>)
    requires
        old_code.len() <= usize::MAX,
    ensures
        edits_between(old_code, new_code).len() == 0 <==> old_code == new_code,
{
    edits_turn_old_into_new(old_code, new_code);
    same_lines_need_no_edit(line_segments(old_code), 0);
}

proof fn edits_are_in_order_from(a: Seq<Seq<char>>, b: Seq<Seq<char>>, i: int, j: int)
    requires
        0 <= i <= a.len(),
        0 <= j <= b.len(),
        concat(a).len() <= usize::MAX,
    ensures
        edits_in_order(edits_from(a, b, i, j), line_offset(a, i) as int, concat(a).len() as int),
    decreases a.len() - i + b.len() - j,
{
    if i == a.len() && j == b.len() {
    } else if i < a.len() && j < b.len() && a[i] == b[j] {
        edits_are_in_order_from(a, b, i + 1, j + 1);
        offsets_rise(a, i, i + 1);
    } else {
        run_goes_on(a, b, i, j);
        let end = run_end(a, b, i, j);
        edits_are_in_order_from(a, b, end.0, end.1);
        offsets_rise(a, i, end.0);
        let rest = edits_from(a, b, end.0, end.1);
        let all = edits_from(a, b, i, j);
        assert forall|k: int| 0 <= k < all.len() implies line_offset(a, i) <= (
        #[trigger] all[k]).start_offset <= all[k].end_offset <= concat(a).len() by {
            if k > 0 {
                assert(all[k] == rest[k - 1]);
            }
        }
        assert forall|k: int, l: int| 0 <= k < l < all.len() implies (
        #[trigger] all[k]).end_offset <= (#[trigger] all[l]).start_offset by {
            assert(all[l] == rest[l - 1]);
            if k > 0 {
                assert(all[k] == rest[k - 1]);
            }
        }
    }
}

/// Whether the edits follow one another without overlap between two offsets.
pub open spec fn edits_in_order(edits: Seq<CodeEditModel>, low: int, high: int) -> bool {
    &&& forall|k: int|
        0 <= k < edits.len() ==> low <= (#[trigger] edits[k]).start_offset <= edits[k].end_offset
            <= high
    &&& forall|k: int, l: int|
        0 <= k < l < edits.len() ==> (#[trigger] edits[k]).end_offset <= (
        #[trigger] edits[l]).start_offset
}

/// The edits between two versions lie inside the old one, in order and
/// without overlap.
pub proof fn edits_between_are_in_order(old_code: Seq<char>, new_code: Seq<char>)
    requires
        old_code.len() <= usize::MAX,
    ensures
        edits_in_order(edits_between(old_code, new_code), 0, old_code.len() as int),
{
    line_segments_make_the_text(old_code);
    edits_are_in_order_from(line_segments(old_code), line_segments(new_code), 0, 0);
}

/// The number of characters before each line, and before the end.
fn line_offsets(segments: &Vec<String>) -> (r: Vec<usize>)
    requires
        concat(views(segments@)).len() <= usize::MAX,
    ensures
        r@.len() == segments@.len() + 1,
        forall|i: int|
            0 <= i <= segments@.len() ==> #[trigger] r@[i] == line_offset(views(segments@), i),
{
    let ghost all = views(segments@);
    let mut offsets: Vec<usize> = Vec::new();
    let mut offset: usize = 0;
    assert(all.take(0) =~= Seq::empty());
    offsets.push(0);
    let mut i: usize = 0;
    while i < segments.len()
        invariant
            all == views(segments@),
            concat(all).len() <= usize::MAX,
            i <= segments@.len(),
            offset == line_offset(all, i as int),
            offsets@.len() == i + 1,
            forall|k: int| 0 <= k <= i ==> #[trigger] offsets@[k] == line_offset(all, k),
        decreases segments@.len() - i,
    {
        let chars = chars_of(segments[i].as_str());
        proof {
            offsets_rise(all, i + 1, i + 1);
            assert(all.take(i + 1).drop_last() =~= all.take(i as int));
            assert(all.take(i + 1).last() == chars@);
        }
        offset += chars.len();
        offsets.push(offset);
        i += 1;
    }
    offsets
}

fn concat_range(parts: &Vec<String>, start: usize, end: usize) -> (r: String)
    requires
        start <= end <= parts@.len(),
    ensures
        r@ == concat(views(parts@).subrange(start as int, end as int)),
{
    let ghost all = views(parts@);
    let mut out = String::new();
    let mut i: usize = start;
    assert(all.subrange(start as int, start as int) =~= Seq::empty());
    while i < end
        invariant
            all == views(parts@),
            start <= i <= end <= parts@.len(),
            out@ == concat(all.subrange(start as int, i as int)),
        decreases end - i,
    {
        proof {
            let longer = all.subrange(start as int, i + 1);
            assert(longer.drop_last() =~= all.subrange(start as int, i as int));
            assert(longer.last() == parts@[i as int]@);
        }
        out.append(parts[i].as_str());
        i += 1;
    }
    out
}

/// The edits that turn `old_code` into `new_code`, in the order of the text.
pub fn code_edits(old_code: &str, new_code: &str) -> (r: Vec<CodeEdit>)
    ensures
        edit_models(r@) == edits_between(old_code@, new_code@),
        all_edited(old_code@, edit_models(r@)) == new_code@,
{
    let old_length: usize = chars_of(old_code).len();
    proof {
        edits_turn_old_into_new(old_code@, new_code@);
        line_segments_make_the_text(old_code@);
    }
    let mut edits: Vec<CodeEdit> = Vec::new();
    if same_text(old_code, new_code) {
        proof {
            no_edits_between_equal_versions(old_code@, new_code@);
            assert(edit_models(edits@) =~= edits_between(old_code@, new_code@));
        }
        return edits;
    }
    let old_lines = split_line_segments(old_code);
    let new_lines = split_line_segments(new_code);
    let ghost a = views(old_lines@);
    let ghost b = views(new_lines@);
    let table = common_table(&old_lines, &new_lines);
    let offsets = line_offsets(&old_lines);
    let mut i: usize = 0;
    let mut j: usize = 0;
    assert(edit_models(edits@) + edits_from(a, b, 0, 0) =~= edits_from(a, b, 0, 0));
    while i < old_lines.len() || j < new_lines.len()
        invariant
            a == views(old_lines@),
            b == views(new_lines@),
            i <= old_lines@.len(),
            j <= new_lines@.len(),
            is_common_table(table@, a, b),
            offsets@.len() == a.len() + 1,
            forall|k: int| 0 <= k <= a.len() ==> #[trigger] offsets@[k] == line_offset(a, k),
            edit_models(edits@) + edits_from(a, b, i as int, j as int) == edits_from(a, b, 0, 0),
        decreases old_lines@.len() - i + new_lines@.len() - j,
    {
        if i < old_lines.len() && j < new_lines.len() && old_lines[i] == new_lines[j] {
            assert(a[i as int] == b[j as int]);
            i += 1;
            j += 1;
        } else {
            let start_old: usize = i;
            let start_new: usize = j;
            proof {
                if i < a.len() && j < b.len() {
                    assert(a[i as int] == old_lines@[i as int]@);
                    assert(b[j as int] == new_lines@[j as int]@);
                }
            }
            let (end_old, end_new) = find_run_end(&old_lines, &new_lines, &table, i, j);
            i = end_old;
            j = end_new;
            proof {
                run_goes_on(a, b, start_old as int, start_new as int);
            }
            let ghost before = edit_models(edits@);
            let edit = CodeEdit {
                start_offset: offsets[start_old],
                end_offset: offsets[i],
                replacement: concat_range(&new_lines, start_new, j),
            };
            let ghost model = edit@;
            edits.push(edit);
            assert(edit_models(edits@) =~= before.push(model));
            assert(before + (seq![model] + edits_from(a, b, i as int, j as int)) =~= before.push(
                model,
            ) + edits_from(a, b, i as int, j as int));
        }
    }
    assert(edit_models(edits@) + Seq::empty() =~= edit_models(edits@));
    edits
}

fn find_run_end(
    old_lines: &Vec<String>,
    new_lines: &Vec<String>,
    table: &Vec<Vec<usize>>,
    start_old: usize,
    start_new: usize,
) -> (r: (usize, usize))
    requires
        start_old <= old_lines@.len(),
        start_new <= new_lines@.len(),
        is_common_table(table@, views(old_lines@), views(new_lines@)),
    ensures
        (r.0 as int, r.1 as int) == run_end(
            views(old_lines@),
            views(new_lines@),
            start_old as int,
            start_new as int,
        ),
        start_old <= r.0 <= old_lines@.len(),
        start_new <= r.1 <= new_lines@.len(),
{
    let ghost a = views(old_lines@);
    let ghost b = views(new_lines@);
    let mut i: usize = start_old;
    let mut j: usize = start_new;
    while i < old_lines.len() || j < new_lines.len()
        invariant
            a == views(old_lines@),
            b == views(new_lines@),
            start_old <= i <= old_lines@.len(),
            start_new <= j <= new_lines@.len(),
            is_common_table(table@, a, b),
            run_end(a, b, i as int, j as int) == run_end(a, b, start_old as int, start_new as int),
        decreases old_lines@.len() - i + new_lines@.len() - j,
    {
        let old_rest: usize = old_lines.len() - i;
        let new_rest: usize = new_lines.len() - j;
        if i < old_lines.len() && j < new_lines.len() && old_lines[i] == new_lines[j] {
            assert(a[i as int] == b[j as int]);
            return (i, j);
        }
        proof {
            if i < a.len() && j < b.len() {
                assert(a[i as int] == old_lines@[i as int]@);
                assert(b[j as int] == new_lines@[j as int]@);
                assert(is_common_row(table@[old_rest - 1]@, a, b, old_rest - 1));
                assert(is_common_row(table@[old_rest as int]@, a, b, old_rest as int));
                assert(table@[old_rest - 1]@[new_rest as int] == common(a, b, i + 1, j as int));
                assert(table@[old_rest as int]@[new_rest - 1] == common(a, b, i as int, j + 1));
            }
        }
        if i < old_lines.len() && (j == new_lines.len() || table[old_rest - 1][new_rest]
            >= table[old_rest][new_rest - 1]) {
            i += 1;
        } else {
            j += 1;
        }
    }
    (i, j)
}

/// The code after all the edits, the last one made first.
pub fn apply_code_edits(code: &str, edits: &Vec<CodeEdit>) -> (r: String)
    requires
        edits_in_order(edit_models(edits@), 0, code@.len() as int),
    ensures
        r@ == all_edited(code@, edit_models(edits@)),
{
    let ghost all = edit_models(edits@);
    let mut current = code.to_owned();
    let mut left: usize = edits.len();
    assert(all.take(left as int) =~= all);
    while left > 0
        invariant
            all == edit_models(edits@),
            left <= edits@.len(),
            edits_in_order(all, 0, code@.len() as int),
            forall|k: int| 0 <= k < left ==> (#[trigger] all[k]).end_offset <= current@.len(),
            all_edited(current@, all.take(left as int)) == all_edited(code@, all),
        decreases left,
    {
        left -= 1;
        let edit = &edits[left];
        let chars = chars_of(current.as_str());
        assert(all[left as int] == edit@);
        let mut next = slice_text(&chars, 0, edit.start_offset);
        next.append(edit.replacement.as_str());
        let rest = slice_text(&chars, edit.end_offset, chars.len());
        next.append(rest.as_str());
        proof {
            assert(chars@.subrange(0, edit.start_offset as int) =~= chars@.take(
                edit.start_offset as int,
            ));
            assert(chars@.subrange(edit.end_offset as int, chars@.len() as int) =~= chars@.skip(
                edit.end_offset as int,
            ));
            assert(next@ =~= edited(current@, edit@));
            assert(all.take(left + 1).drop_last() =~= all.take(left as int));
            assert(all.take(left + 1).last() == edit@);
            assert forall|k: int| 0 <= k < left implies (#[trigger] all[k]).end_offset
                <= next@.len() by {
                assert(all[k].end_offset <= all[left as int].start_offset);
            }
        }
        current = next;
    }
    assert(all.take(0) =~= Seq::empty());
    current
}

// ---------------------------------------------------------------------------
// What the marks and the edits leave alone
// ---------------------------------------------------------------------------

proof fn not_kept_are_all(pairs: Seq<(int, int)>, count: nat, number: usize)
    requires
        count <= usize::MAX,
    ensures
        not_kept(pairs, count).contains(number) <==> 1 <= number <= count && !is_kept(
            pairs,
            number - 1,
        ),
    decreases count,
{
    if count > 0 {
        let shorter = not_kept(pairs, (count - 1) as nat);
        let all = not_kept(pairs, count);
        not_kept_are_all(pairs, (count - 1) as nat, number);
        if shorter.contains(number) {
            let k = choose|k: int| 0 <= k < shorter.len() && shorter[k] == number;
            assert(all[k] == number);
        }
        if all.contains(number) && !shorter.contains(number) {
            let k = choose|k: int| 0 <= k < all.len() && all[k] == number;
            if k < shorter.len() {
                assert(shorter[k] == number);
            }
        }
        if number == count && !is_kept(pairs, count - 1) {
            assert(all[all.len() - 1] == number);
        }
    }
}

/// The lines that are not marked are lines of the old version in the same
/// order, and no longer list of such lines can be found: every line that is off
/// this list is marked, and none that is on it. Where all lines of the new
/// version are on it, the last one is marked alone.
pub proof fn marks_are_off_a_longest_common_subsequence(
    old_lines: Seq<Seq<char>>,
    new_lines: Seq<Seq<char>>,
    other: Seq<(int, int)>,
)
    requires
        old_lines != new_lines,
        new_lines.len() <= usize::MAX,
        forall|k: int|
            0 <= k < other.len() ==> {
                &&& 0 <= (#[trigger] other[k]).0 < old_lines.len()
                &&& 0 <= other[k].1 < new_lines.len()
                &&& old_lines[other[k].0] == new_lines[other[k].1]
            },
        forall|k: int, l: int|
            0 <= k < l < other.len() ==> (#[trigger] other[k]).0 < (#[trigger] other[l]).0
                && other[k].1 < other[l].1,
    ensures
        exists|pairs: Seq<(int, int)>|
            {
                let marks = changed_lines(old_lines, new_lines);
                let on = |line: int| exists|k: int|
                    0 <= k < pairs.len() && (#[trigger] pairs[k]).1 == line;
                &&& #[trigger] is_common_subsequence(old_lines, new_lines, 0, 0, pairs)
                &&& other.len() <= pairs.len()
                &&& (exists|line: int| 0 <= line < new_lines.len() && !#[trigger] on(line))
                    ==> forall|line: int|
                    0 <= line < new_lines.len() ==> (#[trigger] on(line) <==> !marks.contains(
                        (line + 1) as usize,
                    ))
                &&& (forall|line: int| 0 <= line < new_lines.len() ==> #[trigger] on(line))
                    && new_lines.len() > 0 ==> marks == seq![new_lines.len() as usize]
            },
{
    let pairs = matches_from(old_lines, new_lines, 0, 0);
    let marks = changed_lines(old_lines, new_lines);
    let off = not_kept(pairs, new_lines.len());
    let on = |line: int| exists|k: int| 0 <= k < pairs.len() && (#[trigger] pairs[k]).1 == line;
    matches_are_a_longest_common_subsequence(old_lines, new_lines, 0, 0);
    assert(is_common_subsequence(old_lines, new_lines, 0, 0, other));
    common_is_longest(old_lines, new_lines, 0, 0, other);
    assert forall|line: int| 0 <= line < new_lines.len() implies (#[trigger] on(line)
        <==> !off.contains((line + 1) as usize)) by {
        not_kept_are_all(pairs, new_lines.len(), (line + 1) as usize);
        assert(on(line) <==> is_kept(pairs, line));
    }
    if exists|line: int| 0 <= line < new_lines.len() && !#[trigger] on(line) {
        let line = choose|line: int| 0 <= line < new_lines.len() && !#[trigger] on(line);
        assert(off.contains((line + 1) as usize));
        assert(marks == off);
    } else if new_lines.len() > 0 {
        if off.len() > 0 {
            let number = off[0];
            assert(off.contains(number));
            not_kept_are_all(pairs, new_lines.len(), number);
            assert(on(number - 1));
        }
    }
}

/// Of the longest lists of lines that both versions have in the same order, the
/// one whose lines stand earliest in the new version is kept.
pub proof fn the_earliest_new_lines_are_kept(
    a: Seq<Seq<char>>,
    b: Seq<Seq<char>>,
    i: int,
    j: int,
    other: Seq<(int, int)>,
)
    requires
        0 <= i,
        0 <= j,
        is_common_subsequence(a, b, i, j, other),
        other.len() == matches_from(a, b, i, j).len(),
    ensures
        forall|k: int|
            0 <= k < other.len() ==> (#[trigger] matches_from(a, b, i, j)[k]).1 <= other[k].1,
    decreases a.len() - i, b.len() - j,
{
    let all = matches_from(a, b, i, j);
    matches_are_a_longest_common_subsequence(a, b, i, j);
    if i >= a.len() || j >= b.len() || other.len() == 0 {
        assert(other.len() == 0);
    } else if a[i] == b[j] {
        let rest = other.drop_first();
        assert(is_common_subsequence(a, b, i + 1, j + 1, rest)) by {
            assert forall|k: int| 0 <= k < rest.len() implies {
                &&& i + 1 <= (#[trigger] rest[k]).0 < a.len()
                &&& j + 1 <= rest[k].1 < b.len()
                &&& a[rest[k].0] == b[rest[k].1]
            } by {
                assert(rest[k] == other[k + 1]);
                assert(other[0].0 < other[k + 1].0 && other[0].1 < other[k + 1].1);
            }
            assert forall|k: int, l: int| 0 <= k < l < rest.len() implies (#[trigger] rest[k]).0 < (
            #[trigger] rest[l]).0 && rest[k].1 < rest[l].1 by {
                assert(rest[k] == other[k + 1] && rest[l] == other[l + 1]);
            }
        }
        the_earliest_new_lines_are_kept(a, b, i + 1, j + 1, rest);
        let tail = matches_from(a, b, i + 1, j + 1);
        assert forall|k: int| 0 <= k < other.len() implies (#[trigger] all[k]).1 <= other[k].1 by {
            if k > 0 {
                assert(all[k] == tail[k - 1]);
                assert(rest[k - 1] == other[k]);
                assert(tail[k - 1].1 <= rest[k - 1].1);
            } else {
                assert(all[0] == (i, j));
            }
        }
    } else if common(a, b, i + 1, j) >= common(a, b, i, j + 1) {
        matches_are_a_longest_common_subsequence(a, b, i + 1, j);
        if other[0].0 > i {
            assert(is_common_subsequence(a, b, i + 1, j, other)) by {
                assert forall|k: int| 0 <= k < other.len() implies (#[trigger] other[k]).0 >= i
                    + 1 by {
                    if k > 0 {
                        assert(other[0].0 < other[k].0);
                    }
                }
            }
            the_earliest_new_lines_are_kept(a, b, i + 1, j, other);
            assert(all == matches_from(a, b, i + 1, j));
            assert forall|k: int| 0 <= k < other.len() implies (#[trigger] all[k]).1
                <= other[k].1 by {
                assert(matches_from(a, b, i + 1, j)[k].1 <= other[k].1);
            }
        } else {
            assert forall|k: int| 0 <= k < other.len() implies (#[trigger] all[k]).1
                <= other[k].1 by {
                first_overtaking_is_impossible(a, b, i, j, other, k);
            }
        }
    } else {
        if other[0].1 == j {
            assert(is_common_subsequence(a, b, i + 1, j, other)) by {
                assert forall|k: int| 0 <= k < other.len() implies (#[trigger] other[k]).0 >= i
                    + 1 by {
                    assert(a[other[0].0] == b[other[0].1]);
                    if k > 0 {
                        assert(other[0].0 < other[k].0);
                    }
                }
            }
            common_is_longest(a, b, i + 1, j, other);
        } else {
            assert(is_common_subsequence(a, b, i, j + 1, other)) by {
                assert forall|k: int| 0 <= k < other.len() implies (#[trigger] other[k]).1 >= j
                    + 1 by {
                    if k > 0 {
                        assert(other[0].1 < other[k].1);
                    }
                }
            }
            the_earliest_new_lines_are_kept(a, b, i, j + 1, other);
            assert(all == matches_from(a, b, i, j + 1));
            assert forall|k: int| 0 <= k < other.len() implies (#[trigger] all[k]).1
                <= other[k].1 by {
                assert(matches_from(a, b, i, j + 1)[k].1 <= other[k].1);
            }
        }
    }
}

/// Where a line of the old version is skipped although another list uses it,
/// that list does not get ahead in the new version at any place.
proof fn first_overtaking_is_impossible(
    a: Seq<Seq<char>>,
    b: Seq<Seq<char>>,
    i: int,
    j: int,
    other: Seq<(int, int)>,
    k: int,
)
    requires
        0 <= i < a.len(),
        0 <= j < b.len(),
        a[i] != b[j],
        common(a, b, i + 1, j) >= common(a, b, i, j + 1),
        is_common_subsequence(a, b, i, j, other),
        other.len() == matches_from(a, b, i, j).len(),
        other.len() > 0,
        other[0].0 == i,
        0 <= k < other.len(),
    ensures
        matches_from(a, b, i, j)[k].1 <= other[k].1,
    decreases a.len() - i, b.len() - j, k + 1,
{
    let all = matches_from(a, b, i + 1, j);
    matches_are_a_longest_common_subsequence(a, b, i + 1, j);
    matches_are_a_longest_common_subsequence(a, b, i, j);
    if all[k].1 > other[k].1 {
        if other[k].0 < all[k].0 {
            let longer = other.take(k + 1) + all.skip(k);
            assert(is_common_subsequence(a, b, i, j, longer)) by {
                spliced_lists_are_common(a, b, i, j, other, all, k + 1, k);
            }
            common_is_longest(a, b, i, j, longer);
            assert(longer.len() == all.len() + 1);
        } else {
            assert(k > 0);
            first_overtaking_is_impossible(a, b, i, j, other, k - 1);
            assert(all[k - 1].0 < all[k].0);
            assert(other[k - 1].1 < other[k].1);
            let mixed = all.take(k) + other.skip(k);
            assert(is_common_subsequence(a, b, i, j, mixed)) by {
                spliced_lists_are_common(a, b, i, j, all, other, k, k);
            }
            assert(is_common_subsequence(a, b, i + 1, j, mixed)) by {
                assert forall|l: int| 0 <= l < mixed.len() implies (#[trigger] mixed[l]).0 >= i
                    + 1 by {
                    assert(mixed[0] == all[0]);
                    if l > 0 {
                        assert(mixed[0].0 < mixed[l].0);
                    }
                }
            }
            the_earliest_new_lines_are_kept(a, b, i + 1, j, mixed);
            assert(mixed[k] == other[k]);
            assert(all[k].1 <= mixed[k].1);
        }
    }
}

/// The beginning of one list and the end of another are a list of common lines
/// where the second goes on behind the first.
proof fn spliced_lists_are_common(
    a: Seq<Seq<char>>,
    b: Seq<Seq<char>>,
    i: int,
    j: int,
    first: Seq<(int, int)>,
    second: Seq<(int, int)>,
    head: int,
    tail: int,
)
    requires
        0 < head <= first.len(),
        0 <= tail < second.len(),
        forall|k: int|
            0 <= k < first.len() ==> {
                &&& i <= (#[trigger] first[k]).0 < a.len()
                &&& j <= first[k].1 < b.len()
                &&& a[first[k].0] == b[first[k].1]
            },
        forall|k: int|
            0 <= k < second.len() ==> {
                &&& i <= (#[trigger] second[k]).0 < a.len()
                &&& j <= second[k].1 < b.len()
                &&& a[second[k].0] == b[second[k].1]
            },
        forall|k: int, l: int|
            0 <= k < l < first.len() ==> (#[trigger] first[k]).0 < (#[trigger] first[l]).0
                && first[k].1 < first[l].1,
        forall|k: int, l: int|
            0 <= k < l < second.len() ==> (#[trigger] second[k]).0 < (#[trigger] second[l]).0
                && second[k].1 < second[l].1,
        first[head - 1].0 < second[tail].0,
        first[head - 1].1 < second[tail].1,
    ensures
        is_common_subsequence(a, b, i, j, first.take(head) + second.skip(tail)),
{
    let mixed = first.take(head) + second.skip(tail);
    assert forall|k: int| 0 <= k < mixed.len() implies {
        &&& i <= (#[trigger] mixed[k]).0 < a.len()
        &&& j <= mixed[k].1 < b.len()
        &&& a[mixed[k].0] == b[mixed[k].1]
    } by {
        if k < head {
            assert(mixed[k] == first[k]);
        } else {
            assert(mixed[k] == second[k - head + tail]);
        }
    }
    assert forall|k: int, l: int| 0 <= k < l < mixed.len() implies (#[trigger] mixed[k]).0 < (
    #[trigger] mixed[l]).0 && mixed[k].1 < mixed[l].1 by {
        if l < head {
            assert(mixed[k] == first[k] && mixed[l] == first[l]);
        } else if k >= head {
            assert(mixed[k] == second[k - head + tail] && mixed[l] == second[l - head + tail]);
        } else {
            assert(mixed[k] == first[k] && mixed[l] == second[l - head + tail]);
            if k < head - 1 {
                assert(first[k].0 < first[head - 1].0 && first[k].1 < first[head - 1].1);
            }
            if l > head {
                assert(second[tail].0 < second[l - head + tail].0 && second[tail].1 < second[l
                    - head + tail].1);
            }
        }
    }
}

/// How many characters edits take out.
pub open spec fn removed_chars(edits: Seq<CodeEditModel>) -> int
    decreases edits.len(),
{
    if edits.len() == 0 {
        0
    } else {
        edits[0].end_offset - edits[0].start_offset + removed_chars(edits.drop_first())
    }
}

/// How many characters edits put in.
pub open spec fn added_chars(edits: Seq<CodeEditModel>) -> int
    decreases edits.len(),
{
    if edits.len() == 0 {
        0
    } else {
        edits[0].replacement.len() + added_chars(edits.drop_first())
    }
}

/// How many characters the old lines of pairs have.
pub open spec fn paired_chars(a: Seq<Seq<char>>, pairs: Seq<(int, int)>) -> int
    decreases pairs.len(),
{
    if pairs.len() == 0 {
        0
    } else {
        a[pairs[0].0].len() + paired_chars(a, pairs.drop_first())
    }
}

proof fn rest_of_lines(a: Seq<Seq<char>>, i: int, end: int)
    requires
        0 <= i <= end <= a.len(),
    ensures
        concat(a.skip(i)).len() == concat(a.subrange(i, end)).len() + concat(a.skip(end)).len(),
        line_offset(a, end) == line_offset(a, i) + concat(a.subrange(i, end)).len(),
        end == i + 1 ==> concat(a.subrange(i, end)).len() == a[i].len(),
{
    assert(a.skip(i) =~= a.subrange(i, end) + a.skip(end));
    concat_of_sum(a.subrange(i, end), a.skip(end));
    assert(a.take(end) =~= a.take(i) + a.subrange(i, end));
    concat_of_sum(a.take(i), a.subrange(i, end));
    if end == i + 1 {
        let one = a.subrange(i, end);
        assert(one.drop_last() =~= Seq::empty());
        assert(concat(one.drop_last()) =~= Seq::empty());
        assert(one.last() == a[i]);
    }
}

proof fn runs_keep_the_pairs(a: Seq<Seq<char>>, b: Seq<Seq<char>>, i: int, j: int)
    requires
        0 <= i <= a.len(),
        0 <= j <= b.len(),
    ensures
        matches_from(a, b, run_end(a, b, i, j).0, run_end(a, b, i, j).1) == matches_from(
            a,
            b,
            i,
            j,
        ),
    decreases a.len() - i, b.len() - j,
{
    if (i >= a.len() && j >= b.len()) || (i < a.len() && j < b.len() && a[i] == b[j]) {
    } else if i < a.len() && (j >= b.len() || common(a, b, i + 1, j) >= common(a, b, i, j + 1)) {
        runs_keep_the_pairs(a, b, i + 1, j);
    } else {
        runs_keep_the_pairs(a, b, i, j + 1);
    }
}

proof fn edits_spare_pairs(a: Seq<Seq<char>>, b: Seq<Seq<char>>, i: int, j: int)
    requires
        0 <= i <= a.len(),
        0 <= j <= b.len(),
        concat(a).len() <= usize::MAX,
    ensures
        removed_chars(edits_from(a, b, i, j)) + paired_chars(a, matches_from(a, b, i, j))
            == concat(a.skip(i)).len(),
        added_chars(edits_from(a, b, i, j)) + paired_chars(a, matches_from(a, b, i, j)) == concat(
            b.skip(j),
        ).len(),
    decreases a.len() - i + b.len() - j,
{
    if i == a.len() && j == b.len() {
        assert(a.skip(i) =~= Seq::empty());
        assert(b.skip(j) =~= Seq::empty());
    } else if i < a.len() && j < b.len() && a[i] == b[j] {
        edits_spare_pairs(a, b, i + 1, j + 1);
        rest_of_lines(a, i, i + 1);
        rest_of_lines(b, j, j + 1);
        let all = matches_from(a, b, i, j);
        assert(all.drop_first() =~= matches_from(a, b, i + 1, j + 1));
        assert(all[0] == (i, j));
    } else {
        run_goes_on(a, b, i, j);
        let end = run_end(a, b, i, j);
        edits_spare_pairs(a, b, end.0, end.1);
        runs_keep_the_pairs(a, b, i, j);
        rest_of_lines(a, i, end.0);
        rest_of_lines(b, j, end.1);
        offsets_rise(a, i, end.0);
        let all = edits_from(a, b, i, j);
        assert(all.drop_first() =~= edits_from(a, b, end.0, end.1));
    }
}

/// The edits take out and put in nothing but the lines that are off a longest
/// list of lines that both versions have in the same order.
pub proof fn edits_leave_common_lines_alone(
    old_code: Seq<char>,
    new_code: Seq<char>,
    other: Seq<(int, int)>,
)
    requires
        old_code.len() <= usize::MAX,
        is_common_subsequence(line_segments(old_code), line_segments(new_code), 0, 0, other),
    ensures
        exists|pairs: Seq<(int, int)>|
            {
                let kept = paired_chars(line_segments(old_code), pairs);
                let edits = edits_between(old_code, new_code);
                &&& #[trigger] is_common_subsequence(
                    line_segments(old_code),
                    line_segments(new_code),
                    0,
                    0,
                    pairs,
                )
                &&& other.len() <= pairs.len()
                &&& removed_chars(edits) + kept == old_code.len()
                &&& added_chars(edits) + kept == new_code.len()
            },
{
    let a = line_segments(old_code);
    let b = line_segments(new_code);
    let pairs = matches_from(a, b, 0, 0);
    line_segments_make_the_text(old_code);
    line_segments_make_the_text(new_code);
    matches_are_a_longest_common_subsequence(a, b, 0, 0);
    common_is_longest(a, b, 0, 0, other);
    edits_spare_pairs(a, b, 0, 0);
    assert(a.skip(0) =~= a);
    assert(b.skip(0) =~= b);
    assert(is_common_subsequence(a, b, 0, 0, pairs));
}

} // verus!
