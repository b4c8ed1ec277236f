//! Line differences by a longest common subsequence.
use vstd::prelude::*;
use crate::text::{lemma_line_len, line_len, views};

verus! {

/// The length of a longest common subsequence of `a[i..]` and `b[j..]`.
pub open spec fn lcs(a: Seq<Seq<char>>, b: Seq<Seq<char>>, i: int, j: int) -> nat
    decreases (a.len() - i) + (b.len() - j),
{
    if i >= a.len() || j >= b.len() {
        0
    } else if a[i] == b[j] {
        lcs(a, b, i + 1, j + 1) + 1
    } else {
        let down = lcs(a, b, i + 1, j);
        let right = lcs(a, b, i, j + 1);
        if down >= right {
            down
        } else {
            right
        }
    }
}

/// How many lines are left from position `i` on.
pub open spec fn lines_left(lines: Seq<Seq<char>>, i: int) -> nat {
    if i < lines.len() {
        (lines.len() - i) as nat
    } else {
        0
    }
}

/// One line of a difference.
pub enum DiffLine {
    Kept(Seq<char>),
    Removed(Seq<char>),
    Added(Seq<char>),
}

/// The difference from `a[i..]` to `b[j..]`: equal lines are kept, and elsewhere the line
/// goes whose loss leaves the longer common subsequence, a removal where both do.
pub open spec fn line_diff(a: Seq<Seq<char>>, b: Seq<Seq<char>>, i: int, j: int) -> Seq<DiffLine>
    decreases lines_left(a, i) + lines_left(b, j),
{
    if i < a.len() && j < b.len() {
        if a[i] == b[j] {
            seq![DiffLine::Kept(a[i])] + line_diff(a, b, i + 1, j + 1)
        } else if lcs(a, b, i + 1, j) >= lcs(a, b, i, j + 1) {
            seq![DiffLine::Removed(a[i])] + line_diff(a, b, i + 1, j)
        } else {
            seq![DiffLine::Added(b[j])] + line_diff(a, b, i, j + 1)
        }
    } else if i < a.len() {
        seq![DiffLine::Removed(a[i])] + line_diff(a, b, i + 1, j)
    } else if j < b.len() {
        seq![DiffLine::Added(b[j])] + line_diff(a, b, i, j + 1)
    } else {
        Seq::empty()
    }
}

/// A line of a difference as text, with its mark and a line feed.
pub open spec fn diff_line_text(line: DiffLine) -> Seq<char> {
    match line {
        DiffLine::Kept(s) => seq![' '] + s + seq!['\n'],
        DiffLine::Removed(s) => seq!['-'] + s + seq!['\n'],
        DiffLine::Added(s) => seq!['+'] + s + seq!['\n'],
    }
}

/// A difference as text.
pub open spec fn diff_text(lines: Seq<DiffLine>) -> Seq<char>
    decreases lines.len(),
{
    if lines.len() == 0 {
        Seq::empty()
    } else {
        diff_line_text(lines[0]) + diff_text(lines.drop_first())
    }
}

// ---------------------------------------------------------------------------
// Executable code
// ---------------------------------------------------------------------------

/// Whether a table holds the lengths of the longest common subsequences of all suffixes.
pub open spec fn is_lcs_table(
    table: Seq<Vec<usize>>,
    a: Seq<Seq<char>>,
    b: Seq<Seq<char>>,
) -> bool {
    &&& table.len() == a.len()
    &&& forall|i: int| 0 <= i < a.len() ==> is_lcs_row((#[trigger] table[i])@, a, b, i)
}

/// Whether a row holds the lengths for the suffix that starts at `i`.
pub open spec fn is_lcs_row(
    row: Seq<usize>,
    a: Seq<Seq<char>>,
    b: Seq<Seq<char>>,
    i: int,
) -> bool {
    &&& row.len() == b.len()
    &&& forall|j: int| 0 <= j < b.len() ==> #[trigger] row[j] == lcs(a, b, i, j)
}

proof fn lemma_lcs_bound(a: Seq<Seq<char>>, b: Seq<Seq<char>>, i: int, j: int)
    requires
        0 <= i <= a.len(),
        0 <= j,
    ensures
        lcs(a, b, i, j) <= a.len() - i,
    decreases (a.len() - i) + (b.len() - j),
{
    if i < a.len() && j < b.len() {
        if a[i] == b[j] {
            lemma_lcs_bound(a, b, i + 1, j + 1);
        } else {
            lemma_lcs_bound(a, b, i + 1, j);
            lemma_lcs_bound(a, b, i, j + 1);
        }
    }
}

/// The entry for the suffixes at `i` and `j`, 0 beyond the end of either text.
fn lcs_at(
    table: &Vec<Vec<usize>>,
    i: usize,
    j: usize,
    Ghost(a): Ghost<Seq<Seq<char>>>,
    Ghost(b): Ghost<Seq<Seq<char>>>,
) -> (n: usize)
    requires
        table@.len() == a.len(),
        i < a.len() ==> is_lcs_row(table@[i as int]@, a, b, i as int),
    ensures
        n == lcs(a, b, i as int, j as int),
{
    if i < table.len() && j < table[i].len() {
        table[i][j]
    } else {
        0
    }
}

/// One row of the table, from the row below it.
fn lcs_row(
    before: &Vec<String>,
    after: &Vec<String>,
    table: &Vec<Vec<usize>>,
    i: usize,
) -> (row: Vec<usize>)
    requires
        i < before@.len(),
        table@.len() == before@.len(),
        i + 1 < before@.len() ==> is_lcs_row(
            table@[i + 1]@,
            views(before@),
            views(after@),
            i + 1,
        ),
    ensures
        is_lcs_row(row@, views(before@), views(after@), i as int),
{
    let ghost a = views(before@);
    let ghost b = views(after@);
    let rows: usize = before.len();
    let mut row: Vec<usize> = Vec::new();
    let mut k: usize = 0;
    while k < after.len()
        invariant
            k <= after@.len(),
            row@.len() == k,
        decreases after.len() - k,
    {
        row.push(0);
        k += 1;
    }
    let mut j: usize = after.len();
    while j > 0
        invariant
            i < before@.len() == rows,
            j <= after@.len() <= usize::MAX,
            row@.len() == after@.len(),
            table@.len() == before@.len(),
            a == views(before@),
            b == views(after@),
            i + 1 < before@.len() ==> is_lcs_row(table@[i + 1]@, a, b, i + 1),
            forall|m: int| j <= m < b.len() ==> #[trigger] row@[m] == lcs(a, b, i as int, m),
        decreases j,
    {
        j -= 1;
        proof {
            lemma_lcs_bound(a, b, i + 1, j + 1);
            assert(a[i as int] == before@[i as int]@);
            assert(b[j as int] == after@[j as int]@);
        }
        let value: usize = if before[i] == after[j] {
            lcs_at(table, i + 1, j + 1, Ghost(a), Ghost(b)) + 1
        } else {
            let down: usize = lcs_at(table, i + 1, j, Ghost(a), Ghost(b));
            let right: usize = if j + 1 < after.len() {
                row[j + 1]
            } else {
                0
            };
            if down >= right {
                down
            } else {
                right
            }
        };
        proof {
            if j + 1 >= b.len() {
                assert(lcs(a, b, i as int, j + 1) == 0);
            }
            assert(value == lcs(a, b, i as int, j as int));
        }
        row.set(j, value);
    }
    row
}

/// The lengths of the longest common subsequences of all suffixes of two lists of lines.
pub fn lcs_table(before: &Vec<String>, after: &Vec<String>) -> (table: Vec<Vec<usize>>)
    ensures
        is_lcs_table(table@, views(before@), views(after@)),
{
    let ghost a = views(before@);
    let ghost b = views(after@);
    let mut table: Vec<Vec<usize>> = Vec::new();
    let mut k: usize = 0;
    while k < before.len()
        invariant
            k <= before@.len(),
            table@.len() == k,
        decreases before.len() - k,
    {
        table.push(Vec::new());
        k += 1;
    }
    let mut i: usize = before.len();
    while i > 0
        invariant
            i <= before@.len(),
            table@.len() == before@.len(),
            a == views(before@),
            b == views(after@),
            forall|m: int| i <= m < a.len() ==> is_lcs_row((#[trigger] table@[m])@, a, b, m),
        decreases i,
    {
        i -= 1;
        let row = lcs_row(before, after, &table, i);
        table.set(i, row);
    }
    table
}

/// Appends a marked line.
fn push_diff_line(diff: &mut String, prefix: char, line: &str)
    ensures
        final(diff)@ == old(diff)@ + (seq![prefix] + line@ + seq!['\n']),
{
    diff.push(prefix);
    diff.append(line);
    diff.push('\n');
    proof {
        assert(diff@ =~= old(diff)@ + (seq![prefix] + line@ + seq!['\n']));
    }
}

proof fn lemma_diff_text_first(line: DiffLine, rest: Seq<DiffLine>)
    ensures
        diff_text(seq![line] + rest) == diff_line_text(line) + diff_text(rest),
{
    assert((seq![line] + rest).drop_first() =~= rest);
}

/// The difference of two lists of lines as text.
pub fn render_line_diff(before: &Vec<String>, after: &Vec<String>) -> (r: String)
    ensures
        r@ == diff_text(line_diff(views(before@), views(after@), 0, 0)),
{
    let ghost a = views(before@);
    let ghost b = views(after@);
    let ghost goal = diff_text(line_diff(a, b, 0, 0));
    let rows: usize = before.len();
    let columns: usize = after.len();
    let table = lcs_table(before, after);
    let mut diff = String::new();
    let mut i: usize = 0;
    let mut j: usize = 0;
    proof {
        assert(diff@ + goal =~= goal);
    }
    while i < before.len() || j < after.len()
        invariant
            i <= before@.len() == rows,
            j <= after@.len() == columns,
            a == views(before@),
            b == views(after@),
            is_lcs_table(table@, a, b),
            diff@ + diff_text(line_diff(a, b, i as int, j as int)) == goal,
        decreases (before.len() - i) + (after.len() - j),
    {
        let ghost so_far = diff@;
        if i < before.len() && j < after.len() {
            proof {
                assert(a[i as int] == before@[i as int]@);
                assert(b[j as int] == after@[j as int]@);
            }
            if before[i] == after[j] {
                push_diff_line(&mut diff, ' ', before[i].as_str());
                proof {
                    let rest = line_diff(a, b, i + 1, j + 1);
                    lemma_diff_text_first(DiffLine::Kept(a[i as int]), rest);
                    assert(so_far + (diff_line_text(DiffLine::Kept(a[i as int])) + diff_text(rest))
                        =~= diff@ + diff_text(rest));
                }
                i += 1;
                j += 1;
            } else if lcs_at(&table, i + 1, j, Ghost(a), Ghost(b)) >= lcs_at(
                &table,
                i,
                j + 1,
                Ghost(a),
                Ghost(b),
            ) {
                push_diff_line(&mut diff, '-', before[i].as_str());
                proof {
                    let rest = line_diff(a, b, i + 1, j as int);
                    lemma_diff_text_first(DiffLine::Removed(a[i as int]), rest);
                    assert(so_far + (diff_line_text(DiffLine::Removed(a[i as int])) + diff_text(
                        rest,
                    )) =~= diff@ + diff_text(rest));
                }
                i += 1;
            } else {
                push_diff_line(&mut diff, '+', after[j].as_str());
                proof {
                    let rest = line_diff(a, b, i as int, j + 1);
                    lemma_diff_text_first(DiffLine::Added(b[j as int]), rest);
                    assert(so_far + (diff_line_text(DiffLine::Added(b[j as int])) + diff_text(rest))
                        =~= diff@ + diff_text(rest));
                }
                j += 1;
            }
        } else if i < before.len() {
            push_diff_line(&mut diff, '-', before[i].as_str());
            proof {
                assert(a[i as int] == before@[i as int]@);
                let rest = line_diff(a, b, i + 1, j as int);
                lemma_diff_text_first(DiffLine::Removed(a[i as int]), rest);
                assert(so_far + (diff_line_text(DiffLine::Removed(a[i as int])) + diff_text(rest))
                    =~= diff@ + diff_text(rest));
            }
            i += 1;
        } else {
            push_diff_line(&mut diff, '+', after[j].as_str());
            proof {
                assert(b[j as int] == after@[j as int]@);
                let rest = line_diff(a, b, i as int, j + 1);
                lemma_diff_text_first(DiffLine::Added(b[j as int]), rest);
                assert(so_far + (diff_line_text(DiffLine::Added(b[j as int])) + diff_text(rest))
                    =~= diff@ + diff_text(rest));
            }
            j += 1;
        }
    }
    proof {
        assert(diff@ + diff_text(line_diff(a, b, i as int, j as int)) =~= diff@);
    }
    diff
}

// ---------------------------------------------------------------------------
// Laws
// ---------------------------------------------------------------------------

/// The lines of a difference that were there before.
pub open spec fn old_side(lines: Seq<DiffLine>) -> Seq<Seq<char>>
    decreases lines.len(),
{
    if lines.len() == 0 {
        Seq::empty()
    } else {
        let rest = old_side(lines.drop_first());
        match lines[0] {
            DiffLine::Kept(s) => seq![s] + rest,
            DiffLine::Removed(s) => seq![s] + rest,
            DiffLine::Added(_) => rest,
        }
    }
}

/// The lines of a difference that are there afterwards.
pub open spec fn new_side(lines: Seq<DiffLine>) -> Seq<Seq<char>>
    decreases lines.len(),
{
    if lines.len() == 0 {
        Seq::empty()
    } else {
        let rest = new_side(lines.drop_first());
        match lines[0] {
            DiffLine::Kept(s) => seq![s] + rest,
            DiffLine::Removed(_) => rest,
            DiffLine::Added(s) => seq![s] + rest,
        }
    }
}

/// How many lines a difference keeps.
pub open spec fn kept_count(lines: Seq<DiffLine>) -> nat
    decreases lines.len(),
{
    if lines.len() == 0 {
        0
    } else {
        kept_count(lines.drop_first()) + if lines[0] is Kept {
            1nat
        } else {
            0nat
        }
    }
}

/// A difference can be read in both directions: its kept and removed lines are the old
/// text, its kept and added lines are the new one, and it keeps as many lines as a
/// longest common subsequence has.
pub proof fn diff_is_faithful(a: Seq<Seq<char>>, b: Seq<Seq<char>>)
    ensures
        old_side(line_diff(a, b, 0, 0)) == a,
        new_side(line_diff(a, b, 0, 0)) == b,
        kept_count(line_diff(a, b, 0, 0)) == lcs(a, b, 0, 0),
{
    lemma_diff_sides(a, b, 0, 0);
    assert(a.skip(0) =~= a);
    assert(b.skip(0) =~= b);
}

proof fn lemma_diff_sides(a: Seq<Seq<char>>, b: Seq<Seq<char>>, i: int, j: int)
    requires
        0 <= i <= a.len(),
        0 <= j <= b.len(),
    ensures
        old_side(line_diff(a, b, i, j)) == a.skip(i),
        new_side(line_diff(a, b, i, j)) == b.skip(j),
        kept_count(line_diff(a, b, i, j)) == lcs(a, b, i, j),
    decreases (a.len() - i) + (b.len() - j),
{
    let all = line_diff(a, b, i, j);
    if i < a.len() && j < b.len() && a[i] == b[j] {
        lemma_diff_sides(a, b, i + 1, j + 1);
        assert(all.drop_first() =~= line_diff(a, b, i + 1, j + 1));
        assert(seq![a[i]] + a.skip(i + 1) =~= a.skip(i));
        assert(seq![b[j]] + b.skip(j + 1) =~= b.skip(j));
    } else if i < a.len() && (j >= b.len() || lcs(a, b, i + 1, j) >= lcs(a, b, i, j + 1)) {
        lemma_diff_sides(a, b, i + 1, j);
        assert(all.drop_first() =~= line_diff(a, b, i + 1, j));
        assert(seq![a[i]] + a.skip(i + 1) =~= a.skip(i));
    } else if j < b.len() {
        lemma_diff_sides(a, b, i, j + 1);
        assert(all.drop_first() =~= line_diff(a, b, i, j + 1));
        assert(seq![b[j]] + b.skip(j + 1) =~= b.skip(j));
    } else {
        assert(a.skip(i) =~= Seq::<Seq<char>>::empty());
        assert(b.skip(j) =~= Seq::<Seq<char>>::empty());
    }
}

/// Whether the lines of `a` at `f` and the lines of `b` at `g` are one common subsequence.
pub open spec fn is_common(
    a: Seq<Seq<char>>,
    b: Seq<Seq<char>>,
    f: Seq<int>,
    g: Seq<int>,
) -> bool {
    &&& f.len() == g.len()
    &&& forall|k: int| 0 <= k < f.len() ==> 0 <= #[trigger] f[k] < a.len()
    &&& forall|k: int| 0 <= k < g.len() ==> 0 <= #[trigger] g[k] < b.len()
    &&& forall|k: int| 0 <= k < f.len() ==> a[#[trigger] f[k]] == b[g[k]]
    &&& forall|k: int, l: int| 0 <= k < l < f.len() ==> f[k] < f[l] && g[k] < g[l]
}

/// No common subsequence of two texts has more lines than their difference keeps.
pub proof fn diff_keeps_most_lines(
    a: Seq<Seq<char>>,
    b: Seq<Seq<char>>,
    f: Seq<int>,
    g: Seq<int>,
)
    requires
        is_common(a, b, f, g),
    ensures
        f.len() <= kept_count(line_diff(a, b, 0, 0)),
{
    diff_is_faithful(a, b);
    lemma_lcs_longest(a, b, f, g, 0, 0);
}

proof fn lemma_lcs_longest(
    a: Seq<Seq<char>>,
    b: Seq<Seq<char>>,
    f: Seq<int>,
    g: Seq<int>,
    i: int,
    j: int,
)
    requires
        is_common(a, b, f, g),
        0 <= i,
        0 <= j,
        f.len() > 0 ==> i <= f[0] && j <= g[0],
    ensures
        f.len() <= lcs(a, b, i, j),
    decreases (a.len() - i) + (b.len() - j),
{
    if f.len() > 0 {
        assert(f[0] < a.len() && g[0] < b.len());
        if a[i] == b[j] {
            let f2 = f.drop_first();
            let g2 = g.drop_first();
            assert(forall|k: int| 0 <= k < f2.len() ==> f2[k] == f[k + 1]);
            assert(forall|k: int| 0 <= k < g2.len() ==> g2[k] == g[k + 1]);
            assert(is_common(a, b, f2, g2));
            if f2.len() > 0 {
                assert(f[0] < f[1] && g[0] < g[1]);
            }
            lemma_lcs_longest(a, b, f2, g2, i + 1, j + 1);
        } else if f[0] > i {
            lemma_lcs_longest(a, b, f, g, i + 1, j);
        } else {
            assert(a[f[0]] == b[g[0]]);
            assert(g[0] > j);
            lemma_lcs_longest(a, b, f, g, i, j + 1);
        }
    }
}

/// The lines that one side of a difference has, read from its text: what stands behind the
/// mark of every line that is marked by a space or by `mark`.
pub open spec fn read_side(text: Seq<char>, mark: char) -> Seq<Seq<char>>
    decreases text.len(),
{
    let n = line_len(text) as int;
    if n >= text.len() {
        Seq::empty()
    } else {
        let line = text.take(n);
        let rest = read_side(text.skip(n + 1), mark);
        if line.len() > 0 && (line[0] == ' ' || line[0] == mark) {
            seq![line.skip(1)] + rest
        } else {
            rest
        }
    }
}

/// Whether no line of a list holds a line feed.
pub open spec fn are_lines(all: Seq<Seq<char>>) -> bool {
    forall|i: int| 0 <= i < all.len() ==> !(#[trigger] all[i]).contains('\n')
}

proof fn lemma_read_one(mark: char, line: Seq<char>, rest: Seq<char>, side: char)
    requires
        !line.contains('\n'),
        mark != '\n',
    ensures
        read_side(seq![mark] + line + seq!['\n'] + rest, side) == if mark == ' ' || mark == side {
            seq![line] + read_side(rest, side)
        } else {
            read_side(rest, side)
        },
{
    let all = seq![mark] + line + seq!['\n'] + rest;
    let head = seq![mark] + line;
    assert forall|i: int| 0 <= i < head.len() implies #[trigger] head[i] != '\n' by {
        if i > 0 {
            assert(line.contains(line[i - 1]));
        }
    }
    lemma_line_len_is(all, head.len() as int);
    assert(all.take(head.len() as int) =~= head);
    assert(all.skip(head.len() as int + 1) =~= rest);
    assert(head.skip(1) =~= line);
}

proof fn lemma_line_len_is(s: Seq<char>, n: int)
    requires
        0 <= n < s.len(),
        s[n] == '\n',
        forall|i: int| 0 <= i < n ==> #[trigger] s[i] != '\n',
    ensures
        line_len(s) == n,
{
    lemma_line_len(s);
    let k = line_len(s) as int;
    if k < n {
        assert(s[k] != '\n');
    }
    if k > n {
        assert(s[n] != '\n');
    }
}

proof fn lemma_read_back(a: Seq<Seq<char>>, b: Seq<Seq<char>>, i: int, j: int)
    requires
        are_lines(a),
        are_lines(b),
        0 <= i <= a.len(),
        0 <= j <= b.len(),
    ensures
        read_side(diff_text(line_diff(a, b, i, j)), '-') == a.skip(i),
        read_side(diff_text(line_diff(a, b, i, j)), '+') == b.skip(j),
    decreases (a.len() - i) + (b.len() - j),
{
    let all = line_diff(a, b, i, j);
    if i < a.len() && j < b.len() && a[i] == b[j] {
        lemma_read_back(a, b, i + 1, j + 1);
        assert(all.drop_first() =~= line_diff(a, b, i + 1, j + 1));
        let rest = diff_text(all.drop_first());
        lemma_read_one(' ', a[i], rest, '-');
        lemma_read_one(' ', a[i], rest, '+');
        assert(seq![a[i]] + a.skip(i + 1) =~= a.skip(i));
        assert(seq![b[j]] + b.skip(j + 1) =~= b.skip(j));
    } else if i < a.len() && (j >= b.len() || lcs(a, b, i + 1, j) >= lcs(a, b, i, j + 1)) {
        lemma_read_back(a, b, i + 1, j);
        assert(all.drop_first() =~= line_diff(a, b, i + 1, j));
        let rest = diff_text(all.drop_first());
        lemma_read_one('-', a[i], rest, '-');
        lemma_read_one('-', a[i], rest, '+');
        assert(seq![a[i]] + a.skip(i + 1) =~= a.skip(i));
    } else if j < b.len() {
        lemma_read_back(a, b, i, j + 1);
        assert(all.drop_first() =~= line_diff(a, b, i, j + 1));
        let rest = diff_text(all.drop_first());
        lemma_read_one('+', b[j], rest, '-');
        lemma_read_one('+', b[j], rest, '+');
        assert(seq![b[j]] + b.skip(j + 1) =~= b.skip(j));
    } else {
        assert(all =~= Seq::<DiffLine>::empty());
        assert(a.skip(i) =~= Seq::<Seq<char>>::empty());
        assert(b.skip(j) =~= Seq::<Seq<char>>::empty());
    }
}

/// The text of a difference can be read back: behind its marks stand, character for
/// character, the lines of the old text where the mark is a space or `-`, and those of the
/// new text where it is a space or `+`.
pub proof fn diff_text_reads_back(a: Seq<Seq<char>>, b: Seq<Seq<char>>)
    requires
        are_lines(a),
        are_lines(b),
    ensures
        read_side(diff_text(line_diff(a, b, 0, 0)), '-') == a,
        read_side(diff_text(line_diff(a, b, 0, 0)), '+') == b,
{
    lemma_read_back(a, b, 0, 0);
    assert(a.skip(0) =~= a);
    assert(b.skip(0) =~= b);
}

/// Where two lines differ, the old one goes first unless more lines could be kept by adding
/// the new one first; where they do not, the line is kept.
pub proof fn old_lines_go_first(a: Seq<Seq<char>>, b: Seq<Seq<char>>, i: int, j: int)
    requires
        0 <= i < a.len(),
        0 <= j < b.len(),
    ensures
        ({
            let first = line_diff(a, b, i, j)[0];
            let by_removing = kept_count(line_diff(a, b, i + 1, j));
            let by_adding = kept_count(line_diff(a, b, i, j + 1));
            &&& a[i] == b[j] ==> first == DiffLine::Kept(a[i])
            &&& a[i] != b[j] && by_removing >= by_adding ==> first == DiffLine::Removed(a[i])
            &&& a[i] != b[j] && by_removing < by_adding ==> first == DiffLine::Added(b[j])
        }),
{
    lemma_diff_sides(a, b, i + 1, j);
    lemma_diff_sides(a, b, i, j + 1);
}

proof fn lemma_nothing_common(a: Seq<Seq<char>>, b: Seq<Seq<char>>, i: int, j: int)
    requires
        0 <= i <= a.len(),
        0 <= j <= b.len(),
        forall|x: int, y: int|
            0 <= x < a.len() && 0 <= y < b.len() ==> #[trigger] a[x] != #[trigger] b[y],
    ensures
        lcs(a, b, i, j) == 0,
    decreases (a.len() - i) + (b.len() - j),
{
    if i < a.len() && j < b.len() {
        assert(a[i] != b[j]);
        lemma_nothing_common(a, b, i + 1, j);
        lemma_nothing_common(a, b, i, j + 1);
    }
}

proof fn lemma_nothing_kept(a: Seq<Seq<char>>, b: Seq<Seq<char>>, i: int, j: int)
    requires
        0 <= i <= a.len(),
        0 <= j <= b.len(),
        i < a.len() ==> j == 0,
        forall|x: int, y: int|
            0 <= x < a.len() && 0 <= y < b.len() ==> #[trigger] a[x] != #[trigger] b[y],
    ensures
        line_diff(a, b, i, j) == Seq::new(
            (a.len() - i) as nat,
            |k: int| DiffLine::Removed(a[i + k]),
        ) + Seq::new((b.len() - j) as nat, |k: int| DiffLine::Added(b[j + k])),
    decreases (a.len() - i) + (b.len() - j),
{
    let gone = Seq::new((a.len() - i) as nat, |k: int| DiffLine::Removed(a[i + k]));
    let come = Seq::new((b.len() - j) as nat, |k: int| DiffLine::Added(b[j + k]));
    if i < a.len() {
        if j < b.len() {
            assert(a[i] != b[j]);
            lemma_nothing_common(a, b, i + 1, j);
            lemma_nothing_common(a, b, i, j + 1);
        }
        lemma_nothing_kept(a, b, i + 1, j);
        let less = Seq::new((a.len() - (i + 1)) as nat, |k: int| DiffLine::Removed(a[i + 1 + k]));
        assert(seq![DiffLine::Removed(a[i])] + less =~= gone);
        assert(seq![DiffLine::Removed(a[i])] + (less + come) =~= gone + come);
    } else if j < b.len() {
        lemma_nothing_kept(a, b, i, j + 1);
        let less = Seq::new((b.len() - (j + 1)) as nat, |k: int| DiffLine::Added(b[j + 1 + k]));
        assert(gone + come =~= seq![DiffLine::Added(b[j])] + (gone + less));
    } else {
        assert(gone + come =~= Seq::<DiffLine>::empty());
    }
}

/// Where two texts have no line in common, all old lines are removed, and then all new ones
/// added, each in their order.
pub proof fn different_texts_are_replaced(a: Seq<Seq<char>>, b: Seq<Seq<char>>)
    requires
        forall|x: int, y: int|
            0 <= x < a.len() && 0 <= y < b.len() ==> #[trigger] a[x] != #[trigger] b[y],
    ensures
        line_diff(a, b, 0, 0) == Seq::new(a.len(), |k: int| DiffLine::Removed(a[k])) + Seq::new(
            b.len(),
            |k: int| DiffLine::Added(b[k]),
        ),
{
    lemma_nothing_kept(a, b, 0, 0);
    assert(Seq::new((a.len() - 0) as nat, |k: int| DiffLine::Removed(a[0 + k])) =~= Seq::new(
        a.len(),
        |k: int| DiffLine::Removed(a[k]),
    ));
    assert(Seq::new((b.len() - 0) as nat, |k: int| DiffLine::Added(b[0 + k])) =~= Seq::new(
        b.len(),
        |k: int| DiffLine::Added(b[k]),
    ));
}

/// Each line of a difference is a line of its text, behind a space where it is kept, a minus
/// sign where it is removed and a plus sign where it is added.
pub proof fn difference_lines_are_marked(lines: Seq<DiffLine>, s: Seq<char>)
    ensures
        diff_text(Seq::empty()).len() == 0,
        diff_text(seq![DiffLine::Kept(s)] + lines) == (seq![' '] + s + seq!['\n']) + diff_text(
            lines,
        ),
        diff_text(seq![DiffLine::Removed(s)] + lines) == (seq!['-'] + s + seq!['\n']) + diff_text(
            lines,
        ),
        diff_text(seq![DiffLine::Added(s)] + lines) == (seq!['+'] + s + seq!['\n']) + diff_text(
            lines,
        ),
{
    assert((seq![DiffLine::Kept(s)] + lines).drop_first() =~= lines);
    assert((seq![DiffLine::Removed(s)] + lines).drop_first() =~= lines);
    assert((seq![DiffLine::Added(s)] + lines).drop_first() =~= lines);
}

} // verus!
