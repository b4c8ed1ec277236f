//! Texts cut and padded to columns of a terminal.
use unicode_width::{UnicodeWidthChar, UnicodeWidthStr};
use vstd::prelude::*;
use crate::text::{owned, repeat, repeated, slice_string, to_chars};

verus! {

/// The number of columns of a text, as `UnicodeWidthStr::width` counts them.
pub uninterp spec fn text_width(s: Seq<char>) -> usize;

/// The number of columns of a character, as `UnicodeWidthChar::width` counts them; `None`
/// for a control character.
pub uninterp spec fn char_width(c: char) -> Option<usize>;

/// `UnicodeWidthStr::width`: the number of columns of a text. It is only named: it is not
/// always the sum over the characters.
#[verifier::external_body]
fn width_of_text(s: &str) -> (n: usize)
    ensures
        n == text_width(s@),
{
    UnicodeWidthStr::width(s)
}

/// `UnicodeWidthChar::width`: the number of columns of a character. It is only named.
#[verifier::external_body]
fn width_of_char(c: char) -> (n: Option<usize>)
    ensures
        n == char_width(c),
{
    UnicodeWidthChar::width(c)
}

/// The columns of a character, none for a control character.
pub open spec fn columns_of(c: char) -> usize {
    match char_width(c) {
        Some(n) => n,
        None => 0,
    }
}

/// The columns of each character of a text.
pub open spec fn columns(s: Seq<char>) -> Seq<usize> {
    Seq::new(s.len(), |i: int| columns_of(s[i]))
}

/// How many of the leading widths fit together in `room` columns.
pub open spec fn fitting_count(widths: Seq<usize>, room: int) -> nat
    decreases widths.len(),
{
    if widths.len() > 0 && widths[0] <= room {
        1 + fitting_count(widths.drop_first(), room - widths[0])
    } else {
        0
    }
}

/// The sum of widths.
pub open spec fn total_width(widths: Seq<usize>) -> nat
    decreases widths.len(),
{
    if widths.len() == 0 {
        0
    } else {
        widths[0] as nat + total_width(widths.drop_first())
    }
}

/// A text cut at its end to `max` columns, where it has `total` columns and its characters
/// have `widths`: three dots stand for what is cut off.
pub open spec fn cut_end(s: Seq<char>, max: usize, total: usize, widths: Seq<usize>) -> Seq<char> {
    if total <= max {
        s
    } else if max <= 3 {
        repeated("."@, max as nat)
    } else {
        s.take(fitting_count(widths, max - 3) as int) + "..."@
    }
}

/// A text cut at its start to `max` columns, where it has `total` columns and its
/// characters have `widths`: three dots stand for what is cut off.
pub open spec fn cut_start(s: Seq<char>, max: usize, total: usize, widths: Seq<usize>) -> Seq<
    char,
> {
    if total <= max {
        s
    } else if max <= 3 {
        repeated("."@, max as nat)
    } else {
        "..."@ + s.skip(s.len() - fitting_count(widths.reverse(), max - 3))
    }
}

/// A text cut at its end to `max` columns.
pub open spec fn shortened(s: Seq<char>, max: usize) -> Seq<char> {
    cut_end(s, max, text_width(s), columns(s))
}

/// A text cut at its start to `max` columns.
pub open spec fn shortened_left(s: Seq<char>, max: usize) -> Seq<char> {
    cut_start(s, max, text_width(s), columns(s))
}

/// A count, less what is taken from it, or nothing.
pub open spec fn less(a: usize, b: usize) -> nat {
    if a >= b {
        (a - b) as nat
    } else {
        0
    }
}

/// A text filled with spaces to `width` columns.
pub open spec fn padded(s: Seq<char>, width: usize) -> Seq<char> {
    let t = shortened(s, width);
    t + repeated(" "@, less(width, text_width(t)))
}

/// Two texts on one line of `width` columns, the second at the right end; only the first
/// where there is no room for both.
pub open spec fn two_columns(left: Seq<char>, right: Seq<char>, width: usize) -> Seq<char> {
    let w = text_width(right);
    if w + 4 >= width {
        shortened(left, width)
    } else {
        let l = shortened(left, (width - w - 2) as usize);
        l + repeated(" "@, less(less(width, text_width(l)) as usize, w)) + right
    }
}

/// What fits keeps to the room, and with one more it would not.
pub proof fn fitting_is_longest(widths: Seq<usize>, room: int)
    requires
        room >= 0,
    ensures
        fitting_count(widths, room) <= widths.len(),
        total_width(widths.take(fitting_count(widths, room) as int)) <= room,
        fitting_count(widths, room) < widths.len() ==> total_width(
            widths.take(fitting_count(widths, room) as int + 1),
        ) > room,
    decreases widths.len(),
{
    if widths.len() > 0 && widths[0] <= room {
        let rest = widths.drop_first();
        fitting_is_longest(rest, room - widths[0]);
        let k = fitting_count(rest, room - widths[0]) as int;
        assert(widths.take(k + 1).drop_first() =~= rest.take(k));
        if k < rest.len() {
            assert(widths.take(k + 2).drop_first() =~= rest.take(k + 1));
        }
    } else if widths.len() > 0 {
        assert(widths.take(1).drop_first() =~= Seq::<usize>::empty());
        assert(widths.take(0) =~= Seq::<usize>::empty());
    }
}

/// A text that is cut at its end keeps a prefix whose characters, with the three dots,
/// take no more than `max` columns, and no longer prefix does.
pub proof fn cut_end_fits(s: Seq<char>, max: usize, total: usize, widths: Seq<usize>)
    requires
        widths.len() == s.len(),
        total > max > 3,
    ensures
        exists|k: int|
            {
                &&& 0 <= k <= s.len()
                &&& cut_end(s, max, total, widths) == #[trigger] s.take(k) + "..."@
                &&& total_width(widths.take(k)) + 3 <= max
                &&& k < s.len() ==> total_width(widths.take(k + 1)) + 3 > max
            },
{
    fitting_is_longest(widths, max - 3);
    let k = fitting_count(widths, max - 3) as int;
    assert(cut_end(s, max, total, widths) == s.take(k) + "..."@);
}

/// How many of the leading widths fit together in `room` columns.
fn count_fitting(widths: &Vec<usize>, room: usize) -> (k: usize)
    ensures
        k == fitting_count(widths@, room as int),
        k <= widths@.len(),
{
    let mut left: usize = room;
    let mut i: usize = 0;
    proof {
        assert(widths@.skip(0) =~= widths@);
    }
    while i < widths.len() && widths[i] <= left
        invariant
            i <= widths@.len(),
            fitting_count(widths@, room as int) == i + fitting_count(
                widths@.skip(i as int),
                left as int,
            ),
        decreases widths.len() - i,
    {
        proof {
            assert(widths@.skip(i as int).drop_first() =~= widths@.skip(i + 1));
        }
        left -= widths[i];
        i += 1;
    }
    i
}

/// How many of the trailing widths fit together in `room` columns.
fn count_fitting_back(widths: &Vec<usize>, room: usize) -> (k: usize)
    ensures
        k == fitting_count(widths@.reverse(), room as int),
        k <= widths@.len(),
{
    let mut left: usize = room;
    let mut i: usize = widths.len();
    let n: usize = widths.len();
    let ghost back = widths@.reverse();
    proof {
        assert(back.skip(0) =~= back);
    }
    while i > 0 && widths[i - 1] <= left
        invariant
            i <= widths@.len() == n,
            back == widths@.reverse(),
            fitting_count(back, room as int) == n - i + fitting_count(
                back.skip(n - i),
                left as int,
            ),
        decreases i,
    {
        proof {
            assert(back.skip(n - i)[0] == widths@[i - 1]);
            assert(back.skip(n - i).drop_first() =~= back.skip(n - i + 1));
        }
        left -= widths[i - 1];
        i -= 1;
    }
    proof {
        if i == 0 {
            assert(back.skip(n - i) =~= Seq::<usize>::empty());
        } else {
            assert(back.skip(n - i)[0] == widths@[i - 1]);
        }
    }
    n - i
}

/// A text cut at its end to `max` columns, given its columns and those of its characters.
pub fn cut_to_width(s: &str, max: usize, total: usize, widths: &Vec<usize>) -> (r: String)
    requires
        widths@.len() == s@.len(),
    ensures
        r@ == cut_end(s@, max, total, widths@),
{
    if total <= max {
        return owned(s);
    }
    if max <= 3 {
        return repeat(".", max);
    }
    let v = to_chars(s);
    let k: usize = count_fitting(widths, max - 3);
    proof {
        assert(v@.subrange(0, k as int) =~= s@.take(k as int));
    }
    slice_string(&v, 0, k).concat("...")
}

/// A text cut at its start to `max` columns, given its columns and those of its characters.
pub fn cut_start_to_width(s: &str, max: usize, total: usize, widths: &Vec<usize>) -> (r: String)
    requires
        widths@.len() == s@.len(),
    ensures
        r@ == cut_start(s@, max, total, widths@),
{
    if total <= max {
        return owned(s);
    }
    if max <= 3 {
        return repeat(".", max);
    }
    let v = to_chars(s);
    let k: usize = count_fitting_back(widths, max - 3);
    proof {
        assert(v@.subrange(v@.len() - k, v@.len() as int) =~= s@.skip(s@.len() - k));
    }
    owned("...").concat(slice_string(&v, v.len() - k, v.len()).as_str())
}

/// The columns of each character of a text.
fn char_columns(s: &str) -> (r: Vec<usize>)
    ensures
        r@ == columns(s@),
{
    let v = to_chars(s);
    let mut r: Vec<usize> = Vec::new();
    let mut i: usize = 0;
    while i < v.len()
        invariant
            v@ == s@,
            i <= v@.len(),
            r@ == columns(s@).take(i as int),
        decreases v.len() - i,
    {
        let n: usize = match width_of_char(v[i]) {
            Some(n) => n,
            None => 0,
        };
        r.push(n);
        proof {
            assert(columns(s@).take(i + 1) =~= columns(s@).take(i as int).push(n));
        }
        i += 1;
    }
    proof {
        assert(columns(s@).take(s@.len() as int) =~= columns(s@));
    }
    r
}

/// The number of columns of a text.
pub fn display_width(s: &str) -> (n: usize)
    ensures
        n == text_width(s@),
{
    width_of_text(s)
}

/// A text cut at its end to `max` columns.
pub fn truncate_to_width(s: &str, max: usize) -> (r: String)
    ensures
        r@ == shortened(s@, max),
{
    cut_to_width(s, max, width_of_text(s), &char_columns(s))
}

/// A text cut at its start to `max` columns.
pub fn truncate_left(s: &str, max: usize) -> (r: String)
    ensures
        r@ == shortened_left(s@, max),
{
    cut_start_to_width(s, max, width_of_text(s), &char_columns(s))
}

/// A path cut at its start to `max` columns.
pub fn truncate_display(path: &str, max: usize) -> (r: String)
    ensures
        r@ == shortened_left(path@, max),
{
    truncate_left(path, max)
}

/// A text cut at its end to `max` columns.
pub fn truncate_right(s: &str, max: usize) -> (r: String)
    ensures
        r@ == shortened(s@, max),
{
    truncate_to_width(s, max)
}

/// A text cut at its end to `max_len` columns.
pub fn truncate_str(s: &str, max_len: usize) -> (r: String)
    ensures
        r@ == shortened(s@, max_len),
{
    truncate_right(s, max_len)
}

/// A count, less what is taken from it, or nothing.
pub fn less_or_none(a: usize, b: usize) -> (r: usize)
    ensures
        r == less(a, b),
{
    if a >= b {
        a - b
    } else {
        0
    }
}

/// A text filled with spaces to `width` columns.
pub fn pad_to_width(input: &str, width: usize) -> (r: String)
    ensures
        r@ == padded(input@, width),
{
    let t = truncate_to_width(input, width);
    let n: usize = less_or_none(width, width_of_text(t.as_str()));
    let spaces = repeat(" ", n);
    t.concat(spaces.as_str())
}

/// Two texts on one line of `width` columns, the second at the right end.
pub fn two_column_line(left: &str, right: &str, width: usize) -> (r: String)
    ensures
        r@ == two_columns(left@, right@, width),
{
    let right_width: usize = width_of_text(right);
    if right_width >= width || width - right_width <= 4 {
        return truncate_to_width(left, width);
    }
    let l = truncate_to_width(left, width - right_width - 2);
    let gap: usize = less_or_none(less_or_none(width, width_of_text(l.as_str())), right_width);
    l.concat(repeat(" ", gap).as_str()).concat(right)
}

} // verus!
