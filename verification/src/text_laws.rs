//! What holds of every text that is trimmed, split, joined, searched or written in decimal.
use vstd::prelude::*;
use crate::number::{decimal, digits_value, parsed_usize, signed_decimal};
use crate::text::{
    after_prefix, begins, count, ends, find, is_space, joined, lemma_find_from, lemma_line_len, line_len, lines, lower,
    occurs_at, occurs_in, repeated, replace_first, split_first, trim_end, trim_start, trimmed,
    with_char_replaced, without_spaces, word_len, words,
};

verus! {

/// Among the characters of ASCII, the white space is tab, line feed, vertical tab, form
/// feed, carriage return and the space.
pub proof fn ascii_spaces(c: char)
    requires
        c as u32 <= 0x7f,
    ensures
        is_space(c) <==> c == ' ' || c == '\t' || c == '\n' || c == '\r' || c as u32 == 0xb
            || c as u32 == 0xc,
{
}

/// Whether a text is white space throughout.
pub open spec fn all_space(s: Seq<char>) -> bool {
    forall|i: int| 0 <= i < s.len() ==> is_space(#[trigger] s[i])
}

/// Whether a text holds no white space.
pub open spec fn no_space(s: Seq<char>) -> bool {
    forall|i: int| 0 <= i < s.len() ==> !is_space(#[trigger] s[i])
}

proof fn lemma_trim_start(s: Seq<char>) -> (n: int)
    ensures
        0 <= n <= s.len(),
        trim_start(s) == s.skip(n),
        all_space(s.take(n)),
        trim_start(s).len() > 0 ==> !is_space(trim_start(s)[0]),
    decreases s.len(),
{
    if s.len() > 0 && is_space(s[0]) {
        let k = lemma_trim_start(s.drop_first());
        assert(s.drop_first().skip(k) =~= s.skip(k + 1));
        assert forall|i: int| 0 <= i < k + 1 implies is_space(#[trigger] s.take(k + 1)[i]) by {
            if i > 0 {
                assert(s.drop_first().take(k)[i - 1] == s[i]);
            }
        }
        k + 1
    } else {
        assert(s.skip(0) =~= s);
        0
    }
}

proof fn lemma_trim_end(s: Seq<char>) -> (n: int)
    ensures
        0 <= n <= s.len(),
        trim_end(s) == s.take(n),
        all_space(s.skip(n)),
        trim_end(s).len() > 0 ==> !is_space(trim_end(s).last()),
    decreases s.len(),
{
    if s.len() > 0 && is_space(s.last()) {
        let k = lemma_trim_end(s.drop_last());
        assert(s.drop_last().take(k) =~= s.take(k));
        assert forall|i: int| 0 <= i < s.len() - k implies is_space(#[trigger] s.skip(k)[i]) by {
            if i < s.len() - k - 1 {
                assert(s.drop_last().skip(k)[i] == s[k + i]);
            }
        }
        k
    } else {
        assert(s.take(s.len() as int) =~= s);
        s.len() as int
    }
}

/// Trimming cuts white space and nothing else: the text is white space, then what is left,
/// then white space again, and what is left neither starts nor ends with any.
pub proof fn trimming_cuts_only_space(s: Seq<char>) -> (parts: (Seq<char>, Seq<char>))
    ensures
        s == parts.0 + trimmed(s) + parts.1,
        all_space(parts.0),
        all_space(parts.1),
        trimmed(s).len() > 0 ==> !is_space(trimmed(s)[0]) && !is_space(trimmed(s).last()),
{
    let n = lemma_trim_start(s);
    let t = s.skip(n);
    let m = lemma_trim_end(t);
    assert(s =~= s.take(n) + t.take(m) + t.skip(m));
    (s.take(n), t.skip(m))
}

/// A text without white space at its ends is left as it is.
pub proof fn tight_texts_stay(s: Seq<char>)
    requires
        s.len() > 0 ==> !is_space(s[0]) && !is_space(s.last()),
    ensures
        trimmed(s) == s,
        trim_start(s) == s,
{
}

/// White space around a text is cut, and the text is what is left.
pub proof fn space_around_is_cut(before: Seq<char>, s: Seq<char>, after: Seq<char>)
    requires
        all_space(before),
        all_space(after),
        s.len() > 0 ==> !is_space(s[0]) && !is_space(s.last()),
    ensures
        trimmed(before + s + after) == s,
    decreases before.len(),
{
    let all = before + s + after;
    if before.len() > 0 {
        let less = before.drop_first();
        assert(is_space(before[0]));
        assert forall|i: int| 0 <= i < less.len() implies is_space(#[trigger] less[i]) by {
            assert(less[i] == before[i + 1]);
        }
        assert(all.drop_first() =~= less + s + after);
        space_around_is_cut(less, s, after);
    } else if s.len() > 0 {
        assert(all =~= s + after);
        assert(all[0] == s[0]);
        lemma_cut_end(s, after);
    } else {
        assert(all =~= after);
        lemma_cut_all(after);
    }
}

proof fn lemma_cut_all(s: Seq<char>)
    requires
        all_space(s),
    ensures
        trim_start(s).len() == 0,
        trimmed(s) =~= Seq::<char>::empty(),
    decreases s.len(),
{
    if s.len() > 0 {
        assert(is_space(s[0]));
        let less = s.drop_first();
        assert forall|i: int| 0 <= i < less.len() implies is_space(#[trigger] less[i]) by {
            assert(less[i] == s[i + 1]);
        }
        lemma_cut_all(less);
    }
}

proof fn lemma_cut_end(s: Seq<char>, after: Seq<char>)
    requires
        all_space(after),
        s.len() > 0,
        !is_space(s.last()),
    ensures
        trim_end(s + after) == s,
    decreases after.len(),
{
    let all = s + after;
    if after.len() > 0 {
        let less = after.drop_last();
        assert(is_space(after[after.len() - 1]));
        assert forall|i: int| 0 <= i < less.len() implies is_space(#[trigger] less[i]) by {
            assert(less[i] == after[i]);
        }
        assert(all.drop_last() =~= s + less);
        lemma_cut_end(s, less);
    } else {
        assert(all =~= s);
    }
}

// ---------------------------------------------------------------------------
// Words
// ---------------------------------------------------------------------------

proof fn lemma_word_len(s: Seq<char>)
    ensures
        word_len(s) <= s.len(),
        no_space(s.take(word_len(s) as int)),
        word_len(s) < s.len() ==> is_space(s[word_len(s) as int]),
    decreases s.len(),
{
    if s.len() > 0 && !is_space(s[0]) {
        lemma_word_len(s.drop_first());
        let k = word_len(s.drop_first()) as int;
        assert forall|i: int| 0 <= i < k + 1 implies !is_space(#[trigger] s.take(k + 1)[i]) by {
            if i > 0 {
                assert(s.drop_first().take(k)[i - 1] == s[i]);
            }
        }
    }
}

proof fn lemma_word_len_then(x: Seq<char>, y: Seq<char>)
    requires
        no_space(x),
        y.len() == 0 || is_space(y[0]),
    ensures
        word_len(x + y) == x.len(),
    decreases x.len(),
{
    if x.len() == 0 {
        assert(x + y =~= y);
    } else {
        assert((x + y).drop_first() =~= x.drop_first() + y);
        assert forall|i: int| 0 <= i < x.len() - 1 implies !is_space(#[trigger] x.drop_first()[i]) by {
            assert(x.drop_first()[i] == x[i + 1]);
        }
        assert((x + y)[0] == x[0]);
        lemma_word_len_then(x.drop_first(), y);
    }
}

/// The words of a text are its runs of other characters than white space: none is empty,
/// none holds white space, and put together they are the text without its white space.
pub proof fn words_are_what_is_between_spaces(s: Seq<char>)
    ensures
        forall|i: int|
            0 <= i < words(s).len() ==> (#[trigger] words(s)[i]).len() > 0 && no_space(words(s)[i]),
        joined(words(s), Seq::empty()) == without_spaces(s),
    decreases s.len(),
{
    let n = lemma_trim_start(s);
    let t = trim_start(s);
    lemma_without_spaces_append(s.take(n), t);
    lemma_without_all_space(s.take(n));
    assert(s.take(n) + t =~= s);
    assert(Seq::<char>::empty() + without_spaces(t) =~= without_spaces(t));
    if t.len() == 0 {
        assert(t =~= Seq::<char>::empty());
    } else {
        let k = word_len(t) as int;
        lemma_word_len(t);
        let rest = words(t.skip(k));
        words_are_what_is_between_spaces(t.skip(k));
        assert(words(s) =~= seq![t.take(k)] + rest);
        assert forall|i: int| 0 <= i < words(s).len() implies (#[trigger] words(s)[i]).len() > 0
            && no_space(words(s)[i]) by {
            if i > 0 {
                assert(words(s)[i] == rest[i - 1]);
            }
        }
        lemma_without_spaces_append(t.take(k), t.skip(k));
        assert(t.take(k) + t.skip(k) =~= t);
        lemma_without_no_space(t.take(k));
        joining_joins_joined(seq![t.take(k)], rest, Seq::empty());
        assert(joined(seq![t.take(k)], Seq::empty()) == t.take(k));
        if rest.len() > 0 {
            assert(t.take(k) + Seq::<char>::empty() + joined(rest, Seq::empty()) =~= t.take(k)
                + joined(rest, Seq::empty()));
        } else {
            assert(seq![t.take(k)] + rest =~= seq![t.take(k)]);
            assert(joined(rest, Seq::empty()) =~= Seq::<char>::empty());
            assert(t.take(k) + Seq::<char>::empty() =~= t.take(k));
        }
    }
}

/// A word is its one word, and white space parts words: the words of two texts with white
/// space between them are those of the first and then those of the second.
pub proof fn spaces_part_words(a: Seq<char>, gap: char, b: Seq<char>)
    requires
        is_space(gap),
    ensures
        words(a + seq![gap] + b) == words(a) + words(b),
        a.len() > 0 && no_space(a) ==> words(a) == seq![a],
    decreases a.len(),
{
    let whole = a + seq![gap] + b;
    let n = lemma_trim_start(a);
    let t = trim_start(a);
    let none = Seq::<char>::empty();
    assert(words(none) =~= Seq::<Seq<char>>::empty()) by {
        assert(trim_start(none) =~= none);
    }
    lemma_trim_start_append(a.take(n), t + seq![gap] + b);
    assert(a.take(n) + (t + seq![gap] + b) =~= whole);
    if t.len() == 0 {
        assert(t + seq![gap] + b =~= seq![gap] + b);
        lemma_trim_start_append(seq![gap], b);
        assert(words(whole) == words(b));
        assert(words(a) + words(b) =~= words(b));
    } else {
        let k = word_len(t) as int;
        lemma_word_len(t);
        let left = t.skip(k);
        assert(trim_start(t + seq![gap] + b) == t + seq![gap] + b) by {
            assert((t + seq![gap] + b)[0] == t[0]);
        }
        let tail = left + seq![gap] + b;
        assert(t + seq![gap] + b =~= t.take(k) + tail);
        assert(tail[0] == if left.len() > 0 { left[0] } else { gap });
        lemma_word_len_then(t.take(k), tail);
        assert((t.take(k) + tail).take(k) =~= t.take(k));
        assert((t.take(k) + tail).skip(k) =~= tail);
        assert(k > 0);
        spaces_part_words(left, gap, b);
        assert(words(whole) == seq![t.take(k)] + words(tail));
        assert(seq![t.take(k)] + (words(left) + words(b)) =~= seq![t.take(k)] + words(left)
            + words(b));
        if no_space(a) {
            assert(a.take(n).len() == 0) by {
                if n > 0 {
                    assert(is_space(a.take(n)[0]));
                    assert(a.take(n)[0] == a[0]);
                }
            }
            assert(t =~= a);
            assert(k == a.len()) by {
                if k < a.len() {
                    assert(!is_space(a[k]));
                }
            }
            assert(left =~= none);
            assert(a.take(k) =~= a);
            assert(seq![a] + Seq::<Seq<char>>::empty() =~= seq![a]);
        }
    }
}

proof fn lemma_trim_start_append(a: Seq<char>, b: Seq<char>)
    requires
        all_space(a),
    ensures
        trim_start(a + b) == trim_start(b),
    decreases a.len(),
{
    if a.len() == 0 {
        assert(a + b =~= b);
    } else {
        assert((a + b).drop_first() =~= a.drop_first() + b);
        assert((a + b)[0] == a[0]);
        assert forall|i: int| 0 <= i < a.len() - 1 implies is_space(#[trigger] a.drop_first()[i]) by {
            assert(a.drop_first()[i] == a[i + 1]);
        }
        lemma_trim_start_append(a.drop_first(), b);
    }
}

proof fn lemma_without_spaces_append(a: Seq<char>, b: Seq<char>)
    ensures
        without_spaces(a + b) == without_spaces(a) + without_spaces(b),
    decreases b.len(),
{
    if b.len() == 0 {
        assert(a + b =~= a);
        assert(without_spaces(a) + without_spaces(b) =~= without_spaces(a));
    } else {
        assert((a + b).drop_last() =~= a + b.drop_last());
        assert((a + b).last() == b.last());
        lemma_without_spaces_append(a, b.drop_last());
        let x = without_spaces(a);
        let y = without_spaces(b.drop_last());
        assert((x + y).push(b.last()) =~= x + y.push(b.last()));
    }
}

proof fn lemma_without_all_space(s: Seq<char>)
    requires
        all_space(s),
    ensures
        without_spaces(s) == Seq::<char>::empty(),
    decreases s.len(),
{
    if s.len() > 0 {
        assert forall|i: int| 0 <= i < s.len() - 1 implies is_space(#[trigger] s.drop_last()[i]) by {
            assert(s.drop_last()[i] == s[i]);
        }
        lemma_without_all_space(s.drop_last());
    } else {
        assert(s =~= Seq::<char>::empty());
    }
}

proof fn lemma_without_no_space(s: Seq<char>)
    requires
        no_space(s),
    ensures
        without_spaces(s) == s,
    decreases s.len(),
{
    if s.len() > 0 {
        assert forall|i: int| 0 <= i < s.len() - 1 implies !is_space(#[trigger] s.drop_last()[i]) by {
            assert(s.drop_last()[i] == s[i]);
        }
        lemma_without_no_space(s.drop_last());
        assert(s.drop_last().push(s.last()) =~= s);
    }
}

/// Taking out white space takes it out of both parts of a text, takes out all of it, and
/// takes out nothing else.
pub proof fn removing_spaces_removes_only_them(a: Seq<char>, b: Seq<char>)
    ensures
        without_spaces(a + b) == without_spaces(a) + without_spaces(b),
        all_space(a) ==> without_spaces(a) == Seq::<char>::empty(),
        no_space(a) ==> without_spaces(a) == a,
{
    lemma_without_spaces_append(a, b);
    if all_space(a) {
        lemma_without_all_space(a);
    }
    if no_space(a) {
        lemma_without_no_space(a);
    }
}

// ---------------------------------------------------------------------------
// Lines and joining
// ---------------------------------------------------------------------------

/// No line holds a line feed.
pub proof fn lines_hold_no_feeds(s: Seq<char>)
    ensures
        forall|i: int| 0 <= i < lines(s).len() ==> !(#[trigger] lines(s)[i]).contains('\n'),
    decreases s.len(),
{
    if s.len() > 0 {
        lemma_line_len(s);
        let k = line_len(s) as int;
        if k < s.len() {
            let rest = lines(s.skip(k + 1));
            lines_hold_no_feeds(s.skip(k + 1));
            assert forall|i: int| 0 <= i < lines(s).len() implies !(#[trigger] lines(s)[i]).contains(
                '\n',
            ) by {
                if i > 0 {
                    assert(lines(s)[i] == rest[i - 1]);
                }
            }
        }
    }
}

/// Lines one after another, each with `end` behind it.
pub open spec fn terminated(all: Seq<Seq<char>>, end: Seq<char>) -> Seq<char>
    decreases all.len(),
{
    if all.len() == 0 {
        Seq::empty()
    } else {
        all[0] + end + terminated(all.drop_first(), end)
    }
}

/// Lines that are written down, each with a line feed or with a carriage return and a line
/// feed behind it, are read again as they were; and so is a last line without an end.
pub proof fn written_lines_are_read(all: Seq<Seq<char>>, last: Seq<char>, with_return: bool)
    requires
        forall|i: int|
            0 <= i < all.len() ==> !(#[trigger] all[i]).contains('\n') && (all[i].len() == 0
                || all[i].last() != '\r'),
        !last.contains('\n'),
    ensures
        ({
            let end = if with_return {
                seq!['\r', '\n']
            } else {
                seq!['\n']
            };
            let text = terminated(all, end) + last;
            lines(text) == if last.len() == 0 {
                all
            } else {
                all.push(last)
            }
        }),
    decreases all.len(),
{
    let end = if with_return {
        seq!['\r', '\n']
    } else {
        seq!['\n']
    };
    let text = terminated(all, end) + last;
    if all.len() == 0 {
        assert(text =~= last);
        lemma_line_len(last);
        if last.len() > 0 {
            let k = line_len(last) as int;
            if k < last.len() {
                assert(last.contains(last[k]));
            }
            assert(seq![last] =~= all.push(last));
        } else {
            assert(lines(last) =~= all);
        }
    } else {
        let first = all[0];
        let rest = all.drop_first();
        assert forall|i: int| 0 <= i < rest.len() implies !(#[trigger] rest[i]).contains('\n') && (
        rest[i].len() == 0 || rest[i].last() != '\r') by {
            assert(rest[i] == all[i + 1]);
        }
        written_lines_are_read(rest, last, with_return);
        let tail = terminated(rest, end) + last;
        assert(text =~= first + end + tail);
        let head = if with_return {
            first.push('\r')
        } else {
            first
        };
        let n = head.len() as int;
        assert(text =~= head + seq!['\n'] + tail);
        lemma_line_len(text);
        let k = line_len(text) as int;
        assert(text[n] == '\n');
        assert forall|i: int| 0 <= i < n implies #[trigger] text[i] != '\n' by {
            if i < first.len() {
                assert(text[i] == first[i]);
                assert(first.contains(first[i]));
            }
        }
        assert(k == n);
        assert(text.take(n) =~= head);
        assert(text.skip(n + 1) =~= tail);
        if with_return {
            assert(head.drop_last() =~= first);
        }
        assert(lines(text) == seq![first] + lines(tail));
        if last.len() == 0 {
            assert(seq![first] + rest =~= all);
        } else {
            assert(seq![first] + rest.push(last) =~= all.push(last));
        }
    }
}

/// Joining puts the separator between neighbours and nowhere else: nothing joins to
/// nothing, one part to itself, and two lists to what each joins to with the separator
/// between.
pub proof fn joining_joins_joined(a: Seq<Seq<char>>, b: Seq<Seq<char>>, sep: Seq<char>)
    ensures
        a.len() == 0 ==> joined(a, sep) == Seq::<char>::empty(),
        a.len() == 1 ==> joined(a, sep) == a[0],
        a.len() > 0 && b.len() > 0 ==> joined(a + b, sep) == joined(a, sep) + sep + joined(b, sep),
    decreases b.len(),
{
    if a.len() > 0 && b.len() > 0 {
        assert((a + b).drop_last() =~= a + b.drop_last());
        assert((a + b).last() == b.last());
        if b.len() == 1 {
            assert(a + b.drop_last() =~= a);
        } else {
            joining_joins_joined(a, b.drop_last(), sep);
            let x = joined(a, sep);
            let y = joined(b.drop_last(), sep);
            assert(x + sep + y + sep + b.last() =~= x + sep + (y + sep + b.last()));
        }
    }
}

// ---------------------------------------------------------------------------
// Searching and replacing
// ---------------------------------------------------------------------------

/// A text is taken apart at its first separator: the two parts with the separator between
/// them are the text, and the separator does not stand earlier.
pub proof fn splitting_finds_the_first(s: Seq<char>, sep: Seq<char>)
    ensures
        match split_first(s, sep) {
            Some((a, b)) => s == a + sep + b && forall|i: int|
                0 <= i < a.len() ==> !#[trigger] occurs_at(s, sep, i),
            None => !occurs_in(s, sep),
        },
{
    lemma_find_from(s, sep, 0);
    match find(s, sep) {
        Some(i) => {
            assert(s =~= s.take(i) + sep + s.skip(i + sep.len())) by {
                assert(s.subrange(i, i + sep.len()) == sep);
            }
        },
        None => {},
    }
}

/// Replacing changes the first place where a text stands, and that alone.
pub proof fn replacing_replaces_the_first(s: Seq<char>, old_text: Seq<char>, new_text: Seq<char>)
    ensures
        match split_first(s, old_text) {
            Some((a, b)) => s == a + old_text + b && replace_first(s, old_text, new_text) == a
                + new_text + b,
            None => replace_first(s, old_text, new_text) == s,
        },
{
    splitting_finds_the_first(s, old_text);
}

/// A text counts as often as it stands somewhere: not at all where it does not stand, and
/// else once more than behind its first place.
pub proof fn counting_counts_places(s: Seq<char>, needle: Seq<char>)
    requires
        needle.len() > 0,
    ensures
        count(s, needle) == 0 <==> !occurs_in(s, needle),
        match split_first(s, needle) {
            Some((a, b)) => count(s, needle) == 1 + count(b, needle),
            None => true,
        },
{
    lemma_find_from(s, needle, 0);
}

/// Making letters small keeps the length, changes capital letters of ASCII alone, and
/// changes nothing the second time.
pub proof fn small_letters_stay_small(s: Seq<char>)
    ensures
        lower(s).len() == s.len(),
        forall|i: int|
            0 <= i < s.len() ==> if 'A' <= s[i] && s[i] <= 'Z' {
                #[trigger] lower(s)[i] as u32 == s[i] as u32 + 32
            } else {
                lower(s)[i] == s[i]
            },
        lower(lower(s)) == lower(s),
{
    assert forall|i: int| 0 <= i < s.len() implies if 'A' <= s[i] && s[i] <= 'Z' {
        #[trigger] lower(s)[i] as u32 == s[i] as u32 + 32
    } else {
        lower(s)[i] == s[i]
    } by {}
    assert(lower(lower(s)) =~= lower(s));
}

/// Replacing a character changes just the places where it stands.
pub proof fn replacing_a_char_keeps_the_rest(s: Seq<char>, from: char, to: char)
    ensures
        with_char_replaced(s, from, to).len() == s.len(),
        forall|i: int|
            0 <= i < s.len() ==> #[trigger] with_char_replaced(s, from, to)[i] == if s[i] == from {
                to
            } else {
                s[i]
            },
        from != to ==> !with_char_replaced(s, from, to).contains(from),
{
}

/// So many copies of a text are that many times as long, and copies add up.
pub proof fn copies_add_up(s: Seq<char>, n: nat, m: nat)
    ensures
        repeated(s, n + m) == repeated(s, n) + repeated(s, m),
        repeated(s, 1) == s,
        repeated(s, 0) == Seq::<char>::empty(),
    decreases m,
{
    assert(repeated(s, 0) =~= Seq::<char>::empty());
    assert(repeated(s, 1) =~= s) by {
        assert(repeated(s, 1) == repeated(s, 0) + s);
    }
    if m == 0 {
        assert(repeated(s, n) + repeated(s, 0) =~= repeated(s, n));
    } else {
        copies_add_up(s, n, (m - 1) as nat);
        let k = (m - 1) as nat;
        assert((n + m) as nat - 1 == n + k);
        assert(repeated(s, n) + repeated(s, k) + s =~= repeated(s, n) + (repeated(s, k) + s));
    }
}

// ---------------------------------------------------------------------------
// Numbers
// ---------------------------------------------------------------------------

/// What is written in decimal is read as the same number, with nothing but digits and no
/// needless zero before it; so different numbers are written differently.
pub proof fn decimals_are_read_back(n: nat)
    ensures
        digits_value(decimal(n)) == Some(n),
        decimal(n).len() > 0,
        n > 0 ==> decimal(n)[0] != '0',
        forall|i: int| 0 <= i < decimal(n).len() ==> '0' <= #[trigger] decimal(n)[i] <= '9',
        n <= usize::MAX ==> parsed_usize(decimal(n)) == Some(n as usize),
    decreases n,
{
    if n < 10 {
        assert(decimal(n).drop_last() =~= Seq::<char>::empty());
        assert(digits_value(Seq::<char>::empty()) == Some(0nat));
    } else {
        decimals_are_read_back(n / 10);
        assert(decimal(n).drop_last() =~= decimal(n / 10));
        assert(decimal(n).last() == crate::number::digit(n % 10));
        assert(decimal(n)[0] == decimal(n / 10)[0]);
    }
    assert(decimal(n)[0] != '+');
}

/// A number that is not negative is written without a sign, another with a minus sign
/// before what its opposite is written as.
pub proof fn signs_stand_before_negative_numbers(n: int)
    ensures
        n >= 0 ==> digits_value(signed_decimal(n)) == Some(n as nat),
        n < 0 ==> signed_decimal(n).len() > 0 && signed_decimal(n)[0] == '-' && digits_value(
            signed_decimal(n).drop_first(),
        ) == Some((-n) as nat),
{
    if n >= 0 {
        decimals_are_read_back(n as nat);
    } else {
        decimals_are_read_back((-n) as nat);
        assert(signed_decimal(n).drop_first() =~= decimal((-n) as nat));
    }
}

/// A digit behind a number makes it ten times as large, and as much larger as the digit says.
pub proof fn digits_count_in_tens(s: Seq<char>, c: char)
    requires
        digits_value(s) is Some,
    ensures
        digits_value(Seq::<char>::empty()) == Some(0nat),
        '0' <= c && c <= '9' ==> digits_value(s.push(c)) == Some(
            (digits_value(s)->0 * 10 + (c as u32 - '0' as u32)) as nat,
        ),
        !('0' <= c && c <= '9') ==> digits_value(s.push(c)) is None,
{
    assert(s.push(c).drop_last() =~= s);
}

/// A text is a number where it is made of digits, with a plus sign before them or not, and
/// fits; a sign alone, or nothing, is none.
pub proof fn only_digits_are_numbers(s: Seq<char>)
    requires
        s.len() > 0,
        s[0] != '+',
    ensures
        parsed_usize(s) == match digits_value(s) {
            Some(n) => if n <= usize::MAX {
                Some(n as usize)
            } else {
                None
            },
            None => None,
        },
        parsed_usize(seq!['+'] + s) == parsed_usize(s),
        parsed_usize(seq!['+']) is None,
        parsed_usize(Seq::empty()) is None,
{
    assert((seq!['+'] + s).drop_first() =~= s);
    assert(seq!['+'].drop_first() =~= Seq::<char>::empty());
}

/// A text begins with what stands at its front, and ends with what stands at its back; what
/// is left once the front is taken away is the rest.
pub proof fn fronts_and_backs_are_found(front: Seq<char>, rest: Seq<char>, s: Seq<char>)
    ensures
        begins(front + rest, front),
        ends(rest + front, front),
        after_prefix(front + rest, front) == Some(rest),
        begins(s, front) ==> exists|more: Seq<char>| s == #[trigger] (front + more),
        ends(s, front) ==> exists|more: Seq<char>| s == #[trigger] (more + front),
        !begins(s, front) ==> after_prefix(s, front) is None,
{
    assert((front + rest).take(front.len() as int) =~= front);
    assert((front + rest).skip(front.len() as int) =~= rest);
    assert((rest + front).skip(rest.len() as int) =~= front);
    if begins(s, front) {
        assert(s =~= front + s.skip(front.len() as int));
    }
    if ends(s, front) {
        assert(s =~= s.take(s.len() - front.len()) + front);
    }
}

} // verus!
