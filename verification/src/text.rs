//! Text as a sequence of characters: trimming, searching, splitting, joining.
//!
//! Every function here works on `Seq<char>`, the view of a string. The
//! executable functions read a string into a `Vec<char>` once and then index it.
use vstd::prelude::*;

verus! {

/// `String::push`: the character is appended at the end.
pub assume_specification[ String::push ](s: &mut String, c: char)
    ensures
        final(s)@ == old(s)@.push(c),
;

/// The views of a list of strings.
pub open spec fn views(v: Seq<String>) -> Seq<Seq<char>> {
    Seq::new(v.len(), |i: int| v[i]@)
}

/// The view of an optional string.
pub open spec fn opt_view(s: Option<String>) -> Option<Seq<char>> {
    match s {
        Some(x) => Some(x@),
        None => None,
    }
}

pub proof fn lemma_views_push(v: Seq<String>, s: String)
    ensures
        views(v.push(s)) == views(v).push(s@),
{
    assert(views(v.push(s)) =~= views(v).push(s@));
}

/// Whether two strings hold the same characters.
pub fn same(a: &str, b: &str) -> (r: bool)
    ensures
        r == (a@ == b@),
{
    a.to_owned() == b.to_owned()
}

/// The characters of a string.
pub fn to_chars(s: &str) -> (v: Vec<char>)
    ensures
        v@ == s@,
{
    let mut v: Vec<char> = Vec::new();
    for c in it: s.chars()
        invariant
            v@ == it.seq().take(it.index() as int),
            it.seq() == s@,
    {
        v.push(c);
    }
    v
}

/// The string made of the characters from `from` up to `to`.
pub fn slice_string(v: &Vec<char>, from: usize, to: usize) -> (s: String)
    requires
        from <= to <= v@.len(),
    ensures
        s@ == v@.subrange(from as int, to as int),
{
    let mut s = String::new();
    let mut i: usize = from;
    while i < to
        invariant
            from <= i <= to <= v@.len(),
            s@ == v@.subrange(from as int, i as int),
        decreases to - i,
    {
        s.push(v[i]);
        proof {
            assert(v@.subrange(from as int, i as int).push(v@[i as int]) =~= v@.subrange(
                from as int,
                i + 1,
            ));
        }
        i += 1;
    }
    s
}

/// An owned copy of a text, with a contract on its view.
pub fn owned(s: &str) -> (r: String)
    ensures
        r@ == s@,
{
    s.to_owned()
}

/// A copy of an optional string.
pub fn copy_opt(s: &Option<String>) -> (r: Option<String>)
    ensures
        opt_view(r) == opt_view(*s),
{
    match s {
        Some(x) => Some(x.clone()),
        None => None,
    }
}

/// A copy of a list of strings.
pub fn copy_strings(v: &Vec<String>) -> (r: Vec<String>)
    ensures
        views(r@) == views(v@),
{
    let mut r: Vec<String> = Vec::new();
    let mut i: usize = 0;
    while i < v.len()
        invariant
            i <= v@.len(),
            views(r@) == views(v@.take(i as int)),
        decreases v.len() - i,
    {
        let s = v[i].clone();
        proof {
            lemma_views_push(r@, s);
            assert(views(v@.take(i + 1)) =~= views(v@.take(i as int)).push(v@[i as int]@));
        }
        r.push(s);
        i += 1;
    }
    proof {
        assert(v@.take(v@.len() as int) =~= v@);
    }
    r
}

// ---------------------------------------------------------------------------
// White space
// ---------------------------------------------------------------------------

/// The characters with the Unicode property `White_Space`.
pub open spec fn is_space(c: char) -> bool {
    let n = c as u32;
    ||| 0x9 <= n <= 0xd
    ||| n == 0x20
    ||| n == 0x85
    ||| n == 0xa0
    ||| n == 0x1680
    ||| 0x2000 <= n <= 0x200a
    ||| n == 0x2028
    ||| n == 0x2029
    ||| n == 0x202f
    ||| n == 0x205f
    ||| n == 0x3000
}

/// Whether a character is white space.
pub fn is_whitespace(c: char) -> (r: bool)
    ensures
        r == is_space(c),
{
    let n: u32 = c as u32;
    (0x9 <= n && n <= 0xd) || n == 0x20 || n == 0x85 || n == 0xa0 || n == 0x1680 || (0x2000 <= n
        && n <= 0x200a) || n == 0x2028 || n == 0x2029 || n == 0x202f || n == 0x205f || n == 0x3000
}

/// The text without its leading white space.
pub open spec fn trim_start(s: Seq<char>) -> Seq<char>
    decreases s.len(),
{
    if s.len() > 0 && is_space(s[0]) {
        trim_start(s.drop_first())
    } else {
        s
    }
}

/// The text without its trailing white space.
pub open spec fn trim_end(s: Seq<char>) -> Seq<char>
    decreases s.len(),
{
    if s.len() > 0 && is_space(s.last()) {
        trim_end(s.drop_last())
    } else {
        s
    }
}

/// The text without white space at either end.
pub open spec fn trimmed(s: Seq<char>) -> Seq<char> {
    trim_end(trim_start(s))
}

/// The first position at or after `from` that holds no white space.
pub fn skip_spaces(v: &Vec<char>, from: usize) -> (i: usize)
    requires
        from <= v@.len(),
    ensures
        from <= i <= v@.len(),
        trim_start(v@.skip(from as int)) == v@.skip(i as int),
        i < v@.len() ==> !is_space(v@[i as int]),
{
    let mut i: usize = from;
    while i < v.len() && is_whitespace(v[i])
        invariant
            from <= i <= v@.len(),
            trim_start(v@.skip(from as int)) == trim_start(v@.skip(i as int)),
        decreases v.len() - i,
    {
        proof {
            assert(v@.skip(i as int).drop_first() =~= v@.skip(i + 1));
        }
        i += 1;
    }
    i
}

/// The end of the text from `from` up to `to` once its trailing white space is cut.
pub fn cut_spaces(v: &Vec<char>, from: usize, to: usize) -> (e: usize)
    requires
        from <= to <= v@.len(),
    ensures
        from <= e <= to,
        trim_end(v@.subrange(from as int, to as int)) == v@.subrange(from as int, e as int),
{
    let mut e: usize = to;
    while from < e && is_whitespace(v[e - 1])
        invariant
            from <= e <= to <= v@.len(),
            trim_end(v@.subrange(from as int, to as int)) == trim_end(
                v@.subrange(from as int, e as int),
            ),
        decreases e,
    {
        proof {
            assert(v@.subrange(from as int, e as int).drop_last() =~= v@.subrange(
                from as int,
                e - 1,
            ));
        }
        e -= 1;
    }
    e
}

/// `str::trim`.
pub fn trim(s: &str) -> (r: String)
    ensures
        r@ == trimmed(s@),
{
    let v = to_chars(s);
    proof {
        assert(v@.skip(0) =~= v@);
    }
    let a: usize = skip_spaces(&v, 0);
    let b: usize = cut_spaces(&v, a, v.len());
    proof {
        assert(v@.skip(a as int) =~= v@.subrange(a as int, v@.len() as int));
    }
    slice_string(&v, a, b)
}

/// `str::trim_start`.
pub fn trim_left(s: &str) -> (r: String)
    ensures
        r@ == trim_start(s@),
{
    let v = to_chars(s);
    proof {
        assert(v@.skip(0) =~= v@);
    }
    let a: usize = skip_spaces(&v, 0);
    proof {
        assert(v@.skip(a as int) =~= v@.subrange(a as int, v@.len() as int));
    }
    slice_string(&v, a, v.len())
}

// ---------------------------------------------------------------------------
// Searching
// ---------------------------------------------------------------------------

/// Whether `needle` stands in `hay` at position `i`.
pub open spec fn occurs_at(hay: Seq<char>, needle: Seq<char>, i: int) -> bool {
    &&& 0 <= i
    &&& i + needle.len() <= hay.len()
    &&& hay.subrange(i, i + needle.len()) == needle
}

/// The first position at or after `from` where `needle` stands in `hay`.
pub open spec fn find_from(hay: Seq<char>, needle: Seq<char>, from: int) -> Option<int>
    decreases hay.len() + 1 - from,
{
    if from + needle.len() > hay.len() {
        None
    } else if occurs_at(hay, needle, from) {
        Some(from)
    } else {
        find_from(hay, needle, from + 1)
    }
}

/// The first position where `needle` stands in `hay`.
pub open spec fn find(hay: Seq<char>, needle: Seq<char>) -> Option<int> {
    find_from(hay, needle, 0)
}

/// Whether `needle` stands somewhere in `hay`.
pub open spec fn occurs_in(hay: Seq<char>, needle: Seq<char>) -> bool {
    exists|i: int| occurs_at(hay, needle, i)
}

/// Whether `s` begins with `p`.
pub open spec fn begins(s: Seq<char>, p: Seq<char>) -> bool {
    p.len() <= s.len() && s.take(p.len() as int) == p
}

/// Whether `s` ends with `p`.
pub open spec fn ends(s: Seq<char>, p: Seq<char>) -> bool {
    p.len() <= s.len() && s.skip(s.len() - p.len()) == p
}

/// A search that succeeds names the first occurrence; one that fails means there is none.
pub proof fn lemma_find_from(hay: Seq<char>, needle: Seq<char>, from: int)
    requires
        0 <= from,
    ensures
        match find_from(hay, needle, from) {
            Some(i) => from <= i && occurs_at(hay, needle, i) && forall|j: int|
                from <= j < i ==> !occurs_at(hay, needle, j),
            None => forall|j: int| from <= j ==> !occurs_at(hay, needle, j),
        },
    decreases hay.len() + 1 - from,
{
    if from + needle.len() <= hay.len() && !occurs_at(hay, needle, from) {
        lemma_find_from(hay, needle, from + 1);
    }
}

/// A needle is found exactly where the haystack has it.
pub proof fn lemma_find_iff_occurs(hay: Seq<char>, needle: Seq<char>)
    ensures
        find(hay, needle) is Some <==> occurs_in(hay, needle),
{
    lemma_find_from(hay, needle, 0);
}

/// Whether `needle` stands at position `i`.
pub fn matches_at(hay: &Vec<char>, needle: &Vec<char>, i: usize) -> (r: bool)
    requires
        i <= hay@.len(),
    ensures
        r == occurs_at(hay@, needle@, i as int),
{
    if needle.len() > hay.len() - i {
        return false;
    }
    let mut k: usize = 0;
    while k < needle.len()
        invariant
            i + needle@.len() <= hay@.len() <= usize::MAX,
            k <= needle@.len(),
            forall|m: int| 0 <= m < k ==> hay@[i + m] == needle@[m],
        decreases needle.len() - k,
    {
        if hay[i + k] != needle[k] {
            proof {
                let part = hay@.subrange(i as int, i + needle@.len());
                assert(part[k as int] == hay@[i + k]);
            }
            return false;
        }
        k += 1;
    }
    proof {
        assert(hay@.subrange(i as int, i + needle@.len()) =~= needle@);
    }
    true
}

/// The first occurrence of `needle` at or after `from`.
pub fn search_from(hay: &Vec<char>, needle: &Vec<char>, from: usize) -> (r: Option<usize>)
    requires
        from <= hay@.len(),
    ensures
        match r {
            Some(i) => find_from(hay@, needle@, from as int) == Some(i as int) && from <= i && i
                + needle@.len() <= hay@.len(),
            None => find_from(hay@, needle@, from as int) is None,
        },
{
    let mut i: usize = from;
    while i <= hay.len() && needle.len() <= hay.len() - i
        invariant
            from <= i <= hay@.len() + 1,
            find_from(hay@, needle@, from as int) == find_from(hay@, needle@, i as int),
        decreases hay.len() + 1 - i,
    {
        if matches_at(hay, needle, i) {
            return Some(i);
        }
        if i == hay.len() {
            proof {
                assert(find_from(hay@, needle@, i + 1) is None);
            }
            return None;
        }
        i += 1;
    }
    None
}

/// The first occurrence of `needle` in a string, counted in characters.
pub fn search(hay: &str, needle: &str) -> (r: Option<usize>)
    ensures
        match r {
            Some(i) => find(hay@, needle@) == Some(i as int) && i + needle@.len() <= hay@.len(),
            None => find(hay@, needle@) is None,
        },
{
    let h = to_chars(hay);
    let n = to_chars(needle);
    search_from(&h, &n, 0)
}

/// `str::contains` with a string.
pub fn contains(hay: &str, needle: &str) -> (r: bool)
    ensures
        r == occurs_in(hay@, needle@),
{
    proof {
        lemma_find_iff_occurs(hay@, needle@);
    }
    search(hay, needle).is_some()
}

/// `str::starts_with` with a string.
pub fn starts_with(s: &str, p: &str) -> (r: bool)
    ensures
        r == begins(s@, p@),
{
    let v = to_chars(s);
    let w = to_chars(p);
    proof {
        if p@.len() <= s@.len() {
            assert(s@.subrange(0, 0 + p@.len() as int) =~= s@.take(p@.len() as int));
        }
    }
    matches_at(&v, &w, 0)
}

/// `str::ends_with` with a string.
pub fn ends_with(s: &str, p: &str) -> (r: bool)
    ensures
        r == ends(s@, p@),
{
    let v = to_chars(s);
    let w = to_chars(p);
    if w.len() > v.len() {
        return false;
    }
    proof {
        assert(s@.subrange(s@.len() - p@.len(), s@.len() - p@.len() + p@.len()) =~= s@.skip(
            s@.len() - p@.len(),
        ));
    }
    matches_at(&v, &w, v.len() - w.len())
}

/// The text after the prefix `p`, if it begins with it.
pub open spec fn after_prefix(s: Seq<char>, p: Seq<char>) -> Option<Seq<char>> {
    if begins(s, p) {
        Some(s.skip(p.len() as int))
    } else {
        None
    }
}

/// `str::strip_prefix` with a string.
pub fn strip_prefix(s: &str, p: &str) -> (r: Option<String>)
    ensures
        opt_view(r) == after_prefix(s@, p@),
{
    if starts_with(s, p) {
        let v = to_chars(s);
        let w = to_chars(p);
        proof {
            assert(v@.subrange(w@.len() as int, v@.len() as int) =~= s@.skip(p@.len() as int));
        }
        Some(slice_string(&v, w.len(), v.len()))
    } else {
        None
    }
}

/// The text before and after the first occurrence of `sep`.
pub open spec fn split_first(s: Seq<char>, sep: Seq<char>) -> Option<(Seq<char>, Seq<char>)> {
    match find(s, sep) {
        Some(i) => Some((s.take(i), s.skip(i + sep.len()))),
        None => None,
    }
}

/// `str::split_once` with a string.
pub fn split_once(s: &str, sep: &str) -> (r: Option<(String, String)>)
    ensures
        match r {
            Some((a, b)) => split_first(s@, sep@) == Some((a@, b@)),
            None => split_first(s@, sep@) is None,
        },
{
    let v = to_chars(s);
    let w = to_chars(sep);
    match search_from(&v, &w, 0) {
        Some(i) => {
            let n: usize = v.len();
            let a = slice_string(&v, 0, i);
            let b = slice_string(&v, i + w.len(), n);
            proof {
                assert(v@.subrange(0, i as int) =~= s@.take(i as int));
                assert(v@.subrange(i + w@.len(), v@.len() as int) =~= s@.skip(i + sep@.len()));
            }
            Some((a, b))
        },
        None => None,
    }
}

/// How often `needle` stands in `s`, reading from the left without overlaps.
pub open spec fn count(s: Seq<char>, needle: Seq<char>) -> nat
    recommends
        needle.len() > 0,
    decreases s.len(),
    when needle.len() > 0
    via count_decreases
{
    match find(s, needle) {
        Some(i) => 1 + count(s.skip(i + needle.len()), needle),
        None => 0,
    }
}

#[via_fn]
proof fn count_decreases(s: Seq<char>, needle: Seq<char>) {
    lemma_find_from(s, needle, 0);
}

/// `str::match_indices(needle).count()`.
pub fn count_occurrences(s: &str, needle: &str) -> (n: usize)
    requires
        needle@.len() > 0,
    ensures
        n == count(s@, needle@),
{
    let v = to_chars(s);
    let w = to_chars(needle);
    let mut n: usize = 0;
    let mut pos: usize = 0;
    proof {
        assert(v@.skip(0) =~= v@);
    }
    loop
        invariant
            v@ == s@,
            w@ == needle@,
            w@.len() > 0,
            n <= pos <= v@.len(),
            n + count(v@.skip(pos as int), w@) == count(v@, w@),
        decreases v.len() - pos,
    {
        proof {
            lemma_find_skip(v@, w@, pos as int);
        }
        match search_from(&v, &w, pos) {
            Some(i) => {
                proof {
                    lemma_find_from(v@, w@, pos as int);
                    assert(v@.skip(pos as int).skip(i - pos + w@.len()) =~= v@.skip(
                        i + w@.len(),
                    ));
                }
                n += 1;
                pos = i + w.len();
            },
            None => {
                return n;
            },
        }
    }
}

/// A search from `k` on is a search in what follows `k`, shifted.
pub proof fn lemma_find_skip(hay: Seq<char>, needle: Seq<char>, k: int)
    requires
        0 <= k <= hay.len(),
    ensures
        match find_from(hay, needle, k) {
            Some(i) => find(hay.skip(k), needle) == Some(i - k),
            None => find(hay.skip(k), needle) is None,
        },
{
    lemma_find_skip_from(hay, needle, k, 0);
}

proof fn lemma_find_skip_from(hay: Seq<char>, needle: Seq<char>, k: int, d: int)
    requires
        0 <= k <= hay.len(),
        0 <= d,
    ensures
        match find_from(hay, needle, k + d) {
            Some(i) => find_from(hay.skip(k), needle, d) == Some(i - k),
            None => find_from(hay.skip(k), needle, d) is None,
        },
    decreases hay.len() + 1 - k - d,
{
    if k + d + needle.len() <= hay.len() {
        assert(hay.skip(k).subrange(d, d + needle.len()) =~= hay.subrange(
            k + d,
            k + d + needle.len(),
        ));
        lemma_find_skip_from(hay, needle, k, d + 1);
    }
}

/// The text with the first occurrence of `old` replaced by `new`.
pub open spec fn replace_first(s: Seq<char>, old_text: Seq<char>, new_text: Seq<char>) -> Seq<char> {
    match find(s, old_text) {
        Some(i) => s.take(i) + new_text + s.skip(i + old_text.len()),
        None => s,
    }
}

/// `str::replacen(old, new, 1)`.
pub fn replace_once(s: &str, old_text: &str, new_text: &str) -> (r: String)
    ensures
        r@ == replace_first(s@, old_text@, new_text@),
{
    match split_once(s, old_text) {
        Some((a, b)) => a.concat(new_text).concat(b.as_str()),
        None => s.to_owned(),
    }
}

// ---------------------------------------------------------------------------
// Words and lines
// ---------------------------------------------------------------------------

/// The number of leading characters that are not white space.
pub open spec fn word_len(s: Seq<char>) -> nat
    decreases s.len(),
{
    if s.len() > 0 && !is_space(s[0]) {
        1 + word_len(s.drop_first())
    } else {
        0
    }
}

pub proof fn lemma_word_len_bound(s: Seq<char>)
    ensures
        word_len(s) <= s.len(),
    decreases s.len(),
{
    if s.len() > 0 && !is_space(s[0]) {
        lemma_word_len_bound(s.drop_first());
    }
}

pub proof fn lemma_trim_start_len(s: Seq<char>)
    ensures
        trim_start(s).len() <= s.len(),
        trim_start(s).len() > 0 ==> !is_space(trim_start(s)[0]),
    decreases s.len(),
{
    if s.len() > 0 && is_space(s[0]) {
        lemma_trim_start_len(s.drop_first());
    }
}

/// The words of a text: its longest runs of characters that are not white space.
pub open spec fn words(s: Seq<char>) -> Seq<Seq<char>>
    decreases s.len(),
    via words_decreases
{
    let t = trim_start(s);
    if t.len() == 0 {
        Seq::empty()
    } else {
        let k = word_len(t) as int;
        seq![t.take(k)] + words(t.skip(k))
    }
}

#[via_fn]
proof fn words_decreases(s: Seq<char>) {
    lemma_trim_start_len(s);
    lemma_word_len_bound(trim_start(s));
}

/// The end of the word that starts at `from`.
pub fn word_end(v: &Vec<char>, from: usize) -> (e: usize)
    requires
        from <= v@.len(),
    ensures
        from <= e <= v@.len(),
        e - from == word_len(v@.skip(from as int)),
{
    let mut e: usize = from;
    while e < v.len() && !is_whitespace(v[e])
        invariant
            from <= e <= v@.len(),
            word_len(v@.skip(from as int)) == e - from + word_len(v@.skip(e as int)),
        decreases v.len() - e,
    {
        proof {
            assert(v@.skip(e as int).drop_first() =~= v@.skip(e + 1));
        }
        e += 1;
    }
    e
}

/// `str::split_whitespace`, collected.
pub fn split_words(s: &str) -> (r: Vec<String>)
    ensures
        views(r@) == words(s@),
{
    let v = to_chars(s);
    let mut r: Vec<String> = Vec::new();
    let mut pos: usize = 0;
    proof {
        assert(v@.skip(0) =~= v@);
        assert(views(r@) + words(v@) =~= words(v@));
    }
    loop
        invariant
            v@ == s@,
            pos <= v@.len(),
            views(r@) + words(v@.skip(pos as int)) == words(s@),
        decreases v.len() - pos,
    {
        let a: usize = skip_spaces(&v, pos);
        if a == v.len() {
            proof {
                assert(views(r@) + words(v@.skip(pos as int)) =~= views(r@));
            }
            return r;
        }
        let e: usize = word_end(&v, a);
        let w = slice_string(&v, a, e);
        proof {
            let t = v@.skip(a as int);
            let k = word_len(t) as int;
            assert(t.take(k) =~= v@.subrange(a as int, e as int));
            assert(t.skip(k) =~= v@.skip(e as int));
            lemma_views_push(r@, w);
            assert(views(r@) + (seq![w@] + words(v@.skip(e as int))) =~= views(r@).push(w@)
                + words(v@.skip(e as int)));
        }
        r.push(w);
        pos = e;
    }
}

/// The position of the first line feed, or the length of the text.
pub open spec fn line_len(s: Seq<char>) -> nat
    decreases s.len(),
{
    if s.len() > 0 && s[0] != '\n' {
        1 + line_len(s.drop_first())
    } else {
        0
    }
}

pub proof fn lemma_line_len(s: Seq<char>)
    ensures
        line_len(s) <= s.len(),
        line_len(s) < s.len() ==> s[line_len(s) as int] == '\n',
        forall|i: int| 0 <= i < line_len(s) ==> s[i] != '\n',
    decreases s.len(),
{
    if s.len() > 0 && s[0] != '\n' {
        lemma_line_len(s.drop_first());
        assert forall|i: int| 0 <= i < line_len(s) implies s[i] != '\n' by {
            if i > 0 {
                assert(s.drop_first()[i - 1] == s[i]);
            }
        }
    }
}

/// A line without the carriage return at its end.
pub open spec fn without_return(s: Seq<char>) -> Seq<char> {
    if s.len() > 0 && s.last() == '\r' {
        s.drop_last()
    } else {
        s
    }
}

/// The lines of a text: each ends with a line feed, with or without a carriage
/// return before it; the last one may lack the line feed and then keeps every character.
pub open spec fn lines(s: Seq<char>) -> Seq<Seq<char>>
    decreases s.len(),
    via lines_decreases
{
    if s.len() == 0 {
        Seq::empty()
    } else {
        let k = line_len(s) as int;
        if k == s.len() {
            seq![s]
        } else {
            seq![without_return(s.take(k))] + lines(s.skip(k + 1))
        }
    }
}

#[via_fn]
proof fn lines_decreases(s: Seq<char>) {
    lemma_line_len(s);
}

/// The position of the first line feed at or after `from`, or the length.
pub fn line_end(v: &Vec<char>, from: usize) -> (e: usize)
    requires
        from <= v@.len(),
    ensures
        from <= e <= v@.len(),
        e - from == line_len(v@.skip(from as int)),
{
    let mut e: usize = from;
    while e < v.len() && v[e] != '\n'
        invariant
            from <= e <= v@.len(),
            line_len(v@.skip(from as int)) == e - from + line_len(v@.skip(e as int)),
        decreases v.len() - e,
    {
        proof {
            assert(v@.skip(e as int).drop_first() =~= v@.skip(e + 1));
        }
        e += 1;
    }
    e
}

/// `str::lines`, collected.
pub fn split_lines(s: &str) -> (r: Vec<String>)
    ensures
        views(r@) == lines(s@),
{
    let v = to_chars(s);
    let mut r: Vec<String> = Vec::new();
    let mut pos: usize = 0;
    proof {
        assert(v@.skip(0) =~= v@);
        assert(views(r@) + lines(v@) =~= lines(v@));
    }
    while pos < v.len()
        invariant
            v@ == s@,
            pos <= v@.len(),
            views(r@) + lines(v@.skip(pos as int)) == lines(s@),
        decreases v.len() - pos,
    {
        let e: usize = line_end(&v, pos);
        let ghost t = v@.skip(pos as int);
        if e == v.len() {
            let w = slice_string(&v, pos, e);
            proof {
                assert(t =~= v@.subrange(pos as int, e as int));
                lemma_views_push(r@, w);
                assert(views(r@) + seq![w@] =~= views(r@).push(w@));
            }
            r.push(w);
            return r;
        }
        let b: usize = if e > pos && v[e - 1] == '\r' {
            e - 1
        } else {
            e
        };
        let w = slice_string(&v, pos, b);
        proof {
            let k = e - pos;
            assert(t.take(k) =~= v@.subrange(pos as int, e as int));
            assert(without_return(t.take(k)) =~= v@.subrange(pos as int, b as int));
            assert(t.skip(k + 1) =~= v@.skip(e + 1));
            lemma_views_push(r@, w);
            assert(views(r@) + (seq![w@] + lines(v@.skip(e + 1))) =~= views(r@).push(w@) + lines(
                v@.skip(e + 1),
            ));
        }
        r.push(w);
        pos = e + 1;
    }
    proof {
        assert(views(r@) + lines(v@.skip(pos as int)) =~= views(r@));
    }
    r
}

// ---------------------------------------------------------------------------
// Joining and mapping
// ---------------------------------------------------------------------------

/// The parts one after another with `sep` between neighbours.
pub open spec fn joined(parts: Seq<Seq<char>>, sep: Seq<char>) -> Seq<char>
    decreases parts.len(),
{
    if parts.len() == 0 {
        Seq::empty()
    } else if parts.len() == 1 {
        parts[0]
    } else {
        joined(parts.drop_last(), sep) + sep + parts.last()
    }
}

/// `[String]::join`.
pub fn join(parts: &Vec<String>, sep: &str) -> (r: String)
    ensures
        r@ == joined(views(parts@), sep@),
{
    let mut r = String::new();
    let mut i: usize = 0;
    while i < parts.len()
        invariant
            i <= parts@.len(),
            r@ == joined(views(parts@).take(i as int), sep@),
        decreases parts.len() - i,
    {
        proof {
            let next = views(parts@).take(i + 1);
            assert(next.drop_last() =~= views(parts@).take(i as int));
            if i == 0 {
                assert(Seq::<char>::empty() + parts@[0]@ =~= parts@[0]@);
            }
        }
        if i > 0 {
            r.append(sep);
        }
        r.append(parts[i].as_str());
        i += 1;
    }
    proof {
        assert(views(parts@).take(parts@.len() as int) =~= views(parts@));
    }
    r
}

/// `n` copies of a text.
pub open spec fn repeated(s: Seq<char>, n: nat) -> Seq<char>
    decreases n,
{
    if n == 0 {
        Seq::empty()
    } else {
        repeated(s, (n - 1) as nat) + s
    }
}

/// `str::repeat`.
pub fn repeat(s: &str, n: usize) -> (r: String)
    ensures
        r@ == repeated(s@, n as nat),
{
    let mut r = String::new();
    let mut i: usize = 0;
    while i < n
        invariant
            i <= n,
            r@ == repeated(s@, i as nat),
        decreases n - i,
    {
        r.append(s);
        i += 1;
    }
    r
}

/// A character with the capital letters `A` to `Z` made small.
pub open spec fn lower_char(c: char) -> char {
    if 'A' <= c && c <= 'Z' {
        ((c as u32 + 32) as u32) as char
    } else {
        c
    }
}

/// A text with the capital letters `A` to `Z` made small.
pub open spec fn lower(s: Seq<char>) -> Seq<char> {
    Seq::new(s.len(), |i: int| lower_char(s[i]))
}

/// `char::to_ascii_lowercase`.
pub fn to_lower_char(c: char) -> (r: char)
    ensures
        r == lower_char(c),
{
    if 'A' <= c && c <= 'Z' {
        ((c as u8) + 32) as char
    } else {
        c
    }
}

/// `str::to_ascii_lowercase`.
pub fn to_lower(s: &str) -> (r: String)
    ensures
        r@ == lower(s@),
{
    let v = to_chars(s);
    let mut r = String::new();
    let mut i: usize = 0;
    while i < v.len()
        invariant
            v@ == s@,
            i <= v@.len(),
            r@ == lower(s@).take(i as int),
        decreases v.len() - i,
    {
        r.push(to_lower_char(v[i]));
        proof {
            assert(lower(s@).take(i + 1) =~= lower(s@).take(i as int).push(lower_char(s@[i as int])));
        }
        i += 1;
    }
    proof {
        assert(lower(s@).take(s@.len() as int) =~= lower(s@));
    }
    r
}

/// The characters that are not white space, in their order.
pub open spec fn without_spaces(s: Seq<char>) -> Seq<char>
    decreases s.len(),
{
    if s.len() == 0 {
        s
    } else if is_space(s.last()) {
        without_spaces(s.drop_last())
    } else {
        without_spaces(s.drop_last()).push(s.last())
    }
}

/// The text with every white space character taken out.
pub fn remove_spaces(s: &str) -> (r: String)
    ensures
        r@ == without_spaces(s@),
{
    let v = to_chars(s);
    let mut r = String::new();
    let mut i: usize = 0;
    while i < v.len()
        invariant
            v@ == s@,
            i <= v@.len(),
            r@ == without_spaces(s@.take(i as int)),
        decreases v.len() - i,
    {
        proof {
            assert(s@.take(i + 1).drop_last() =~= s@.take(i as int));
        }
        if !is_whitespace(v[i]) {
            r.push(v[i]);
        }
        i += 1;
    }
    proof {
        assert(s@.take(s@.len() as int) =~= s@);
    }
    r
}

/// The text with every `from` replaced by `to`.
pub open spec fn with_char_replaced(s: Seq<char>, from: char, to: char) -> Seq<char> {
    Seq::new(s.len(), |i: int| if s[i] == from { to } else { s[i] })
}

/// `str::replace` of one character by another.
pub fn replace_char(s: &str, from: char, to: char) -> (r: String)
    ensures
        r@ == with_char_replaced(s@, from, to),
{
    let v = to_chars(s);
    let mut r = String::new();
    let mut i: usize = 0;
    let ghost goal = with_char_replaced(s@, from, to);
    while i < v.len()
        invariant
            v@ == s@,
            goal == with_char_replaced(s@, from, to),
            i <= v@.len(),
            r@ == goal.take(i as int),
        decreases v.len() - i,
    {
        if v[i] == from {
            r.push(to);
        } else {
            r.push(v[i]);
        }
        proof {
            assert(goal.take(i + 1) =~= goal.take(i as int).push(goal[i as int]));
        }
        i += 1;
    }
    proof {
        assert(goal.take(s@.len() as int) =~= goal);
    }
    r
}

} // verus!
