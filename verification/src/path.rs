//! Slash-separated paths as text: components, joining, and lexical normalization.
//!
//! These are the rules of `std::path` on Unix, which this crate is for: only `/` parts
//! names, and only a leading `/` makes a path absolute. A drive letter or a backslash is
//! part of a name there, so a path written the way of Windows is a relative one.
use vstd::prelude::*;
use crate::text::{
    join as join_text, joined, lemma_views_push, opt_view, owned, same, slice_string, to_chars,
    views,
};

verus! {

/// The name of the directory itself.
pub open spec fn dot() -> Seq<char> {
    seq!['.']
}

/// The name of the directory above.
pub open spec fn dot_dot() -> Seq<char> {
    seq!['.', '.']
}

/// The text between names.
pub open spec fn slash() -> Seq<char> {
    seq!['/']
}

/// Whether a path starts at the root.
pub open spec fn absolute(p: Seq<char>) -> bool {
    p.len() > 0 && p[0] == '/'
}

/// `Path::join`: an absolute second path replaces the first.
pub open spec fn joined_path(a: Seq<char>, b: Seq<char>) -> Seq<char> {
    if absolute(b) {
        b
    } else if a.len() == 0 || a.last() == '/' {
        a + b
    } else {
        a.push('/') + b
    }
}

/// The number of leading characters that are not slashes.
pub open spec fn name_len(s: Seq<char>) -> nat
    decreases s.len(),
{
    if s.len() > 0 && s[0] != '/' {
        1 + name_len(s.drop_first())
    } else {
        0
    }
}

/// The names of a path: its longest runs without a slash.
pub open spec fn segments(s: Seq<char>) -> Seq<Seq<char>>
    decreases s.len(),
    via segments_decreases
{
    if s.len() == 0 {
        Seq::empty()
    } else if s[0] == '/' {
        segments(s.drop_first())
    } else {
        let k = name_len(s) as int;
        seq![s.take(k)] + segments(s.skip(k))
    }
}

#[via_fn]
proof fn segments_decreases(s: Seq<char>) {
    lemma_name_len(s);
}

proof fn lemma_name_len(s: Seq<char>)
    ensures
        name_len(s) <= s.len(),
        name_len(s) < s.len() ==> s[name_len(s) as int] == '/',
        forall|i: int| 0 <= i < name_len(s) ==> s[i] != '/',
    decreases s.len(),
{
    if s.len() > 0 && s[0] != '/' {
        lemma_name_len(s.drop_first());
        assert forall|i: int| 0 <= i < name_len(s) implies s[i] != '/' by {
            if i > 0 {
                assert(s.drop_first()[i - 1] == s[i]);
            }
        }
    }
}

/// The names without those that mean the directory itself.
pub open spec fn without_dots(names: Seq<Seq<char>>) -> Seq<Seq<char>>
    decreases names.len(),
{
    if names.len() == 0 {
        names
    } else if names.last() == dot() {
        without_dots(names.drop_last())
    } else {
        without_dots(names.drop_last()).push(names.last())
    }
}

/// The components of a path: the root, a leading `.`, and the names other than `.`.
pub open spec fn components(p: Seq<char>) -> Seq<Seq<char>> {
    let names = segments(p);
    if absolute(p) {
        seq![slash()] + without_dots(names)
    } else if names.len() > 0 && names[0] == dot() {
        seq![dot()] + without_dots(names)
    } else {
        without_dots(names)
    }
}

/// `Path::starts_with`: whether the components of `base` come first in `p`.
pub open spec fn path_begins(p: Seq<char>, base: Seq<char>) -> bool {
    components(base).is_prefix_of(components(p))
}

/// The names that are left once `.` is dropped and `..` takes the name before it away.
pub open spec fn resolved(names: Seq<Seq<char>>) -> Seq<Seq<char>>
    decreases names.len(),
{
    if names.len() == 0 {
        names
    } else {
        let before = resolved(names.drop_last());
        if names.last() == dot() {
            before
        } else if names.last() == dot_dot() {
            if before.len() > 0 {
                before.drop_last()
            } else {
                before
            }
        } else {
            before.push(names.last())
        }
    }
}

/// The path with the given names.
pub open spec fn rendered(rooted: bool, names: Seq<Seq<char>>) -> Seq<char> {
    if rooted {
        slash() + joined(names, slash())
    } else {
        joined(names, slash())
    }
}

/// The path without `.`, `..` and doubled slashes, by its text alone.
pub open spec fn normalized(p: Seq<char>) -> Seq<char> {
    rendered(absolute(p), resolved(segments(p)))
}

/// Whether a name is one that a directory entry can have.
pub open spec fn is_plain_name(name: Seq<char>) -> bool {
    &&& name.len() > 0
    &&& name != dot()
    &&& name != dot_dot()
    &&& forall|i: int| 0 <= i < name.len() ==> #[trigger] name[i] != '/'
}

/// Whether all names are plain.
pub open spec fn all_plain(names: Seq<Seq<char>>) -> bool {
    forall|i: int| 0 <= i < names.len() ==> is_plain_name(#[trigger] names[i])
}

/// Whether all names are non-empty and free of slashes.
pub open spec fn all_names(names: Seq<Seq<char>>) -> bool {
    forall|i: int| 0 <= i < names.len() ==> is_name(#[trigger] names[i])
}

/// Whether a text is non-empty and free of slashes.
pub open spec fn is_name(name: Seq<char>) -> bool {
    &&& name.len() > 0
    &&& forall|i: int| 0 <= i < name.len() ==> #[trigger] name[i] != '/'
}

/// The last name of a path, unless it is `..` or there is none.
pub open spec fn last_name(p: Seq<char>) -> Option<Seq<char>> {
    let names = without_dots(segments(p));
    if names.len() > 0 && names.last() != dot_dot() {
        Some(names.last())
    } else {
        None
    }
}

/// The position of the last dot of a name, or -1.
pub open spec fn last_dot(name: Seq<char>) -> int
    decreases name.len(),
{
    if name.len() == 0 {
        -1
    } else if name.last() == '.' {
        name.len() - 1
    } else {
        last_dot(name.drop_last())
    }
}

/// What follows the last dot of the last name, unless that dot is its first character.
pub open spec fn path_extension(p: Seq<char>) -> Option<Seq<char>> {
    match last_name(p) {
        Some(name) => if last_dot(name) > 0 {
            Some(name.skip(last_dot(name) + 1))
        } else {
            None
        },
        None => None,
    }
}

/// The path `p` and the paths above it, nearest first, for a path of names.
pub open spec fn ancestor_paths(rooted: bool, names: Seq<Seq<char>>) -> Seq<Seq<char>>
    decreases names.len(),
{
    if names.len() == 0 {
        seq![rendered(rooted, names)]
    } else {
        seq![rendered(rooted, names)] + ancestor_paths(rooted, names.drop_last())
    }
}

/// The directory that a file lies in.
pub open spec fn directory_of(path: Seq<char>) -> Seq<char> {
    if segments(path).len() == 0 {
        path
    } else {
        rendered(absolute(path), segments(path).drop_last())
    }
}

/// `Path::strip_prefix` with the path itself where it does not lie below `base`: what
/// follows the components of `base`.
pub open spec fn relative_path(p: Seq<char>, base: Seq<char>) -> Seq<char> {
    if path_begins(p, base) {
        joined(components(p).skip(components(base).len() as int), slash())
    } else {
        p
    }
}

// ---------------------------------------------------------------------------
// Executable code
// ---------------------------------------------------------------------------

/// Whether a path starts at the root.
pub fn is_absolute(p: &str) -> (r: bool)
    ensures
        r == absolute(p@),
{
    let v = to_chars(p);
    v.len() > 0 && v[0] == '/'
}

/// `Path::join`.
pub fn join(a: &str, b: &str) -> (r: String)
    ensures
        r@ == joined_path(a@, b@),
{
    if is_absolute(b) {
        return owned(b);
    }
    let v = to_chars(a);
    let mut r = owned(a);
    if v.len() > 0 && v[v.len() - 1] != '/' {
        r.push('/');
    }
    r.append(b);
    r
}

/// The names of a path.
pub fn split_segments(p: &str) -> (r: Vec<String>)
    ensures
        views(r@) == segments(p@),
{
    let v = to_chars(p);
    let mut r: Vec<String> = Vec::new();
    let mut pos: usize = 0;
    proof {
        assert(v@.skip(0) =~= v@);
        assert(views(r@) + segments(v@) =~= segments(v@));
    }
    while pos < v.len()
        invariant
            pos <= v@.len(),
            v@ == p@,
            views(r@) + segments(v@.skip(pos as int)) == segments(p@),
        decreases v.len() - pos,
    {
        let ghost rest = v@.skip(pos as int);
        if v[pos] == '/' {
            proof {
                assert(rest.drop_first() =~= v@.skip(pos + 1));
            }
            pos += 1;
        } else {
            let mut e: usize = pos;
            while e < v.len() && v[e] != '/'
                invariant
                    pos <= e <= v@.len(),
                    name_len(v@.skip(pos as int)) == e - pos + name_len(v@.skip(e as int)),
                decreases v.len() - e,
            {
                proof {
                    assert(v@.skip(e as int).drop_first() =~= v@.skip(e + 1));
                }
                e += 1;
            }
            let name = slice_string(&v, pos, e);
            proof {
                let k = name_len(rest) as int;
                assert(k == e - pos);
                assert(rest.take(k) =~= v@.subrange(pos as int, e as int));
                assert(rest.skip(k) =~= v@.skip(e as int));
                lemma_views_push(r@, name);
                assert(views(r@) + (seq![name@] + segments(v@.skip(e as int))) =~= views(r@).push(
                    name@,
                ) + segments(v@.skip(e as int)));
            }
            r.push(name);
            pos = e;
        }
    }
    proof {
        assert(views(r@) + segments(v@.skip(pos as int)) =~= views(r@));
    }
    r
}

fn is_dot(name: &str) -> (r: bool)
    ensures
        r == (name@ == dot()),
{
    proof {
        reveal_strlit(".");
        assert("."@ =~= dot());
    }
    same(name, ".")
}

fn is_dot_dot(name: &str) -> (r: bool)
    ensures
        r == (name@ == dot_dot()),
{
    proof {
        reveal_strlit("..");
        assert(".."@ =~= dot_dot());
    }
    same(name, "..")
}

/// The names without those that mean the directory itself.
pub fn drop_dots(names: Vec<String>) -> (r: Vec<String>)
    ensures
        views(r@) == without_dots(views(names@)),
{
    let mut r: Vec<String> = Vec::new();
    let mut i: usize = 0;
    let ghost all = views(names@);
    proof {
        assert(views(r@) =~= without_dots(all.take(0)));
    }
    while i < names.len()
        invariant
            i <= names@.len(),
            all == views(names@),
            views(r@) == without_dots(all.take(i as int)),
        decreases names.len() - i,
    {
        proof {
            assert(all.take(i + 1).drop_last() =~= all.take(i as int));
            assert(all.take(i + 1).last() == names@[i as int]@);
        }
        if !is_dot(names[i].as_str()) {
            let name = names[i].clone();
            proof {
                lemma_views_push(r@, name);
            }
            r.push(name);
        }
        i += 1;
    }
    proof {
        assert(all.take(names@.len() as int) =~= all);
    }
    r
}

/// The components of a path.
pub fn split_components(p: &str) -> (r: Vec<String>)
    ensures
        views(r@) == components(p@),
{
    let names = split_segments(p);
    let mut r: Vec<String> = Vec::new();
    if is_absolute(p) {
        let mut root = String::new();
        root.push('/');
        proof {
            assert(root@ =~= slash());
        }
        r.push(root);
    } else if names.len() > 0 && is_dot(names[0].as_str()) {
        r.push(names[0].clone());
    }
    let mut rest = drop_dots(names);
    proof {
        assert(views(r@ + rest@) =~= views(r@) + views(rest@));
        if r@.len() == 0 {
            assert(views(r@) + views(rest@) =~= views(rest@));
        } else {
            assert(views(r@) =~= seq![r@[0]@]);
        }
    }
    r.append(&mut rest);
    r
}

/// `Path::starts_with`.
pub fn path_starts_with(p: &str, base: &str) -> (r: bool)
    ensures
        r == path_begins(p@, base@),
{
    let a = split_components(p);
    let b = split_components(base);
    proof {
        assert(components(p@).len() == a@.len());
        assert(components(base@).len() == b@.len());
    }
    if b.len() > a.len() {
        return false;
    }
    let mut i: usize = 0;
    while i < b.len()
        invariant
            i <= b@.len() <= a@.len(),
            views(a@) == components(p@),
            views(b@) == components(base@),
            forall|k: int| 0 <= k < i ==> components(base@)[k] == components(p@)[k],
        decreases b.len() - i,
    {
        proof {
            assert(views(a@)[i as int] == a@[i as int]@);
            assert(views(b@)[i as int] == b@[i as int]@);
        }
        if a[i] != b[i] {
            proof {
                let pre = components(p@).subrange(0, components(base@).len() as int);
                assert(pre[i as int] == a@[i as int]@);
            }
            return false;
        }
        i += 1;
    }
    proof {
        assert(components(base@) =~= components(p@).subrange(0, components(base@).len() as int));
    }
    true
}

/// The path relative to `base`, or the path itself where it does not lie below it.
pub fn strip_base(p: &str, base: &str) -> (r: String)
    ensures
        r@ == relative_path(p@, base@),
{
    if !path_starts_with(p, base) {
        return owned(p);
    }
    let all = split_components(p);
    let skipped: usize = split_components(base).len();
    proof {
        assert(components(p@).len() == all@.len());
        assert(components(base@).len() == skipped);
        reveal_strlit("/");
        assert("/"@ =~= slash());
    }
    let mut rest: Vec<String> = Vec::new();
    let mut i: usize = skipped;
    while i < all.len()
        invariant
            skipped <= i <= all@.len(),
            views(rest@) == views(all@).subrange(skipped as int, i as int),
        decreases all.len() - i,
    {
        let name = all[i].clone();
        proof {
            lemma_views_push(rest@, name);
            assert(views(all@).subrange(skipped as int, i + 1) =~= views(all@).subrange(
                skipped as int,
                i as int,
            ).push(all@[i as int]@));
        }
        rest.push(name);
        i += 1;
    }
    proof {
        assert(views(all@).subrange(skipped as int, all@.len() as int) =~= components(p@).skip(
            skipped as int,
        ));
    }
    join_text(&rest, "/")
}

/// The names that are left once `.` and `..` are resolved.
pub fn resolve_names(names: &Vec<String>) -> (r: Vec<String>)
    ensures
        views(r@) == resolved(views(names@)),
{
    let mut r: Vec<String> = Vec::new();
    let mut i: usize = 0;
    let ghost all = views(names@);
    proof {
        assert(views(r@) =~= resolved(all.take(0)));
    }
    while i < names.len()
        invariant
            i <= names@.len(),
            all == views(names@),
            views(r@) == resolved(all.take(i as int)),
        decreases names.len() - i,
    {
        proof {
            assert(all.take(i + 1).drop_last() =~= all.take(i as int));
            assert(all.take(i + 1).last() == names@[i as int]@);
            assert(views(r@).len() == r@.len());
        }
        if is_dot(names[i].as_str()) {
        } else if is_dot_dot(names[i].as_str()) {
            if r.len() > 0 {
                proof {
                    assert(views(r@.drop_last()) =~= views(r@).drop_last());
                }
                let _ = r.pop();
            }
        } else {
            let name = names[i].clone();
            proof {
                lemma_views_push(r@, name);
            }
            r.push(name);
        }
        i += 1;
    }
    proof {
        assert(all.take(names@.len() as int) =~= all);
    }
    r
}

/// The path with the given names.
pub fn render(rooted: bool, names: &Vec<String>) -> (r: String)
    ensures
        r@ == rendered(rooted, views(names@)),
{
    proof {
        reveal_strlit("/");
        assert("/"@ =~= slash());
    }
    let body = join_text(names, "/");
    if rooted {
        let mut r = String::new();
        r.push('/');
        r.append(body.as_str());
        proof {
            assert(r@ =~= slash() + body@);
        }
        r
    } else {
        body
    }
}

/// The path without `.`, `..` and doubled slashes, by its text alone.
pub fn normalize_path(p: &str) -> (r: String)
    ensures
        r@ == normalized(p@),
{
    let names = resolve_names(&split_segments(p));
    render(is_absolute(p), &names)
}

/// `Path::file_name`.
pub fn file_name(p: &str) -> (r: Option<String>)
    ensures
        opt_view(r) == last_name(p@),
{
    let names = drop_dots(split_segments(p));
    proof {
        assert(views(names@).len() == names@.len());
    }
    if names.len() == 0 {
        return None;
    }
    let last: usize = names.len() - 1;
    proof {
        assert(views(names@).last() == names@[last as int]@);
    }
    if is_dot_dot(names[last].as_str()) {
        None
    } else {
        Some(names[last].clone())
    }
}

/// `Path::extension`.
pub fn extension(p: &str) -> (r: Option<String>)
    ensures
        opt_view(r) == path_extension(p@),
{
    match file_name(p) {
        Some(name) => {
            let v = to_chars(name.as_str());
            let mut e: usize = v.len();
            proof {
                assert(v@.take(v@.len() as int) =~= v@);
            }
            while e > 0 && v[e - 1] != '.'
                invariant
                    e <= v@.len(),
                    v@ == name@,
                    last_dot(v@) == last_dot(v@.take(e as int)),
                decreases e,
            {
                proof {
                    assert(v@.take(e as int).drop_last() =~= v@.take(e - 1));
                }
                e -= 1;
            }
            if e > 1 {
                proof {
                    assert(v@.subrange(e as int, v@.len() as int) =~= name@.skip(
                        last_dot(name@) + 1,
                    ));
                }
                Some(slice_string(&v, e, v.len()))
            } else {
                None
            }
        },
        None => None,
    }
}

/// The directory that a file lies in.
pub fn parent_of(path: &str) -> (r: String)
    ensures
        r@ == directory_of(path@),
{
    let mut names = split_segments(path);
    proof {
        assert(views(names@).len() == names@.len());
    }
    if names.len() == 0 {
        return owned(path);
    }
    proof {
        assert(views(names@.drop_last()) =~= views(names@).drop_last());
    }
    let _ = names.pop();
    render(is_absolute(path), &names)
}

/// The path and the paths above it, nearest first.
pub fn ancestors(rooted: bool, names: &Vec<String>) -> (r: Vec<String>)
    ensures
        views(r@) == ancestor_paths(rooted, views(names@)),
{
    let mut left = crate::text::copy_strings(names);
    let mut r: Vec<String> = Vec::new();
    proof {
        assert(views(r@) + ancestor_paths(rooted, views(left@)) =~= ancestor_paths(
            rooted,
            views(left@),
        ));
    }
    loop
        invariant
            views(r@) + ancestor_paths(rooted, views(left@)) == ancestor_paths(
                rooted,
                views(names@),
            ),
        decreases left.len(),
    {
        let here = render(rooted, &left);
        let ghost before = views(r@);
        proof {
            lemma_views_push(r@, here);
            assert(views(left@).len() == left@.len());
        }
        r.push(here);
        if left.len() == 0 {
            proof {
                assert(before + seq![here@] =~= before.push(here@));
            }
            return r;
        }
        proof {
            assert(views(left@.drop_last()) =~= views(left@).drop_last());
            let tail = ancestor_paths(rooted, views(left@).drop_last());
            assert(before + (seq![here@] + tail) =~= before.push(here@) + tail);
        }
        let _ = left.pop();
    }
}

} // verus!
