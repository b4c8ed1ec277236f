//! What holds of normalized paths.
use vstd::prelude::*;
use crate::path::{
    absolute, all_names, all_plain, ancestor_paths, components, directory_of, dot, dot_dot, is_name,
    is_plain_name, joined_path, last_dot, last_name, name_len, normalized, path_begins,
    path_extension, relative_path, rendered, resolved, segments, slash, without_dots,
};
use crate::text::joined;

verus! {

proof fn lemma_name_then(x: Seq<char>, y: Seq<char>)
    requires
        forall|i: int| 0 <= i < x.len() ==> #[trigger] x[i] != '/',
        y.len() == 0 || y[0] == '/',
    ensures
        name_len(x + y) == x.len(),
    decreases x.len(),
{
    if x.len() == 0 {
        assert(x + y =~= y);
    } else {
        assert((x + y).drop_first() =~= x.drop_first() + y);
        assert forall|i: int| 0 <= i < x.drop_first().len() implies #[trigger] x.drop_first()[i]
            != '/' by {
            assert(x.drop_first()[i] == x[i + 1]);
        }
        assert((x + y)[0] == x[0]);
        lemma_name_then(x.drop_first(), y);
    }
}

proof fn lemma_name_len_facts(s: Seq<char>)
    ensures
        name_len(s) <= s.len(),
        name_len(s) < s.len() ==> s[name_len(s) as int] == '/',
        forall|i: int| 0 <= i < name_len(s) ==> #[trigger] s[i] != '/',
    decreases s.len(),
{
    if s.len() > 0 && s[0] != '/' {
        lemma_name_len_facts(s.drop_first());
        assert forall|i: int| 0 <= i < name_len(s) implies #[trigger] s[i] != '/' by {
            if i > 0 {
                assert(s.drop_first()[i - 1] == s[i]);
            }
        }
        let k = name_len(s.drop_first()) as int;
        if k < s.drop_first().len() {
            assert(s.drop_first()[k] == s[k + 1]);
        }
    }
}

/// The names of two texts put together are the names of both, where the second begins with a slash.
proof fn lemma_segments_append(a: Seq<char>, b: Seq<char>)
    requires
        b.len() == 0 || b[0] == '/',
    ensures
        segments(a + b) == segments(a) + segments(b),
    decreases a.len(),
{
    if a.len() == 0 {
        assert(a + b =~= b);
        assert(segments(a) + segments(b) =~= segments(b));
    } else if a[0] == '/' {
        assert((a + b).drop_first() =~= a.drop_first() + b);
        assert((a + b)[0] == '/');
        lemma_segments_append(a.drop_first(), b);
    } else {
        lemma_name_len_facts(a);
        let k = name_len(a) as int;
        let x = a.take(k);
        let y = a.skip(k) + b;
        assert(a + b =~= x + y);
        assert forall|i: int| 0 <= i < x.len() implies #[trigger] x[i] != '/' by {
            assert(x[i] == a[i]);
        }
        assert(y.len() == 0 || y[0] == '/');
        lemma_name_then(x, y);
        assert((a + b).take(k) =~= x);
        assert((a + b).skip(k) =~= y);
        assert((a + b)[0] == a[0]);
        lemma_segments_append(a.skip(k), b);
        assert(seq![x] + (segments(a.skip(k)) + segments(b)) =~= seq![x] + segments(a.skip(k))
            + segments(b));
    }
}

proof fn lemma_segments_of_name(x: Seq<char>)
    requires
        is_name(x),
    ensures
        segments(x) == seq![x],
{
    let none = Seq::<char>::empty();
    assert(x + none =~= x);
    lemma_name_then(x, none);
    assert(x.take(x.len() as int) =~= x);
    assert(x.skip(x.len() as int) =~= none);
    assert(x[0] != '/');
    assert(segments(none) =~= Seq::<Seq<char>>::empty());
    assert(seq![x] + Seq::<Seq<char>>::empty() =~= seq![x]);
}

/// Writing names down and reading them again gives the same names.
pub proof fn names_survive_rendering(rooted: bool, names: Seq<Seq<char>>)
    requires
        all_names(names),
    ensures
        segments(rendered(rooted, names)) == names,
        absolute(rendered(rooted, names)) == rooted,
{
    lemma_segments_joined(names);
    let body = joined(names, slash());
    if rooted {
        assert((slash() + body).drop_first() =~= body);
        assert((slash() + body)[0] == '/');
    }
}

/// A name put behind a slash is one more name.
proof fn lemma_segments_push(f: Seq<char>, last: Seq<char>)
    requires
        is_name(last),
    ensures
        segments(f + slash() + last) == segments(f).push(last),
{
    let tail = slash() + last;
    assert(f + slash() + last =~= f + tail);
    lemma_segments_append(f, tail);
    assert(tail[0] == '/');
    assert(tail.drop_first() =~= last);
    lemma_segments_of_name(last);
    assert(segments(tail) == seq![last]);
    assert(segments(f) + seq![last] =~= segments(f).push(last));
}

proof fn lemma_segments_joined(names: Seq<Seq<char>>)
    requires
        all_names(names),
    ensures
        segments(joined(names, slash())) == names,
        !absolute(joined(names, slash())),
    decreases names.len(),
{
    if names.len() == 0 {
        assert(segments(joined(names, slash())) =~= names);
    } else if names.len() == 1 {
        assert(is_name(names[0]));
        lemma_segments_of_name(names[0]);
        assert(seq![names[0]] =~= names);
        assert(names[0][0] != '/');
    } else {
        let front = names.drop_last();
        let last = names.last();
        assert(all_names(front)) by {
            assert forall|i: int| 0 <= i < front.len() implies is_name(#[trigger] front[i]) by {
                assert(front[i] == names[i]);
            }
        }
        lemma_segments_joined(front);
        assert(is_name(names[names.len() - 1]));
        let f = joined(front, slash());
        lemma_segments_push(f, last);
        assert(front.push(last) =~= names);
        assert(f.len() > 0) by {
            if f.len() == 0 {
                assert(segments(f) =~= Seq::<Seq<char>>::empty());
            }
        }
        assert((f + slash() + last)[0] == f[0]);
    }
}

/// The names of a path are non-empty and free of slashes.
pub proof fn segments_are_names(s: Seq<char>)
    ensures
        all_names(segments(s)),
    decreases s.len(),
{
    if s.len() > 0 {
        if s[0] == '/' {
            segments_are_names(s.drop_first());
        } else {
            lemma_name_len_facts(s);
            let k = name_len(s) as int;
            segments_are_names(s.skip(k));
            let rest = segments(s.skip(k));
            let all = segments(s);
            assert forall|i: int| 0 <= i < all.len() implies is_name(#[trigger] all[i]) by {
                if i == 0 {
                    assert(all[0] == s.take(k));
                    assert forall|j: int| 0 <= j < k implies #[trigger] s.take(k)[j] != '/' by {
                        assert(s.take(k)[j] == s[j]);
                    }
                } else {
                    assert(all[i] == rest[i - 1]);
                }
            }
        }
    }
}

/// A resolved list of names holds no `.` and no `..`.
pub proof fn resolved_names_are_plain(names: Seq<Seq<char>>)
    requires
        all_names(names),
    ensures
        all_plain(resolved(names)),
    decreases names.len(),
{
    if names.len() > 0 {
        let front = names.drop_last();
        assert(all_names(front)) by {
            assert forall|i: int| 0 <= i < front.len() implies is_name(#[trigger] front[i]) by {
                assert(front[i] == names[i]);
            }
        }
        resolved_names_are_plain(front);
        assert(is_name(names[names.len() - 1]));
    }
}

proof fn lemma_plain_are_names(names: Seq<Seq<char>>)
    requires
        all_plain(names),
    ensures
        all_names(names),
{
    assert forall|i: int| 0 <= i < names.len() implies is_name(#[trigger] names[i]) by {
        assert(is_plain_name(names[i]));
    }
}

/// Plain names are already resolved, and have no `.` among them.
pub proof fn plain_names_resolve_to_themselves(names: Seq<Seq<char>>)
    requires
        all_plain(names),
    ensures
        resolved(names) == names,
        without_dots(names) == names,
    decreases names.len(),
{
    if names.len() > 0 {
        let front = names.drop_last();
        assert(all_plain(front)) by {
            assert forall|i: int| 0 <= i < front.len() implies is_plain_name(
                #[trigger] front[i],
            ) by {
                assert(front[i] == names[i]);
            }
        }
        plain_names_resolve_to_themselves(front);
        assert(is_plain_name(names[names.len() - 1]));
        assert(front.push(names.last()) =~= names);
    }
}

/// A normalized path has only plain names: neither `.` nor `..` is left in it.
pub proof fn normalized_path_is_plain(p: Seq<char>)
    ensures
        all_plain(segments(normalized(p))),
        absolute(normalized(p)) == absolute(p),
{
    segments_are_names(p);
    resolved_names_are_plain(segments(p));
    lemma_plain_are_names(resolved(segments(p)));
    names_survive_rendering(absolute(p), resolved(segments(p)));
}

/// Normalizing twice is normalizing once.
pub proof fn normalize_is_idempotent(p: Seq<char>)
    ensures
        normalized(normalized(p)) == normalized(p),
{
    segments_are_names(p);
    resolved_names_are_plain(segments(p));
    lemma_plain_are_names(resolved(segments(p)));
    names_survive_rendering(absolute(p), resolved(segments(p)));
    plain_names_resolve_to_themselves(resolved(segments(p)));
}

/// The components of a normalized absolute path are the root and its names.
proof fn lemma_components_of_normalized(p: Seq<char>)
    requires
        absolute(p),
    ensures
        components(normalized(p)) == seq![slash()] + resolved(segments(p)),
{
    segments_are_names(p);
    resolved_names_are_plain(segments(p));
    lemma_plain_are_names(resolved(segments(p)));
    names_survive_rendering(true, resolved(segments(p)));
    plain_names_resolve_to_themselves(resolved(segments(p)));
}

proof fn lemma_resolved_append_plain(a: Seq<Seq<char>>, b: Seq<Seq<char>>)
    requires
        all_plain(b),
    ensures
        resolved(a + b) == resolved(a) + b,
    decreases b.len(),
{
    if b.len() == 0 {
        assert(a + b =~= a);
        assert(resolved(a) + b =~= resolved(a));
    } else {
        let front = b.drop_last();
        assert(all_plain(front)) by {
            assert forall|i: int| 0 <= i < front.len() implies is_plain_name(
                #[trigger] front[i],
            ) by {
                assert(front[i] == b[i]);
            }
        }
        lemma_resolved_append_plain(a, front);
        assert((a + b).drop_last() =~= a + front);
        assert((a + b).last() == b.last());
        assert(is_plain_name(b[b.len() - 1]));
        assert((resolved(a) + front).push(b.last()) =~= resolved(a) + b);
    }
}

/// The names of a joined path are the names of both.
pub proof fn joined_path_has_both_names(root: Seq<char>, p: Seq<char>)
    requires
        absolute(root),
        !absolute(p),
    ensures
        absolute(joined_path(root, p)),
        segments(joined_path(root, p)) == segments(root) + segments(p),
{
    let j = joined_path(root, p);
    if root.last() == '/' {
        let front = root.drop_last();
        assert(root =~= front + slash());
        assert(j =~= front + (slash() + p));
        lemma_segments_append(front, slash() + p);
        lemma_segments_append(front, slash());
    } else {
        assert(j =~= root + (slash() + p));
        lemma_segments_append(root, slash() + p);
        lemma_segments_append(root, Seq::empty());
        assert(root + Seq::<char>::empty() =~= root);
    }
    assert((slash() + p).drop_first() =~= p);
    assert(segments(slash() + p) == segments(p));
    assert(slash().drop_first() =~= Seq::<char>::empty());
    assert(segments(slash()) == segments(slash().drop_first()));
    assert(segments(Seq::<char>::empty()) =~= Seq::<Seq<char>>::empty());
    assert(segments(j) =~= segments(root) + segments(p));
}

/// A relative path of plain names, joined to an absolute root and normalized, lies inside
/// the normalized root.
pub proof fn plain_relative_path_stays_inside(root: Seq<char>, p: Seq<char>)
    requires
        absolute(root),
        !absolute(p),
        all_plain(segments(p)),
    ensures
        path_begins(normalized(joined_path(root, p)), normalized(root)),
{
    let j = joined_path(root, p);
    joined_path_has_both_names(root, p);
    lemma_resolved_append_plain(segments(root), segments(p));
    lemma_components_of_normalized(root);
    lemma_components_of_normalized(j);
    let a = components(normalized(root));
    let b = components(normalized(j));
    assert(b =~= a + segments(p));
    assert(a =~= b.subrange(0, a.len() as int));
}

/// Below an absolute path, different normalized relative paths lead to different places.
pub proof fn different_relative_paths_lead_apart(root: Seq<char>, a: Seq<char>, b: Seq<char>)
    requires
        absolute(root),
        !absolute(a),
        !absolute(b),
        normalized(a) == a,
        normalized(b) == b,
        a != b,
    ensures
        normalized(joined_path(root, a)) != normalized(joined_path(root, b)),
{
    let x = joined_path(root, a);
    let y = joined_path(root, b);
    normalized_path_is_plain(a);
    normalized_path_is_plain(b);
    joined_path_has_both_names(root, a);
    joined_path_has_both_names(root, b);
    lemma_resolved_append_plain(segments(root), segments(a));
    lemma_resolved_append_plain(segments(root), segments(b));
    plain_names_resolve_to_themselves(segments(a));
    plain_names_resolve_to_themselves(segments(b));
    lemma_components_of_normalized(x);
    lemma_components_of_normalized(y);
    if normalized(x) == normalized(y) {
        let base = seq![slash()] + resolved(segments(root));
        let p = seq![slash()] + resolved(segments(x));
        let q = seq![slash()] + resolved(segments(y));
        assert(p =~= base + segments(a));
        assert(q =~= base + segments(b));
        assert(p.skip(base.len() as int) =~= segments(a));
        assert(q.skip(base.len() as int) =~= segments(b));
    }
}

/// In a canonical workspace, a path inside it and its relative form give each other back.
pub proof fn relative_and_absolute_are_inverse(root: Seq<char>, p: Seq<char>)
    requires
        absolute(root),
        absolute(p),
        normalized(root) == root,
        normalized(p) == p,
        path_begins(p, root),
        p != root,
    ensures
        ({
            let relative = relative_path(p, root);
            &&& relative.len() > 0
            &&& !absolute(relative)
            &&& normalized(relative) == relative
            &&& normalized(joined_path(root, relative)) == p
        }),
{
    let names = segments(p);
    let base = segments(root);
    normalized_path_is_plain(p);
    normalized_path_is_plain(root);
    lemma_components_of_normalized(p);
    lemma_components_of_normalized(root);
    plain_names_resolve_to_themselves(names);
    plain_names_resolve_to_themselves(base);
    let k = components(root).len() as int;
    let rest = components(p).skip(k);
    assert(components(root) =~= components(p).subrange(0, k));
    assert(names =~= base + rest) by {
        assert forall|i: int| 0 <= i < base.len() implies names[i] == base[i] by {
            assert(components(root)[i + 1] == base[i]);
            assert(components(p)[i + 1] == names[i]);
            assert(components(p).subrange(0, k)[i + 1] == names[i]);
        }
    }
    assert(all_plain(rest)) by {
        assert forall|i: int| 0 <= i < rest.len() implies is_plain_name(#[trigger] rest[i]) by {
            assert(rest[i] == names[base.len() + i]);
        }
    }
    if rest.len() == 0 {
        assert(names =~= base);
        assert(p == root);
    }
    lemma_plain_are_names(rest);
    names_survive_rendering(false, rest);
    plain_names_resolve_to_themselves(rest);
    let relative = relative_path(p, root);
    assert(relative == rendered(false, rest));
    if relative.len() == 0 {
        assert(segments(relative) =~= Seq::<Seq<char>>::empty());
    }
    joined_path_has_both_names(root, relative);
}

/// A plain name joined to a path is one more component of it.
pub proof fn joined_name_is_below(base: Seq<char>, name: Seq<char>)
    requires
        is_plain_name(name),
    ensures
        components(joined_path(base, name)) == components(base).push(name),
        path_begins(joined_path(base, name), base),
{
    let j = joined_path(base, name);
    assert(name[0] != '/');
    assert(is_name(name));
    lemma_segments_of_name(name);
    let none = Seq::<char>::empty();
    assert(segments(none) =~= Seq::<Seq<char>>::empty());
    if base.len() == 0 {
        assert(base =~= none);
        assert(j =~= name);
        assert(segments(j) =~= segments(base).push(name));
    } else if base.last() == '/' {
        let front = base.drop_last();
        assert(base =~= front + slash());
        assert(j =~= front + slash() + name);
        lemma_segments_push(front, name);
        lemma_segments_append(front, slash());
        assert(slash().drop_first() =~= none);
        assert(segments(slash()) == segments(slash().drop_first()));
        assert(segments(front) + segments(slash()) =~= segments(front));
    } else {
        assert(j =~= base + slash() + name);
        lemma_segments_push(base, name);
    }
    let a = segments(base);
    let b = segments(j);
    assert(b == a.push(name));
    assert(b.drop_last() =~= a);
    assert(without_dots(b) == without_dots(a).push(name));
    if base.len() > 0 {
        assert(j[0] == base[0]);
        if a.len() == 0 {
            lemma_no_segments(base);
        } else {
            assert(b[0] == a[0]);
        }
        if absolute(base) {
            assert(seq![slash()] + without_dots(a).push(name) =~= (seq![slash()] + without_dots(
                a,
            )).push(name));
        } else if a[0] == dot() {
            assert(seq![dot()] + without_dots(a).push(name) =~= (seq![dot()] + without_dots(
                a,
            )).push(name));
        }
    } else {
        assert(b[0] == name);
    }
    let c = components(base);
    assert(c =~= c.push(name).subrange(0, c.len() as int));
}

/// A path without names, if it is not empty, is the root.
proof fn lemma_no_segments(s: Seq<char>)
    requires
        s.len() > 0,
        segments(s).len() == 0,
    ensures
        absolute(s),
{
    if s[0] != '/' {
        let k = name_len(s) as int;
        assert(segments(s) == seq![s.take(k)] + segments(s.skip(k)));
    }
}

/// What lies below a path below another lies below the other.
pub proof fn below_is_transitive(a: Seq<char>, b: Seq<char>, c: Seq<char>)
    requires
        path_begins(a, b),
        path_begins(b, c),
    ensures
        path_begins(a, c),
{
    let x = components(a);
    let y = components(b);
    let z = components(c);
    assert(z =~= x.subrange(0, z.len() as int)) by {
        assert forall|i: int| 0 <= i < z.len() implies z[i] == x[i] by {
            assert(y.subrange(0, z.len() as int)[i] == y[i]);
            assert(x.subrange(0, y.len() as int)[i] == x[i]);
        }
    }
}

proof fn lemma_resolved_suffix(a: Seq<Seq<char>>, b: Seq<Seq<char>>, more: Seq<Seq<char>>)
    requires
        resolved(a) == resolved(b),
    ensures
        resolved(a + more) == resolved(b + more),
    decreases more.len(),
{
    if more.len() == 0 {
        assert(a + more =~= a);
        assert(b + more =~= b);
    } else {
        let less = more.drop_last();
        assert((a + more).drop_last() =~= a + less);
        assert((b + more).drop_last() =~= b + less);
        lemma_resolved_suffix(a, b, less);
    }
}

/// A step down into a directory and up again leads nowhere, and neither does a step to the
/// directory itself or a step above the top.
pub proof fn idle_steps_do_not_matter(
    before: Seq<Seq<char>>,
    name: Seq<char>,
    more: Seq<Seq<char>>,
)
    requires
        is_plain_name(name),
    ensures
        resolved(before + seq![name, dot_dot()] + more) == resolved(before + more),
        resolved(before + seq![dot()] + more) == resolved(before + more),
        resolved(seq![dot_dot()] + more) == resolved(more),
        resolved(seq![name]) == seq![name],
        resolved(before.push(name)) == resolved(before).push(name),
{
    let down_up = before + seq![name, dot_dot()];
    assert(dot() != dot_dot()) by {
        assert(dot().len() != dot_dot().len());
    }
    assert(down_up.drop_last() =~= before.push(name));
    assert(before.push(name).drop_last() =~= before);
    assert(resolved(before).push(name).drop_last() =~= resolved(before));
    assert(down_up.last() == dot_dot());
    assert(resolved(before.push(name)) == resolved(before).push(name));
    assert(resolved(down_up) == resolved(before));
    lemma_resolved_suffix(down_up, before, more);
    let still = before + seq![dot()];
    assert(still.drop_last() =~= before);
    lemma_resolved_suffix(still, before, more);
    let up = seq![dot_dot()];
    let none = Seq::<Seq<char>>::empty();
    assert(up.drop_last() =~= none);
    assert(resolved(up) =~= resolved(none));
    lemma_resolved_suffix(up, none, more);
    assert(none + more =~= more);
    assert(seq![name].drop_last() =~= none);
    assert(resolved(none).push(name) =~= seq![name]);
}

/// A path is what its names say: the names that are left of it, with single slashes between.
pub proof fn normalized_paths_have_the_names_that_are_left(p: Seq<char>)
    ensures
        segments(normalized(p)) == resolved(segments(p)),
        absolute(normalized(p)) == absolute(p),
{
    segments_are_names(p);
    resolved_names_are_plain(segments(p));
    lemma_plain_are_names(resolved(segments(p)));
    names_survive_rendering(absolute(p), resolved(segments(p)));
}

/// An absolute path takes the place of what it is joined to; a name behind a directory is
/// parted from it by one slash.
pub proof fn joining_puts_one_slash_between(base: Seq<char>, p: Seq<char>)
    ensures
        absolute(p) ==> joined_path(base, p) == p,
        !absolute(p) && base.len() == 0 ==> joined_path(base, p) == p,
        !absolute(p) && base.len() > 0 && base.last() == '/' ==> joined_path(base, p) == base + p,
        !absolute(p) && base.len() > 0 && base.last() != '/' ==> joined_path(base, p) == base + slash()
            + p,
{
    assert(base.push('/') =~= base + slash());
    if base.len() == 0 {
        assert(base + p =~= p);
    }
}

/// The directory of a file is the path without its last name.
pub proof fn directories_hold_their_files(rooted: bool, names: Seq<Seq<char>>, name: Seq<char>)
    requires
        all_names(names),
        is_name(name),
    ensures
        directory_of(rendered(rooted, names.push(name))) == rendered(rooted, names),
{
    let all = names.push(name);
    assert forall|i: int| 0 <= i < all.len() implies is_name(#[trigger] all[i]) by {
        if i < names.len() {
            assert(all[i] == names[i]);
        }
    }
    names_survive_rendering(rooted, all);
    assert(all.drop_last() =~= names);
}

/// The paths above a path are those of its first names, the nearest first, down to none.
pub proof fn ancestors_lead_up_to_the_top(rooted: bool, names: Seq<Seq<char>>, i: int)
    requires
        0 <= i <= names.len(),
    ensures
        ancestor_paths(rooted, names).len() == names.len() + 1,
        ancestor_paths(rooted, names)[i] == rendered(rooted, names.take(names.len() - i)),
    decreases names.len(),
{
    if names.len() == 0 {
        assert(names.take(0) =~= names);
    } else if i == 0 {
        ancestors_lead_up_to_the_top(rooted, names.drop_last(), 0);
        assert(names.take(names.len() as int) =~= names);
    } else {
        let less = names.drop_last();
        ancestors_lead_up_to_the_top(rooted, less, i - 1);
        assert(less.take(less.len() - (i - 1)) =~= names.take(names.len() - i));
    }
}

proof fn lemma_last_dot(stem: Seq<char>, ext: Seq<char>)
    requires
        !ext.contains('.'),
    ensures
        last_dot(stem + seq!['.'] + ext) == stem.len(),
    decreases ext.len(),
{
    let name = stem + seq!['.'] + ext;
    if ext.len() > 0 {
        assert(ext.contains(ext[ext.len() - 1]));
        assert(name.last() == ext.last());
        let less = ext.drop_last();
        assert(!less.contains('.')) by {
            if less.contains('.') {
                let i = choose|i: int| 0 <= i < less.len() && less[i] == '.';
                assert(ext[i] == '.');
            }
        }
        assert(name.drop_last() =~= stem + seq!['.'] + less);
        lemma_last_dot(stem, less);
    } else {
        assert(name.last() == '.');
    }
}

proof fn lemma_no_dot(name: Seq<char>)
    requires
        !name.contains('.'),
    ensures
        last_dot(name) == -1,
    decreases name.len(),
{
    if name.len() > 0 {
        assert(name.contains(name[name.len() - 1]));
        let less = name.drop_last();
        assert(!less.contains('.')) by {
            if less.contains('.') {
                let i = choose|i: int| 0 <= i < less.len() && less[i] == '.';
                assert(name[i] == '.');
            }
        }
        lemma_no_dot(less);
    }
}

/// The last name of a path is the file, and what follows its last dot is the extension; a
/// name without a dot, or with one at its beginning alone, has none.
pub proof fn files_have_names_and_extensions(
    rooted: bool,
    names: Seq<Seq<char>>,
    stem: Seq<char>,
    ext: Seq<char>,
)
    requires
        all_names(names),
        is_plain_name(stem + seq!['.'] + ext),
        is_plain_name(ext),
        !ext.contains('.'),
    ensures
        ({
            let p = rendered(rooted, names.push(stem + seq!['.'] + ext));
            &&& last_name(p) == Some(stem + seq!['.'] + ext)
            &&& stem.len() > 0 ==> path_extension(p) == Some(ext)
            &&& stem.len() == 0 ==> path_extension(p) is None
        }),
        last_name(rendered(rooted, names.push(ext))) == Some(ext),
        path_extension(rendered(rooted, names.push(ext))) is None,
{
    let name = stem + seq!['.'] + ext;
    last_names_are_files(rooted, names, name);
    last_names_are_files(rooted, names, ext);
    lemma_last_dot(stem, ext);
    lemma_no_dot(ext);
    assert(name.skip((stem.len() + 1) as int) =~= ext);
}

/// The last name of a path is the file that it leads to.
pub proof fn last_names_are_files(rooted: bool, names: Seq<Seq<char>>, name: Seq<char>)
    requires
        all_names(names),
        is_plain_name(name),
    ensures
        last_name(rendered(rooted, names.push(name))) == Some(name),
{
    let all = names.push(name);
    assert forall|i: int| 0 <= i < all.len() implies is_name(#[trigger] all[i]) by {
        if i < names.len() {
            assert(all[i] == names[i]);
        }
    }
    names_survive_rendering(rooted, all);
    assert(all.last() == name);
}

} // verus!
