//! The outline of a workspace that a plan is made for.
use vstd::prelude::*;
use crate::path::{file_name, last_name};
use crate::text::{join, joined, lemma_views_push, owned, same, to_chars, views};

verus! {

broadcast use vstd::seq_lib::group_to_multiset_ensures;

/// An entry of a directory, by its path relative to the workspace, with its own entries.
#[derive(Debug)]
pub struct OutlineNode {
    pub path: String,
    pub is_dir: bool,
    pub children: Vec<OutlineNode>,
}

/// How many entries an outline has.
pub const MAX_OUTLINE_ENTRIES: usize = 80;

/// How deep below the workspace an outline goes.
pub const MAX_OUTLINE_DEPTH: usize = 2;

/// Whether an entry is left out: what tools keep for themselves.
pub open spec fn is_ignored(path: Seq<char>) -> bool {
    match last_name(path) {
        Some(name) => {
            ||| name == ".git"@
            ||| name == "target"@
            ||| name == "node_modules"@
            ||| name == ".rust-codingagent"@
            ||| name == ".agents"@
            ||| name == ".codex"@
        },
        None => false,
    }
}

/// Whether an entry is left out.
pub fn is_ignored_outline_entry(path: &str) -> (r: bool)
    ensures
        r == is_ignored(path@),
{
    match file_name(path) {
        Some(text) => {
            let name = text.as_str();
            same(name, ".git") || same(name, "target") || same(name, "node_modules") || same(
                name,
                ".rust-codingagent",
            ) || same(name, ".agents") || same(name, ".codex")
        },
        None => false,
    }
}

/// Whether a text comes before another or is the same, character by character.
pub open spec fn in_order(a: Seq<char>, b: Seq<char>) -> bool
    decreases a.len(),
{
    if a.len() == 0 {
        true
    } else if b.len() == 0 {
        false
    } else if a[0] == b[0] {
        in_order(a.drop_first(), b.drop_first())
    } else {
        a[0] < b[0]
    }
}

/// Whether a text comes before another or is the same.
fn comes_first(a: &str, b: &str) -> (r: bool)
    ensures
        r == in_order(a@, b@),
{
    let v = to_chars(a);
    let w = to_chars(b);
    let mut i: usize = 0;
    proof {
        assert(v@.skip(0) =~= v@);
        assert(w@.skip(0) =~= w@);
    }
    while i < v.len()
        invariant
            i <= v@.len(),
            i <= w@.len(),
            v@ == a@,
            w@ == b@,
            in_order(a@, b@) == in_order(v@.skip(i as int), w@.skip(i as int)),
        decreases v.len() - i,
    {
        if i == w.len() {
            return false;
        }
        proof {
            assert(v@.skip(i as int).drop_first() =~= v@.skip(i + 1));
            assert(w@.skip(i as int).drop_first() =~= w@.skip(i + 1));
        }
        if v[i] != w[i] {
            return v[i] < w[i];
        }
        i += 1;
    }
    true
}

proof fn lemma_in_order_total(a: Seq<char>, b: Seq<char>)
    ensures
        in_order(a, b) || in_order(b, a),
    decreases a.len(),
{
    if a.len() > 0 && b.len() > 0 {
        if a[0] == b[0] {
            lemma_in_order_total(a.drop_first(), b.drop_first());
        }
    }
}

proof fn lemma_in_order_transitive(a: Seq<char>, b: Seq<char>, c: Seq<char>)
    requires
        in_order(a, b),
        in_order(b, c),
    ensures
        in_order(a, c),
    decreases a.len(),
{
    if a.len() > 0 && b.len() > 0 && c.len() > 0 && a[0] == b[0] && b[0] == c[0] {
        lemma_in_order_transitive(a.drop_first(), b.drop_first(), c.drop_first());
    }
}

/// Whether the entries are in the order of their paths.
pub open spec fn is_sorted(nodes: Seq<OutlineNode>) -> bool {
    forall|i: int, j: int|
        0 <= i < j < nodes.len() ==> in_order(
            #[trigger] nodes[i].path@,
            #[trigger] nodes[j].path@,
        )
}

/// The entries of a directory in the order of their paths.
pub fn sort_entries(nodes: Vec<OutlineNode>) -> (r: Vec<OutlineNode>)
    ensures
        is_sorted(r@),
        r@.to_multiset() == nodes@.to_multiset(),
{
    let ghost all = nodes@.to_multiset();
    let mut rest = nodes;
    let mut r: Vec<OutlineNode> = Vec::new();
    proof {
        assert(r@ =~= Seq::empty());
        assert(r@.to_multiset().add(rest@.to_multiset()) =~= all);
    }
    while rest.len() > 0
        invariant
            is_sorted(r@),
            r@.to_multiset().add(rest@.to_multiset()) =~= all,
        decreases rest.len(),
    {
        let ghost last = rest@.last();
        proof {
            assert(rest@ =~= rest@.drop_last().push(last));
        }
        let node = match rest.pop() {
            Some(node) => node,
            None => {
                return r;
            },
        };
        let mut p: usize = 0;
        while p < r.len() && comes_first(r[p].path.as_str(), node.path.as_str())
            invariant
                p <= r@.len(),
                forall|k: int| 0 <= k < p ==> in_order(#[trigger] r@[k].path@, node.path@),
            decreases r.len() - p,
        {
            p += 1;
        }
        let ghost before = r@;
        proof {
            assert forall|k: int| p <= k < before.len() implies in_order(
                node.path@,
                #[trigger] before[k].path@,
            ) by {
                lemma_in_order_total(before[p as int].path@, node.path@);
                if k > p {
                    assert(in_order(before[p as int].path@, before[k].path@));
                    lemma_in_order_transitive(
                        node.path@,
                        before[p as int].path@,
                        before[k].path@,
                    );
                }
            }
        }
        r.insert(p, node);
        proof {
            assert forall|i: int, j: int| 0 <= i < j < r@.len() implies in_order(
                #[trigger] r@[i].path@,
                #[trigger] r@[j].path@,
            ) by {
                let a = if i < p {
                    i
                } else {
                    i - 1
                };
                let b = if j < p {
                    j
                } else {
                    j - 1
                };
                if i != p {
                    assert(r@[i] == before[a]);
                }
                if j != p {
                    assert(r@[j] == before[b]);
                }
                if i != p && j != p {
                    assert(in_order(before[a].path@, before[b].path@));
                }
            }
            vstd::seq_lib::to_multiset_insert(before, p as int, node);
            assert(r@.to_multiset() =~= before.to_multiset().insert(node));
        }
    }
    proof {
        assert(rest@ =~= Seq::empty());
        assert(r@.to_multiset() =~= all);
    }
    r
}

/// An entry as one line: directories end with a slash.
pub open spec fn entry_line(node: OutlineNode) -> Seq<char> {
    if node.is_dir {
        node.path@ + "/"@
    } else {
        node.path@
    }
}

/// The lines `acc` with those of the entries from `i` on, each directory before what it
/// holds, down to the depth and up to the number that an outline has.
pub open spec fn outlined(
    nodes: Seq<OutlineNode>,
    i: int,
    depth: int,
    acc: Seq<Seq<char>>,
) -> Seq<Seq<char>>
    decreases MAX_OUTLINE_DEPTH + 1 - depth, nodes.len() - i,
{
    if depth > MAX_OUTLINE_DEPTH || acc.len() >= MAX_OUTLINE_ENTRIES || i >= nodes.len() {
        acc
    } else {
        let here = acc.push(entry_line(nodes[i]));
        let below = if nodes[i].is_dir {
            outlined(nodes[i].children@, 0, depth + 1, here)
        } else {
            here
        };
        outlined(nodes, i + 1, depth, below)
    }
}

/// Adds the lines of entries to an outline.
fn add_entries(nodes: &Vec<OutlineNode>, depth: usize, entries: &mut Vec<String>)
    requires
        depth <= MAX_OUTLINE_DEPTH + 1,
    ensures
        views(final(entries)@) == outlined(nodes@, 0, depth as int, views(old(entries)@)),
    decreases MAX_OUTLINE_DEPTH + 1 - depth,
{
    if depth > MAX_OUTLINE_DEPTH {
        return;
    }
    let ghost goal = outlined(nodes@, 0, depth as int, views(entries@));
    let mut i: usize = 0;
    while i < nodes.len()
        invariant
            i <= nodes@.len(),
            depth <= MAX_OUTLINE_DEPTH,
            goal == outlined(nodes@, 0, depth as int, views(old(entries)@)),
            goal == outlined(nodes@, i as int, depth as int, views(entries@)),
        decreases nodes.len() - i,
    {
        proof {
            assert(views(entries@).len() == entries@.len());
        }
        if entries.len() >= MAX_OUTLINE_ENTRIES {
            return;
        }
        let line = if nodes[i].is_dir {
            nodes[i].path.clone().concat("/")
        } else {
            nodes[i].path.clone()
        };
        proof {
            lemma_views_push(entries@, line);
        }
        entries.push(line);
        if nodes[i].is_dir {
            add_entries(&nodes[i].children, depth + 1, entries);
        }
        i += 1;
    }
}

/// The outline of a workspace.
pub open spec fn outline_text(nodes: Seq<OutlineNode>) -> Seq<char> {
    let entries = outlined(nodes, 0, 0, Seq::empty());
    if entries.len() == 0 {
        "（工作区为空或无法读取）"@
    } else {
        joined(entries, "\n"@)
    }
}

/// The outline of a workspace.
pub fn collect_workspace_outline(nodes: &Vec<OutlineNode>) -> (r: String)
    ensures
        r@ == outline_text(nodes@),
{
    let mut entries: Vec<String> = Vec::new();
    proof {
        assert(views(entries@) =~= Seq::empty());
    }
    add_entries(nodes, 0, &mut entries);
    proof {
        assert(views(entries@).len() == entries@.len());
    }
    if entries.len() == 0 {
        owned("（工作区为空或无法读取）")
    } else {
        join(&entries, "\n")
    }
}

/// An outline never has more lines than it may, and it only ever adds to what is there.
pub proof fn outline_is_bounded(
    nodes: Seq<OutlineNode>,
    i: int,
    depth: int,
    acc: Seq<Seq<char>>,
)
    requires
        acc.len() <= MAX_OUTLINE_ENTRIES,
    ensures
        outlined(nodes, i, depth, acc).len() <= MAX_OUTLINE_ENTRIES,
        acc.is_prefix_of(outlined(nodes, i, depth, acc)),
    decreases MAX_OUTLINE_DEPTH + 1 - depth, nodes.len() - i,
{
    if depth > MAX_OUTLINE_DEPTH || acc.len() >= MAX_OUTLINE_ENTRIES || i >= nodes.len() {
        assert(acc =~= acc.subrange(0, acc.len() as int));
    } else {
        let here = acc.push(entry_line(nodes[i]));
        let below = if nodes[i].is_dir {
            outlined(nodes[i].children@, 0, depth + 1, here)
        } else {
            here
        };
        if nodes[i].is_dir {
            outline_is_bounded(nodes[i].children@, 0, depth + 1, here);
        } else {
            assert(here =~= here.subrange(0, here.len() as int));
        }
        outline_is_bounded(nodes, i + 1, depth, below);
        let all = outlined(nodes, i + 1, depth, below);
        assert(acc =~= all.subrange(0, acc.len() as int)) by {
            assert(below =~= all.subrange(0, below.len() as int));
            assert(here =~= below.subrange(0, here.len() as int));
            assert forall|k: int| 0 <= k < acc.len() implies acc[k] == all[k] by {
                assert(here[k] == acc[k]);
                assert(below.subrange(0, here.len() as int)[k] == below[k]);
                assert(all.subrange(0, below.len() as int)[k] == all[k]);
            }
        }
    }
}

} // verus!
