//! Searching files by a regular expression.
use vstd::prelude::*;
use regex::Regex;
use crate::path::{relative_path, strip_base};
use crate::text::{lines, owned, split_lines, views};
use crate::tools::tool::{grep_match_views, GrepMatch, GrepMatchView};

verus! {

/// A compiled regular expression.
#[verifier::external_type_specification]
#[verifier::external_body]
pub struct ExRegex(regex::Regex);

/// The pattern that a regular expression was made from, as `Regex::as_str` returns it.
pub uninterp spec fn regex_pattern(regex: regex::Regex) -> Seq<char>;

/// Why `Regex::new` refuses a pattern, `None` where it accepts it.
pub uninterp spec fn regex_refusal(pattern: Seq<char>) -> Option<Seq<char>>;

/// The reason why compiling a pattern failed, if it did.
pub open spec fn refusal_in(compiled: Result<Regex, String>) -> Option<Seq<char>> {
    match compiled {
        Ok(_) => None,
        Err(reason) => Some(reason@),
    }
}

/// The byte where the leftmost match of a pattern in a text starts, as `Regex::find` gives it.
pub uninterp spec fn regex_first_match(pattern: Seq<char>, text: Seq<char>) -> Option<usize>;

/// `Regex::new`: compiles the patterns that it accepts, and gives the text of its error for
/// the others. Which those are and what the text says is only named.
#[verifier::external_body]
fn compile(pattern: &str) -> (r: Result<Regex, String>)
    ensures
        refusal_in(r) == regex_refusal(pattern@),
        r is Ok ==> regex_pattern(r->Ok_0) == pattern@,
{
    Regex::new(pattern).map_err(|e| e.to_string())
}

/// `Regex::find`: the byte where the leftmost match starts.
#[verifier::external_body]
fn find_start(regex: &Regex, text: &str) -> (r: Option<usize>)
    ensures
        r == regex_first_match(regex_pattern(*regex), text@),
{
    regex.find(text).map(|m| m.start())
}

/// A regular expression that was accepted.
#[derive(Debug)]
pub struct Pattern {
    regex: Regex,
}

impl View for Pattern {
    type V = Seq<char>;

    closed spec fn view(&self) -> Seq<char> {
        regex_pattern(self.regex)
    }
}

impl Pattern {
    /// Compiles a pattern; the error is the reason why it is refused.
    pub fn new(pattern: &str) -> (r: Result<Pattern, String>)
        ensures
            match r {
                Ok(p) => regex_refusal(pattern@) is None && p@ == pattern@,
                Err(reason) => regex_refusal(pattern@) == Some(reason@),
            },
    {
        match compile(pattern) {
            Ok(regex) => Ok(Pattern { regex }),
            Err(reason) => Err(reason),
        }
    }

    /// The byte where the leftmost match in `text` starts.
    pub fn first_match(&self, text: &str) -> (r: Option<usize>)
        ensures
            r == regex_first_match(self@, text@),
    {
        find_start(&self.regex, text)
    }

    /// For each line, the byte where its leftmost match starts.
    pub fn first_matches(&self, all: &Vec<String>) -> (r: Vec<Option<usize>>)
        ensures
            r@ == line_starts(self@, views(all@)),
    {
        let mut r: Vec<Option<usize>> = Vec::new();
        let mut i: usize = 0;
        while i < all.len()
            invariant
                i <= all@.len(),
                r@ == line_starts(self@, views(all@)).take(i as int),
            decreases all.len() - i,
        {
            r.push(self.first_match(all[i].as_str()));
            i += 1;
            proof {
                assert(r@ =~= line_starts(self@, views(all@)).take(i as int));
            }
        }
        proof {
            assert(line_starts(self@, views(all@)).take(i as int) =~= line_starts(
                self@,
                views(all@),
            ));
        }
        r
    }
}

/// For each line, the byte where the leftmost match of a pattern starts.
pub open spec fn line_starts(pattern: Seq<char>, all: Seq<Seq<char>>) -> Seq<Option<usize>> {
    Seq::new(all.len(), |i: int| regex_first_match(pattern, all[i]))
}

/// The tool that searches files.
#[derive(Debug, Default, Clone, Copy)]
pub struct GrepTool;

/// A byte position counted from 1.
pub open spec fn column_of(start: usize) -> usize {
    if start < usize::MAX {
        (start + 1) as usize
    } else {
        start
    }
}

/// The match in line `i`, given where it starts.
pub open spec fn line_match(
    path: Seq<char>,
    all: Seq<Seq<char>>,
    i: int,
    start: usize,
) -> GrepMatchView {
    GrepMatchView {
        path,
        line: (i + 1) as usize,
        column: column_of(start),
        line_text: all[i],
    }
}

/// The matches in the lines from `i` on, where `starts` says for each line where its first
/// match starts.
pub open spec fn matches_from(
    path: Seq<char>,
    all: Seq<Seq<char>>,
    starts: Seq<Option<usize>>,
    i: int,
) -> Seq<GrepMatchView>
    decreases all.len() - i,
{
    if i >= all.len() {
        Seq::empty()
    } else {
        match starts[i] {
            Some(start) => seq![line_match(path, all, i, start)] + matches_from(
                path,
                all,
                starts,
                i + 1,
            ),
            None => matches_from(path, all, starts, i + 1),
        }
    }
}

/// The matches of a pattern in a file.
pub open spec fn file_matches(
    path: Seq<char>,
    content: Seq<char>,
    pattern: Seq<char>,
) -> Seq<GrepMatchView> {
    matches_from(path, lines(content), line_starts(pattern, lines(content)), 0)
}

/// Adds what was found to `acc`, one match after another, until the limit is reached; the
/// flag says whether it was.
pub open spec fn add_limited(
    acc: Seq<GrepMatchView>,
    found: Seq<GrepMatchView>,
    limit: Option<usize>,
) -> (Seq<GrepMatchView>, bool)
    decreases found.len(),
{
    if found.len() == 0 {
        (acc, false)
    } else {
        let next = acc.push(found[0]);
        if limit is Some && next.len() >= limit->0 {
            (next, true)
        } else {
            add_limited(next, found.drop_first(), limit)
        }
    }
}

/// Searching one file after another is searching what all of them hold.
pub proof fn limited_search_composes(
    acc: Seq<GrepMatchView>,
    a: Seq<GrepMatchView>,
    b: Seq<GrepMatchView>,
    limit: Option<usize>,
)
    ensures
        ({
            let first = add_limited(acc, a, limit);
            add_limited(acc, a + b, limit) == if first.1 {
                first
            } else {
                add_limited(first.0, b, limit)
            }
        }),
    decreases a.len(),
{
    if a.len() == 0 {
        assert(a + b =~= b);
    } else {
        assert((a + b).drop_first() =~= a.drop_first() + b);
        assert((a + b)[0] == a[0]);
        limited_search_composes(acc.push(a[0]), a.drop_first(), b, limit);
    }
}

/// A search never reports more matches than its limit, and all matches where it has none.
pub proof fn limited_search_keeps_to_limit(found: Seq<GrepMatchView>, limit: Option<usize>)
    requires
        limit != Some(0usize),
    ensures
        limit is None ==> add_limited(Seq::empty(), found, limit) == (found, false),
        limit is Some ==> ({
            let n = limit->0 as int;
            add_limited(Seq::empty(), found, limit) == (if found.len() >= n {
                (found.take(n), true)
            } else {
                (found, false)
            })
        }),
{
    let none = Seq::<GrepMatchView>::empty();
    assert(none + found =~= found);
    lemma_add_limited(none, found, limit);
    if limit is Some && found.len() >= limit->0 {
        assert(none + found.take(limit->0 as int) =~= found.take(limit->0 as int));
    }
}

proof fn lemma_add_limited(
    acc: Seq<GrepMatchView>,
    found: Seq<GrepMatchView>,
    limit: Option<usize>,
)
    requires
        limit is Some ==> acc.len() < limit->0,
    ensures
        limit is None ==> add_limited(acc, found, limit) == (acc + found, false),
        limit is Some ==> ({
            let n = limit->0 - acc.len();
            add_limited(acc, found, limit) == (if found.len() >= n {
                (acc + found.take(n), true)
            } else {
                (acc + found, false)
            })
        }),
    decreases found.len(),
{
    if found.len() == 0 {
        assert(acc + found =~= acc);
    } else {
        let next = acc.push(found[0]);
        assert(acc + found =~= next + found.drop_first());
        if limit is Some {
            let n = limit->0 - acc.len();
            if n == 1 {
                assert(acc + found.take(1) =~= next);
            } else {
                lemma_add_limited(next, found.drop_first(), limit);
                if found.len() >= n {
                    assert(acc + found.take(n) =~= next + found.drop_first().take(n - 1));
                }
            }
        } else {
            lemma_add_limited(next, found.drop_first(), limit);
        }
    }
}

/// A search that goes on adds matches up to its limit, behind those that it has: it stops
/// with the one that reaches the limit. Without a limit it adds all.
pub proof fn searches_go_on_to_their_limit(
    acc: Seq<GrepMatchView>,
    found: Seq<GrepMatchView>,
    limit: usize,
)
    ensures
        add_limited(acc, found, None) == (acc + found, false),
        acc.len() < limit && acc.len() + found.len() < limit ==> add_limited(
            acc,
            found,
            Some(limit),
        ) == (acc + found, false),
        acc.len() < limit && acc.len() + found.len() >= limit ==> add_limited(
            acc,
            found,
            Some(limit),
        ) == (acc + found.take(limit - acc.len()), true),
        acc.len() >= limit && found.len() > 0 ==> add_limited(acc, found, Some(limit)) == (
            acc.push(found[0]),
            true,
        ),
        found.len() == 0 ==> add_limited(acc, found, Some(limit)) == (acc, false),
{
    lemma_add_limited(acc, found, None);
    if acc.len() < limit {
        lemma_add_limited(acc, found, Some(limit));
    }
}

impl GrepTool {
    /// The name of the tool.
    pub fn name(&self) -> (r: &'static str)
        ensures
            r@ == "grep"@,
    {
        "grep"
    }

    /// Adds the matches of the lines of a file to `matches` until the limit is reached, and
    /// says whether it was; `starts` says for each line where its first match starts.
    pub fn take_matches(
        &self,
        path: &str,
        all: &Vec<String>,
        starts: &Vec<Option<usize>>,
        max_matches: Option<usize>,
        matches: &mut Vec<GrepMatch>,
    ) -> (reached: bool)
        requires
            starts@.len() == all@.len(),
        ensures
            (grep_match_views(final(matches)@), reached) == add_limited(
                grep_match_views(old(matches)@),
                matches_from(path@, views(all@), starts@, 0),
                max_matches,
            ),
    {
        let ghost goal = add_limited(
            grep_match_views(old(matches)@),
            matches_from(path@, views(all@), starts@, 0),
            max_matches,
        );
        let mut i: usize = 0;
        while i < all.len()
            invariant
                i <= all@.len(),
                starts@.len() == all@.len(),
                goal == add_limited(
                    grep_match_views(old(matches)@),
                    matches_from(path@, views(all@), starts@, 0),
                    max_matches,
                ),
                goal == add_limited(
                    grep_match_views(matches@),
                    matches_from(path@, views(all@), starts@, i as int),
                    max_matches,
                ),
            decreases all.len() - i,
        {
            let ghost rest = matches_from(path@, views(all@), starts@, i + 1);
            match starts[i] {
                Some(start) => {
                    let column: usize = if start < usize::MAX {
                        start + 1
                    } else {
                        start
                    };
                    let found = GrepMatch {
                        path: owned(path),
                        line: i + 1,
                        column,
                        line_text: all[i].clone(),
                    };
                    proof {
                        let before = grep_match_views(matches@);
                        let here = line_match(path@, views(all@), i as int, start);
                        assert(found@ == here);
                        assert((seq![here] + rest).drop_first() =~= rest);
                        assert(grep_match_views(matches@.push(found)) =~= before.push(found@));
                    }
                    matches.push(found);
                    match max_matches {
                        Some(limit) => {
                            if matches.len() >= limit {
                                return true;
                            }
                        },
                        None => {},
                    }
                },
                None => {},
            }
            i += 1;
        }
        false
    }

    /// Adds the matches of one file to `matches` until the limit is reached, and says
    /// whether it was.
    pub fn search_content(
        &self,
        path: &str,
        content: &str,
        pattern: &Pattern,
        max_matches: Option<usize>,
        matches: &mut Vec<GrepMatch>,
    ) -> (reached: bool)
        ensures
            (grep_match_views(final(matches)@), reached) == add_limited(
                grep_match_views(old(matches)@),
                file_matches(path@, content@, pattern@),
                max_matches,
            ),
    {
        let all = split_lines(content);
        let starts = pattern.first_matches(&all);
        proof {
            assert(views(all@).len() == all@.len());
        }
        self.take_matches(path, &all, &starts, max_matches, matches)
    }

    /// Adds the matches of one file to `matches` until the limit is reached, and says
    /// whether it was. Paths are given relative to the workspace where the file lies in it.
    pub fn grep_file(
        &self,
        workspace: &str,
        path: &str,
        content: &str,
        pattern: &Pattern,
        max_matches: Option<usize>,
        matches: &mut Vec<GrepMatch>,
    ) -> (reached: bool)
        ensures
            (grep_match_views(final(matches)@), reached) == add_limited(
                grep_match_views(old(matches)@),
                file_matches(relative_path(path@, workspace@), content@, pattern@),
                max_matches,
            ),
    {
        let shown = strip_base(path, workspace);
        self.search_content(shown.as_str(), content, pattern, max_matches, matches)
    }
}

} // verus!
