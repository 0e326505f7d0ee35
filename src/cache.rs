use vstd::prelude::*;

use crate::link::starts_with;
use crate::outside::opt_view;
use crate::text::{chars_of, matches_at, string_of};

verus! {

/// The cache key under which the build tool records its source directory.
pub const HOME_KEY: &'static str = "CMAKE_HOME_DIRECTORY";

/// The end of the line that starts at `i`: the next `\n`, or the end of `s`.
pub open spec fn line_end(s: Seq<char>, i: int) -> int
    decreases s.len() - i,
{
    if i >= s.len() {
        s.len() as int
    } else if s[i] == '\n' {
        i
    } else {
        line_end(s, i + 1)
    }
}

/// The line that starts at `i`, without its line ending (`\n` or `\r\n`).
pub open spec fn line_at(s: Seq<char>, i: int) -> Seq<char> {
    let e = line_end(s, i);
    let l = s.subrange(i, e);
    if e < s.len() && l.len() > 0 && l.last() == '\r' {
        l.drop_last()
    } else {
        l
    }
}

/// The part of `l` after its last `=`, or all of `l` where it has none.
pub open spec fn after_last_eq(l: Seq<char>) -> Seq<char>
    decreases l.len(),
{
    if l.len() == 0 {
        l
    } else if l.last() == '=' {
        Seq::empty()
    } else {
        after_last_eq(l.drop_last()).push(l.last())
    }
}

/// The value of the first line at or after `i` that starts with the home key.
pub open spec fn home_from(s: Seq<char>, i: int) -> Option<Seq<char>>
    decreases s.len() + 1 - i via home_from_decreases
{
    if i < 0 || i >= s.len() {
        None
    } else if starts_with(line_at(s, i), HOME_KEY@) {
        Some(after_last_eq(line_at(s, i)))
    } else {
        home_from(s, line_end(s, i) + 1)
    }
}

#[via_fn]
proof fn home_from_decreases(s: Seq<char>, i: int) {
    if 0 <= i < s.len() {
        lemma_line_end(s, i);
    }
}

/// A line ends at or after its start, and within the text.
pub proof fn lemma_line_end(s: Seq<char>, i: int)
    requires
        0 <= i,
    ensures
        i <= s.len() ==> i <= line_end(s, i) <= s.len(),
    decreases s.len() - i,
{
    if i < s.len() && s[i] != '\n' {
        lemma_line_end(s, i + 1);
    }
}

/// The source directory that the cache text `s` records, if any.
pub open spec fn recorded_home(s: Seq<char>) -> Option<Seq<char>> {
    home_from(s, 0)
}

/// A build whose recorded source directory canonicalizes to `recorded` (or
/// fails to, `None`) is stale against a project at the canonical `project`.
pub open spec fn is_stale(recorded: Option<Seq<char>>, project: Seq<char>) -> bool {
    match recorded {
        None => true,
        Some(r) => r != project,
    }
}

/// Whether a build directory whose cache holds `cache` (`None`: no cache) is
/// cleared, where `canon` gives what a path canonicalizes to.
pub open spec fn clears(
    cache: Option<Seq<char>>,
    canon: spec_fn(Seq<char>) -> Option<Seq<char>>,
    project: Seq<char>,
) -> bool {
    match cache {
        None => false,
        Some(t) => match recorded_home(t) {
            None => false,
            Some(h) => is_stale(canon(h), project),
        },
    }
}

/// The end of the line that starts at `i`.
fn find_line_end(cs: &Vec<char>, i: usize) -> (r: usize)
    requires
        i <= cs@.len(),
    ensures
        r == line_end(cs@, i as int),
        i <= r <= cs@.len(),
{
    let mut j: usize = i;
    while j < cs.len()
        invariant
            i <= j <= cs@.len(),
            line_end(cs@, i as int) == line_end(cs@, j as int),
        decreases cs@.len() - j,
    {
        if cs[j] == '\n' {
            return j;
        }
        j = j + 1;
    }
    j
}

/// The part of `cs[lo..hi]` after its last `=`.
fn value_after_last_eq(cs: &Vec<char>, lo: usize, hi: usize) -> (r: String)
    requires
        lo <= hi <= cs@.len(),
    ensures
        r@ == after_last_eq(cs@.subrange(lo as int, hi as int)),
{
    let mut k: usize = hi;
    while k > lo
        invariant
            lo <= k <= hi <= cs@.len(),
            after_last_eq(cs@.subrange(lo as int, hi as int)) == after_last_eq(
                cs@.subrange(lo as int, k as int),
            ) + cs@.subrange(k as int, hi as int),
            forall|j: int| k <= j < hi ==> cs@[j] != '=',
        decreases k - lo,
    {
        let ghost l = cs@.subrange(lo as int, k as int);
        assert(l.drop_last() =~= cs@.subrange(lo as int, k - 1));
        if cs[k - 1] == '=' {
            assert(after_last_eq(l) == Seq::<char>::empty());
            assert(Seq::<char>::empty() + cs@.subrange(k as int, hi as int) =~= cs@.subrange(
                k as int,
                hi as int,
            ));
            return string_of(cs, k, hi);
        }
        assert(after_last_eq(l) == after_last_eq(l.drop_last()).push(cs@[k - 1]));
        assert(after_last_eq(l.drop_last()).push(cs@[k - 1]) + cs@.subrange(k as int, hi as int)
            =~= after_last_eq(l.drop_last()) + cs@.subrange(k - 1, hi as int));
        k = k - 1;
    }
    assert(cs@.subrange(lo as int, k as int) =~= Seq::<char>::empty());
    assert(Seq::<char>::empty() + cs@.subrange(k as int, hi as int) =~= cs@.subrange(
        k as int,
        hi as int,
    ));
    string_of(cs, lo, hi)
}

/// The source directory recorded in the build cache text `contents`: the
/// value after the last `=` of the first line that starts with the home key.
pub fn recorded_home_dir(contents: &str) -> (r: Option<String>)
    ensures
        opt_view(r) == recorded_home(contents@),
{
    let cs = chars_of(contents);
    let key = chars_of(HOME_KEY);
    let mut i: usize = 0;
    while i < cs.len()
        invariant
            i <= cs@.len(),
            cs@ == contents@,
            key@ == HOME_KEY@,
            recorded_home(cs@) == home_from(cs@, i as int),
        decreases cs@.len() - i,
    {
        let e = find_line_end(&cs, i);
        let mut stop = e;
        if e < cs.len() && e > i && cs[e - 1] == '\r' {
            stop = e - 1;
        }
        let ghost l = cs@.subrange(i as int, e as int);
        assert(line_at(cs@, i as int) =~= cs@.subrange(i as int, stop as int)) by {
            if e < cs@.len() && l.len() > 0 && l.last() == '\r' {
                assert(l.drop_last() =~= cs@.subrange(i as int, stop as int));
            }
        }
        let line = string_of(&cs, i, stop);
        let lc = chars_of(line.as_str());
        if matches_at(&lc, &key, 0) {
            return Some(value_after_last_eq(&cs, i, stop));
        }
        if e == cs.len() {
            assert(home_from(cs@, e + 1) is None);
            return None;
        }
        i = e + 1;
    }
    None
}

/// Whether a build is stale: its recorded source directory failed to
/// canonicalize (`None`), or canonicalized to another path than the project's.
pub fn is_stale_build(recorded_canonical: &Option<String>, project_canonical: &String) -> (r: bool)
    ensures
        r == is_stale(opt_view(*recorded_canonical), project_canonical@),
{
    match recorded_canonical {
        None => true,
        Some(p) => !(*p == *project_canonical),
    }
}

/// Clearing is idempotent: a second run against an unchanged source path
/// never clears, whether the first run cleared (and left no cache) or not.
pub proof fn lemma_clearing_idempotent(
    cache: Option<Seq<char>>,
    canon: spec_fn(Seq<char>) -> Option<Seq<char>>,
    project: Seq<char>,
)
    ensures
        ({
            let after = if clears(cache, canon, project) {
                None
            } else {
                cache
            };
            !clears(after, canon, project)
        }),
{
}

/// A cache that records a home directory is cleared exactly when that
/// directory canonicalizes to another path than the project's, or fails to
/// canonicalize.
pub proof fn lemma_clears_iff_moved(
    cache: Seq<char>,
    canon: spec_fn(Seq<char>) -> Option<Seq<char>>,
    project: Seq<char>,
)
    requires
        recorded_home(cache) is Some,
    ensures
        clears(Some(cache), canon, project) <==> match canon(recorded_home(cache)->0) {
            Some(c) => c != project,
            None => true,
        },
{
}

} // verus!
