use vstd::prelude::*;

use crate::outside::{
    first_group, first_group_of, no_slash, opt_opt_view, opt_view, parent_of, path_parent, path_stem, regex_accepts,
    stem_of,
};
use crate::text::{
    chars_of, find_after, find_from, lemma_find_from, lemma_unescape_no_double_bar, forward_slashes, matches_at, occurs_at, split_white,
    split_white_space, string_of, to_forward_slashes, unescape_colons, unescape_range,
};

verus! {

/// The pattern that takes the name out of a shared-object file name such as
/// `foo.so.2` (after its `lib` prefix is gone).
pub const SHARED_OBJECT_PATTERN: &'static str = "(.*)\\.so[\\.0-9]*|\\.a";

/// Which platform's conventions a link token follows.
#[derive(Clone, Copy, Debug, PartialEq, Eq, Structural)]
pub enum Convention {
    Windows,
    Unix,
}

/// Why the linker arguments could not be read from a build graph.
#[derive(Debug)]
pub enum LinkError {
    /// The echo target of the project is not in the build graph.
    MissingEchoTarget,
    /// No `| ` follows the echo target.
    MissingArgsStart,
    /// No `||` follows the start of the arguments.
    MissingArgsEnd,
    /// The token has no file name to take a library name from.
    NoFileStem { token: String },
    /// The token is in no form that names a library.
    UnknownForm { stem: String, token: String },
    /// The shared-object pattern was refused by the regex engine.
    InvalidPattern,
}

/// The model of a `LinkError`.
pub enum LinkFault {
    MissingEchoTarget,
    MissingArgsStart,
    MissingArgsEnd,
    NoFileStem { token: Seq<char> },
    UnknownForm { stem: Seq<char>, token: Seq<char> },
    InvalidPattern,
}

impl View for LinkError {
    type V = LinkFault;

    open spec fn view(&self) -> LinkFault {
        match self {
            LinkError::MissingEchoTarget => LinkFault::MissingEchoTarget,
            LinkError::MissingArgsStart => LinkFault::MissingArgsStart,
            LinkError::MissingArgsEnd => LinkFault::MissingArgsEnd,
            LinkError::NoFileStem { token } => LinkFault::NoFileStem { token: token@ },
            LinkError::UnknownForm { stem, token } => LinkFault::UnknownForm {
                stem: stem@,
                token: token@,
            },
            LinkError::InvalidPattern => LinkFault::InvalidPattern,
        }
    }
}

/// One library of the link line: where to search for it, and its name.
#[derive(Debug)]
pub struct ResolvedLibrary {
    pub search_dir: Option<String>,
    pub name: String,
}

impl View for ResolvedLibrary {
    type V = (Option<Seq<char>>, Seq<char>);

    open spec fn view(&self) -> (Option<Seq<char>>, Seq<char>) {
        (
            match self.search_dir {
                Some(d) => Some(d@),
                None => None,
            },
            self.name@,
        )
    }
}

/// A file stem, sorted by the form in which it names a library.
#[derive(Debug)]
pub enum StemForm {
    /// `-lNAME`: holds `NAME`.
    Flag(String),
    /// `libNAME.a`: holds `NAME`.
    StaticArchive(String),
    /// `libREST` for any other `REST`: holds `REST`.
    SharedObject(String),
    /// Anything else.
    Unrecognized,
}

/// The text that starts the echo target of `name` in a build graph.
pub open spec fn echo_marker(name: Seq<char>) -> Seq<char> {
    "build "@ + name + "-link-libraries.txt: ECHO_EXECUTABLE_LINKER"@
}

/// The linker arguments that a build graph `t` holds for the project `name`:
/// the text between the first `| ` after the echo target and the next `||`,
/// with `$:` turned back into `:`.
pub open spec fn link_args_spec(t: Seq<char>, name: Seq<char>) -> Result<Seq<char>, LinkFault> {
    match find_from(t, echo_marker(name), 0) {
        None => Err(LinkFault::MissingEchoTarget),
        Some(a) => match find_from(t, "| "@, a) {
            None => Err(LinkFault::MissingArgsStart),
            Some(b) => match find_from(t, "||"@, b + "| "@.len()) {
                None => Err(LinkFault::MissingArgsEnd),
                Some(c) => Ok(unescape_colons(t.subrange(b + "| "@.len(), c))),
            },
        },
    }
}

pub open spec fn starts_with(s: Seq<char>, p: Seq<char>) -> bool {
    occurs_at(s, p, 0)
}

pub open spec fn ends_with(s: Seq<char>, p: Seq<char>) -> bool {
    occurs_at(s, p, s.len() - p.len())
}

pub open spec fn drop_front(s: Seq<char>, p: Seq<char>) -> Seq<char> {
    s.subrange(p.len() as int, s.len() as int)
}

pub open spec fn drop_back(s: Seq<char>, p: Seq<char>) -> Seq<char> {
    s.subrange(0, s.len() - p.len())
}

/// The stem is `lib` followed by something that does not end in `.a`: its
/// name comes from the shared-object pattern.
pub open spec fn shared_form(stem: Seq<char>) -> bool {
    !starts_with(stem, "-l"@) && starts_with(stem, "lib"@) && !ends_with(
        drop_front(stem, "lib"@),
        ".a"@,
    )
}

/// The library name that a stem gives under `conv`, where `cap` is what the
/// shared-object pattern captured (a match whose group took no part counts as
/// no match); `None` where the stem names no library.
pub open spec fn stem_library(stem: Seq<char>, conv: Convention, cap: Option<Option<Seq<char>>>) -> Option<Seq<char>> {
    let n = match conv {
        Convention::Windows => Some(stem),
        Convention::Unix => if starts_with(stem, "-l"@) {
            Some(drop_front(stem, "-l"@))
        } else if starts_with(stem, "lib"@) {
            let rest = drop_front(stem, "lib"@);
            if ends_with(rest, ".a"@) {
                Some(drop_back(rest, ".a"@))
            } else {
                match cap {
                    None => Some(rest),
                    Some(Some(g)) => Some(g),
                    Some(None) => Some(rest),
                }
            }
        } else {
            None
        },
    };
    match n {
        Some(x) => if x.len() > 0 { Some(x) } else { None },
        None => None,
    }
}

/// The search directory that a normalized token path gives: its parent, where
/// that is not empty.
pub open spec fn search_dir_of(path: Seq<char>) -> Option<Seq<char>> {
    match path_parent(path) {
        Some(d) => if d.len() > 0 { Some(d) } else { None },
        None => None,
    }
}

/// What one token of the link line resolves to under `conv`.
pub open spec fn resolve_spec(token: Seq<char>, conv: Convention) -> Result<(Option<Seq<char>>, Seq<char>), LinkFault> {
    let path = forward_slashes(token);
    match path_stem(path) {
        None => Err(LinkFault::NoFileStem { token }),
        Some(stem) => {
            let pattern = conv == Convention::Unix && shared_form(stem);
            if pattern && !regex_accepts(SHARED_OBJECT_PATTERN@) {
                Err(LinkFault::InvalidPattern)
            } else {
                let cap = if pattern {
                    first_group_of(SHARED_OBJECT_PATTERN@, drop_front(stem, "lib"@))
                } else {
                    None
                };
                match stem_library(stem, conv, cap) {
                    Some(n) => Ok((search_dir_of(path), n)),
                    None => Err(LinkFault::UnknownForm { stem, token }),
                }
            }
        },
    }
}

/// The tokens resolved in order, or the fault of the first that fails.
pub open spec fn resolve_all(tokens: Seq<Seq<char>>, conv: Convention) -> Result<Seq<(Option<Seq<char>>, Seq<char>)>, LinkFault>
    decreases tokens.len(),
{
    if tokens.len() == 0 {
        Ok(Seq::empty())
    } else {
        match resolve_all(tokens.drop_last(), conv) {
            Err(e) => Err(e),
            Ok(v) => match resolve_spec(tokens.last(), conv) {
                Err(e) => Err(e),
                Ok(x) => Ok(v.push(x)),
            },
        }
    }
}

/// The libraries that a build graph `t` names for the project `name`.
pub open spec fn link_libraries_spec(t: Seq<char>, name: Seq<char>, conv: Convention) -> Result<Seq<(Option<Seq<char>>, Seq<char>)>, LinkFault> {
    match link_args_spec(t, name) {
        Err(e) => Err(e),
        Ok(args) => resolve_all(split_white(args), conv),
    }
}

pub open spec fn string_result_view(r: Result<String, LinkError>) -> Result<Seq<char>, LinkFault> {
    match r {
        Ok(s) => Ok(s@),
        Err(e) => Err(e@),
    }
}

pub open spec fn libraries_view(r: Result<Vec<ResolvedLibrary>, LinkError>) -> Result<Seq<(Option<Seq<char>>, Seq<char>)>, LinkFault> {
    match r {
        Ok(v) => Ok(v@.map_values(|l: ResolvedLibrary| l@)),
        Err(e) => Err(e@),
    }
}

/// The text that starts the echo target of `project_name`.
pub fn echo_target_marker(project_name: &str) -> (r: String)
    ensures
        r@ == echo_marker(project_name@),
{
    let mut m = String::from_str("build ");
    m.append(project_name);
    m.append("-link-libraries.txt: ECHO_EXECUTABLE_LINKER");
    m
}

/// The raw linker arguments that the build graph `contents` holds for the
/// echo target of `project_name`.
pub fn read_link_line(contents: &str, project_name: &str) -> (r: Result<String, LinkError>)
    ensures
        string_result_view(r) == link_args_spec(contents@, project_name@),
{
    let t = chars_of(contents);
    let marker = chars_of(echo_target_marker(project_name).as_str());
    let open = chars_of("| ");
    let close = chars_of("||");
    let a = match find_after(&t, &marker, 0) {
        Some(a) => a,
        None => return Err(LinkError::MissingEchoTarget),
    };
    let b = match find_after(&t, &open, a) {
        Some(b) => b,
        None => return Err(LinkError::MissingArgsStart),
    };
    proof {
        lemma_find_from(t@, open@, a as int);
    }
    assert(b + open@.len() <= t@.len() == t.len());
    let start = b + open.len();
    let c = match find_after(&t, &close, start) {
        Some(c) => c,
        None => return Err(LinkError::MissingArgsEnd),
    };
    proof {
        lemma_find_from(t@, close@, start as int);
    }
    Ok(unescape_range(&t, start, c))
}

/// Sorts a file stem by the form in which it names a library.
pub fn classify_stem(stem: &str) -> (r: StemForm)
    ensures
        starts_with(stem@, "-l"@) ==> (r matches StemForm::Flag(n) && n@ == drop_front(stem@, "-l"@)),
        !starts_with(stem@, "-l"@) && starts_with(stem@, "lib"@) && ends_with(drop_front(stem@, "lib"@), ".a"@)
            ==> (r matches StemForm::StaticArchive(n) && n@ == drop_back(drop_front(stem@, "lib"@), ".a"@)),
        shared_form(stem@) ==> (r matches StemForm::SharedObject(n) && n@ == drop_front(stem@, "lib"@)),
        !starts_with(stem@, "-l"@) && !starts_with(stem@, "lib"@) ==> r is Unrecognized,
{
    let cs = chars_of(stem);
    let flag = chars_of("-l");
    let lib = chars_of("lib");
    let dot_a = chars_of(".a");
    if matches_at(&cs, &flag, 0) {
        return StemForm::Flag(string_of(&cs, flag.len(), cs.len()));
    }
    if !matches_at(&cs, &lib, 0) {
        return StemForm::Unrecognized;
    }
    let rest = string_of(&cs, lib.len(), cs.len());
    let rs = chars_of(rest.as_str());
    if rs.len() >= dot_a.len() && matches_at(&rs, &dot_a, rs.len() - dot_a.len()) {
        StemForm::StaticArchive(string_of(&rs, 0, rs.len() - dot_a.len()))
    } else {
        StemForm::SharedObject(rest)
    }
}

/// The library name that `stem` gives under `conv`, where `capture` is what
/// the shared-object pattern captured on the stem after its `lib` prefix
/// (only read for a stem in that form); `None` where it names no library.
pub fn library_name_of(stem: &str, conv: Convention, capture: Option<Option<String>>) -> (r: Option<String>)
    ensures
        opt_view(r) == stem_library(stem@, conv, opt_opt_view(capture)),
{
    let n = match conv {
        Convention::Windows => Some(stem.to_owned()),
        Convention::Unix => match classify_stem(stem) {
            StemForm::Flag(n) => Some(n),
            StemForm::StaticArchive(n) => Some(n),
            StemForm::SharedObject(rest) => match capture {
                None => Some(rest),
                Some(Some(g)) => Some(g),
                Some(None) => Some(rest),
            },
            StemForm::Unrecognized => None,
        },
    };
    match n {
        Some(x) => if x.as_str().is_empty() { None } else { Some(x) },
        None => None,
    }
}

/// Resolves one token of the link line: its search directory (the parent of
/// the token with backslashes made forward, where that is not empty) and the
/// library name that its file stem gives under `conv`.
pub fn resolve_token(token: &str, conv: Convention) -> (r: Result<ResolvedLibrary, LinkError>)
    ensures
        match r {
            Ok(l) => resolve_spec(token@, conv) == Ok::<_, LinkFault>(l@),
            Err(e) => resolve_spec(token@, conv) == Err::<(Option<Seq<char>>, Seq<char>), _>(e@),
        },
        r matches Ok(l) ==> l.name@.len() > 0 && no_slash(l.name@),
        !(r matches Err(LinkError::InvalidPattern)),
{
    let path = to_forward_slashes(token);
    let stem = match stem_of(path.as_str()) {
        Some(s) => s,
        None => return Err(LinkError::NoFileStem { token: token.to_owned() }),
    };
    let capture = match conv {
        Convention::Unix => match classify_stem(stem.as_str()) {
            StemForm::SharedObject(rest) => match first_group(SHARED_OBJECT_PATTERN, rest.as_str()) {
                Ok(c) => {
                    proof {
                        if c matches Some(Some(_)) {
                            let g = c->Some_0->Some_0@;
                            let (lo, hi) = choose|lo: int, hi: int|
                                0 <= lo <= hi <= rest@.len() && g == rest@.subrange(lo, hi);
                            assert forall|i: int| 0 <= i < g.len() implies g[i] != '/' by {
                                assert(g[i] == stem@[i + lo + "lib"@.len()]);
                            }
                        }
                    }
                    c
                },
                Err(_) => return Err(LinkError::InvalidPattern),
            },
            _ => None,
        },
        Convention::Windows => None,
    };
    proof {
        lemma_name_has_no_slash(stem@, conv, opt_opt_view(capture));
    }
    let name = match library_name_of(stem.as_str(), conv, capture) {
        Some(n) => n,
        None => return Err(LinkError::UnknownForm { stem, token: token.to_owned() }),
    };
    let search_dir = match parent_of(path.as_str()) {
        Some(d) => if d.as_str().is_empty() { None } else { Some(d) },
        None => None,
    };
    Ok(ResolvedLibrary { search_dir, name })
}

/// Reads the linker arguments of the echo target of `project_name` from the
/// build graph `contents`, and resolves each of its white-space separated
/// tokens in order; fails with the first error met.
pub fn link_libraries(contents: &str, project_name: &str, conv: Convention) -> (r: Result<Vec<ResolvedLibrary>, LinkError>)
    ensures
        libraries_view(r) == link_libraries_spec(contents@, project_name@, conv),
        r matches Ok(v) ==> forall|j: int|
            0 <= j < v@.len() ==> v@[j].name@.len() > 0 && no_slash(#[trigger] v@[j].name@),
        !(r matches Err(LinkError::InvalidPattern)),
{
    let args = match read_link_line(contents, project_name) {
        Ok(a) => a,
        Err(e) => return Err(e),
    };
    let tokens = split_white_space(args.as_str());
    let ghost ts = tokens@.map_values(|t: String| t@);
    let mut out: Vec<ResolvedLibrary> = Vec::new();
    let mut i: usize = 0;
    assert(ts.subrange(0, 0) =~= Seq::<Seq<char>>::empty());
    assert(out@.map_values(|l: ResolvedLibrary| l@) =~= Seq::<(Option<Seq<char>>, Seq<char>)>::empty());
    while i < tokens.len()
        invariant
            i <= tokens@.len(),
            ts == tokens@.map_values(|t: String| t@),
            ts == split_white(args@),
            link_args_spec(contents@, project_name@) == Ok::<_, LinkFault>(args@),
            forall|j: int|
                0 <= j < out@.len() ==> out@[j].name@.len() > 0 && no_slash(#[trigger] out@[j].name@),
            resolve_all(ts.subrange(0, i as int), conv) == Ok::<_, LinkFault>(
                out@.map_values(|l: ResolvedLibrary| l@),
            ),
        decreases tokens@.len() - i,
    {
        let ghost prefix = ts.subrange(0, i + 1);
        assert(prefix.drop_last() =~= ts.subrange(0, i as int));
        assert(prefix.last() == tokens@[i as int]@);
        match resolve_token(tokens[i].as_str(), conv) {
            Ok(l) => {
                let ghost before = out@;
                let ghost lv = l@;
                out.push(l);
                assert(out@.map_values(|l: ResolvedLibrary| l@) =~= before.map_values(
                    |l: ResolvedLibrary| l@,
                ).push(lv));
            },
            Err(e) => {
                assert(resolve_all(prefix, conv) == Err::<Seq<(Option<Seq<char>>, Seq<char>)>, _>(e@));
                proof {
                    lemma_failure_stays(ts, i as int + 1, conv);
                }
                return Err(e);
            },
        }
        i = i + 1;
    }
    assert(ts.subrange(0, i as int) =~= ts);
    Ok(out)
}

/// Once a prefix of the tokens fails, every longer prefix fails the same way.
proof fn lemma_failure_stays(ts: Seq<Seq<char>>, k: int, conv: Convention)
    requires
        0 <= k <= ts.len(),
        resolve_all(ts.subrange(0, k), conv) is Err,
    ensures
        resolve_all(ts, conv) == resolve_all(ts.subrange(0, k), conv),
    decreases ts.len() - k,
{
    if k < ts.len() {
        let longer = ts.subrange(0, k + 1);
        assert(longer.drop_last() =~= ts.subrange(0, k));
        lemma_failure_stays(ts, k + 1, conv);
    } else {
        assert(ts.subrange(0, k) =~= ts);
    }
}

/// The linker arguments never hold `||`: they stop before the first one, and
/// turning `$:` into `:` makes none.
pub proof fn lemma_args_hold_no_double_bar(t: Seq<char>, name: Seq<char>)
    ensures
        link_args_spec(t, name) matches Ok(a) ==> forall|j: int| !occurs_at(a, "||"@, j),
{
    reveal_strlit("||");
    reveal_strlit("| ");
    if let Some(a) = find_from(t, echo_marker(name), 0) {
        lemma_find_from(t, echo_marker(name), 0);
        if let Some(b) = find_from(t, "| "@, a) {
            lemma_find_from(t, "| "@, a);
            if let Some(c) = find_from(t, "||"@, b + 2) {
                lemma_find_from(t, "||"@, b + 2);
                let s = t.subrange(b + 2, c);
                assert forall|j: int| 0 <= j < s.len() - 1 implies !(s[j] == '|' && #[trigger] s[j + 1] == '|') by {
                    if s[j] == '|' && s[j + 1] == '|' {
                        assert(t.subrange(b + 2 + j, b + 2 + j + 2) =~= "||"@);
                        assert(occurs_at(t, "||"@, b + 2 + j));
                    }
                }
                lemma_unescape_no_double_bar(s);
                let u = unescape_colons(s);
                assert forall|j: int| !occurs_at(u, "||"@, j) by {
                    if occurs_at(u, "||"@, j) {
                        assert(u.subrange(j, j + 2)[0] == u[j]);
                        assert(u.subrange(j, j + 2)[1] == u[j + 1]);
                    }
                }
            }
        }
    }
}

/// A stem and a capture without `/` give a library name without `/`.
pub proof fn lemma_name_has_no_slash(stem: Seq<char>, conv: Convention, cap: Option<Option<Seq<char>>>)
    requires
        no_slash(stem),
        cap matches Some(Some(g)) ==> no_slash(g),
    ensures
        stem_library(stem, conv, cap) matches Some(n) ==> no_slash(n),
{
    if conv == Convention::Unix && starts_with(stem, "lib"@) && !starts_with(stem, "-l"@) {
        let rest = drop_front(stem, "lib"@);
        assert forall|i: int| 0 <= i < rest.len() implies rest[i] != '/' by {
            assert(rest[i] == stem[i + "lib"@.len()]);
        }
    }
}

/// Where `n` occurs in `h` at `k` and nowhere in `[i, k)`, `find_from` from `i`
/// gives `k`.
proof fn lemma_first_occurrence(h: Seq<char>, n: Seq<char>, i: int, k: int)
    requires
        0 <= i <= k,
        occurs_at(h, n, k),
        forall|j: int| i <= j < k ==> !occurs_at(h, n, j),
    ensures
        find_from(h, n, i) == Some(k),
{
    lemma_find_from(h, n, i);
}

/// Where the echo target of `name` first occurs at `a`, the first `| ` after
/// it at `b` and the first `||` after that at `c`, the linker arguments are the
/// text strictly between the two markers, with `$:` turned back into `:`.
pub proof fn lemma_args_between_markers(t: Seq<char>, name: Seq<char>, a: int, b: int, c: int)
    requires
        0 <= a <= b,
        b + "| "@.len() <= c,
        occurs_at(t, echo_marker(name), a),
        forall|j: int| 0 <= j < a ==> !occurs_at(t, echo_marker(name), j),
        occurs_at(t, "| "@, b),
        forall|j: int| a <= j < b ==> !occurs_at(t, "| "@, j),
        occurs_at(t, "||"@, c),
        forall|j: int| b + "| "@.len() <= j < c ==> !occurs_at(t, "||"@, j),
    ensures
        link_args_spec(t, name) == Ok::<_, LinkFault>(
            unescape_colons(t.subrange(b + "| "@.len(), c)),
        ),
{
    lemma_first_occurrence(t, echo_marker(name), 0, a);
    lemma_first_occurrence(t, "| "@, a, b);
    lemma_first_occurrence(t, "||"@, b + "| "@.len(), c);
}

/// The names that the library forms give: `-lNAME`, `libNAME.a` and a
/// `libNAME` that the pattern leaves unmatched give `NAME`; a shared object
/// gives what the pattern captured; a Windows stem is its own name.
pub proof fn lemma_library_forms(name: Seq<char>, g: Seq<char>)
    requires
        name.len() > 0,
        g.len() > 0,
    ensures
        stem_library("-l"@ + name, Convention::Unix, None) == Some(name),
        stem_library("lib"@ + name + ".a"@, Convention::Unix, None) == Some(name),
        !ends_with(name, ".a"@) ==> stem_library("lib"@ + name, Convention::Unix, None) == Some(
            name,
        ),
        !ends_with(name, ".a"@) ==> stem_library(
            "lib"@ + name,
            Convention::Unix,
            Some(Some(g)),
        ) == Some(g),
        stem_library(name, Convention::Windows, None) == Some(name),
{
    reveal_strlit("-l");
    reveal_strlit("lib");
    reveal_strlit(".a");
    let f = "-l"@ + name;
    assert(f.subrange(0, 2) =~= "-l"@);
    assert(drop_front(f, "-l"@) =~= name);
    let s = "lib"@ + name + ".a"@;
    assert(s.subrange(0, 3) =~= "lib"@);
    assert(s[0] == 'l');
    assert(!starts_with(s, "-l"@));
    let rest = drop_front(s, "lib"@);
    assert(rest =~= name + ".a"@);
    assert(rest.subrange(rest.len() - 2, rest.len() as int) =~= ".a"@);
    assert(drop_back(rest, ".a"@) =~= name);
    let d = "lib"@ + name;
    assert(d.subrange(0, 3) =~= "lib"@);
    assert(d[0] == 'l');
    assert(!starts_with(d, "-l"@));
    assert(drop_front(d, "lib"@) =~= name);
}

/// A token that resolves gets as search directory the parent of its
/// normalized path where that parent is not empty, and none otherwise.
pub proof fn lemma_search_dir(token: Seq<char>, conv: Convention)
    requires
        resolve_spec(token, conv) is Ok,
    ensures
        ({
            let d = resolve_spec(token, conv)->Ok_0.0;
            match path_parent(forward_slashes(token)) {
                Some(p) => if p.len() > 0 { d == Some(p) } else { d is None },
                None => d is None,
            }
        }),
{
}

/// Resolution keeps the tokens' order: the i-th library is what the i-th
/// token resolves to, with none dropped or added.
pub proof fn lemma_order_kept(ts: Seq<Seq<char>>, conv: Convention)
    requires
        resolve_all(ts, conv) is Ok,
    ensures
        resolve_all(ts, conv)->Ok_0.len() == ts.len(),
        forall|i: int|
            0 <= i < ts.len() ==> resolve_spec(#[trigger] ts[i], conv) == Ok::<_, LinkFault>(
                resolve_all(ts, conv)->Ok_0[i],
            ),
    decreases ts.len(),
{
    if ts.len() > 0 {
        lemma_order_kept(ts.drop_last(), conv);
        assert forall|i: int| 0 <= i < ts.len() implies resolve_spec(#[trigger] ts[i], conv)
            == Ok::<_, LinkFault>(resolve_all(ts, conv)->Ok_0[i]) by {
            if i < ts.len() - 1 {
                assert(ts[i] == ts.drop_last()[i]);
            }
        }
    }
}

} // verus!
