use vstd::prelude::*;

verus! {

/// What `std::path::Path::parent` gives for the path `p`.
pub uninterp spec fn path_parent(p: Seq<char>) -> Option<Seq<char>>;

/// What `std::path::Path::file_stem` gives for the path `p`.
pub uninterp spec fn path_stem(p: Seq<char>) -> Option<Seq<char>>;

/// Whether `regex::Regex::new` accepts `pattern`.
pub uninterp spec fn regex_accepts(pattern: Seq<char>) -> bool;

/// What `regex::Regex::captures` gives for group 1 of `pattern` on `hay`:
/// `None` where nothing matches, `Some(None)` where the group took no part.
pub uninterp spec fn first_group_of(pattern: Seq<char>, hay: Seq<char>) -> Option<Option<Seq<char>>>;

/// No character of `s` is a `/`.
pub open spec fn no_slash(s: Seq<char>) -> bool {
    forall|i: int| 0 <= i < s.len() ==> s[i] != '/'
}

/// `p` is one non-empty path component with no drive or other prefix: it
/// holds no `/`, `\\` or `:`.
pub open spec fn single_component(p: Seq<char>) -> bool {
    p.len() > 0 && forall|i: int| 0 <= i < p.len() ==> p[i] != '/' && p[i] != '\\' && p[i] != ':'
}

pub open spec fn opt_view(o: Option<String>) -> Option<Seq<char>> {
    match o {
        Some(s) => Some(s@),
        None => None,
    }
}

pub open spec fn opt_opt_view(o: Option<Option<String>>) -> Option<Option<Seq<char>>> {
    match o {
        Some(g) => Some(opt_view(g)),
        None => None,
    }
}

#[verifier::external_type_specification]
#[verifier::external_body]
pub struct ExRegexError(regex::Error);

/// Relies on `std::path::Path::parent`: the path without its final
/// component, `None` where the path ends in a root or is empty; a relative
/// path of one component has the empty path as parent.
#[verifier::external_body]
pub(crate) fn parent_of(p: &str) -> (r: Option<String>)
    ensures
        opt_view(r) == path_parent(p@),
        single_component(p@) ==> opt_view(r) == Some(Seq::<char>::empty()),
{
    std::path::Path::new(p).parent().map(|d| d.to_string_lossy().into_owned())
}

/// Relies on `std::path::Path::file_stem`: a part of the file name, which is
/// the final component; `None` where there is no file name; the whole file
/// name where it holds no `.`. Without backslashes there is no verbatim
/// prefix, so `/` separates components on every platform and the stem holds
/// none.
#[verifier::external_body]
pub(crate) fn stem_of(p: &str) -> (r: Option<String>)
    requires
        forall|i: int| 0 <= i < p@.len() ==> p@[i] != '\\',
    ensures
        opt_view(r) == path_stem(p@),
        r matches Some(s) ==> no_slash(s@),
        single_component(p@) && (forall|i: int| 0 <= i < p@.len() ==> p@[i] != '.')
            ==> opt_view(r) == Some(p@),
{
    std::path::Path::new(p).file_stem().map(|s| s.to_string_lossy().into_owned())
}

/// Relies on `regex::Regex::new` (an error for a pattern it refuses, that is
/// an invalid one or one over the default size limit; the shared-object
/// pattern is valid and small) and on
/// `regex::Regex::captures` with `Captures::get(1)` (the text of the first
/// group in the leftmost match; `Match::as_str` gives the substring of the
/// haystack that it matched).
#[verifier::external_body]
pub(crate) fn first_group(pattern: &str, hay: &str) -> (r: Result<Option<Option<String>>, regex::Error>)
    ensures
        r is Ok == regex_accepts(pattern@),
        pattern@ == crate::link::SHARED_OBJECT_PATTERN@ ==> r is Ok,
        r matches Ok(c) ==> opt_opt_view(c) == first_group_of(pattern@, hay@),
        r matches Ok(Some(Some(g))) ==> exists|lo: int, hi: int|
            0 <= lo <= hi <= hay@.len() && g@ == hay@.subrange(lo, hi),
{
    regex::Regex::new(pattern).map(
        |re| re.captures(hay).map(|c| c.get(1).map(|m| m.as_str().to_string())),
    )
}

} // verus!
