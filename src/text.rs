use vstd::prelude::*;

verus! {

/// `n` occurs in `h` starting at position `i`.
pub open spec fn occurs_at(h: Seq<char>, n: Seq<char>, i: int) -> bool {
    0 <= i && i + n.len() <= h.len() && h.subrange(i, i + n.len()) == n
}

/// The first position at or after `i` where `n` occurs in `h`.
pub open spec fn find_from(h: Seq<char>, n: Seq<char>, i: int) -> Option<int>
    decreases h.len() + 1 - i,
{
    if i < 0 || i + n.len() > h.len() {
        None
    } else if occurs_at(h, n, i) {
        Some(i)
    } else {
        find_from(h, n, i + 1)
    }
}

/// `find_from` gives the first occurrence at or after `i`, or `None` where
/// there is none.
pub proof fn lemma_find_from(h: Seq<char>, n: Seq<char>, i: int)
    requires
        0 <= i,
    ensures
        find_from(h, n, i) matches Some(k) ==> i <= k && occurs_at(h, n, k) && forall|j: int|
            i <= j < k ==> !occurs_at(h, n, j),
        find_from(h, n, i) is None ==> forall|j: int| i <= j ==> !occurs_at(h, n, j),
    decreases h.len() + 1 - i,
{
    if i + n.len() > h.len() {
    } else if occurs_at(h, n, i) {
    } else {
        lemma_find_from(h, n, i + 1);
    }
}

/// `s` with every `$:` replaced by `:`, scanning from the left.
pub open spec fn unescape_colons(s: Seq<char>) -> Seq<char>
    decreases s.len(),
{
    if s.len() == 0 {
        s
    } else if s.len() >= 2 && s[0] == '$' && s[1] == ':' {
        seq![':'] + unescape_colons(s.subrange(2, s.len() as int))
    } else {
        seq![s[0]] + unescape_colons(s.subrange(1, s.len() as int))
    }
}

/// No two `|` stand side by side in `s`.
pub open spec fn no_double_bar(s: Seq<char>) -> bool {
    forall|j: int| 0 <= j < s.len() - 1 ==> !(s[j] == '|' && #[trigger] s[j + 1] == '|')
}

/// Unescaping makes no `||`, and keeps whether the text starts with `|`.
pub proof fn lemma_unescape_no_double_bar(s: Seq<char>)
    requires
        no_double_bar(s),
    ensures
        no_double_bar(unescape_colons(s)),
        unescape_colons(s).len() == 0 <==> s.len() == 0,
        s.len() > 0 ==> (unescape_colons(s)[0] == '|' <==> s[0] == '|'),
    decreases s.len(),
{
    if s.len() > 0 {
        let k: int = if s.len() >= 2 && s[0] == '$' && s[1] == ':' { 2 } else { 1 };
        let r = s.subrange(k, s.len() as int);
        assert forall|j: int| 0 <= j < r.len() - 1 implies !(r[j] == '|' && #[trigger] r[j + 1] == '|') by {
            assert(r[j] == s[j + k] && r[j + 1] == s[j + k + 1]);
        }
        lemma_unescape_no_double_bar(r);
        let u = unescape_colons(s);
        let ur = unescape_colons(r);
        let h: char = if k == 2 { ':' } else { s[0] };
        assert(u == seq![h] + ur);
        assert forall|j: int| 0 <= j < u.len() - 1 implies !(u[j] == '|' && #[trigger] u[j + 1] == '|') by {
            if j == 0 {
                if h == '|' {
                    assert(u[1] == ur[0]);
                    assert(r[0] == s[1]);
                    assert(!(s[0] == '|' && s[0int + 1] == '|'));
                }
            } else {
                assert(u[j] == ur[j - 1] && u[j + 1] == ur[j]);
                assert(!(ur[j - 1] == '|' && ur[(j - 1) + 1] == '|'));
            }
        }
    }
}

/// `s` with every backslash turned into a forward slash.
pub open spec fn forward_slashes(s: Seq<char>) -> Seq<char> {
    s.map_values(|c: char| if c == '\\' { '/' } else { c })
}

/// The characters with the Unicode `White_Space` property.
pub open spec fn white_space(c: char) -> bool {
    let u = c as u32;
    (0x9 <= u <= 0xd) || u == 0x20 || u == 0x85 || u == 0xa0 || u == 0x1680 || (0x2000 <= u
        <= 0x200a) || u == 0x2028 || u == 0x2029 || u == 0x202f || u == 0x205f || u == 0x3000
}

/// Tokens finished so far, and the token being read, after a left-to-right
/// pass over `s` that splits at white space.
pub open spec fn split_state(s: Seq<char>) -> (Seq<Seq<char>>, Seq<char>)
    decreases s.len(),
{
    if s.len() == 0 {
        (Seq::empty(), Seq::empty())
    } else {
        let (done, cur) = split_state(s.drop_last());
        let c = s.last();
        if white_space(c) {
            if cur.len() > 0 {
                (done.push(cur), Seq::empty())
            } else {
                (done, Seq::empty())
            }
        } else {
            (done, cur.push(c))
        }
    }
}

/// The maximal runs of non-white-space characters of `s`, in order.
pub open spec fn split_white(s: Seq<char>) -> Seq<Seq<char>> {
    let (done, cur) = split_state(s);
    if cur.len() > 0 {
        done.push(cur)
    } else {
        done
    }
}

/// Whether `c` has the Unicode `White_Space` property.
pub fn is_white_space(c: char) -> (r: bool)
    ensures
        r == white_space(c),
{
    let u = c as u32;
    (0x9 <= u && u <= 0xd) || u == 0x20 || u == 0x85 || u == 0xa0 || u == 0x1680 || (0x2000 <= u
        && u <= 0x200a) || u == 0x2028 || u == 0x2029 || u == 0x202f || u == 0x205f || u
        == 0x3000
}

/// Relies on `String::push`: appends one character.
#[verifier::external_body]
pub(crate) fn push_char(s: &mut String, c: char)
    ensures
        final(s)@ == old(s)@.push(c),
{
    s.push(c)
}

/// The characters of `s`.
pub fn chars_of(s: &str) -> (r: Vec<char>)
    ensures
        r@ == s@,
{
    let mut out: Vec<char> = Vec::new();
    for c in it: s.chars()
        invariant
            out@ == it.seq().subrange(0, it.index() as int),
            it.seq() == s@,
    {
        out.push(c);
    }
    assert(out@ =~= s@);
    out
}

/// The string made of `cs[lo..hi]`.
pub fn string_of(cs: &Vec<char>, lo: usize, hi: usize) -> (r: String)
    requires
        lo <= hi <= cs@.len(),
    ensures
        r@ == cs@.subrange(lo as int, hi as int),
{
    let mut out = String::new();
    let mut i: usize = lo;
    while i < hi
        invariant
            lo <= i <= hi <= cs@.len(),
            out@ == cs@.subrange(lo as int, i as int),
        decreases hi - i,
    {
        push_char(&mut out, cs[i]);
        i = i + 1;
        assert(out@ =~= cs@.subrange(lo as int, i as int));
    }
    out
}

/// Whether `n` occurs in `h` at position `i`.
pub fn matches_at(h: &Vec<char>, n: &Vec<char>, i: usize) -> (r: bool)
    ensures
        r == occurs_at(h@, n@, i as int),
{
    if i > h.len() || n.len() > h.len() - i {
        return false;
    }
    let hl = h.len();
    let mut k: usize = 0;
    while k < n.len()
        invariant
            hl == h@.len(),
            i + n@.len() <= h@.len(),
            k <= n@.len(),
            h@.subrange(i as int, i + k) == n@.subrange(0, k as int),
        decreases n@.len() - k,
    {
        if h[i + k] != n[k] {
            assert(h@.subrange(i as int, i + n@.len())[k as int] != n@[k as int]);
            return false;
        }
        k = k + 1;
        assert(h@.subrange(i as int, i + k) =~= n@.subrange(0, k as int));
    }
    assert(n@.subrange(0, k as int) =~= n@);
    true
}

/// The first position at or after `start` where `n` occurs in `h`.
pub fn find_after(h: &Vec<char>, n: &Vec<char>, start: usize) -> (r: Option<usize>)
    ensures
        r matches Some(k) ==> find_from(h@, n@, start as int) == Some(k as int),
        r is None ==> find_from(h@, n@, start as int) is None,
{
    let mut i: usize = start;
    if i > h.len() || n.len() > h.len() - i {
        return None;
    }
    let last = h.len() - n.len();
    while i <= last
        invariant
            start <= i <= last + 1,
            last == h@.len() - n@.len(),
            find_from(h@, n@, start as int) == find_from(h@, n@, i as int),
        decreases last + 1 - i,
    {
        if matches_at(h, n, i) {
            return Some(i);
        }
        if i == last {
            assert(find_from(h@, n@, i + 1) is None);
            return None;
        }
        i = i + 1;
    }
    None
}

/// `cs[lo..hi]` with every `$:` replaced by `:`.
pub fn unescape_range(cs: &Vec<char>, lo: usize, hi: usize) -> (r: String)
    requires
        lo <= hi <= cs@.len(),
    ensures
        r@ == unescape_colons(cs@.subrange(lo as int, hi as int)),
{
    let mut out = String::new();
    let mut i: usize = lo;
    while i < hi
        invariant
            lo <= i <= hi <= cs@.len(),
            unescape_colons(cs@.subrange(lo as int, hi as int)) == out@ + unescape_colons(
                cs@.subrange(i as int, hi as int),
            ),
        decreases hi - i,
    {
        let ghost rest = cs@.subrange(i as int, hi as int);
        if i + 1 < hi && cs[i] == '$' && cs[i + 1] == ':' {
            push_char(&mut out, ':');
            assert(rest.subrange(2, rest.len() as int) =~= cs@.subrange(i + 2, hi as int));
            i = i + 2;
        } else {
            push_char(&mut out, cs[i]);
            assert(rest.subrange(1, rest.len() as int) =~= cs@.subrange(i + 1, hi as int));
            i = i + 1;
        }
    }
    assert(cs@.subrange(i as int, hi as int) =~= Seq::<char>::empty());
    assert(out@ + Seq::<char>::empty() =~= out@);
    out
}

/// `s` with every backslash turned into a forward slash.
pub fn to_forward_slashes(s: &str) -> (r: String)
    ensures
        r@ == forward_slashes(s@),
{
    let cs = chars_of(s);
    let mut out = String::new();
    let mut i: usize = 0;
    while i < cs.len()
        invariant
            i <= cs@.len(),
            cs@ == s@,
            out@ == forward_slashes(s@).subrange(0, i as int),
        decreases cs@.len() - i,
    {
        let c = cs[i];
        push_char(&mut out, if c == '\\' { '/' } else { c });
        i = i + 1;
        assert(out@ =~= forward_slashes(s@).subrange(0, i as int));
    }
    assert(out@ =~= forward_slashes(s@));
    out
}

/// The maximal runs of non-white-space characters of `s`, in order.
pub fn split_white_space(s: &str) -> (r: Vec<String>)
    ensures
        r@.map_values(|t: String| t@) == split_white(s@),
{
    let cs = chars_of(s);
    let mut done: Vec<String> = Vec::new();
    let mut cur = String::new();
    let mut i: usize = 0;
    while i < cs.len()
        invariant
            i <= cs@.len(),
            cs@ == s@,
            (done@.map_values(|t: String| t@), cur@) == split_state(s@.subrange(0, i as int)),
        decreases cs@.len() - i,
    {
        let c = cs[i];
        let ghost prefix = s@.subrange(0, i + 1);
        assert(prefix.drop_last() =~= s@.subrange(0, i as int));
        if is_white_space(c) {
            if !cur.as_str().is_empty() {
                let ghost old_done = done@;
                let ghost cur_v = cur@;
                done.push(cur);
                assert(done@.map_values(|t: String| t@) =~= old_done.map_values(
                    |t: String| t@,
                ).push(cur_v));
                cur = String::new();
            } else {
                cur = String::new();
            }
        } else {
            push_char(&mut cur, c);
        }
        i = i + 1;
    }
    assert(s@.subrange(0, i as int) =~= s@);
    if !cur.as_str().is_empty() {
        let ghost old_done = done@;
        let ghost cur_v = cur@;
        done.push(cur);
        assert(done@.map_values(|t: String| t@) =~= old_done.map_values(|t: String| t@).push(
            cur_v,
        ));
    }
    done
}

} // verus!
