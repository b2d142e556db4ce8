//! Splitting paths and patterns into `/`-separated segments, and equality
//! helpers on strings, as sequences of characters.

use vstd::prelude::*;

verus! {

/// Index of the first '/' in `s`, or `s.len()` if there is none.
pub open spec fn first_slash(s: Seq<char>) -> int
    decreases s.len(),
{
    if s.len() == 0 {
        0
    } else if s[0] == '/' {
        0
    } else {
        1 + first_slash(s.skip(1))
    }
}

pub proof fn lemma_first_slash(s: Seq<char>)
    ensures
        0 <= first_slash(s) <= s.len(),
        forall|i: int| 0 <= i < first_slash(s) ==> s[i] != '/',
        first_slash(s) < s.len() ==> s[first_slash(s)] == '/',
    decreases s.len(),
{
    if s.len() == 0 {
    } else if s[0] == '/' {
    } else {
        lemma_first_slash(s.skip(1));
        assert forall|i: int| 0 <= i < first_slash(s) implies s[i] != '/' by {
            if i > 0 {
                assert(s.skip(1)[i - 1] == s[i]);
            }
        }
        if first_slash(s) < s.len() {
            assert(s.skip(1)[first_slash(s) - 1] == s[first_slash(s)]);
        }
    }
}

/// `first_slash` is pinned down by its characterization.
pub proof fn lemma_first_slash_is(s: Seq<char>, k: int)
    requires
        0 <= k <= s.len(),
        forall|i: int| 0 <= i < k ==> s[i] != '/',
        k < s.len() ==> s[k] == '/',
    ensures
        first_slash(s) == k,
    decreases s.len(),
{
    if s.len() == 0 {
    } else if s[0] == '/' {
        assert(k == 0);
    } else {
        assert(k > 0);
        assert forall|i: int| 0 <= i < k - 1 implies s.skip(1)[i] != '/' by {
            assert(s.skip(1)[i] == s[i + 1]);
        }
        if k - 1 < s.skip(1).len() {
            assert(s.skip(1)[k - 1] == s[k]);
        }
        lemma_first_slash_is(s.skip(1), k - 1);
    }
}

/// The segments of `s`, split on '/'. Splitting the empty string gives one
/// empty segment, so a path "/a/b" yields ["", "a", "b"].
pub open spec fn split_slash(s: Seq<char>) -> Seq<Seq<char>>
    decreases s.len(),
{
    let i = first_slash(s);
    if 0 <= i < s.len() {
        seq![s.take(i)] + split_slash(s.skip(i + 1))
    } else {
        seq![s]
    }
}

/// No segment produced by splitting contains a '/': a capture taken from a
/// path segment can never span a segment boundary.
pub proof fn lemma_split_no_slash(s: Seq<char>)
    ensures
        forall|k: int, j: int|
            0 <= k < split_slash(s).len() && 0 <= j < split_slash(s)[k].len()
                ==> split_slash(s)[k][j] != '/',
    decreases s.len(),
{
    lemma_first_slash(s);
    let i = first_slash(s);
    if 0 <= i < s.len() {
        lemma_split_no_slash(s.skip(i + 1));
        assert forall|k: int, j: int|
            0 <= k < split_slash(s).len() && 0 <= j < split_slash(s)[k].len()
            implies split_slash(s)[k][j] != '/' by {
            if k == 0 {
                assert(split_slash(s)[0] == s.take(i));
                assert(s.take(i)[j] == s[j]);
            } else {
                assert(split_slash(s)[k] == split_slash(s.skip(i + 1))[k - 1]);
            }
        }
    }
}

/// Splitting a string whose segment boundary structure is known: if `s` has
/// no '/' before `k` and a '/' at `k`, the first segment is `s.take(k)` and
/// the rest are the segments of `s.skip(k + 1)`.
pub proof fn lemma_split_step(s: Seq<char>, k: int)
    requires
        0 <= k < s.len(),
        forall|i: int| 0 <= i < k ==> s[i] != '/',
        s[k] == '/',
    ensures
        split_slash(s) == seq![s.take(k)] + split_slash(s.skip(k + 1)),
{
    lemma_first_slash_is(s, k);
}

/// Splitting a string with no '/' at all gives that string as the only
/// segment.
pub proof fn lemma_split_whole(s: Seq<char>)
    requires
        forall|i: int| 0 <= i < s.len() ==> s[i] != '/',
    ensures
        split_slash(s) == seq![s],
{
    lemma_first_slash_is(s, s.len() as int);
}

/// Split `s` into its '/'-separated segments.
pub fn split_path(s: &str) -> (r: Vec<String>)
    ensures
        r.deep_view() == split_slash(s@),
        r.len() >= 1,
{
    let n = s.unicode_len();
    let mut r: Vec<String> = Vec::new();
    let mut start: usize = 0;
    let mut j: usize = 0;
    proof {
        assert(s@.skip(0) =~= s@);
        assert(r.deep_view() =~= Seq::<Seq<char>>::empty());
        assert(split_slash(s@) =~= r.deep_view() + split_slash(s@.skip(0)));
    }
    while j < n
        invariant
            n == s@.len(),
            0 <= start <= j <= n,
            forall|i: int| start <= i < j ==> s@[i] != '/',
            split_slash(s@) == r.deep_view() + split_slash(s@.skip(start as int)),
        decreases n - j,
    {
        if s.get_char(j) == '/' {
            let seg = String::from_str(s.substring_char(start, j));
            proof {
                let tail = s@.skip(start as int);
                assert forall|i: int| 0 <= i < j - start implies tail[i] != '/' by {
                    assert(tail[i] == s@[start + i]);
                }
                assert(tail[j - start] == s@[j as int]);
                lemma_split_step(tail, j - start);
                assert(tail.take(j - start) =~= s@.subrange(start as int, j as int));
                assert(tail.skip(j - start + 1) =~= s@.skip(j + 1));
            }
            let ghost prev = r.deep_view();
            r.push(seg);
            proof {
                assert(r.deep_view() =~= prev.push(seg@));
                assert(split_slash(s@) =~= r.deep_view() + split_slash(s@.skip(j + 1)));
            }
            start = j + 1;
        }
        j += 1;
    }
    let last = String::from_str(s.substring_char(start, n));
    proof {
        let tail = s@.skip(start as int);
        assert forall|i: int| 0 <= i < tail.len() implies tail[i] != '/' by {
            assert(tail[i] == s@[start + i]);
        }
        lemma_split_whole(tail);
        assert(tail =~= s@.subrange(start as int, n as int));
    }
    let ghost prev = r.deep_view();
    r.push(last);
    proof {
        assert(r.deep_view() =~= prev.push(last@));
        assert(split_slash(s@) =~= r.deep_view());
    }
    r
}

/// Character-sequence equality of two strings.
pub fn str_eq(a: &str, b: &str) -> (r: bool)
    ensures
        r == (a@ == b@),
{
    let sa = String::from_str(a);
    let sb = String::from_str(b);
    sa == sb
}

/// Uppercasing of an ASCII lower-case letter, at the code-point level; other
/// code points are left alone.
pub open spec fn upper32(x: u32) -> u32 {
    if 97 <= x <= 122 {
        (x - 32) as u32
    } else {
        x
    }
}

/// Two strings are equal up to ASCII case.
pub open spec fn eq_ignore_case(a: Seq<char>, b: Seq<char>) -> bool {
    a.len() == b.len() && forall|i: int|
        0 <= i < a.len() ==> upper32(a[i] as u32) == upper32(b[i] as u32)
}

/// Compare two strings, treating ASCII letters case-insensitively.
pub fn str_eq_ignore_case(a: &str, b: &str) -> (r: bool)
    ensures
        r == eq_ignore_case(a@, b@),
{
    let na = a.unicode_len();
    let nb = b.unicode_len();
    if na != nb {
        return false;
    }
    let mut i: usize = 0;
    while i < na
        invariant
            na == a@.len(),
            nb == b@.len(),
            na == nb,
            0 <= i <= na,
            forall|k: int| 0 <= k < i ==> upper32(a@[k] as u32) == upper32(b@[k] as u32),
        decreases na - i,
    {
        let ca = a.get_char(i) as u32;
        let cb = b.get_char(i) as u32;
        let ua = if 97 <= ca && ca <= 122 { ca - 32 } else { ca };
        let ub = if 97 <= cb && cb <= 122 { cb - 32 } else { cb };
        if ua != ub {
            return false;
        }
        i += 1;
    }
    true
}

} // verus!
