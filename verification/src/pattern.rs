//! Compiling a declarative route pattern such as `/orders/{id}/{date}` into a
//! matcher: a list of segments, each a literal to be compared exactly or a
//! named placeholder capturing one non-empty, slash-free path segment.

use vstd::prelude::*;
use crate::errors::MockError;
use crate::params::{Params, map_of, distinct_keys};
use crate::text::{split_slash, split_path, str_eq};

verus! {

/// One compiled segment of a route pattern.
pub enum PatSeg {
    /// A literal segment, matched by character equality.
    Lit(String),
    /// A `{name}` placeholder, matched by any non-empty slash-free segment.
    Param(String),
}

/// A matcher plus (through `param_names`) the ordered placeholder-name list
/// derived from one route pattern.
pub struct CompiledRoute {
    pub segs: Vec<PatSeg>,
}

/// The segment contains neither '{' nor '}'.
pub open spec fn no_braces(x: Seq<char>) -> bool {
    forall|j: int| 0 <= j < x.len() ==> x[j] != '{' && x[j] != '}'
}

/// The segment is exactly `{name}` with a non-empty, brace-free name.
pub open spec fn is_placeholder(x: Seq<char>) -> bool {
    &&& x.len() >= 3
    &&& x[0] == '{'
    &&& x[x.len() - 1] == '}'
    &&& forall|j: int| 1 <= j < x.len() - 1 ==> x[j] != '{' && x[j] != '}'
}

/// The name between the braces of a placeholder segment.
pub open spec fn placeholder_name(x: Seq<char>) -> Seq<char> {
    x.subrange(1, x.len() - 1)
}

/// A pattern segment is well-formed if it is a plain literal or a placeholder.
pub open spec fn seg_wf(x: Seq<char>) -> bool {
    no_braces(x) || is_placeholder(x)
}

/// A pattern can be compiled: it is non-empty and each of its '/'-separated
/// segments is well-formed.
pub open spec fn pattern_wf(p: Seq<char>) -> bool {
    &&& p.len() > 0
    &&& forall|i: int| 0 <= i < split_slash(p).len() ==> seg_wf(#[trigger] split_slash(p)[i])
}

/// The compiled form of one well-formed pattern segment.
pub open spec fn seg_compiled(x: Seq<char>, s: PatSeg) -> bool {
    if no_braces(x) {
        s matches PatSeg::Lit(l) && l@ == x
    } else {
        s matches PatSeg::Param(n) && n@ == placeholder_name(x)
    }
}

/// The route is the compiled form of the pattern, segment by segment.
pub open spec fn compiled_from(route: CompiledRoute, p: Seq<char>) -> bool {
    &&& route.segs@.len() == split_slash(p).len()
    &&& forall|i: int| 0 <= i < route.segs@.len() ==> seg_compiled(
        split_slash(p)[i],
        #[trigger] route.segs@[i],
    )
}

/// A path segment matches a pattern segment: literals by equality,
/// placeholders by being non-empty and free of '/'.
pub open spec fn seg_matches(s: PatSeg, x: Seq<char>) -> bool {
    match s {
        PatSeg::Lit(l) => x == l@,
        PatSeg::Param(_) => x.len() >= 1 && forall|j: int| 0 <= j < x.len() ==> x[j] != '/',
    }
}

/// A segment list matches a path's segment list: same length, and each
/// segment matches positionally.
pub open spec fn segs_match(segs: Seq<PatSeg>, xs: Seq<Seq<char>>) -> bool {
    &&& xs.len() == segs.len()
    &&& forall|i: int| 0 <= i < segs.len() ==> seg_matches(#[trigger] segs[i], xs[i])
}

/// A full path matches a compiled route.
pub open spec fn path_matches(route: CompiledRoute, path: Seq<char>) -> bool {
    segs_match(route.segs@, split_slash(path))
}

/// The placeholder names of a segment list, in declaration order.
pub open spec fn param_names(segs: Seq<PatSeg>) -> Seq<Seq<char>>
    decreases segs.len(),
{
    if segs.len() == 0 {
        Seq::empty()
    } else {
        param_names(segs.drop_last()) + match segs.last() {
            PatSeg::Param(n) => seq![n@],
            PatSeg::Lit(_) => Seq::empty(),
        }
    }
}

/// The (name, value) capture pairs of a match, in declaration order.
pub open spec fn capture_list(segs: Seq<PatSeg>, xs: Seq<Seq<char>>) -> Seq<
    (Seq<char>, Seq<char>),
>
    decreases segs.len(),
{
    if segs.len() == 0 {
        Seq::empty()
    } else {
        capture_list(segs.drop_last(), xs.drop_last()) + match segs.last() {
            PatSeg::Param(n) => seq![(n@, xs.last())],
            PatSeg::Lit(_) => Seq::empty(),
        }
    }
}

/// The parameter mapping extracted from a match: each placeholder name bound
/// to its path segment, a later duplicate placeholder overriding an earlier
/// one.
pub open spec fn captures(segs: Seq<PatSeg>, xs: Seq<Seq<char>>) -> Map<Seq<char>, Seq<char>> {
    map_of(capture_list(segs, xs))
}

/// The names of the capture list are the placeholder names.
pub proof fn lemma_capture_list_names(segs: Seq<PatSeg>, xs: Seq<Seq<char>>)
    ensures
        capture_list(segs, xs).map_values(|kv: (Seq<char>, Seq<char>)| kv.0) == param_names(segs),
    decreases segs.len(),
{
    if segs.len() == 0 {
        assert(capture_list(segs, xs).map_values(|kv: (Seq<char>, Seq<char>)| kv.0)
            =~= param_names(segs));
    } else {
        lemma_capture_list_names(segs.drop_last(), xs.drop_last());
        assert(capture_list(segs, xs).map_values(|kv: (Seq<char>, Seq<char>)| kv.0)
            =~= param_names(segs));
    }
}

/// Does the segment contain a brace?
fn seg_has_brace(s: &str) -> (r: bool)
    ensures
        r == !no_braces(s@),
{
    let n = s.unicode_len();
    let mut j: usize = 0;
    while j < n
        invariant
            n == s@.len(),
            0 <= j <= n,
            forall|i: int| 0 <= i < j ==> s@[i] != '{' && s@[i] != '}',
        decreases n - j,
    {
        let c = s.get_char(j);
        if c == '{' || c == '}' {
            return true;
        }
        j += 1;
    }
    false
}

/// Compile one pattern segment, or report that it is malformed.
fn compile_seg(s: &str) -> (r: Option<PatSeg>)
    ensures
        r is Some <==> seg_wf(s@),
        r matches Some(p) ==> seg_compiled(s@, p),
{
    if !seg_has_brace(s) {
        return Some(PatSeg::Lit(String::from_str(s)));
    }
    let n = s.unicode_len();
    if n < 3 {
        return None;
    }
    if s.get_char(0) != '{' || s.get_char(n - 1) != '}' {
        return None;
    }
    let mut j: usize = 1;
    while j < n - 1
        invariant
            n == s@.len(),
            3 <= n,
            1 <= j <= n - 1,
            forall|i: int| 1 <= i < j ==> s@[i] != '{' && s@[i] != '}',
        decreases n - j,
    {
        let c = s.get_char(j);
        if c == '{' || c == '}' {
            return None;
        }
        j += 1;
    }
    let name = String::from_str(s.substring_char(1, n - 1));
    Some(PatSeg::Param(name))
}

impl CompiledRoute {
    /// Compile a declarative route pattern into a matcher together with its
    /// ordered placeholder names. Fails exactly on the empty pattern and on
    /// segments with malformed placeholder syntax.
    pub fn compile(pattern: &str) -> (r: Result<CompiledRoute, MockError>)
        ensures
            r is Ok <==> pattern_wf(pattern@),
            r matches Ok(route) ==> compiled_from(route, pattern@),
            r matches Err(e) ==> e matches MockError::InvalidInput(_),
    {
        if pattern.unicode_len() == 0 {
            return Err(
                MockError::InvalidInput(String::from_str("route pattern must not be empty")),
            );
        }
        let xs = split_path(pattern);
        let ghost xsv = split_slash(pattern@);
        let n = xs.len();
        let mut segs: Vec<PatSeg> = Vec::new();
        let mut i: usize = 0;
        while i < n
            invariant
                n == xs.len(),
                xs.deep_view() == xsv,
                xsv == split_slash(pattern@),
                pattern@.len() > 0,
                0 <= i <= n,
                segs.len() == i,
                forall|k: int| 0 <= k < i ==> seg_wf(#[trigger] xsv[k]),
                forall|k: int| 0 <= k < i ==> seg_compiled(xsv[k], #[trigger] segs@[k]),
            decreases n - i,
        {
            proof {
                assert(xs[i as int]@ == xsv[i as int]);
            }
            match compile_seg(xs[i].as_str()) {
                Some(p) => {
                    segs.push(p);
                },
                None => {
                    proof {
                        assert(!seg_wf(split_slash(pattern@)[i as int]));
                        assert(!pattern_wf(pattern@));
                    }
                    return Err(
                        MockError::InvalidInput(
                            String::from_str("route pattern has a malformed placeholder segment"),
                        ),
                    );
                },
            }
            i += 1;
        }
        Ok(CompiledRoute { segs })
    }

    /// The placeholder names of this route, in declaration order.
    pub fn names(&self) -> (r: Vec<String>)
        ensures
            r.deep_view() == param_names(self.segs@),
    {
        let n = self.segs.len();
        let mut r: Vec<String> = Vec::new();
        proof {
            assert(self.segs@.take(0) =~= Seq::<PatSeg>::empty());
            assert(r.deep_view() =~= param_names(self.segs@.take(0)));
        }
        let mut i: usize = 0;
        while i < n
            invariant
                n == self.segs.len(),
                0 <= i <= n,
                r.deep_view() == param_names(self.segs@.take(i as int)),
            decreases n - i,
        {
            let ghost prev = r.deep_view();
            match &self.segs[i] {
                PatSeg::Param(name) => {
                    r.push(name.clone());
                    proof {
                        assert(r.deep_view() =~= prev.push(name@));
                    }
                },
                PatSeg::Lit(_) => {},
            }
            proof {
                assert(self.segs@.take(i + 1).drop_last() =~= self.segs@.take(i as int));
                assert(self.segs@.take(i + 1).last() == self.segs@[i as int]);
                assert(r.deep_view() =~= param_names(self.segs@.take(i + 1)));
            }
            i += 1;
        }
        proof {
            assert(self.segs@.take(n as int) =~= self.segs@);
        }
        r
    }

    /// Does a pre-split path match this route? This is the matcher's defining
    /// property: a path matches exactly when every literal segment is equal
    /// and every placeholder segment is non-empty and contains no '/'.
    pub fn matches_segs(&self, xs: &Vec<String>) -> (r: bool)
        ensures
            r == segs_match(self.segs@, xs.deep_view()),
    {
        let n = self.segs.len();
        if xs.len() != n {
            return false;
        }
        let mut i: usize = 0;
        while i < n
            invariant
                n == self.segs.len(),
                n == xs.len(),
                0 <= i <= n,
                forall|k: int| 0 <= k < i ==> seg_matches(
                    #[trigger] self.segs@[k],
                    xs.deep_view()[k],
                ),
            decreases n - i,
        {
            proof {
                assert(xs[i as int]@ == xs.deep_view()[i as int]);
            }
            match &self.segs[i] {
                PatSeg::Lit(l) => {
                    if !str_eq(l.as_str(), xs[i].as_str()) {
                        proof {
                            assert(!seg_matches(self.segs@[i as int], xs.deep_view()[i as int]));
                        }
                        return false;
                    }
                },
                PatSeg::Param(_) => {
                    let seg = xs[i].as_str();
                    let m = seg.unicode_len();
                    if m == 0 {
                        proof {
                            assert(!seg_matches(self.segs@[i as int], xs.deep_view()[i as int]));
                        }
                        return false;
                    }
                    let mut j: usize = 0;
                    while j < m
                        invariant
                            m == seg@.len(),
                            seg@ == xs.deep_view()[i as int],
                            self.segs@[i as int] is Param,
                            0 <= i < self.segs@.len(),
                            0 <= j <= m,
                            forall|t: int| 0 <= t < j ==> seg@[t] != '/',
                        decreases m - j,
                    {
                        if seg.get_char(j) == '/' {
                            proof {
                                assert(xs.deep_view()[i as int][j as int] == '/');
                                assert(!seg_matches(self.segs@[i as int], xs.deep_view()[i as int]));
                            }
                            return false;
                        }
                        j += 1;
                    }
                },
            }
            i += 1;
        }
        true
    }

    /// Extract the parameter mapping of a matching path: each placeholder
    /// name bound to its segment, in declaration order, a later duplicate
    /// overriding an earlier one.
    pub fn extract_params(&self, xs: &Vec<String>) -> (r: Params)
        requires
            segs_match(self.segs@, xs.deep_view()),
        ensures
            r.wf(),
            r@ == captures(self.segs@, xs.deep_view()),
            distinct_keys(capture_list(self.segs@, xs.deep_view())) ==> r.kvs() == capture_list(
                self.segs@,
                xs.deep_view(),
            ),
    {
        let ghost xsv = xs.deep_view();
        let n = self.segs.len();
        let mut r = Params::new();
        proof {
            assert(capture_list(self.segs@.take(0), xsv.take(0)) =~= Seq::<
                (Seq<char>, Seq<char>),
            >::empty());
        }
        let mut i: usize = 0;
        while i < n
            invariant
                n == self.segs.len(),
                n == xs.len(),
                xs.deep_view() == xsv,
                segs_match(self.segs@, xsv),
                0 <= i <= n,
                r.wf(),
                r@ == map_of(capture_list(self.segs@.take(i as int), xsv.take(i as int))),
                distinct_keys(capture_list(self.segs@, xsv)) ==> r.kvs() == capture_list(
                    self.segs@.take(i as int),
                    xsv.take(i as int),
                ),
            decreases n - i,
        {
            let ghost pre_segs = self.segs@.take(i as int);
            let ghost pre_xs = xsv.take(i as int);
            let ghost cur_segs = self.segs@.take(i + 1);
            let ghost cur_xs = xsv.take(i + 1);
            proof {
                assert(cur_segs.drop_last() =~= pre_segs);
                assert(cur_xs.drop_last() =~= pre_xs);
                assert(cur_segs.last() == self.segs@[i as int]);
                assert(cur_xs.last() == xsv[i as int]);
            }
            match &self.segs[i] {
                PatSeg::Param(name) => {
                    let ghost rpre = r;
                    let value = xs[i].clone();
                    proof {
                        assert(value@ == xsv[i as int]);
                    }
                    r.insert(name.clone(), value);
                    proof {
                        assert(capture_list(cur_segs, cur_xs) =~= capture_list(
                            pre_segs,
                            pre_xs,
                        ).push((name@, xsv[i as int])));
                        assert(capture_list(pre_segs, pre_xs).push(
                            (name@, xsv[i as int]),
                        ).drop_last() =~= capture_list(pre_segs, pre_xs));
                        assert(r@ == map_of(capture_list(cur_segs, cur_xs)));
                        if distinct_keys(capture_list(self.segs@, xsv)) {
                            lemma_capture_prefix_fresh(self.segs@, xsv, i as int);
                            crate::params::lemma_map_of_contains(
                                capture_list(pre_segs, pre_xs),
                                name@,
                            );
                            assert(r.kvs() == capture_list(cur_segs, cur_xs));
                        }
                    }
                },
                PatSeg::Lit(_) => {
                    proof {
                        assert(capture_list(cur_segs, cur_xs) =~= capture_list(pre_segs, pre_xs));
                    }
                },
            }
            i += 1;
        }
        proof {
            assert(self.segs@.take(n as int) =~= self.segs@);
            assert(xsv.take(n as int) =~= xsv);
        }
        r
    }
}

/// Each prefix of a distinct-keyed capture list is itself distinct-keyed, and
/// when position `i` is a placeholder its name does not occur among the
/// captures of the prefix before `i`.
proof fn lemma_capture_prefix_fresh(segs: Seq<PatSeg>, xs: Seq<Seq<char>>, i: int)
    requires
        segs.len() == xs.len(),
        0 <= i < segs.len(),
        distinct_keys(capture_list(segs, xs)),
    ensures
        segs[i] matches PatSeg::Param(nm) ==> forall|j: int|
            0 <= j < capture_list(segs.take(i), xs.take(i)).len() ==> capture_list(
                segs.take(i),
                xs.take(i),
            )[j].0 != nm@,
    decreases segs.len() - i,
{
    lemma_capture_list_prefix(segs, xs, i + 1);
    lemma_capture_list_prefix(segs, xs, i);
    match segs[i] {
        PatSeg::Param(nm) => {
            let pre = capture_list(segs.take(i), xs.take(i));
            let cur = capture_list(segs.take(i + 1), xs.take(i + 1));
            assert(segs.take(i + 1).drop_last() =~= segs.take(i));
            assert(xs.take(i + 1).drop_last() =~= xs.take(i));
            assert(cur =~= pre.push((nm@, xs[i])));
            assert forall|j: int| 0 <= j < pre.len() implies pre[j].0 != nm@ by {
                let full = capture_list(segs, xs);
                assert(pre[j] == full[j]);
                assert(cur[pre.len() as int] == full[pre.len() as int]);
            }
        },
        PatSeg::Lit(_) => {},
    }
}

/// A prefix of the segment list contributes a prefix of the capture list.
proof fn lemma_capture_list_prefix(segs: Seq<PatSeg>, xs: Seq<Seq<char>>, i: int)
    requires
        segs.len() == xs.len(),
        0 <= i <= segs.len(),
    ensures
        capture_list(segs.take(i), xs.take(i)).len() <= capture_list(segs, xs).len(),
        forall|j: int| 0 <= j < capture_list(segs.take(i), xs.take(i)).len() ==> capture_list(
            segs.take(i),
            xs.take(i),
        )[j] == capture_list(segs, xs)[j],
    decreases segs.len() - i,
{
    if i == segs.len() {
        assert(segs.take(i) =~= segs);
        assert(xs.take(i) =~= xs);
    } else {
        lemma_capture_list_prefix(segs, xs, i + 1);
        assert(segs.take(i + 1).drop_last() =~= segs.take(i));
        assert(xs.take(i + 1).drop_last() =~= xs.take(i));
    }
}

} // verus!
