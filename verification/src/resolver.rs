//! Resolving an incoming (method, path) pair against the route table: the
//! first registered route whose method matches case-insensitively and whose
//! matcher accepts the path wins. With no dynamic match, a path of exactly
//! one non-empty segment falls back to legacy static lookup; any other shape
//! is not found.

use vstd::prelude::*;
use crate::params::Params;
use crate::pattern::{captures, path_matches, segs_match};
use crate::registry::{RouteEntry, ServiceRegistry};
use crate::text::{eq_ignore_case, split_slash, split_path, str_eq_ignore_case};

verus! {

/// A route-table row answers the request: its method is equal up to ASCII
/// case and its matcher accepts the path.
pub open spec fn entry_matches(e: RouteEntry, path: Seq<char>, method: Seq<char>) -> bool {
    eq_ignore_case(e.method@, method) && path_matches(e.route, path)
}

/// The index of the first route-table row that answers the request.
pub open spec fn first_match(entries: Seq<RouteEntry>, path: Seq<char>, method: Seq<char>) -> Option<
    int,
>
    decreases entries.len(),
{
    if entries.len() == 0 {
        None
    } else if entry_matches(entries[0], path, method) {
        Some(0)
    } else {
        match first_match(entries.skip(1), path, method) {
            Some(i) => Some(i + 1),
            None => None,
        }
    }
}

/// `first_match` is pinned down by its characterization.
pub proof fn lemma_first_match_is(
    entries: Seq<RouteEntry>,
    path: Seq<char>,
    method: Seq<char>,
    i: int,
)
    requires
        0 <= i < entries.len(),
        entry_matches(entries[i], path, method),
        forall|j: int| 0 <= j < i ==> !entry_matches(#[trigger] entries[j], path, method),
    ensures
        first_match(entries, path, method) == Some(i),
    decreases entries.len(),
{
    if i == 0 {
    } else {
        assert(!entry_matches(entries[0], path, method));
        assert forall|j: int| 0 <= j < i - 1 implies !entry_matches(
            #[trigger] entries.skip(1)[j],
            path,
            method,
        ) by {
            assert(entries.skip(1)[j] == entries[j + 1]);
        }
        assert(entries.skip(1)[i - 1] == entries[i]);
        lemma_first_match_is(entries.skip(1), path, method, i - 1);
    }
}

/// When no row answers, `first_match` says so.
pub proof fn lemma_first_match_none(entries: Seq<RouteEntry>, path: Seq<char>, method: Seq<char>)
    requires
        forall|j: int| 0 <= j < entries.len() ==> !entry_matches(
            #[trigger] entries[j],
            path,
            method,
        ),
    ensures
        first_match(entries, path, method) is None,
    decreases entries.len(),
{
    if entries.len() > 0 {
        assert forall|j: int| 0 <= j < entries.skip(1).len() implies !entry_matches(
            #[trigger] entries.skip(1)[j],
            path,
            method,
        ) by {
            assert(entries.skip(1)[j] == entries[j + 1]);
        }
        lemma_first_match_none(entries.skip(1), path, method);
    }
}

/// What resolution returns, as a pure function of the route table in its
/// registration order, the path and the method: the first matching row's
/// service name, with the parameter mapping its matcher captures.
pub open spec fn resolution(entries: Seq<RouteEntry>, path: Seq<char>, method: Seq<char>) -> Option<
    (Seq<char>, Map<Seq<char>, Seq<char>>),
> {
    match first_match(entries, path, method) {
        Some(i) => Some(
            (entries[i].service_name@, captures(entries[i].route.segs@, split_slash(path))),
        ),
        None => None,
    }
}

/// The pair (`name`, `params`) is what resolution gives for this request.
pub open spec fn describes_resolution(
    entries: Seq<RouteEntry>,
    path: Seq<char>,
    method: Seq<char>,
    name: Seq<char>,
    params: Map<Seq<char>, Seq<char>>,
) -> bool {
    resolution(entries, path, method) == Some((name, params))
}

/// Resolution is deterministic: with a fixed route table, registration order
/// and request, any two results are the same service and the same parameter
/// mapping.
pub proof fn lemma_resolution_deterministic(
    entries: Seq<RouteEntry>,
    path: Seq<char>,
    method: Seq<char>,
    name1: Seq<char>,
    params1: Map<Seq<char>, Seq<char>>,
    name2: Seq<char>,
    params2: Map<Seq<char>, Seq<char>>,
)
    requires
        describes_resolution(entries, path, method, name1, params1),
        describes_resolution(entries, path, method, name2, params2),
    ensures
        name1 == name2,
        params1 == params2,
{
}

/// Match a request path against the dynamic route table, in registration
/// order; the first row whose method matches case-insensitively and whose
/// matcher accepts the path yields the service name and the captured
/// parameters. `None` is no error: the caller falls back to legacy static
/// lookup.
pub fn match_dynamic_route(registry: &ServiceRegistry, path: &str, method: &str) -> (r: Option<
    (String, Params),
>)
    ensures
        r is Some <==> resolution(registry.route_patterns@, path@, method@) is Some,
        r matches Some((name, params)) ==> {
            &&& params.wf()
            &&& describes_resolution(registry.route_patterns@, path@, method@, name@, params@)
        },
{
    let xs = split_path(path);
    let n = registry.route_patterns.len();
    let mut i: usize = 0;
    while i < n
        invariant
            n == registry.route_patterns.len(),
            0 <= i <= n,
            xs.deep_view() == split_slash(path@),
            forall|j: int| 0 <= j < i ==> !entry_matches(
                #[trigger] registry.route_patterns@[j],
                path@,
                method@,
            ),
        decreases n - i,
    {
        let entry = &registry.route_patterns[i];
        if str_eq_ignore_case(entry.method.as_str(), method) {
            if entry.route.matches_segs(&xs) {
                proof {
                    assert(segs_match(entry.route.segs@, split_slash(path@)));
                    assert(entry_matches(registry.route_patterns@[i as int], path@, method@));
                    lemma_first_match_is(registry.route_patterns@, path@, method@, i as int);
                }
                let params = entry.route.extract_params(&xs);
                let name = entry.service_name.clone();
                return Some((name, params));
            }
        }
        proof {
            assert(!entry_matches(registry.route_patterns@[i as int], path@, method@));
        }
        i += 1;
    }
    proof {
        lemma_first_match_none(registry.route_patterns@, path@, method@);
    }
    None
}

/// What the resolver decides for a request, before any document is read or
/// any template is rendered.
pub enum RouteDecision {
    /// A dynamic route matched: this service, with these captured
    /// parameters.
    Dynamic(String, Params),
    /// No dynamic route matched, and the path is exactly one non-empty
    /// segment: look up a static service of that name.
    StaticLookup(String),
    /// No dynamic route matched and the path has any other shape: not
    /// found, without attempting static lookup.
    NotFound,
}

/// `s` with all leading '/' removed.
pub open spec fn trim_leading_slashes(s: Seq<char>) -> Seq<char>
    decreases s.len(),
{
    if s.len() > 0 && s[0] == '/' {
        trim_leading_slashes(s.skip(1))
    } else {
        s
    }
}

proof fn lemma_trim_leading_slashes(s: Seq<char>, k: int)
    requires
        0 <= k <= s.len(),
        forall|i: int| 0 <= i < k ==> s[i] == '/',
        k < s.len() ==> s[k] != '/',
    ensures
        trim_leading_slashes(s) == s.skip(k),
    decreases s.len(),
{
    if k == 0 {
        if s.len() > 0 {
            assert(s[0] != '/');
        }
        assert(s.skip(0) =~= s);
    } else {
        assert(s[0] == '/');
        assert forall|i: int| 0 <= i < k - 1 implies s.skip(1)[i] == '/' by {
            assert(s.skip(1)[i] == s[i + 1]);
        }
        if k - 1 < s.skip(1).len() {
            assert(s.skip(1)[k - 1] == s[k]);
        }
        lemma_trim_leading_slashes(s.skip(1), k - 1);
        assert(s.skip(1).skip(k - 1) =~= s.skip(k));
    }
}

/// The fallback applies exactly when the trimmed path is one non-empty
/// segment; its value is that segment.
pub open spec fn legacy_segments(path: Seq<char>) -> Seq<Seq<char>> {
    split_slash(trim_leading_slashes(path))
}

/// The decision `d` is the right one for this request: a dynamic match
/// resolves dynamically; otherwise one non-empty trimmed segment becomes a
/// static lookup of that name, and anything else is not found.
pub open spec fn describes_decision(
    entries: Seq<RouteEntry>,
    path: Seq<char>,
    method: Seq<char>,
    d: RouteDecision,
) -> bool {
    match resolution(entries, path, method) {
        Some(pair) => d matches RouteDecision::Dynamic(name, params) && name@ == pair.0
            && params@ == pair.1 && params.wf(),
        None => {
            if legacy_segments(path).len() == 1 && legacy_segments(path)[0].len() > 0 {
                d matches RouteDecision::StaticLookup(name) && name@ == legacy_segments(path)[0]
            } else {
                d is NotFound
            }
        },
    }
}

/// Resolve a request: dynamic routes first, in registration order; with no
/// dynamic match, a path of exactly one non-empty segment becomes a legacy
/// static lookup of that name, and any other shape is not found outright.
pub fn resolve_route(registry: &ServiceRegistry, path: &str, method: &str) -> (r: RouteDecision)
    ensures
        describes_decision(registry.route_patterns@, path@, method@, r),
{
    match match_dynamic_route(registry, path, method) {
        Some((name, params)) => RouteDecision::Dynamic(name, params),
        None => {
            let n = path.unicode_len();
            let mut k: usize = 0;
            while k < n && path.get_char(k) == '/'
                invariant
                    n == path@.len(),
                    0 <= k <= n,
                    forall|i: int| 0 <= i < k ==> path@[i] == '/',
                decreases n - k,
            {
                k += 1;
            }
            proof {
                lemma_trim_leading_slashes(path@, k as int);
            }
            let trimmed = path.substring_char(k, n);
            proof {
                assert(trimmed@ =~= trim_leading_slashes(path@));
            }
            let parts = split_path(trimmed);
            if parts.len() == 1 && parts[0].as_str().unicode_len() > 0 {
                proof {
                    assert(parts[0]@ == legacy_segments(path@)[0]);
                }
                let name = parts[0].clone();
                RouteDecision::StaticLookup(name)
            } else {
                proof {
                    if legacy_segments(path@).len() == 1 {
                        assert(parts[0]@ == legacy_segments(path@)[0]);
                    }
                }
                RouteDecision::NotFound
            }
        },
    }
}

} // verus!
