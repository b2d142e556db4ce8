//! Service names and the `{service}-{METHOD}.json` document naming
//! convention, which both static lookup and method discovery rely on.

use vstd::prelude::*;
use vstd::string::StringSliceAdditionalSpecFns;
use crate::text::{eq_ignore_case, str_eq, str_eq_ignore_case};

verus! {

/// Whether the character counts as alphanumeric under Unicode; a property
/// of the character alone.
pub uninterp spec fn unicode_alphanumeric(c: char) -> bool;

/// Relies on char::is_alphanumeric: true exactly for Unicode alphabetic and
/// numeric characters, a property of the character alone. ASCII letters and
/// digits are alphanumeric; '_', '-' and ' ' are not.
#[verifier::external_body]
fn char_is_alphanumeric(c: char) -> (r: bool)
    ensures
        r == unicode_alphanumeric(c),
        (48 <= c as u32 <= 57) || (65 <= c as u32 <= 90) || (97 <= c as u32 <= 122) ==> r,
        c == '_' || c == '-' || c == ' ' ==> !r,
{
    c.is_alphanumeric()
}

/// A valid service name: non-empty, at most 50 bytes, alphanumeric
/// characters and underscores only, neither starting nor ending with an
/// underscore.
pub open spec fn service_name_ok(name: &str) -> bool {
    &&& name@.len() > 0
    &&& name.spec_bytes().len() as usize <= 50
    &&& forall|i: int|
        0 <= i < name@.len() ==> unicode_alphanumeric(#[trigger] name@[i]) || name@[i] == '_'
    &&& name@[0] != '_'
    &&& name@[name@.len() - 1] != '_'
}

/// Validate a service name.
pub fn validate_service_name(name: &str) -> (r: bool)
    ensures
        r == service_name_ok(name),
{
    if name.is_empty() {
        return false;
    }
    if name.len() > 50 {
        return false;
    }
    let n = name.unicode_len();
    if name.get_char(0) == '_' || name.get_char(n - 1) == '_' {
        return false;
    }
    let mut i: usize = 0;
    while i < n
        invariant
            n == name@.len(),
            0 <= i <= n,
            forall|k: int| 0 <= k < i ==> unicode_alphanumeric(#[trigger] name@[k]) || name@[k]
                == '_',
        decreases n - i,
    {
        let c = name.get_char(i);
        if !(char_is_alphanumeric(c) || c == '_') {
            return false;
        }
        i += 1;
    }
    true
}

/// The stored document for a service and method: `{service}-{METHOD}.json`.
pub open spec fn mock_file_name_of(service: Seq<char>, method: Seq<char>) -> Seq<char> {
    service + "-"@ + method + ".json"@
}

/// Build the document name for a service and an (already upper-case)
/// method.
pub fn mock_file_name(service: &str, method: &str) -> (r: String)
    ensures
        r@ == mock_file_name_of(service@, method@),
{
    let out = String::from_str(service).concat("-").concat(method).concat(".json");
    proof {
        assert(out@ =~= mock_file_name_of(service@, method@));
    }
    out
}

/// The fixed method set of the naming convention.
pub open spec fn known_method(m: Seq<char>) -> bool {
    m == "GET"@ || m == "POST"@ || m == "PUT"@ || m == "DELETE"@
}

/// Is the method one of the fixed set, written exactly in upper case?
pub fn is_supported_method(m: &str) -> (r: bool)
    ensures
        r == known_method(m@),
{
    str_eq(m, "GET") || str_eq(m, "POST") || str_eq(m, "PUT") || str_eq(m, "DELETE")
}

/// The upper-case member of the fixed method set that `m` names, however
/// it is cased.
pub fn normalize_method(m: &str) -> (r: Option<&'static str>)
    ensures
        r is Some <==> (eq_ignore_case(m@, "GET"@) || eq_ignore_case(m@, "POST"@)
            || eq_ignore_case(m@, "PUT"@) || eq_ignore_case(m@, "DELETE"@)),
        r matches Some(u) ==> known_method(u@) && eq_ignore_case(m@, u@),
{
    if str_eq_ignore_case(m, "GET") {
        proof {
            reveal_strlit("GET");
        }
        Some("GET")
    } else if str_eq_ignore_case(m, "POST") {
        proof {
            reveal_strlit("POST");
        }
        Some("POST")
    } else if str_eq_ignore_case(m, "PUT") {
        proof {
            reveal_strlit("PUT");
        }
        Some("PUT")
    } else if str_eq_ignore_case(m, "DELETE") {
        proof {
            reveal_strlit("DELETE");
        }
        Some("DELETE")
    } else {
        None
    }
}

/// The method a stored document's name announces for a service: the part
/// between `{service}-` and `.json`, when it is one of the fixed set.
pub open spec fn method_of_filename(service: Seq<char>, f: Seq<char>) -> Option<Seq<char>> {
    let p = service.len() + 1;
    if f.len() > p + 5 && f.subrange(0, service.len() as int) == service && f[service.len() as int]
        == '-' && f.subrange(f.len() - 5, f.len() as int) == ".json"@ {
        let m = f.subrange(p as int, f.len() - 5);
        if known_method(m) {
            Some(m)
        } else {
            None
        }
    } else {
        None
    }
}

/// Read the method out of a stored document's name, if the name follows
/// the convention for this service and announces a known method.
pub fn method_from_filename(service: &str, filename: &str) -> (r: Option<String>)
    ensures
        r is Some <==> method_of_filename(service@, filename@) is Some,
        r matches Some(m) ==> method_of_filename(service@, filename@) == Some(m@),
{
    let sn = service.unicode_len();
    let fn_ = filename.unicode_len();
    if fn_ <= 6 || fn_ - 6 <= sn {
        return None;
    }
    let prefix = filename.substring_char(0, sn);
    proof {
        assert(prefix@ =~= filename@.subrange(0, sn as int));
    }
    if !str_eq(prefix, service) {
        return None;
    }
    if filename.get_char(sn) != '-' {
        return None;
    }
    let suffix = filename.substring_char(fn_ - 5, fn_);
    proof {
        assert(suffix@ =~= filename@.subrange(fn_ - 5, fn_ as int));
        reveal_strlit(".json");
    }
    if !str_eq(suffix, ".json") {
        return None;
    }
    let method = filename.substring_char(sn + 1, fn_ - 5);
    proof {
        assert(method@ =~= filename@.subrange(sn + 1, fn_ - 5));
    }
    if is_supported_method(method) {
        Some(String::from_str(method))
    } else {
        None
    }
}

} // verus!
