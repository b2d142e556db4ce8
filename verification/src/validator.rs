//! Validating captured path parameters against their declared rules:
//! required presence, an optional regex constraint, and a type tag. The
//! `date` tag demands a real calendar date in fixed `YYYY-MM-DD` form; the
//! `number` tag demands a floating-point literal; `string` and unknown tags
//! accept anything. Validation is fail-fast: the first failing rule, in
//! declaration order, decides the error.

use vstd::prelude::*;
use crate::config::{ParamConfig, required_of};
use crate::errors::{MockError, ValidationError};
use crate::params::Params;
use crate::text::eq_ignore_case;

verus! {

// --- calendar dates -----------------------------------------------------

/// An ASCII decimal digit.
pub open spec fn digit(c: char) -> bool {
    48 <= c as u32 <= 57
}

/// The value of an ASCII decimal digit.
pub open spec fn dval(c: char) -> int {
    c as u32 - 48
}

/// A leap year of the proleptic Gregorian calendar.
pub open spec fn is_leap(y: int) -> bool {
    y % 4 == 0 && (y % 100 != 0 || y % 400 == 0)
}

/// How many days the month has.
pub open spec fn days_in_month(y: int, m: int) -> int {
    if m == 2 {
        if is_leap(y) {
            29
        } else {
            28
        }
    } else if m == 4 || m == 6 || m == 9 || m == 11 {
        30
    } else {
        31
    }
}

/// The year, month and day fields of a `YYYY-MM-DD` string.
pub open spec fn year_of(s: Seq<char>) -> int {
    dval(s[0]) * 1000 + dval(s[1]) * 100 + dval(s[2]) * 10 + dval(s[3])
}

pub open spec fn month_of(s: Seq<char>) -> int {
    dval(s[5]) * 10 + dval(s[6])
}

pub open spec fn day_of(s: Seq<char>) -> int {
    dval(s[8]) * 10 + dval(s[9])
}

/// The string is a valid calendar date in fixed `YYYY-MM-DD` form: ten
/// characters, digits and dashes in their places, a month from 1 to 12, and
/// a day the month actually has.
pub open spec fn date_ok(s: Seq<char>) -> bool {
    &&& s.len() == 10
    &&& digit(s[0]) && digit(s[1]) && digit(s[2]) && digit(s[3])
    &&& s[4] == '-'
    &&& digit(s[5]) && digit(s[6])
    &&& s[7] == '-'
    &&& digit(s[8]) && digit(s[9])
    &&& 1 <= month_of(s) <= 12
    &&& 1 <= day_of(s) <= days_in_month(year_of(s), month_of(s))
}

/// Check a fixed-form `YYYY-MM-DD` calendar date, rejecting impossible
/// dates such as day 30 of February.
pub fn is_valid_date(s: &str) -> (r: bool)
    ensures
        r == date_ok(s@),
{
    let n = s.unicode_len();
    if n != 10 {
        return false;
    }
    let c0 = s.get_char(0) as u32;
    let c1 = s.get_char(1) as u32;
    let c2 = s.get_char(2) as u32;
    let c3 = s.get_char(3) as u32;
    let c5 = s.get_char(5) as u32;
    let c6 = s.get_char(6) as u32;
    let c8 = s.get_char(8) as u32;
    let c9 = s.get_char(9) as u32;
    if s.get_char(4) != '-' || s.get_char(7) != '-' {
        return false;
    }
    if !(48 <= c0 && c0 <= 57 && 48 <= c1 && c1 <= 57 && 48 <= c2 && c2 <= 57 && 48 <= c3 && c3
        <= 57) {
        return false;
    }
    if !(48 <= c5 && c5 <= 57 && 48 <= c6 && c6 <= 57 && 48 <= c8 && c8 <= 57 && 48 <= c9 && c9
        <= 57) {
        return false;
    }
    let y = (c0 - 48) * 1000 + (c1 - 48) * 100 + (c2 - 48) * 10 + (c3 - 48);
    let m = (c5 - 48) * 10 + (c6 - 48);
    let d = (c8 - 48) * 10 + (c9 - 48);
    proof {
        assert(y == year_of(s@));
        assert(m == month_of(s@));
        assert(d == day_of(s@));
    }
    if m < 1 || m > 12 {
        return false;
    }
    let dim: u32 = if m == 2 {
        if y % 4 == 0 && (y % 100 != 0 || y % 400 == 0) {
            29
        } else {
            28
        }
    } else if m == 4 || m == 6 || m == 9 || m == 11 {
        30
    } else {
        31
    };
    proof {
        assert(dim == days_in_month(year_of(s@), month_of(s@)));
    }
    1 <= d && d <= dim
}

// --- floating-point literals --------------------------------------------

/// Every character in the range is an ASCII digit.
pub open spec fn all_digits(s: Seq<char>) -> bool {
    forall|i: int| 0 <= i < s.len() ==> digit(s[i])
}

/// `Digit+`, `Digit+ '.' Digit*` or `Digit* '.' Digit+`: the mantissa forms
/// a floating-point literal accepts.
pub open spec fn dec_ok(s: Seq<char>) -> bool {
    ||| (s.len() > 0 && all_digits(s))
    ||| (s.len() >= 2 && exists|i: int|
        0 <= i < s.len() && #[trigger] s[i] == '.' && all_digits(s.take(i)) && all_digits(
            s.skip(i + 1),
        ))
}

/// An exponent body: an optional sign, then at least one digit.
pub open spec fn exp_ok(s: Seq<char>) -> bool {
    if s.len() > 0 && (s[0] == '+' || s[0] == '-') {
        s.len() > 1 && all_digits(s.skip(1))
    } else {
        s.len() > 0 && all_digits(s)
    }
}

/// A mantissa optionally followed by `e`/`E` and an exponent.
pub open spec fn mantissa_exp_ok(s: Seq<char>) -> bool {
    ||| dec_ok(s)
    ||| exists|j: int|
        0 <= j < s.len() && (#[trigger] s[j] == 'e' || s[j] == 'E') && dec_ok(s.take(j)) && exp_ok(
            s.skip(j + 1),
        )
}

/// The case-insensitive keywords a floating-point literal accepts.
pub open spec fn float_keyword_ok(s: Seq<char>) -> bool {
    ||| eq_ignore_case(s, "inf"@)
    ||| eq_ignore_case(s, "infinity"@)
    ||| eq_ignore_case(s, "nan"@)
}

/// The string parses as a floating-point value: an optional sign, then a
/// keyword or a mantissa with optional exponent.
pub open spec fn number_ok(s: Seq<char>) -> bool {
    if s.len() > 0 && (s[0] == '+' || s[0] == '-') {
        float_keyword_ok(s.skip(1)) || mantissa_exp_ok(s.skip(1))
    } else {
        float_keyword_ok(s) || mantissa_exp_ok(s)
    }
}

/// The two special type tags are different words.
proof fn lemma_type_tags_differ()
    ensures
        "date"@ != "number"@,
{
    reveal_strlit("date");
    reveal_strlit("number");
    assert("date"@.len() == 4);
    assert("number"@.len() == 6);
}

/// A valid mantissa holds only digits and dots.
proof fn lemma_dec_chars(s: Seq<char>)
    requires
        dec_ok(s),
    ensures
        forall|i: int| 0 <= i < s.len() ==> digit(#[trigger] s[i]) || s[i] == '.',
{
    if s.len() > 0 && all_digits(s) {
    } else {
        let d = choose|d: int|
            0 <= d < s.len() && #[trigger] s[d] == '.' && all_digits(s.take(d)) && all_digits(
                s.skip(d + 1),
            );
        assert forall|i: int| 0 <= i < s.len() implies digit(#[trigger] s[i]) || s[i] == '.' by {
            if i < d {
                assert(s.take(d)[i] == s[i]);
            } else if i > d {
                assert(s.skip(d + 1)[i - d - 1] == s[i]);
            }
        }
    }
}

/// Are all characters in `[from, to)` digits?
fn check_all_digits(s: &str, from: usize, to: usize) -> (r: bool)
    requires
        0 <= from <= to <= s@.len(),
    ensures
        r == all_digits(s@.subrange(from as int, to as int)),
{
    let mut i: usize = from;
    while i < to
        invariant
            0 <= from <= i <= to <= s@.len(),
            forall|k: int| from <= k < i ==> digit(#[trigger] s@[k]),
        decreases to - i,
    {
        let c = s.get_char(i) as u32;
        if !(48 <= c && c <= 57) {
            proof {
                assert(s@.subrange(from as int, to as int)[i - from] == s@[i as int]);
            }
            return false;
        }
        i += 1;
    }
    proof {
        assert forall|k: int| 0 <= k < to - from implies digit(
            #[trigger] s@.subrange(from as int, to as int)[k],
        ) by {
            assert(s@.subrange(from as int, to as int)[k] == s@[from + k]);
        }
    }
    true
}

/// Does `[from, to)` form a valid mantissa?
fn check_dec(s: &str, from: usize, to: usize) -> (r: bool)
    requires
        0 <= from <= to <= s@.len(),
    ensures
        r == dec_ok(s@.subrange(from as int, to as int)),
{
    let ghost sub = s@.subrange(from as int, to as int);
    let mut p: usize = from;
    while p < to && s.get_char(p) != '.'
        invariant
            0 <= from <= p <= to <= s@.len(),
            sub == s@.subrange(from as int, to as int),
            forall|k: int| from <= k < p ==> #[trigger] s@[k] != '.',
        decreases to - p,
    {
        p += 1;
    }
    proof {
        assert forall|k: int| 0 <= k < p - from implies #[trigger] sub[k] != '.' by {
            assert(sub[k] == s@[from + k]);
        }
    }
    if p == to {
        // no dot: Digit+
        let r = to > from && check_all_digits(s, from, to);
        proof {
            if !r {
                assert forall|i: int| 0 <= i < sub.len() implies !(#[trigger] sub[i] == '.'
                    && all_digits(sub.take(i)) && all_digits(sub.skip(i + 1))) by {
                    assert(sub[i] != '.');
                }
            }
        }
        return r;
    }
    proof {
        assert(s@[p as int] == '.');
        assert(sub[p - from] == '.');
    }
    if to - from < 2 {
        proof {
            assert(!(sub.len() > 0 && all_digits(sub)));
        }
        return false;
    }
    let left = check_all_digits(s, from, p);
    let right = check_all_digits(s, p + 1, to);
    proof {
        let q = p - from;
        assert(sub.take(q) =~= s@.subrange(from as int, p as int));
        assert(sub.skip(q + 1) =~= s@.subrange(p + 1, to as int));
        if left && right {
            assert(sub[q] == '.' && all_digits(sub.take(q)) && all_digits(sub.skip(q + 1)));
            assert(dec_ok(sub));
        } else {
            assert(!all_digits(sub));
            assert forall|i: int| 0 <= i < sub.len() implies !(#[trigger] sub[i] == '.'
                && all_digits(sub.take(i)) && all_digits(sub.skip(i + 1))) by {
                if sub[i] == '.' {
                    if i < q {
                        assert(sub[q] == '.');
                        assert(s@[from + i] == '.');
                        assert(s@[from + i] != '.');
                    } else if i > q {
                        assert(sub.take(i)[q] == sub[q]);
                        assert(!all_digits(sub.take(i)));
                    } else {
                        if all_digits(sub.take(i)) && all_digits(sub.skip(i + 1)) {
                            assert(left && right);
                        }
                    }
                }
            }
            assert(!dec_ok(sub));
        }
    }
    left && right
}

/// Does `[from, to)` form a valid exponent body?
fn check_exp(s: &str, from: usize, to: usize) -> (r: bool)
    requires
        0 <= from <= to <= s@.len(),
    ensures
        r == exp_ok(s@.subrange(from as int, to as int)),
{
    let ghost sub = s@.subrange(from as int, to as int);
    if to == from {
        return false;
    }
    let c = s.get_char(from);
    proof {
        assert(sub[0] == s@[from as int]);
    }
    if c == '+' || c == '-' {
        let r = to - from > 1 && check_all_digits(s, from + 1, to);
        proof {
            assert(sub.skip(1) =~= s@.subrange(from + 1, to as int));
        }
        return r;
    }
    let r = check_all_digits(s, from, to);
    proof {
        assert(sub =~= s@.subrange(from as int, to as int));
    }
    r
}

/// Does `[from, to)` form a mantissa with optional exponent?
fn check_mantissa_exp(s: &str, from: usize, to: usize) -> (r: bool)
    requires
        0 <= from <= to <= s@.len(),
    ensures
        r == mantissa_exp_ok(s@.subrange(from as int, to as int)),
{
    let ghost sub = s@.subrange(from as int, to as int);
    let mut j: usize = from;
    while j < to && s.get_char(j) != 'e' && s.get_char(j) != 'E'
        invariant
            0 <= from <= j <= to <= s@.len(),
            sub == s@.subrange(from as int, to as int),
            forall|k: int| from <= k < j ==> #[trigger] s@[k] != 'e' && s@[k] != 'E',
        decreases to - j,
    {
        j += 1;
    }
    proof {
        assert forall|k: int| 0 <= k < j - from implies #[trigger] sub[k] != 'e' && sub[k]
            != 'E' by {
            assert(sub[k] == s@[from + k]);
        }
    }
    if j == to {
        // no exponent marker anywhere
        let r = check_dec(s, from, to);
        proof {
            if !r {
                assert forall|i: int| 0 <= i < sub.len() implies !((#[trigger] sub[i] == 'e'
                    || sub[i] == 'E') && dec_ok(sub.take(i)) && exp_ok(sub.skip(i + 1))) by {
                    assert(sub[i] != 'e' && sub[i] != 'E');
                }
            }
        }
        return r;
    }
    proof {
        assert(s@[j as int] == 'e' || s@[j as int] == 'E');
        assert(sub[j - from] == 'e' || sub[j - from] == 'E');
    }
    let left = check_dec(s, from, j);
    let right = check_exp(s, j + 1, to);
    proof {
        let q = j - from;
        assert(sub.take(q) =~= s@.subrange(from as int, j as int));
        assert(sub.skip(q + 1) =~= s@.subrange(j + 1, to as int));
        if left && right {
            assert((sub[q] == 'e' || sub[q] == 'E') && dec_ok(sub.take(q)) && exp_ok(
                sub.skip(q + 1),
            ));
            assert(mantissa_exp_ok(sub));
        } else {
            if dec_ok(sub) {
                lemma_dec_chars(sub);
                assert(digit(sub[q]) || sub[q] == '.');
                assert(false);
            }
            assert forall|i: int| 0 <= i < sub.len() implies !((#[trigger] sub[i] == 'e'
                || sub[i] == 'E') && dec_ok(sub.take(i)) && exp_ok(sub.skip(i + 1))) by {
                if sub[i] == 'e' || sub[i] == 'E' {
                    if i < q {
                        assert(s@[from + i] == sub[i]);
                        assert(s@[from + i] != 'e' && s@[from + i] != 'E');
                    } else if i > q {
                        if dec_ok(sub.take(i)) {
                            lemma_dec_chars(sub.take(i));
                            assert(sub.take(i)[q] == sub[q]);
                            assert(false);
                        }
                    } else {
                        if dec_ok(sub.take(i)) && exp_ok(sub.skip(i + 1)) {
                            assert(left && right);
                        }
                    }
                }
            }
            assert(!mantissa_exp_ok(sub));
        }
    }
    left && right
}

/// Check a floating-point literal: optional sign, then `inf`, `infinity`,
/// `nan` (any case) or digits with an optional dot and exponent.
pub fn is_valid_number(s: &str) -> (r: bool)
    ensures
        r == number_ok(s@),
{
    let n = s.unicode_len();
    if n == 0 {
        proof {
            reveal_strlit("inf");
            reveal_strlit("infinity");
            reveal_strlit("nan");
        }
        return false;
    }
    let first = s.get_char(0);
    let start: usize = if first == '+' || first == '-' {
        1
    } else {
        0
    };
    let body = s.substring_char(start, n);
    proof {
        reveal_strlit("inf");
        reveal_strlit("infinity");
        reveal_strlit("nan");
        assert(body@ =~= s@.skip(start as int));
        assert(body@ =~= s@.subrange(start as int, n as int));
    }
    if crate::text::str_eq_ignore_case(body, "inf") || crate::text::str_eq_ignore_case(
        body,
        "infinity",
    ) || crate::text::str_eq_ignore_case(body, "nan") {
        return true;
    }
    let r = check_mantissa_exp(s, start, n);
    proof {
        if start == 0 {
            assert(s@.skip(0) =~= s@);
            assert(s@.subrange(0, n as int) =~= s@);
        }
    }
    r
}

// --- the regex constraint -----------------------------------------------

/// Whether the regex engine accepts a constraint pattern; a property of the
/// pattern text alone.
pub uninterp spec fn regex_pattern_ok(p: Seq<char>) -> bool;

/// Whether a compiled constraint pattern matches somewhere in the text; a
/// property of pattern and text alone.
pub uninterp spec fn regex_match_of(p: Seq<char>, text: Seq<char>) -> bool;

/// Relies on regex::Regex::new and regex::Regex::is_match: with the default
/// configuration, whether a pattern compiles depends on the pattern text
/// alone, and whether it matches depends on the pattern and the haystack
/// alone. `None` reports a pattern the engine rejects.
#[verifier::external_body]
fn regex_check(pattern: &str, value: &str) -> (r: Option<bool>)
    ensures
        r is Some <==> regex_pattern_ok(pattern@),
        r matches Some(b) ==> b == regex_match_of(pattern@, value@),
{
    match regex::Regex::new(pattern) {
        Ok(re) => Some(re.is_match(value)),
        Err(_) => None,
    }
}

// --- rule-by-rule validation --------------------------------------------

/// The rule's regex constraint exists but cannot be compiled.
pub open spec fn rule_regex_invalid(c: ParamConfig) -> bool {
    c.pattern matches Some(p) && !regex_pattern_ok(p@)
}

/// The value fails the rule's (compilable) regex constraint.
pub open spec fn value_pattern_fails(c: ParamConfig, v: Seq<char>) -> bool {
    c.pattern matches Some(p) && regex_pattern_ok(p@) && !regex_match_of(p@, v)
}

/// The value fails the rule's type tag.
pub open spec fn value_type_fails(c: ParamConfig, v: Seq<char>) -> bool {
    ||| (c.param_type@ == "date"@ && !date_ok(v))
    ||| (c.param_type@ == "number"@ && !number_ok(v))
}

/// The rule rejects the parameter mapping.
pub open spec fn rule_fails(m: Map<Seq<char>, Seq<char>>, kv: (String, ParamConfig)) -> bool {
    if !m.contains_key(kv.0@) {
        required_of(kv.1)
    } else {
        rule_regex_invalid(kv.1) || value_pattern_fails(kv.1, m[kv.0@]) || value_type_fails(
            kv.1,
            m[kv.0@],
        )
    }
}

/// The error a failing rule produces: a missing required parameter, a
/// constraint that does not compile, a mismatched value, or a wrong type,
/// in the order the checks run.
pub open spec fn rule_error_is(
    e: MockError,
    m: Map<Seq<char>, Seq<char>>,
    kv: (String, ParamConfig),
) -> bool {
    if !m.contains_key(kv.0@) {
        required_of(kv.1) && (e matches MockError::Validation(
            ValidationError::MissingParameter(n),
        ) && n@ == kv.0@)
    } else if rule_regex_invalid(kv.1) {
        e matches MockError::InvalidInput(_)
    } else if value_pattern_fails(kv.1, m[kv.0@]) {
        e matches MockError::Validation(ValidationError::PatternMismatch(n)) && n@ == kv.0@
    } else {
        value_type_fails(kv.1, m[kv.0@]) && (e matches MockError::Validation(
            ValidationError::InvalidType(n),
        ) && n@ == kv.0@)
    }
}

/// Validate the captured parameters against the declared rules, in
/// declaration order, stopping at the first failure. Succeeds exactly when
/// every rule passes; on failure the error identifies the first failing
/// rule's parameter and the reason, each reason if and only if its check
/// fails first.
pub fn validate_parameters(params: &Params, rules: &Vec<(String, ParamConfig)>) -> (r: Result<
    (),
    MockError,
>)
    requires
        params.wf(),
    ensures
        r is Ok <==> forall|i: int|
            0 <= i < rules@.len() ==> !rule_fails(params@, #[trigger] rules@[i]),
        r matches Err(e) ==> exists|i: int|
            {
                &&& 0 <= i < rules@.len()
                &&& rule_fails(params@, #[trigger] rules@[i])
                &&& forall|j: int| 0 <= j < i ==> !rule_fails(params@, #[trigger] rules@[j])
                &&& rule_error_is(e, params@, rules@[i])
            },
{
    let n = rules.len();
    let mut i: usize = 0;
    while i < n
        invariant
            n == rules.len(),
            0 <= i <= n,
            params.wf(),
            forall|j: int| 0 <= j < i ==> !rule_fails(params@, #[trigger] rules@[j]),
        decreases n - i,
    {
        let name = &rules[i].0;
        let cfg = &rules[i].1;
        match params.get(name.as_str()) {
            Some(value) => {
                let checked: Option<bool> = match &cfg.pattern {
                    Some(p) => regex_check(p.as_str(), value.as_str()),
                    None => Some(true),
                };
                match checked {
                    None => {
                        proof {
                            assert(rule_fails(params@, rules@[i as int]));
                        }
                        return Err(
                            MockError::InvalidInput(
                                String::from_str(
                                    "a parameter rule's regex constraint cannot be compiled",
                                ),
                            ),
                        );
                    },
                    Some(false) => {
                        proof {
                            assert(rule_fails(params@, rules@[i as int]));
                        }
                        return Err(
                            MockError::Validation(ValidationError::PatternMismatch(name.clone())),
                        );
                    },
                    Some(true) => {},
                }
                if crate::text::str_eq(cfg.param_type.as_str(), "date") {
                    if !is_valid_date(value.as_str()) {
                        proof {
                            assert(rule_fails(params@, rules@[i as int]));
                        }
                        return Err(
                            MockError::Validation(ValidationError::InvalidType(name.clone())),
                        );
                    }
                } else if crate::text::str_eq(cfg.param_type.as_str(), "number") {
                    if !is_valid_number(value.as_str()) {
                        proof {
                            assert(rule_fails(params@, rules@[i as int]));
                        }
                        return Err(
                            MockError::Validation(ValidationError::InvalidType(name.clone())),
                        );
                    }
                }
                proof {
                    lemma_type_tags_differ();
                    assert(params@.contains_key(rules@[i as int].0@));
                    assert(value@ == params@[rules@[i as int].0@]);
                    assert(!rule_regex_invalid(rules@[i as int].1));
                    assert(!value_pattern_fails(rules@[i as int].1, params@[rules@[i as int].0@]));
                    assert(!value_type_fails(rules@[i as int].1, params@[rules@[i as int].0@]));
                    assert(!rule_fails(params@, rules@[i as int]));
                }
            },
            None => {
                if cfg.is_required() {
                    proof {
                        assert(rule_fails(params@, rules@[i as int]));
                    }
                    return Err(
                        MockError::Validation(ValidationError::MissingParameter(name.clone())),
                    );
                }
                proof {
                    assert(!rule_fails(params@, rules@[i as int]));
                }
            },
        }
        i += 1;
    }
    Ok(())
}

} // verus!
