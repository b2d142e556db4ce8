//! Rendering a JSON template against the captured parameters: a logic-less,
//! strict-mode variable substitution over the template's canonical text,
//! whose output must parse as JSON again. Strict mode means a reference to
//! an absent variable fails the render rather than becoming an empty string.

use vstd::prelude::*;
use crate::errors::MockError;
use crate::jsontext::{canon_json, json_canon_of, json_wf};
use crate::params::Params;
use crate::validator::{all_digits, digit};

verus! {

/// What the template engine produces for a template text and a variable
/// mapping, `None` for a failed render; a function of the two alone.
pub uninterp spec fn hb_render_of(tpl: Seq<char>, params: Map<Seq<char>, Seq<char>>) -> Option<
    Seq<char>,
>;

/// The text contains a `{{` somewhere, the opening of a template
/// expression.
pub open spec fn has_double_open(t: Seq<char>) -> bool {
    exists|i: int| 0 <= i < t.len() - 1 && #[trigger] t[i] == '{' && t[i + 1] == '{'
}

/// A character a plain variable name may consist of.
pub open spec fn ident_char(c: char) -> bool {
    digit(c) || (97 <= c as u32 <= 122) || (65 <= c as u32 <= 90) || c == '_'
}

/// Words the template engine treats specially rather than as variables:
/// its built-in helpers, keywords and literals.
pub open spec fn hb_reserved(n: Seq<char>) -> bool {
    ||| n == "if"@
    ||| n == "unless"@
    ||| n == "each"@
    ||| n == "with"@
    ||| n == "lookup"@
    ||| n == "raw"@
    ||| n == "log"@
    ||| n == "eq"@
    ||| n == "ne"@
    ||| n == "gt"@
    ||| n == "gte"@
    ||| n == "lt"@
    ||| n == "lte"@
    ||| n == "and"@
    ||| n == "or"@
    ||| n == "not"@
    ||| n == "len"@
    ||| n == "this"@
    ||| n == "true"@
    ||| n == "false"@
    ||| n == "null"@
    ||| n == "as"@
    ||| n == "else"@
}

/// A name that the engine resolves as a plain top-level variable: identifier
/// characters only, not a number literal, not reserved.
pub open spec fn plain_var_name(n: Seq<char>) -> bool {
    &&& n.len() > 0
    &&& forall|i: int| 0 <= i < n.len() ==> ident_char(#[trigger] n[i])
    &&& !all_digits(n)
    &&& !hb_reserved(n)
}

/// At position `i` the text holds exactly `{{n}}`, not preceded by a
/// backslash escape.
pub open spec fn var_ref_at(t: Seq<char>, i: int, n: Seq<char>) -> bool {
    &&& 0 <= i
    &&& i + n.len() + 4 <= t.len()
    &&& t.subrange(i, i + n.len() + 4) == seq!['{', '{'] + n + seq!['}', '}']
    &&& (i == 0 || t[i - 1] != '\\')
}

/// The template refers to a plain variable that the mapping does not bind.
pub open spec fn refers_to_missing(t: Seq<char>, m: Map<Seq<char>, Seq<char>>) -> bool {
    exists|i: int, n: Seq<char>|
        #[trigger] var_ref_at(t, i, n) && plain_var_name(n) && !m.contains_key(n)
}

/// Every `{{` in the text opens exactly a plain, unescaped `{{name}}`
/// variable reference: no comments, blocks, partials, raw blocks, triple
/// braces or escaped openings. This is the whole template language the
/// renderer's contracts speak about; a JSON template in the logic-less
/// style of this library satisfies it.
pub open spec fn plain_refs_only(t: Seq<char>) -> bool {
    forall|i: int|
        0 <= i < t.len() - 1 && #[trigger] t[i] == '{' && t[i + 1] == '{' ==> exists|n: Seq<char>|
            var_ref_at(t, i, n) && plain_var_name(n)
}

/// How the engine's default escape function writes one character of a
/// substituted value: the HTML/XML entities for `&<>"'=` and the backtick,
/// every other character as itself.
pub open spec fn hb_escape_char(c: char) -> Seq<char> {
    if c == '<' {
        "&lt;"@
    } else if c == '>' {
        "&gt;"@
    } else if c == '"' {
        "&quot;"@
    } else if c == '&' {
        "&amp;"@
    } else if c == '\'' {
        "&#x27;"@
    } else if c == '`' {
        "&#x60;"@
    } else if c == '=' {
        "&#x3D;"@
    } else {
        seq![c]
    }
}

/// A substituted value as the engine emits it, character by character.
pub open spec fn hb_escape(s: Seq<char>) -> Seq<char>
    decreases s.len(),
{
    if s.len() == 0 {
        Seq::empty()
    } else {
        hb_escape(s.drop_last()) + hb_escape_char(s.last())
    }
}

/// Index of the first '}' in `t`, or `t.len()` if there is none.
pub open spec fn first_brace_close(t: Seq<char>) -> int
    decreases t.len(),
{
    if t.len() == 0 {
        0
    } else if t[0] == '}' {
        0
    } else {
        1 + first_brace_close(t.skip(1))
    }
}

/// The text with each plain `{{name}}` reference replaced by the bound
/// value as the engine emits it, and everything else verbatim. This is
/// what rendering returns on templates satisfying `plain_refs_only` whose
/// references are all bound.
pub open spec fn hb_subst(t: Seq<char>, m: Map<Seq<char>, Seq<char>>) -> Seq<char>
    decreases t.len(),
{
    if t.len() == 0 {
        Seq::empty()
    } else if t.len() >= 2 && t[0] == '{' && t[1] == '{' {
        let e = first_brace_close(t);
        if 2 < e && e + 1 < t.len() && t[e + 1] == '}' {
            hb_escape(m[t.subrange(2, e)]) + hb_subst(t.skip(e + 2), m)
        } else {
            seq![t[0]] + hb_subst(t.skip(1), m)
        }
    } else {
        seq![t[0]] + hb_subst(t.skip(1), m)
    }
}

/// Relies on handlebars: `Registry::new`, `set_strict_mode(true)` and
/// `render_template`. Rendering is a function of the template text and the
/// variable mapping alone. Text containing no `{{` is raw text and renders
/// to itself. On a template whose every `{{` opens a plain, unescaped
/// `{{name}}` reference (no built-in helper, keyword or literal), strict
/// mode errs when some referenced name is unbound, and otherwise rendering
/// succeeds with each reference replaced by its value through the default
/// escape function and all other text verbatim. Nothing is claimed of
/// templates using richer syntax (comments, blocks, raw blocks, partials,
/// escapes): there a reference may go unevaluated.
#[verifier::external_body]
fn hb_render(template: &str, params: &Params) -> (r: Result<String, String>)
    ensures
        r is Ok <==> hb_render_of(template@, params@) is Some,
        r matches Ok(t) ==> t@ == hb_render_of(template@, params@)->0,
        r is Err ==> has_double_open(template@),
        r is Ok && !has_double_open(template@) ==> r->Ok_0@ == template@,
        plain_refs_only(template@) && refers_to_missing(template@, params@) ==> r is Err,
        plain_refs_only(template@) && !refers_to_missing(template@, params@) ==> r is Ok,
        r is Ok && plain_refs_only(template@) && !refers_to_missing(template@, params@)
            ==> r->Ok_0@ == hb_subst(template@, params@),
{
    let mut hb = handlebars::Handlebars::new();
    hb.set_strict_mode(true);
    let data: std::collections::HashMap<String, String> = params.entries.iter().cloned().collect();
    match hb.render_template(template, &data) {
        Ok(t) => Ok(t),
        Err(e) => Err(format!("{}", e)),
    }
}

/// Substitute the captured parameters into a template's canonical text and
/// re-parse the result. Succeeds exactly when the strict render succeeds
/// and its output is JSON again, and then returns the output's canonical
/// text. For a plain-reference template: a reference to an absent
/// parameter fails; with every reference bound, each `{{name}}` becomes
/// its value (engine-escaped), everything else is unchanged, and the call
/// succeeds exactly when that substituted text is JSON. A template without
/// any `{{` comes back unchanged, whatever the parameters.
pub fn apply_template_substitution(template: &str, params: &Params) -> (r: Result<
    String,
    MockError,
>)
    ensures
        r is Ok <==> (hb_render_of(template@, params@) matches Some(t) && json_wf(t)),
        r matches Ok(out) ==> {
            &&& out@ == json_canon_of(hb_render_of(template@, params@)->0)
            &&& json_wf(out@)
            &&& json_canon_of(out@) == out@
        },
        r matches Err(e) ==> e matches MockError::Template(_),
        plain_refs_only(template@) && refers_to_missing(template@, params@) ==> r is Err,
        (plain_refs_only(template@) && !refers_to_missing(template@, params@) && json_wf(
            hb_subst(template@, params@),
        )) ==> (r matches Ok(out3) && out3@ == json_canon_of(hb_subst(template@, params@))),
        (plain_refs_only(template@) && !refers_to_missing(template@, params@) && !json_wf(
            hb_subst(template@, params@),
        )) ==> (r matches Err(e4) && e4 matches MockError::Template(_)),
        (!has_double_open(template@) && json_wf(template@) && json_canon_of(template@)
            == template@) ==> (r matches Ok(out2) && out2@ == template@),
{
    match hb_render(template, params) {
        Err(m) => Err(MockError::Template(m)),
        Ok(rendered) => {
            match canon_json(rendered.as_str()) {
                Some(out) => Ok(out),
                None => Err(
                    MockError::Template(
                        String::from_str("substitution produced text that is not JSON"),
                    ),
                ),
            }
        },
    }
}

} // verus!
