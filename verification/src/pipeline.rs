//! The per-request synthesis pipeline for a dynamic service: check the
//! method, validate the captured parameters, render the template, execute
//! the transformer. Any stage short-circuits to its error; no stage
//! retries.

use vstd::prelude::*;
use crate::config::ParamConfig;
use crate::errors::MockError;
use crate::executor::execute_transformer;
use crate::jsontext::{canon_json, json_canon_of, json_wf};
use crate::params::Params;
use crate::registry::{ServiceConfig, ServiceType};
use crate::renderer::{apply_template_substitution, hb_render_of, plain_refs_only, refers_to_missing};
use crate::text::{eq_ignore_case, str_eq_ignore_case};
use crate::validator::{rule_fails, rule_error_is, validate_parameters};

verus! {

/// Every declared rule accepts the mapping.
pub open spec fn validation_passes(
    m: Map<Seq<char>, Seq<char>>,
    rules: Seq<(String, ParamConfig)>,
) -> bool {
    forall|i: int| 0 <= i < rules.len() ==> !rule_fails(m, #[trigger] rules[i])
}

/// The error comes from the first failing rule, as the validator reports
/// it.
pub open spec fn validation_error_for(
    e: MockError,
    m: Map<Seq<char>, Seq<char>>,
    rules: Seq<(String, ParamConfig)>,
) -> bool {
    exists|i: int|
        {
            &&& 0 <= i < rules.len()
            &&& rule_fails(m, #[trigger] rules[i])
            &&& forall|j: int| 0 <= j < i ==> !rule_fails(m, #[trigger] rules[j])
            &&& rule_error_is(e, m, rules[i])
        }
}

/// The first failing rule decides: when rule `i` fails and no
/// earlier-declared rule does, an error satisfying `validation_error_for`
/// is that rule's own error.
pub proof fn lemma_first_failure_decides(
    e: MockError,
    m: Map<Seq<char>, Seq<char>>,
    rules: Seq<(String, ParamConfig)>,
    i: int,
)
    requires
        0 <= i < rules.len(),
        rule_fails(m, rules[i]),
        forall|j: int| 0 <= j < i ==> !rule_fails(m, #[trigger] rules[j]),
        validation_error_for(e, m, rules),
    ensures
        rule_error_is(e, m, rules[i]),
{
    let i2 = choose|i2: int|
        {
            &&& 0 <= i2 < rules.len()
            &&& rule_fails(m, #[trigger] rules[i2])
            &&& forall|j: int| 0 <= j < i2 ==> !rule_fails(m, #[trigger] rules[j])
            &&& rule_error_is(e, m, rules[i2])
        };
    if i2 < i {
        assert(!rule_fails(m, rules[i2]));
    }
    if i2 > i {
        assert(!rule_fails(m, rules[i]));
    }
    assert(i2 == i);
}

/// A required parameter that was not captured is reported as
/// `MissingParameter`, naming it, whenever no earlier-declared rule fails
/// first (validation is fail-fast in declaration order).
pub proof fn lemma_missing_parameter_reported(
    e: MockError,
    m: Map<Seq<char>, Seq<char>>,
    rules: Seq<(String, ParamConfig)>,
    i: int,
)
    requires
        0 <= i < rules.len(),
        !m.contains_key(rules[i].0@),
        crate::config::required_of(rules[i].1),
        forall|j: int| 0 <= j < i ==> !rule_fails(m, #[trigger] rules[j]),
        validation_error_for(e, m, rules),
    ensures
        e matches MockError::Validation(crate::errors::ValidationError::MissingParameter(n))
            && n@ == rules[i].0@,
{
    lemma_first_failure_decides(e, m, rules, i);
}

/// A captured value that fails its rule's (compilable) regex constraint is
/// reported as `PatternMismatch`, naming the parameter — the constraint is
/// checked before the type check, so no wrong-type error is reported for
/// that value — whenever no earlier-declared rule fails first.
pub proof fn lemma_pattern_mismatch_reported(
    e: MockError,
    m: Map<Seq<char>, Seq<char>>,
    rules: Seq<(String, ParamConfig)>,
    i: int,
)
    requires
        0 <= i < rules.len(),
        m.contains_key(rules[i].0@),
        !crate::validator::rule_regex_invalid(rules[i].1),
        crate::validator::value_pattern_fails(rules[i].1, m[rules[i].0@]),
        forall|j: int| 0 <= j < i ==> !rule_fails(m, #[trigger] rules[j]),
        validation_error_for(e, m, rules),
    ensures
        e matches MockError::Validation(crate::errors::ValidationError::PatternMismatch(n))
            && n@ == rules[i].0@,
{
    lemma_first_failure_decides(e, m, rules, i);
}

/// What processing a dynamic request returns, stage by stage: a static
/// definition is refused as input; a method that differs (case-
/// insensitively) from the route's is not found; then the first failing
/// parameter rule decides; then a failed or non-JSON substitution is a
/// template error; what survives is the transformer's outcome, canonical
/// JSON on success and an execution error otherwise. A plain-reference
/// template that references an absent parameter never reaches the
/// transformer.
pub open spec fn process_post(
    service: ServiceConfig,
    m: Map<Seq<char>, Seq<char>>,
    method: Seq<char>,
    r: Result<String, MockError>,
) -> bool {
    match service.service_type {
        ServiceType::Static { .. } => r matches Err(e) && e matches MockError::InvalidInput(_),
        ServiceType::Dynamic { template, transformer, route_config } => {
            if !eq_ignore_case(route_config.method@, method) {
                r matches Err(e) && e matches MockError::NotFound(_)
            } else if !validation_passes(m, route_config.params@) {
                r matches Err(e) && validation_error_for(e, m, route_config.params@)
            } else if !json_wf(template@) {
                r matches Err(e) && e matches MockError::Template(_)
            } else {
                let canon = json_canon_of(template@);
                let rendered = hb_render_of(canon, m);
                let render_ok = rendered matches Some(t) && json_wf(t);
                &&& (plain_refs_only(canon) && refers_to_missing(canon, m) ==> r is Err)
                &&& (!render_ok ==> (r matches Err(e) && e matches MockError::Template(_)))
                &&& (r matches Ok(s) ==> render_ok && json_wf(s@) && json_canon_of(s@) == s@)
                &&& (render_ok && r is Err ==> (r matches Err(e) && e
                    matches MockError::Execution(_)))
            }
        },
    }
}

/// Process a dynamic request: validate the parameters against the matched
/// route's rules, substitute them into the template, and run the
/// transformer, each stage short-circuiting to its error.
pub fn process_dynamic_service(
    service_config: &ServiceConfig,
    params: &Params,
    method: &str,
) -> (r: Result<String, MockError>)
    requires
        params.wf(),
    ensures
        process_post(*service_config, params@, method@, r),
{
    match &service_config.service_type {
        ServiceType::Static { .. } => {
            Err(
                MockError::InvalidInput(
                    String::from_str("a static service cannot be processed as dynamic"),
                ),
            )
        },
        ServiceType::Dynamic { template, transformer, route_config } => {
            if !str_eq_ignore_case(route_config.method.as_str(), method) {
                return Err(
                    MockError::NotFound(
                        String::from_str("the method is not supported by this service's route"),
                    ),
                );
            }
            if let Err(e) = validate_parameters(params, &route_config.params) {
                return Err(e);
            }
            let canon = match canon_json(template.as_str()) {
                Some(c) => c,
                None => {
                    return Err(
                        MockError::Template(String::from_str("the template is not valid JSON")),
                    );
                },
            };
            let rendered = match apply_template_substitution(canon.as_str(), params) {
                Ok(t) => t,
                Err(e) => {
                    return Err(e);
                },
            };
            execute_transformer(rendered.as_str(), transformer.as_str(), params)
        },
    }
}

} // verus!
