use mock_service::config::{ParamConfig, RouteConfig};
use mock_service::errors::MockError;
use mock_service::params::Params;
use mock_service::pipeline::process_dynamic_service;
use mock_service::registry::{ServiceConfig, ServiceType};
use mock_service::renderer::apply_template_substitution;

fn dynamic(template: &str, transformer: &str, method: &str, rules: Vec<(String, ParamConfig)>,
) -> ServiceConfig {
    ServiceConfig {
        name: "svc".to_string(),
        service_type: ServiceType::Dynamic {
            template: template.to_string(),
            transformer: transformer.to_string(),
            route_config: RouteConfig {
                pattern: "/svc/{id}".to_string(),
                method: method.to_string(),
                params: rules,
                cache_ttl: None,
                description: None,
            },
        },
        path: "services/svc".to_string(),
    }
}

fn id_params(value: &str) -> Params {
    let mut p = Params::new();
    p.insert("id".to_string(), value.to_string());
    p
}

fn as_value(s: &str) -> serde_json::Value {
    serde_json::from_str(s).expect("response is JSON")
}

#[test]
fn end_to_end_transform_doubles_the_number() {
    let service = dynamic(
        "{\"id\": \"{{id}}\"}",
        "function transform(t, p, c) { return {...t, doubled: Number(p.id) * 2}; }",
        "GET",
        Vec::new(),
    );
    let params = id_params("42");
    let body = process_dynamic_service(&service, &params, "GET").unwrap();
    assert_eq!(as_value(&body), as_value("{\"id\":\"42\",\"doubled\":84}"));
}

#[test]
fn template_with_no_placeholders_is_unchanged_by_rendering() {
    let template = "{\"a\":[1,2],\"b\":\"plain\"}";
    let empty = Params::new();
    let many = id_params("42");
    assert_eq!(apply_template_substitution(template, &empty).unwrap(), template);
    assert_eq!(apply_template_substitution(template, &many).unwrap(), template);
}

#[test]
fn rendering_an_absent_parameter_is_a_template_error() {
    let template = "{\"id\": \"{{id}}\"}";
    let empty = Params::new();
    match apply_template_substitution(template, &empty) {
        Err(MockError::Template(_)) => {},
        other => panic!("expected a template error, got {:?}", other),
    }
}

#[test]
fn absent_parameter_fails_the_whole_pipeline() {
    let service = dynamic(
        "{\"id\": \"{{id}}\"}",
        "function transform(t, p, c) { return t; }",
        "GET",
        Vec::new(),
    );
    let empty = Params::new();
    match process_dynamic_service(&service, &empty, "GET") {
        Err(MockError::Template(_)) => {},
        other => panic!("expected a template error, got {:?}", other),
    }
}

#[test]
fn substitution_that_breaks_json_is_a_template_error() {
    // the unquoted placeholder receives a bare word, which is not JSON
    let service_template = "{\"id\": {{id}}}";
    let mut params = Params::new();
    params.insert("id".to_string(), "oops".to_string());
    match apply_template_substitution(service_template, &params) {
        Err(MockError::Template(_)) => {},
        other => panic!("expected a template error, got {:?}", other),
    }
}

#[test]
fn method_mismatch_is_not_found() {
    let service = dynamic("{}", "function transform(t, p, c) { return t; }", "POST", Vec::new());
    let params = id_params("1");
    match process_dynamic_service(&service, &params, "GET") {
        Err(MockError::NotFound(_)) => {},
        other => panic!("expected not found, got {:?}", other),
    }
}

#[test]
fn method_comparison_ignores_case() {
    let service = dynamic("{}", "function transform(t, p, c) { return t; }", "get", Vec::new());
    let params = Params::new();
    assert!(process_dynamic_service(&service, &params, "GET").is_ok());
}

#[test]
fn static_service_cannot_be_processed_dynamically() {
    let service = ServiceConfig {
        name: "doc".to_string(),
        service_type: ServiceType::Static { content: "{}".to_string() },
        path: "services/doc".to_string(),
    };
    let params = Params::new();
    match process_dynamic_service(&service, &params, "GET") {
        Err(MockError::InvalidInput(_)) => {},
        other => panic!("expected invalid input, got {:?}", other),
    }
}

#[test]
fn validation_runs_before_rendering() {
    let rules = vec![("id".to_string(), ParamConfig {
        param_type: "number".to_string(),
        pattern: None,
        required: None,
        default: None,
        description: None,
    })];
    let service = dynamic(
        "{\"id\": \"{{id}}\"}",
        "function transform(t, p, c) { return t; }",
        "GET",
        rules,
    );
    let params = id_params("abc");
    match process_dynamic_service(&service, &params, "GET") {
        Err(MockError::Validation(_)) => {},
        other => panic!("expected a validation error, got {:?}", other),
    }
}

#[test]
fn missing_transform_function_is_an_execution_error() {
    let service = dynamic("{}", "const nothing = 1;", "GET", Vec::new());
    let params = Params::new();
    match process_dynamic_service(&service, &params, "GET") {
        Err(MockError::Execution(_)) => {},
        other => panic!("expected an execution error, got {:?}", other),
    }
}

#[test]
fn throwing_transformer_is_an_execution_error() {
    let service = dynamic(
        "{}",
        "function transform(t, p, c) { throw new Error('boom'); }",
        "GET",
        Vec::new(),
    );
    let params = Params::new();
    match process_dynamic_service(&service, &params, "GET") {
        Err(MockError::Execution(_)) => {},
        other => panic!("expected an execution error, got {:?}", other),
    }
}

#[test]
fn unserializable_return_is_an_execution_error() {
    let service = dynamic(
        "{}",
        "function transform(t, p, c) { return undefined; }",
        "GET",
        Vec::new(),
    );
    let params = Params::new();
    match process_dynamic_service(&service, &params, "GET") {
        Err(MockError::Execution(_)) => {},
        other => panic!("expected an execution error, got {:?}", other),
    }
}

#[test]
fn transformer_sees_its_own_params_and_context() {
    let service = dynamic(
        "{\"id\": \"{{id}}\"}",
        "function transform(t, p, c) { return {id: t.id, ts: typeof c.timestamp, rid: typeof c.requestId}; }",
        "GET",
        Vec::new(),
    );
    let a = process_dynamic_service(&service, &id_params("1"), "GET").unwrap();
    let b = process_dynamic_service(&service, &id_params("2"), "GET").unwrap();
    let va = as_value(&a);
    let vb = as_value(&b);
    assert_eq!(va["id"], serde_json::Value::String("1".to_string()));
    assert_eq!(vb["id"], serde_json::Value::String("2".to_string()));
    assert_eq!(va["ts"], serde_json::Value::String("string".to_string()));
    assert_eq!(va["rid"], serde_json::Value::String("string".to_string()));
}

#[test]
fn substitution_reaches_nested_structures() {
    let template = "{\"a\": {\"b\": \"{{x}}\"}}";
    let mut params = Params::new();
    params.insert("x".to_string(), "1".to_string());
    assert_eq!(
        apply_template_substitution(template, &params).unwrap(),
        "{\"a\":{\"b\":\"1\"}}"
    );
}

#[test]
fn substituted_values_carry_the_engine_escape() {
    let template = "{\"v\": \"{{x}}\"}";
    let mut params = Params::new();
    params.insert("x".to_string(), "a&b".to_string());
    assert_eq!(
        apply_template_substitution(template, &params).unwrap(),
        "{\"v\":\"a&amp;b\"}"
    );
}

#[test]
fn references_inside_comments_are_not_lookups() {
    // a comment swallows its content without evaluating it, so an absent
    // name inside one is no error; the contracts only promise a failure
    // for plain-reference templates
    let template = "{\"a\": \"{{!-- {{id}} --}}\"}";
    let empty = Params::new();
    assert_eq!(apply_template_substitution(template, &empty).unwrap(), "{\"a\":\"\"}");
}

#[test]
fn runaway_transformer_is_interrupted() {
    let service = dynamic(
        "{}",
        "function transform(t, p, c) { while (true) {} }",
        "GET",
        Vec::new(),
    );
    let params = Params::new();
    match process_dynamic_service(&service, &params, "GET") {
        Err(MockError::Execution(_)) => {},
        other => panic!("expected an execution error, got {:?}", other),
    }
}

#[test]
fn requests_never_observe_each_others_environment() {
    // the first run plants a global; the second run must start fresh
    let service = dynamic(
        "{}",
        "globalThis.leak = (globalThis.leak || 0) + 1;\n\
         function transform(t, p, c) { return {count: globalThis.leak, mine: p.tag}; }",
        "GET",
        Vec::new(),
    );
    let mut p1 = Params::new();
    p1.insert("tag".to_string(), "first".to_string());
    let mut p2 = Params::new();
    p2.insert("tag".to_string(), "second".to_string());
    let r1 = as_value(&process_dynamic_service(&service, &p1, "GET").unwrap());
    let r2 = as_value(&process_dynamic_service(&service, &p2, "GET").unwrap());
    assert_eq!(r1["count"], serde_json::Value::from(1));
    assert_eq!(r2["count"], serde_json::Value::from(1));
    assert_eq!(r1["mine"], serde_json::Value::String("first".to_string()));
    assert_eq!(r2["mine"], serde_json::Value::String("second".to_string()));
}
