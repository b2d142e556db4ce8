use mock_service::config::RouteConfig;
use mock_service::registry::{ServiceConfig, ServiceRegistry, ServiceType};
use mock_service::resolver::{match_dynamic_route, resolve_route, RouteDecision};

fn dynamic_service(name: &str, pattern: &str, method: &str) -> ServiceConfig {
    ServiceConfig {
        name: name.to_string(),
        service_type: ServiceType::Dynamic {
            template: "{}".to_string(),
            transformer: "function transform(t, p, c) { return t; }".to_string(),
            route_config: RouteConfig {
                pattern: pattern.to_string(),
                method: method.to_string(),
                params: Vec::new(),
                cache_ttl: None,
                description: None,
            },
        },
        path: format!("services/{}", name),
    }
}

fn sample_registry() -> ServiceRegistry {
    ServiceRegistry::build(vec![
        dynamic_service("orders", "/orders/{id}", "GET"),
        dynamic_service("orders_post", "/orders/{id}", "POST"),
        dynamic_service("plans", "/plan/{route_id}/{date}", "get"),
    ])
}

#[test]
fn dynamic_route_resolves_with_params() {
    let registry = sample_registry();
    let (name, params) = match_dynamic_route(&registry, "/orders/7", "GET").unwrap();
    assert_eq!(name, "orders");
    assert_eq!(params.get("id"), Some(&"7".to_string()));
}

#[test]
fn method_match_is_case_insensitive_both_ways() {
    let registry = sample_registry();
    let (name, _) = match_dynamic_route(&registry, "/orders/7", "post").unwrap();
    assert_eq!(name, "orders_post");
    let (name2, params2) = match_dynamic_route(&registry, "/plan/44/2024-05-01", "GET").unwrap();
    assert_eq!(name2, "plans");
    assert_eq!(params2.get("route_id"), Some(&"44".to_string()));
    assert_eq!(params2.get("date"), Some(&"2024-05-01".to_string()));
}

#[test]
fn first_registered_route_wins() {
    let registry = ServiceRegistry::build(vec![
        dynamic_service("first", "/things/{id}", "GET"),
        dynamic_service("second", "/things/{id}", "GET"),
    ]);
    let (name, _) = match_dynamic_route(&registry, "/things/9", "GET").unwrap();
    assert_eq!(name, "first");
}

#[test]
fn resolution_is_deterministic_across_calls() {
    let registry = sample_registry();
    let a = match_dynamic_route(&registry, "/orders/42", "GET").unwrap();
    let b = match_dynamic_route(&registry, "/orders/42", "GET").unwrap();
    assert_eq!(a.0, b.0);
    assert_eq!(a.1.get("id"), b.1.get("id"));
}

#[test]
fn uncompilable_pattern_is_registered_but_unroutable() {
    let registry = ServiceRegistry::build(vec![dynamic_service("broken", "/x/{", "GET")]);
    assert!(registry.get_service("broken").is_some());
    assert!(match_dynamic_route(&registry, "/x/1", "GET").is_none());
}

#[test]
fn one_segment_fallback_goes_to_static_lookup() {
    let registry = sample_registry();
    match resolve_route(&registry, "/users", "GET") {
        RouteDecision::StaticLookup(name) => assert_eq!(name, "users"),
        _ => panic!("expected a static lookup"),
    }
}

#[test]
fn multi_segment_miss_is_not_found_without_static_lookup() {
    let registry = sample_registry();
    match resolve_route(&registry, "/unknown/extra/path", "GET") {
        RouteDecision::NotFound => {},
        _ => panic!("expected not found"),
    }
}

#[test]
fn dynamic_match_takes_priority_in_resolution() {
    let registry = sample_registry();
    match resolve_route(&registry, "/orders/7", "GET") {
        RouteDecision::Dynamic(name, params) => {
            assert_eq!(name, "orders");
            assert_eq!(params.get("id"), Some(&"7".to_string()));
        },
        _ => panic!("expected a dynamic match"),
    }
}

#[test]
fn root_path_is_not_found() {
    let registry = sample_registry();
    match resolve_route(&registry, "/", "GET") {
        RouteDecision::NotFound => {},
        _ => panic!("expected not found"),
    }
}

#[test]
fn get_service_prefers_the_last_duplicate() {
    let mut first = dynamic_service("dup", "/a/{x}", "GET");
    first.path = "services/dup-old".to_string();
    let mut second = dynamic_service("dup", "/b/{x}", "GET");
    second.path = "services/dup-new".to_string();
    let registry = ServiceRegistry::build(vec![first, second]);
    let found = registry.get_service("dup").unwrap();
    assert_eq!(found.path, "services/dup-new");
    assert!(registry.get_service("absent").is_none());
}
