use mock_service::pattern::CompiledRoute;
use mock_service::text::split_path;

#[test]
fn compile_and_match_single_placeholder() {
    let route = CompiledRoute::compile("/orders/{id}").unwrap();
    assert_eq!(route.names(), vec!["id".to_string()]);

    let segs = split_path("/orders/7");
    assert!(route.matches_segs(&segs));
    let params = route.extract_params(&segs);
    assert_eq!(params.get("id"), Some(&"7".to_string()));

    assert!(!route.matches_segs(&split_path("/orders")));
    assert!(!route.matches_segs(&split_path("/orders/7/extra")));
    assert!(!route.matches_segs(&split_path("/clients/7")));
    // a placeholder never matches an empty segment
    assert!(!route.matches_segs(&split_path("/orders/")));
}

#[test]
fn capture_order_follows_declaration_order() {
    let route = CompiledRoute::compile("/plan/{route_id}/{date}").unwrap();
    assert_eq!(route.names(), vec!["route_id".to_string(), "date".to_string()]);

    let segs = split_path("/plan/44/2024-05-01");
    assert!(route.matches_segs(&segs));
    let params = route.extract_params(&segs);
    assert_eq!(params.get("route_id"), Some(&"44".to_string()));
    assert_eq!(params.get("date"), Some(&"2024-05-01".to_string()));
}

#[test]
fn literal_segments_match_exactly() {
    let route = CompiledRoute::compile("/api/v1/health").unwrap();
    assert!(route.names().is_empty());
    assert!(route.matches_segs(&split_path("/api/v1/health")));
    assert!(!route.matches_segs(&split_path("/api/v1/Health")));
    assert!(!route.matches_segs(&split_path("/api/v1")));
}

#[test]
fn malformed_patterns_are_rejected() {
    assert!(CompiledRoute::compile("").is_err());
    assert!(CompiledRoute::compile("/orders/{id").is_err());
    assert!(CompiledRoute::compile("/orders/id}").is_err());
    assert!(CompiledRoute::compile("/orders/{}").is_err());
    assert!(CompiledRoute::compile("/orders/a{id}b").is_err());
    assert!(CompiledRoute::compile("/orders/{a{b}}").is_err());
}

#[test]
fn duplicate_placeholder_names_are_accepted() {
    let route = CompiledRoute::compile("/pair/{x}/{x}").unwrap();
    assert_eq!(route.names(), vec!["x".to_string(), "x".to_string()]);
    let segs = split_path("/pair/1/2");
    assert!(route.matches_segs(&segs));
    let params = route.extract_params(&segs);
    // one binding for the duplicated name, the later capture winning
    assert_eq!(params.get("x"), Some(&"2".to_string()));
}

#[test]
fn split_path_keeps_empty_segments() {
    let segs = split_path("/a//b/");
    assert_eq!(segs, vec!["".to_string(), "a".to_string(), "".to_string(), "b".to_string(),
        "".to_string()]);
}
