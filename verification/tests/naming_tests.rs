use mock_service::naming::{
    is_supported_method, method_from_filename, mock_file_name, normalize_method,
    validate_service_name,
};

#[test]
fn test_validate_service_name() {
    assert!(validate_service_name("user_service"));
    assert!(validate_service_name("api_v1"));
    assert!(validate_service_name("test123"));

    assert!(!validate_service_name(""));
    assert!(!validate_service_name("_invalid"));
    assert!(!validate_service_name("invalid_"));
    assert!(!validate_service_name("invalid-name"));
    assert!(!validate_service_name("invalid name"));
}

#[test]
fn service_name_length_limit() {
    let at_limit: String = "a".repeat(50);
    let over_limit: String = "a".repeat(51);
    assert!(validate_service_name(&at_limit));
    assert!(!validate_service_name(&over_limit));
}

#[test]
fn mock_file_name_follows_convention() {
    assert_eq!(mock_file_name("users", "GET"), "users-GET.json");
    assert_eq!(mock_file_name("orders_v2", "DELETE"), "orders_v2-DELETE.json");
}

#[test]
fn method_from_filename_reads_convention() {
    assert_eq!(method_from_filename("users", "users-GET.json"), Some("GET".to_string()));
    assert_eq!(method_from_filename("users", "users-POST.json"), Some("POST".to_string()));
    assert_eq!(method_from_filename("users", "users-PATCH.json"), None);
    assert_eq!(method_from_filename("users", "users-GET.txt"), None);
    assert_eq!(method_from_filename("users", "other-GET.json"), None);
    assert_eq!(method_from_filename("users", "users-.json"), None);
    assert_eq!(method_from_filename("users", "users.json"), None);
}

#[test]
fn supported_methods_are_the_fixed_set() {
    assert!(is_supported_method("GET"));
    assert!(is_supported_method("POST"));
    assert!(is_supported_method("PUT"));
    assert!(is_supported_method("DELETE"));
    assert!(!is_supported_method("get"));
    assert!(!is_supported_method("PATCH"));
}

#[test]
fn normalize_method_is_case_insensitive() {
    assert_eq!(normalize_method("get"), Some("GET"));
    assert_eq!(normalize_method("Post"), Some("POST"));
    assert_eq!(normalize_method("PUT"), Some("PUT"));
    assert_eq!(normalize_method("deLEte"), Some("DELETE"));
    assert_eq!(normalize_method("PATCH"), None);
    assert_eq!(normalize_method(""), None);
}
